//! The hand-off queue between the protocol reader and the synthesis worker.
//!
//! Producers enqueue chat messages and one consumer dequeues them, in the
//! order in which they arrived. The queue has no capacity limit. Once it is
//! closed it accepts nothing more; what it still holds is handed out before
//! the consumer is told that it is closed.

use crate::irc::IrcMessage;
use std::collections::VecDeque;
use vstd::prelude::*;

verus! {

/// What one `dequeue` hands to the consumer.
#[derive(Debug, Clone, PartialEq, Eq)]
pub enum Dequeued {
    /// The oldest message that was waiting.
    Event(IrcMessage),
    /// Nothing is waiting, and more may come.
    Empty,
    /// Nothing is waiting, and nothing will come.
    Closed,
}

/// What a [`DispatchQueue`] holds.
pub ghost struct DispatchQueueView {
    /// The messages that wait, the oldest first.
    pub pending: Seq<IrcMessage>,
    pub closed: bool,
}

impl DispatchQueueView {
    /// An open queue in which nothing waits.
    pub open spec fn empty() -> DispatchQueueView {
        DispatchQueueView { pending: Seq::empty(), closed: false }
    }

    /// The queue after `event` was offered: an open queue holds it behind
    /// all others, a closed one is unchanged.
    pub open spec fn enqueued(self, event: IrcMessage) -> DispatchQueueView {
        if self.closed {
            self
        } else {
            DispatchQueueView { pending: self.pending.push(event), ..self }
        }
    }

    /// The queue after all of `events` were offered, in order.
    pub open spec fn enqueued_all(self, events: Seq<IrcMessage>) -> DispatchQueueView
        decreases events.len(),
    {
        if events.len() == 0 {
            self
        } else {
            self.enqueued_all(events.drop_last()).enqueued(events.last())
        }
    }

    /// What the next `dequeue` hands out.
    pub open spec fn front(self) -> Dequeued {
        if self.pending.len() > 0 {
            Dequeued::Event(self.pending[0])
        } else if self.closed {
            Dequeued::Closed
        } else {
            Dequeued::Empty
        }
    }

    /// The queue after one `dequeue`.
    pub open spec fn dequeued(self) -> DispatchQueueView {
        if self.pending.len() > 0 {
            DispatchQueueView { pending: self.pending.skip(1), ..self }
        } else {
            self
        }
    }

    /// What `n` calls of `dequeue` in a row hand out, in order.
    pub open spec fn handed_out(self, n: nat) -> Seq<Dequeued>
        decreases n,
    {
        if n == 0 {
            Seq::empty()
        } else {
            seq![self.front()] + self.dequeued().handed_out((n - 1) as nat)
        }
    }

    /// The queue after `n` calls of `dequeue` in a row.
    pub open spec fn dequeued_times(self, n: nat) -> DispatchQueueView
        decreases n,
    {
        if n == 0 {
            self
        } else {
            self.dequeued().dequeued_times((n - 1) as nat)
        }
    }
}

/// The messages `events`, each as `dequeue` hands it out.
pub open spec fn as_dequeued(events: Seq<IrcMessage>) -> Seq<Dequeued> {
    events.map_values(|event: IrcMessage| Dequeued::Event(event))
}

/// An open queue that is offered `events` holds them behind what it held
/// before, in the order in which they were offered.
pub proof fn lemma_enqueued_all(queue: DispatchQueueView, events: Seq<IrcMessage>)
    requires
        !queue.closed,
    ensures
        queue.enqueued_all(events) == (DispatchQueueView {
            pending: queue.pending + events,
            closed: false,
        }),
    decreases events.len(),
{
    if events.len() > 0 {
        lemma_enqueued_all(queue, events.drop_last());
        assert((queue.pending + events.drop_last()).push(events.last()) =~= queue.pending
            + events);
    }
}

/// As long as messages wait, `dequeue` hands them out oldest first and
/// takes them off the queue.
pub proof fn lemma_handed_out(queue: DispatchQueueView, n: nat)
    requires
        n <= queue.pending.len(),
    ensures
        queue.handed_out(n) == as_dequeued(queue.pending.take(n as int)),
        queue.dequeued_times(n) == (DispatchQueueView {
            pending: queue.pending.skip(n as int),
            ..queue
        }),
    decreases n,
{
    if n == 0 {
        assert(queue.pending.skip(0) =~= queue.pending);
    } else {
        let rest = queue.dequeued();
        lemma_handed_out(rest, (n - 1) as nat);
        assert(rest.pending.skip(n - 1) =~= queue.pending.skip(n as int));
    }
}

/// First in, first out: after any number of messages were enqueued on an
/// open queue in which nothing waited, as many calls of `dequeue` hand out
/// those messages in the order in which they were enqueued, and none is
/// left.
pub proof fn lemma_first_in_first_out(events: Seq<IrcMessage>)
    ensures
        DispatchQueueView::empty().enqueued_all(events).handed_out(events.len()) == as_dequeued(
            events,
        ),
        DispatchQueueView::empty().enqueued_all(events).dequeued_times(events.len())
            == DispatchQueueView::empty(),
{
    let start = DispatchQueueView::empty();
    lemma_enqueued_all(start, events);
    let filled = start.enqueued_all(events);
    lemma_handed_out(filled, events.len());
    assert(events.skip(events.len() as int) =~= Seq::<IrcMessage>::empty());
}

/// A queue of chat messages without a capacity limit.
pub struct DispatchQueue {
    events: VecDeque<IrcMessage>,
    closed: bool,
}

impl View for DispatchQueue {
    type V = DispatchQueueView;

    closed spec fn view(&self) -> DispatchQueueView {
        DispatchQueueView { pending: self.events@, closed: self.closed }
    }
}

impl DispatchQueue {
    /// An open queue in which nothing waits.
    pub fn new() -> (queue: DispatchQueue)
        ensures
            queue@ == DispatchQueueView::empty(),
    {
        DispatchQueue { events: VecDeque::new(), closed: false }
    }

    /// Offers `event` to the queue. An open queue accepts it behind all
    /// that wait; a closed queue gives it back.
    pub fn enqueue(&mut self, event: IrcMessage) -> (accepted: Result<(), IrcMessage>)
        ensures
            final(self)@ == old(self)@.enqueued(event),
            accepted == if old(self)@.closed {
                Err::<(), IrcMessage>(event)
            } else {
                Ok::<(), IrcMessage>(())
            },
    {
        if self.closed {
            Err(event)
        } else {
            self.events.push_back(event);
            Ok(())
        }
    }

    /// Hands out the oldest message that waits and takes it off the queue.
    /// Where nothing waits, says whether more may come.
    pub fn dequeue(&mut self) -> (next: Dequeued)
        ensures
            next == old(self)@.front(),
            final(self)@ == old(self)@.dequeued(),
    {
        match self.events.pop_front() {
            Some(event) => Dequeued::Event(event),
            None => {
                if self.closed {
                    Dequeued::Closed
                } else {
                    Dequeued::Empty
                }
            },
        }
    }

    /// Closes the queue: nothing more is accepted, and what waits stays.
    pub fn close(&mut self)
        ensures
            final(self)@ == (DispatchQueueView { closed: true, ..old(self)@ }),
    {
        self.closed = true;
    }

    /// Whether the queue has been closed.
    pub fn is_closed(&self) -> (closed: bool)
        ensures
            closed == self@.closed,
    {
        self.closed
    }

    /// How many messages wait.
    pub fn len(&self) -> (len: usize)
        ensures
            len == self@.pending.len(),
    {
        self.events.len()
    }

    /// Whether nothing waits.
    pub fn is_empty(&self) -> (empty: bool)
        ensures
            empty == (self@.pending.len() == 0),
    {
        self.events.len() == 0
    }
}

} // verus!
