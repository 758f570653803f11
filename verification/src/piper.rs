//! The speech engine's replies, and the stream of audio drawn from them.
//!
//! The engine itself is driven from outside this library. A [`ChunkStream`]
//! decides what has to be called next and what becomes of each reply: it is
//! started once, then takes the engine's chunks one by one and keeps their
//! samples, until a reply ends the stream. A reply ends the stream when its
//! chunk is marked as the last one or when its status is anything but
//! [`PiperStatus::Okay`]. An error status ends the stream exactly as a normal
//! completion does, and the audio gathered so far is kept.

use vstd::prelude::*;
use vstd::string::*;

verus! {

/// Status that the engine reports with each chunk.
#[derive(Debug, Clone, Copy, PartialEq, Eq, Structural)]
pub enum PiperStatus {
    Okay,
    Done,
    Error,
}

impl PiperStatus {
    /// The status that the number `code` stands for: 0 is `Okay`, 1 is
    /// `Done`, and every other number is an error.
    pub open spec fn of_code(code: int) -> PiperStatus {
        if code == 0 {
            PiperStatus::Okay
        } else if code == 1 {
            PiperStatus::Done
        } else {
            PiperStatus::Error
        }
    }

    /// The number that stands for this status.
    pub open spec fn spec_code(self) -> int {
        match self {
            PiperStatus::Okay => 0,
            PiperStatus::Done => 1,
            PiperStatus::Error => 2,
        }
    }

    /// The status that the number `code` stands for.
    pub fn from_code(code: i32) -> (status: PiperStatus)
        ensures
            status == PiperStatus::of_code(code as int),
    {
        if code == 0 {
            PiperStatus::Okay
        } else if code == 1 {
            PiperStatus::Done
        } else {
            PiperStatus::Error
        }
    }

    /// The number that stands for this status.
    pub fn code(self) -> (code: i32)
        ensures
            code == self.spec_code(),
            PiperStatus::of_code(code as int) == self,
    {
        match self {
            PiperStatus::Okay => 0,
            PiperStatus::Done => 1,
            PiperStatus::Error => 2,
        }
    }
}

/// One chunk of audio, copied out of the engine's buffer.
#[derive(Debug, Clone, PartialEq, Eq)]
pub struct PiperAudioChunk {
    /// The samples as raw bytes, four to a sample.
    pub samples: Vec<u8>,
    pub sample_rate: i32,
    pub is_last: bool,
}

/// What the engine said in one reply, as far as the stream depends on it.
pub ghost struct EngineReply {
    pub status: PiperStatus,
    pub samples: Seq<u8>,
    pub is_last: bool,
}

impl EngineReply {
    /// Whether this reply ends the stream.
    pub open spec fn is_terminal(self) -> bool {
        self.is_last || self.status != PiperStatus::Okay
    }

    /// Whether this reply marks its chunk as the last or reports completion.
    pub open spec fn is_last_or_done(self) -> bool {
        self.is_last || self.status == PiperStatus::Done
    }
}

/// The reply made of `status` and `chunk`.
pub open spec fn reply_of(status: PiperStatus, chunk: PiperAudioChunk) -> EngineReply {
    EngineReply { status, samples: chunk.samples@, is_last: chunk.is_last }
}

/// Where a stream stands.
#[derive(Debug, Clone, Copy, PartialEq, Eq, Structural)]
pub enum StreamState {
    /// The engine has not been started on the text yet.
    Start,
    /// The engine has been started and no reply has ended the stream.
    Producing,
    /// A reply has ended the stream.
    Done,
}

/// The engine call that a stream asks for.
#[derive(Debug, Clone, Copy, PartialEq, Eq, Structural)]
pub enum EngineCall {
    /// Start the engine on the stream's text.
    Start,
    /// Ask the engine for its next chunk.
    Next,
    /// Call the engine no more for this stream.
    Stop,
}

/// What a [`ChunkStream`] holds.
pub ghost struct ChunkStreamView {
    pub text: Seq<char>,
    pub state: StreamState,
    pub audio: Seq<u8>,
}

impl ChunkStreamView {
    /// A fresh stream for `text`.
    pub open spec fn start(text: Seq<char>) -> ChunkStreamView {
        ChunkStreamView { text, state: StreamState::Start, audio: Seq::empty() }
    }

    /// The engine call that the stream asks for.
    pub open spec fn next_call(self) -> EngineCall {
        match self.state {
            StreamState::Start => EngineCall::Start,
            StreamState::Producing => EngineCall::Next,
            StreamState::Done => EngineCall::Stop,
        }
    }

    /// The stream after the engine has been started.
    pub open spec fn started(self) -> ChunkStreamView {
        if self.state == StreamState::Start {
            ChunkStreamView { state: StreamState::Producing, ..self }
        } else {
            self
        }
    }

    /// The stream after `reply`. While it is producing, the stream keeps the
    /// reply's samples, and it is done if the reply is terminal. Before the
    /// start and after the end a reply changes nothing.
    pub open spec fn fed(self, reply: EngineReply) -> ChunkStreamView {
        if self.state == StreamState::Producing {
            ChunkStreamView {
                state: if reply.is_terminal() {
                    StreamState::Done
                } else {
                    StreamState::Producing
                },
                audio: self.audio + reply.samples,
                ..self
            }
        } else {
            self
        }
    }

    /// The stream after all of `replies`, in order.
    pub open spec fn fed_all(self, replies: Seq<EngineReply>) -> ChunkStreamView
        decreases replies.len(),
    {
        if replies.len() == 0 {
            self
        } else {
            self.fed_all(replies.drop_last()).fed(replies.last())
        }
    }
}

/// The samples of all of `replies`, in order.
pub open spec fn samples_of(replies: Seq<EngineReply>) -> Seq<u8>
    decreases replies.len(),
{
    if replies.len() == 0 {
        Seq::empty()
    } else {
        samples_of(replies.drop_last()) + replies.last().samples
    }
}

/// Index of the first terminal reply among `replies`, if there is one.
pub open spec fn first_terminal(replies: Seq<EngineReply>) -> Option<int>
    decreases replies.len(),
{
    if replies.len() == 0 {
        None
    } else {
        match first_terminal(replies.drop_last()) {
            Some(k) => Some(k),
            None => if replies.last().is_terminal() {
                Some(replies.len() - 1)
            } else {
                None
            },
        }
    }
}

/// What `first_terminal` returns: the reply at the index is terminal, and
/// none before it is.
pub proof fn lemma_first_terminal(replies: Seq<EngineReply>)
    ensures
        match first_terminal(replies) {
            Some(k) => 0 <= k < replies.len() && replies[k].is_terminal() && forall|j: int|
                0 <= j < k ==> !replies[j].is_terminal(),
            None => forall|j: int| 0 <= j < replies.len() ==> !replies[j].is_terminal(),
        },
    decreases replies.len(),
{
    if replies.len() > 0 {
        let init = replies.drop_last();
        lemma_first_terminal(init);
        assert forall|j: int| 0 <= j < init.len() implies #[trigger] replies[j] == init[j] by {}
    }
}

/// An index that holds the first terminal reply is what `first_terminal`
/// returns.
pub proof fn lemma_first_terminal_is(replies: Seq<EngineReply>, k: int)
    requires
        0 <= k < replies.len(),
        replies[k].is_terminal(),
        forall|j: int| 0 <= j < k ==> !replies[j].is_terminal(),
    ensures
        first_terminal(replies) == Some(k),
{
    lemma_first_terminal(replies);
}

/// A producing stream stops at the first terminal reply. It then holds the
/// samples of the replies up to and including that one, and of none after
/// it. Without a terminal reply it holds the samples of all replies and is
/// still producing.
pub proof fn lemma_stream_stops_at_first_terminal(
    stream: ChunkStreamView,
    replies: Seq<EngineReply>,
)
    requires
        stream.state == StreamState::Producing,
    ensures
        stream.fed_all(replies) == match first_terminal(replies) {
            Some(k) => ChunkStreamView {
                state: StreamState::Done,
                audio: stream.audio + samples_of(replies.take(k + 1)),
                ..stream
            },
            None => ChunkStreamView { audio: stream.audio + samples_of(replies), ..stream },
        },
    decreases replies.len(),
{
    if replies.len() > 0 {
        let init = replies.drop_last();
        lemma_stream_stops_at_first_terminal(stream, init);
        lemma_first_terminal(init);
        match first_terminal(init) {
            Some(k) => {
                assert(replies.take(k + 1) =~= init.take(k + 1));
            },
            None => {
                assert(stream.audio + samples_of(init) + replies.last().samples =~= stream.audio
                    + samples_of(replies));
                assert(replies.take(replies.len() as int) =~= replies);
            },
        }
    }
}

/// Replies that come after a terminal reply change nothing.
pub proof fn lemma_nothing_after_terminal(
    stream: ChunkStreamView,
    replies: Seq<EngineReply>,
    later: Seq<EngineReply>,
)
    requires
        stream.state == StreamState::Producing,
        first_terminal(replies) is Some,
    ensures
        stream.fed_all(replies + later) == stream.fed_all(replies),
{
    let all = replies + later;
    let k = first_terminal(replies)->0;
    lemma_first_terminal(replies);
    assert forall|j: int| 0 <= j <= k implies all[j] == replies[j] by {}
    lemma_first_terminal_is(all, k);
    lemma_stream_stops_at_first_terminal(stream, replies);
    lemma_stream_stops_at_first_terminal(stream, all);
    assert(all.take(k + 1) =~= replies.take(k + 1));
}

/// Where no reply before it reports an error, the stream stops at the first
/// reply that marks its chunk as the last or reports completion. It then
/// holds the samples of the replies up to and including that one, and of
/// none after it.
pub proof fn lemma_stream_stops_at_first_last_or_done(
    stream: ChunkStreamView,
    replies: Seq<EngineReply>,
    k: int,
)
    requires
        stream.state == StreamState::Producing,
        0 <= k < replies.len(),
        replies[k].is_last_or_done(),
        forall|j: int| 0 <= j < k ==> !replies[j].is_last_or_done(),
        forall|j: int| 0 <= j < k ==> replies[j].status != PiperStatus::Error,
    ensures
        stream.fed_all(replies).state == StreamState::Done,
        stream.fed_all(replies).audio == stream.audio + samples_of(replies.take(k + 1)),
{
    lemma_first_terminal_is(replies, k);
    lemma_stream_stops_at_first_terminal(stream, replies);
}

/// The audio of one request to the engine, gathered chunk by chunk.
pub struct ChunkStream {
    text: String,
    state: StreamState,
    audio: Vec<u8>,
}

impl View for ChunkStream {
    type V = ChunkStreamView;

    closed spec fn view(&self) -> ChunkStreamView {
        ChunkStreamView { text: self.text@, state: self.state, audio: self.audio@ }
    }
}

impl ChunkStream {
    /// A fresh stream for `text`: nothing has been called and no audio is
    /// held.
    pub fn new(text: &str) -> (stream: ChunkStream)
        ensures
            stream@ == ChunkStreamView::start(text@),
    {
        ChunkStream { text: String::from_str(text), state: StreamState::Start, audio: Vec::new() }
    }

    /// The text that the engine is to speak.
    pub fn text(&self) -> (text: &str)
        ensures
            text@ == self@.text,
    {
        self.text.as_str()
    }

    /// Where the stream stands.
    pub fn state(&self) -> (state: StreamState)
        ensures
            state == self@.state,
    {
        self.state
    }

    /// Whether a reply has ended the stream.
    pub fn is_done(&self) -> (done: bool)
        ensures
            done == (self@.state == StreamState::Done),
    {
        match self.state {
            StreamState::Done => true,
            _ => false,
        }
    }

    /// The engine call that the stream asks for: the start before it has
    /// been started, the next chunk while it is producing, none once it is
    /// done.
    pub fn next_call(&self) -> (call: EngineCall)
        ensures
            call == self@.next_call(),
    {
        match self.state {
            StreamState::Start => EngineCall::Start,
            StreamState::Producing => EngineCall::Next,
            StreamState::Done => EngineCall::Stop,
        }
    }

    /// Records that the engine has been started on the text. A stream that
    /// has been started before is left as it is.
    pub fn on_started(&mut self)
        ensures
            final(self)@ == old(self)@.started(),
    {
        match self.state {
            StreamState::Start => {
                self.state = StreamState::Producing;
            },
            _ => {},
        }
    }

    /// Takes one reply of the engine. While the stream is producing, the
    /// chunk's samples are added to the audio, and the stream is done if
    /// the chunk is the last one or the status is not `Okay`. Before the
    /// start and after the end the reply is dropped.
    pub fn on_chunk(&mut self, status: PiperStatus, chunk: &PiperAudioChunk)
        ensures
            final(self)@ == old(self)@.fed(reply_of(status, *chunk)),
    {
        match self.state {
            StreamState::Producing => {
                if chunk.samples.len() > 0 {
                    self.audio.extend_from_slice(chunk.samples.as_slice());
                }
                let terminal = chunk.is_last || match status {
                    PiperStatus::Okay => false,
                    _ => true,
                };
                if terminal {
                    self.state = StreamState::Done;
                }
                proof {
                    assert(self.audio@ =~= old(self).audio@ + chunk.samples@);
                }
            },
            _ => {},
        }
    }

    /// The audio gathered so far.
    pub fn audio(&self) -> (audio: &Vec<u8>)
        ensures
            audio@ == self@.audio,
    {
        &self.audio
    }

    /// The audio gathered so far, the stream given up.
    pub fn into_audio(self) -> (audio: Vec<u8>)
        ensures
            audio@ == self@.audio,
    {
        self.audio
    }
}

} // verus!
