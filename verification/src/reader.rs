//! What the protocol reader sends and what it makes of each line it reads.
//!
//! After connecting, the reader sends three commands: it gives the token,
//! names the account and joins the channel. Then it reads line by line. A
//! read that brings nothing means that the other side has hung up. Every
//! other line may hold a chat message for the queue, and a line that
//! starts with `PING` is answered at once with the same line, `PONG` in
//! place of `PING`.

use crate::config::{TwitchConfiguration, TwitchConfigurationView};
use crate::irc::{parse_irc_line, parse_line, IrcMessage, IrcMessageView};
use crate::text::{
    chars_of, contains, lemma_replaced_without_occurrence, matches_at, occurs_at, replace_all,
    replaced,
};
use vstd::prelude::*;
use vstd::string::*;

verus! {

/// The three commands that open a session, in the order in which they are
/// sent.
pub open spec fn login_commands(config: TwitchConfigurationView) -> Seq<Seq<char>> {
    seq![
        "PASS oauth:"@ + config.oauth_token,
        "NICK "@ + config.username,
        "JOIN #"@ + config.channel,
    ]
}

/// The keyword that starts a keep-alive line.
pub open spec fn keep_alive() -> Seq<char> {
    "PING"@
}

/// The keyword that takes its place in the answer.
pub open spec fn keep_alive_answer() -> Seq<char> {
    "PONG"@
}

/// The answer that `line` calls for, if it calls for one.
pub open spec fn pong_for(line: Seq<char>) -> Option<Seq<char>> {
    if occurs_at(line, keep_alive(), 0) {
        Some(replaced(line, keep_alive(), keep_alive_answer()))
    } else {
        None
    }
}

/// What the reader does after one read.
#[derive(Debug, Clone, PartialEq, Eq)]
pub enum ReaderStep {
    /// The read brought nothing: the other side has hung up, and the
    /// reader stops.
    Disconnected,
    /// The read brought a line: the reader enqueues `message` if there is
    /// one, sends `reply` if there is one, and reads on.
    Line { message: Option<IrcMessage>, reply: Option<String> },
}

/// What a [`ReaderStep`] holds.
pub ghost enum ReaderStepView {
    Disconnected,
    Line { message: Option<IrcMessageView>, reply: Option<Seq<char>> },
}

impl View for ReaderStep {
    type V = ReaderStepView;

    open spec fn view(&self) -> ReaderStepView {
        match *self {
            ReaderStep::Disconnected => ReaderStepView::Disconnected,
            ReaderStep::Line { message, reply } => ReaderStepView::Line {
                message: match message {
                    Some(m) => Some(m@),
                    None => None,
                },
                reply: match reply {
                    Some(r) => Some(r@),
                    None => None,
                },
            },
        }
    }
}

/// The step that the line `line`, as it was read, calls for.
pub open spec fn step_for(line: Seq<char>) -> ReaderStepView {
    if line.len() == 0 {
        ReaderStepView::Disconnected
    } else {
        ReaderStepView::Line { message: parse_line(line), reply: pong_for(line) }
    }
}

/// A line that holds `PING` at its start and nowhere else is answered with
/// `PONG` and what followed `PING`, unchanged.
pub proof fn lemma_pong_keeps_the_rest(rest: Seq<char>)
    requires
        !contains(rest, keep_alive()),
    ensures
        pong_for(keep_alive() + rest) == Some(keep_alive_answer() + rest),
{
    reveal_strlit("PING");
    let line = keep_alive() + rest;
    assert(line.subrange(0, 4) =~= keep_alive());
    assert(line.skip(4) =~= rest);
    lemma_replaced_without_occurrence(rest, keep_alive(), keep_alive_answer());
}

/// The three commands that open a session, in the order in which they are
/// sent: the token, the account, the channel.
pub fn login_lines(config: &TwitchConfiguration) -> (lines: Vec<String>)
    ensures
        lines@.len() == 3,
        lines.deep_view() == login_commands(config@),
{
    let pass = String::from_str("PASS oauth:").concat(config.oauth_token.as_str());
    let nick = String::from_str("NICK ").concat(config.username.as_str());
    let join = String::from_str("JOIN #").concat(config.channel.as_str());
    let mut lines: Vec<String> = Vec::new();
    lines.push(pass);
    lines.push(nick);
    lines.push(join);
    lines
}

/// The answer to a keep-alive line: the line with `PONG` in place of every
/// `PING`. A line that does not start with `PING` gets no answer.
pub fn pong_reply(line: &str) -> (reply: Option<String>)
    ensures
        match reply {
            Some(answer) => pong_for(line@) == Some(answer@),
            None => pong_for(line@) is None,
        },
{
    let chars = chars_of(line);
    let ping = chars_of("PING");
    if matches_at(&chars, &ping, 0) {
        Some(replace_all(line, "PING", "PONG"))
    } else {
        None
    }
}

/// What the reader does with `line`, the text that one read brought,
/// line end included. An empty text means that the other side has hung up.
pub fn on_line(line: &str) -> (step: ReaderStep)
    ensures
        step@ == step_for(line@),
{
    if line.is_empty() {
        ReaderStep::Disconnected
    } else {
        let message = parse_irc_line(line);
        let reply = pong_reply(line);
        ReaderStep::Line { message, reply }
    }
}

} // verus!
