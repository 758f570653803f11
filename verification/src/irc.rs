//! Chat messages, and the parser that reads them from protocol lines.
//!
//! A chat line has the form `:<sender>!<user>@<host> PRIVMSG <channel> :<text>`.
//! Every other line of the protocol, and every line that does not have this
//! shape, parses to nothing.

use crate::text::{
    chars_of, contains, find_char, find_seq, first_char_from, first_occurrence_from,
    lemma_contains_first_occurrence, lemma_first_char_from, lemma_first_char_is,
    lemma_first_char_skip, lemma_first_occurrence_from, lemma_first_occurrence_is,
    lemma_first_occurrence_skip, occurs_at, split_at_char, split_at_seq, trim, trim_range,
};
use vstd::prelude::*;
use vstd::string::*;

verus! {

/// A chat message to be spoken.
#[derive(Debug, Clone, PartialEq, Eq)]
pub struct IrcMessage {
    pub sender: String,
    pub channel: String,
    pub message: String,
}

/// The characters that an [`IrcMessage`] holds.
pub ghost struct IrcMessageView {
    pub sender: Seq<char>,
    pub channel: Seq<char>,
    pub message: Seq<char>,
}

impl View for IrcMessage {
    type V = IrcMessageView;

    open spec fn view(&self) -> IrcMessageView {
        IrcMessageView { sender: self.sender@, channel: self.channel@, message: self.message@ }
    }
}

/// The keyword that every chat line holds.
pub open spec fn message_marker() -> Seq<char> {
    "PRIVMSG"@
}

/// What stands between the channel and the text of a chat line.
pub open spec fn body_separator() -> Seq<char> {
    " :"@
}

/// The first three fields of `line`: what stands before its first space,
/// what stands between its first and second space, and all that follows.
pub open spec fn fields_of(line: Seq<char>) -> Option<(Seq<char>, Seq<char>, Seq<char>)> {
    match split_at_char(line, ' ') {
        Some((prefix, rest)) => match split_at_char(rest, ' ') {
            Some((command, trailing)) => Some((prefix, command, trailing)),
            None => None,
        },
        None => None,
    }
}

/// The sender named in `prefix`: what stands before its first `!`, one
/// leading colon left out.
pub open spec fn sender_of(prefix: Seq<char>) -> Option<Seq<char>> {
    let name = if prefix.len() > 0 && prefix[0] == ':' {
        prefix.skip(1)
    } else {
        prefix
    };
    match first_char_from(name, '!', 0) {
        Some(i) => Some(name.take(i)),
        None => None,
    }
}

/// The chat message that `line` holds, if it holds one.
pub open spec fn parse_line(line: Seq<char>) -> Option<IrcMessageView> {
    if !contains(line, message_marker()) {
        None
    } else {
        match fields_of(line) {
            Some((prefix, _command, trailing)) => match (
                sender_of(prefix),
                split_at_seq(trailing, body_separator()),
            ) {
                (Some(sender), Some((channel, body))) => Some(
                    IrcMessageView { sender, channel, message: trim(body) },
                ),
                _ => None,
            },
            None => None,
        }
    }
}

/// Index at which the sender starts in a line whose first space is at
/// `first_space`.
spec fn sender_start(line: Seq<char>, first_space: int) -> int {
    if first_space > 0 && line[0] == ':' {
        1
    } else {
        0
    }
}

/// What `parse_line` returns, stated over indices into the whole line.
spec fn parse_line_indexed(line: Seq<char>) -> Option<IrcMessageView> {
    if !contains(line, message_marker()) {
        None
    } else {
        match first_char_from(line, ' ', 0) {
            Some(sp1) => match first_char_from(line, ' ', sp1 + 1) {
                Some(sp2) => match (
                    first_char_from(line, '!', sender_start(line, sp1)),
                    first_occurrence_from(line, body_separator(), sp2 + 1),
                ) {
                    (Some(bang), Some(sep)) => if bang < sp1 {
                        Some(
                            IrcMessageView {
                                sender: line.subrange(sender_start(line, sp1), bang),
                                channel: line.subrange(sp2 + 1, sep),
                                message: trim(line.skip(sep + 2)),
                            },
                        )
                    } else {
                        None
                    },
                    _ => None,
                },
                None => None,
            },
            None => None,
        }
    }
}

/// The first `c` of the first `n` characters of `s` is the first `c` of `s`,
/// if that one stands among them.
proof fn lemma_first_char_take(s: Seq<char>, c: char, from: int, n: int)
    requires
        0 <= from <= n <= s.len(),
    ensures
        first_char_from(s.take(n), c, from) == match first_char_from(s, c, from) {
            Some(i) => if i < n {
                Some(i)
            } else {
                None
            },
            None => None,
        },
{
    lemma_first_char_from(s, c, from);
    let head = s.take(n);
    match first_char_from(s, c, from) {
        Some(i) => {
            if i < n {
                lemma_first_char_is(head, c, from, i);
            } else {
                lemma_first_char_is(head, c, from, n);
            }
        },
        None => {
            lemma_first_char_is(head, c, from, n);
        },
    }
}

/// `sender_of`, stated over indices into the line that the prefix starts.
proof fn lemma_sender_of_prefix(line: Seq<char>, sp1: int)
    requires
        0 <= sp1 <= line.len(),
    ensures
        sender_of(line.take(sp1)) == match first_char_from(line, '!', sender_start(line, sp1)) {
            Some(bang) => if bang < sp1 {
                Some(line.subrange(sender_start(line, sp1), bang))
            } else {
                None
            },
            None => None,
        },
{
    let prefix = line.take(sp1);
    let start = sender_start(line, sp1);
    lemma_first_char_skip(prefix, '!', start);
    lemma_first_char_take(line, '!', start, sp1);
    lemma_first_char_from(line, '!', start);
}

/// `parse_line` and `parse_line_indexed` agree on every line.
proof fn lemma_parse_line_indexed(line: Seq<char>)
    ensures
        parse_line(line) == parse_line_indexed(line),
{
    reveal_strlit(" :");
    if contains(line, message_marker()) {
        lemma_first_char_from(line, ' ', 0);
        match first_char_from(line, ' ', 0) {
            Some(sp1) => {
                let rest = line.skip(sp1 + 1);
                lemma_first_char_skip(line, ' ', sp1 + 1);
                lemma_first_char_from(line, ' ', sp1 + 1);
                match first_char_from(line, ' ', sp1 + 1) {
                    Some(sp2) => {
                        let trailing = rest.skip(sp2 - sp1);
                        assert(trailing =~= line.skip(sp2 + 1));
                        lemma_sender_of_prefix(line, sp1);
                        lemma_first_occurrence_skip(line, body_separator(), sp2 + 1);
                        lemma_first_occurrence_from(line, body_separator(), sp2 + 1);
                        match first_occurrence_from(line, body_separator(), sp2 + 1) {
                            Some(sep) => {
                                assert(trailing.take(sep - sp2 - 1) =~= line.subrange(
                                    sp2 + 1,
                                    sep,
                                ));
                                assert(trailing.skip(sep - sp2 - 1 + 2) =~= line.skip(sep + 2));
                            },
                            None => {},
                        }
                    },
                    None => {},
                }
            },
            None => {},
        }
    }
}

/// The line `<sender>!<user> PRIVMSG <channel> :<text>`, with a colon in
/// front of it if `colon` is set.
pub open spec fn chat_line(
    colon: bool,
    sender: Seq<char>,
    user: Seq<char>,
    channel: Seq<char>,
    text: Seq<char>,
) -> Seq<char> {
    let lead = if colon {
        seq![':']
    } else {
        Seq::empty()
    };
    lead + sender + seq!['!'] + user + " PRIVMSG "@ + channel + " :"@ + text
}

/// A channel followed by `" :"` and a text is cut into the channel and the
/// whole text, whatever the text holds: only the first `" :"` separates.
pub proof fn lemma_first_separator_splits(channel: Seq<char>, text: Seq<char>)
    requires
        !contains(channel, body_separator()),
    ensures
        split_at_seq(channel + body_separator() + text, body_separator()) == Some(
            (channel, text),
        ),
{
    reveal_strlit(" :");
    let pat = body_separator();
    let s = channel + pat + text;
    let at = channel.len() as int;
    assert(s.subrange(at, at + 2) =~= pat);
    assert forall|j: int| 0 <= j < at implies !occurs_at(s, pat, j) by {
        if j + 2 <= at {
            assert(!occurs_at(channel, pat, j));
            assert(s.subrange(j, j + 2) =~= channel.subrange(j, j + 2));
        } else {
            assert(s.subrange(j, j + 2)[1] == ' ');
        }
    }
    lemma_first_occurrence_is(s, pat, 0, at);
}

/// A well-formed chat line, with or without the colon in front of it,
/// parses to its sender, its channel and its text without the white space
/// around it. The sender holds neither a space nor a `!`, and does not
/// start with a colon where the line has none in front; the user part
/// holds no space; the channel does not hold `" :"`; the text is
/// arbitrary.
pub proof fn lemma_well_formed_line_parses(
    colon: bool,
    sender: Seq<char>,
    user: Seq<char>,
    channel: Seq<char>,
    text: Seq<char>,
)
    requires
        forall|i: int| 0 <= i < sender.len() ==> sender[i] != ' ' && sender[i] != '!',
        !colon && sender.len() > 0 ==> sender[0] != ':',
        forall|i: int| 0 <= i < user.len() ==> user[i] != ' ',
        !contains(channel, body_separator()),
    ensures
        parse_line(chat_line(colon, sender, user, channel, text)) == Some(
            IrcMessageView { sender, channel, message: trim(text) },
        ),
{
    reveal_strlit(" :");
    reveal_strlit(" PRIVMSG ");
    reveal_strlit("PRIVMSG");
    let line = chat_line(colon, sender, user, channel, text);
    let pat = body_separator();
    let start: int = if colon {
        1
    } else {
        0
    };
    let bang = start + sender.len();
    let sp1 = bang + 1 + user.len();
    let sp2 = sp1 + 8;
    let sep = sp2 + 1 + channel.len();
    lemma_parse_line_indexed(line);
    assert(occurs_at(line, message_marker(), sp1 + 1)) by {
        assert(line.subrange(sp1 + 1, sp1 + 8) =~= message_marker());
    }
    lemma_first_char_is(line, ' ', 0, sp1);
    lemma_first_char_is(line, ' ', sp1 + 1, sp2);
    lemma_first_char_is(line, '!', start, bang);
    assert(line.subrange(sep, sep + 2) =~= pat);
    assert forall|j: int| sp2 + 1 <= j < sep implies !occurs_at(line, pat, j) by {
        if j + 2 <= sep {
            assert(!occurs_at(channel, pat, j - sp2 - 1));
            assert(line.subrange(j, j + 2) =~= channel.subrange(j - sp2 - 1, j - sp2 + 1));
        } else {
            assert(line.subrange(j, j + 2)[1] == ' ');
        }
    }
    lemma_first_occurrence_is(line, pat, sp2 + 1, sep);
    assert(line.subrange(start, bang) =~= sender);
    assert(line.subrange(sp2 + 1, sep) =~= channel);
    assert(line.skip(sep + 2) =~= text);
}

/// The chat message that `line` holds, if it holds one.
///
/// A line without the keyword `PRIVMSG` holds none. Otherwise the line is
/// cut at its first two spaces into a prefix, a command and the rest. The
/// rest is cut at its first `" :"` into the channel and the text. The
/// sender is what stands in the prefix before its first `!`, one leading
/// colon left out. The message is the text without the white space around
/// it. A line that cannot be cut in this way holds no message.
pub fn parse_irc_line(line: &str) -> (parsed: Option<IrcMessage>)
    ensures
        match parsed {
            Some(message) => parse_line(line@) == Some(message@),
            None => parse_line(line@) is None,
        },
        !contains(line@, message_marker()) ==> parsed is None,
{
    proof {
        lemma_parse_line_indexed(line@);
        reveal_strlit(" :");
    }
    let chars = chars_of(line);
    let marker = chars_of("PRIVMSG");
    proof {
        lemma_contains_first_occurrence(line@, marker@);
    }
    if find_seq(&chars, &marker, 0).is_none() {
        return None;
    }
    let sp1 = match find_char(&chars, ' ', 0) {
        Some(i) => i,
        None => {
            return None;
        },
    };
    proof {
        lemma_first_char_from(line@, ' ', 0);
    }
    let sp2 = match find_char(&chars, ' ', sp1 + 1) {
        Some(i) => i,
        None => {
            return None;
        },
    };
    proof {
        lemma_first_char_from(line@, ' ', sp1 + 1);
    }
    let start: usize = if sp1 > 0 && chars[0] == ':' {
        1
    } else {
        0
    };
    let bang = match find_char(&chars, '!', start) {
        Some(i) => i,
        None => {
            return None;
        },
    };
    let separator = chars_of(" :");
    let sep = match find_seq(&chars, &separator, sp2 + 1) {
        Some(i) => i,
        None => {
            return None;
        },
    };
    if bang >= sp1 {
        return None;
    }
    proof {
        lemma_first_char_from(line@, '!', start as int);
        lemma_first_occurrence_from(line@, separator@, sp2 + 1);
    }
    let (from, to) = trim_range(&chars, sep + 2, chars.len());
    let sender = String::from_str(line.substring_char(start, bang));
    let channel = String::from_str(line.substring_char(sp2 + 1, sep));
    let message = String::from_str(line.substring_char(from, to));
    Some(IrcMessage { sender, channel, message })
}

} // verus!
