//! The work that one chat message makes for the synthesis worker.
//!
//! For each message the worker has the engine speak the text into a raw
//! audio file, has that file converted into a playable one, plays it, and
//! removes both files, whether or not it could be played. This module names
//! the files, spells out the two tool calls and lays down the order of the
//! steps; the worker itself carries them out, one message after the other.

use crate::irc::{IrcMessage, IrcMessageView};
use crate::text::chars_of;
use vstd::prelude::*;
use vstd::string::*;

verus! {

/// The most characters that a file name takes from the sender's name.
pub const FILE_STEM_LIMIT: usize = 20;

/// Whether `c` is alphabetic or numeric in Unicode's terms.
pub uninterp spec fn is_alphanumeric(c: char) -> bool;

/// `char::is_alphanumeric` of the standard library. Its answer depends on
/// the character alone and goes by Unicode's tables, which are not
/// written out here: the answer is only given its name.
#[verifier::external_body]
fn alphanumeric(c: char) -> (b: bool)
    ensures
        b == is_alphanumeric(c),
{
    c.is_alphanumeric()
}

/// `s` cut down to its first `limit` characters.
pub open spec fn truncated(s: Seq<char>, limit: nat) -> Seq<char> {
    if s.len() <= limit {
        s
    } else {
        s.take(limit as int)
    }
}

/// The characters of `text` whose mark in `keep` is set, in order. A
/// character without a mark is left out.
pub open spec fn marked(text: Seq<char>, keep: Seq<bool>) -> Seq<char>
    decreases text.len(),
{
    if text.len() == 0 {
        Seq::empty()
    } else {
        let before = marked(text.drop_last(), keep);
        if text.len() <= keep.len() && keep[text.len() - 1] {
            before.push(text.last())
        } else {
            before
        }
    }
}

/// The part of a file name that comes from the sender's name: its
/// alphanumeric characters, up to the limit.
pub open spec fn file_stem(sender: Seq<char>) -> Seq<char> {
    truncated(sender.filter(|c: char| is_alphanumeric(c)), FILE_STEM_LIMIT as nat)
}

/// The character that stands for the digit `d`.
pub open spec fn digit(d: nat) -> char {
    if d == 0 {
        '0'
    } else if d == 1 {
        '1'
    } else if d == 2 {
        '2'
    } else if d == 3 {
        '3'
    } else if d == 4 {
        '4'
    } else if d == 5 {
        '5'
    } else if d == 6 {
        '6'
    } else if d == 7 {
        '7'
    } else if d == 8 {
        '8'
    } else {
        '9'
    }
}

/// The digits of `n` in base ten, the highest first; none for zero.
pub open spec fn digits_of(n: nat) -> Seq<char>
    decreases n,
{
    if n == 0 {
        Seq::empty()
    } else {
        digits_of(n / 10).push(digit(n % 10))
    }
}

/// `n` written in base ten.
pub open spec fn decimal(n: nat) -> Seq<char> {
    if n == 0 {
        seq!['0']
    } else {
        digits_of(n)
    }
}

/// The name of a file for a message of `sender` taken up at `timestamp`.
pub open spec fn file_name(sender: Seq<char>, timestamp: nat, extension: Seq<char>) -> Seq<
    char,
> {
    file_stem(sender) + seq!['_'] + decimal(timestamp) + extension
}

/// What a [`SpeechJob`] holds.
pub ghost struct SpeechJobView {
    pub text: Seq<char>,
    pub raw_file: Seq<char>,
    pub wav_file: Seq<char>,
}

/// The job that `message`, taken up at `timestamp`, makes.
pub open spec fn speech_job(message: IrcMessageView, timestamp: nat) -> SpeechJobView {
    SpeechJobView {
        text: message.message,
        raw_file: file_name(message.sender, timestamp, ".raw"@),
        wav_file: file_name(message.sender, timestamp, ".wav"@),
    }
}

/// What a [`ToolCommand`] holds.
pub ghost struct ToolCommandView {
    pub program: Seq<char>,
    pub args: Seq<Seq<char>>,
}

/// The call that converts the raw samples in `audio_path` (32-bit floats,
/// one channel, 22050 per second) into the playable file `output`.
pub open spec fn convert_command(audio_path: Seq<char>, output: Seq<char>) -> ToolCommandView {
    ToolCommandView {
        program: "ffmpeg"@,
        args: seq![
            "-f"@,
            "f32le"@,
            "-ar"@,
            "22050"@,
            "-ac"@,
            "1"@,
            "-i"@,
            audio_path,
            "-c:a"@,
            "pcm_s16le"@,
            "-y"@,
            output,
        ],
    }
}

/// The call that plays the file `audio_path` without a window and ends
/// when the file does.
pub open spec fn play_command(audio_path: Seq<char>) -> ToolCommandView {
    ToolCommandView { program: "ffplay"@, args: seq!["-nodisp"@, "-autoexit"@, audio_path] }
}

/// What a [`WorkerStep`] holds.
pub ghost enum WorkerStepView {
    Synthesize { text: Seq<char>, raw_file: Seq<char> },
    Run(ToolCommandView),
    Remove(Seq<char>),
}

/// The steps that `job` takes, in order: speak, convert, play, and remove
/// first the raw and then the playable file.
pub open spec fn job_steps(job: SpeechJobView) -> Seq<WorkerStepView> {
    seq![
        WorkerStepView::Synthesize { text: job.text, raw_file: job.raw_file },
        WorkerStepView::Run(convert_command(job.raw_file, job.wav_file)),
        WorkerStepView::Run(play_command(job.wav_file)),
        WorkerStepView::Remove(job.raw_file),
        WorkerStepView::Remove(job.wav_file),
    ]
}

/// The digits of `digits` as characters, the last first.
spec fn reversed_digits(digits: Seq<u8>) -> Seq<char> {
    Seq::new(digits.len(), |i: int| digit(digits[digits.len() - 1 - i] as nat))
}

/// Where `keep` tells of each character of `text` whether `pred` holds of
/// it, the marked characters are the filtered ones.
pub proof fn lemma_marked_is_filter(text: Seq<char>, keep: Seq<bool>, pred: spec_fn(char) -> bool)
    requires
        text.len() <= keep.len(),
        forall|i: int| 0 <= i < text.len() ==> keep[i] == pred(text[i]),
    ensures
        marked(text, keep) == text.filter(pred),
    decreases text.len(),
{
    reveal(Seq::filter);
    if text.len() > 0 {
        lemma_marked_is_filter(text.drop_last(), keep, pred);
    }
}

/// The first `limit` characters of `text` whose mark in `keep` is set.
pub fn keep_marked(text: &str, keep: &Vec<bool>, limit: usize) -> (out: String)
    ensures
        out@ == truncated(marked(text@, keep@), limit as nat),
{
    let chars = chars_of(text);
    let n = chars.len();
    let mut out = String::new();
    let mut count: usize = 0;
    let mut i: usize = 0;
    while i < n
        invariant
            i <= n,
            n == chars.len(),
            chars@ == text@,
            count == out@.len(),
            count <= limit,
            out@ == truncated(marked(text@.take(i as int), keep@), limit as nat),
        decreases n - i,
    {
        proof {
            assert(text@.take(i + 1).drop_last() =~= text@.take(i as int));
        }
        if i < keep.len() && keep[i] && count < limit {
            out.append(text.substring_char(i, i + 1));
            count += 1;
        }
        i += 1;
    }
    proof {
        assert(text@.take(n as int) =~= text@);
    }
    out
}

/// The part of a file name that comes from the sender's name: its
/// alphanumeric characters, up to twenty of them.
pub fn safe_file_stem(sender: &str) -> (stem: String)
    ensures
        stem@ == file_stem(sender@),
{
    let chars = chars_of(sender);
    let mut keep: Vec<bool> = Vec::new();
    let mut i: usize = 0;
    while i < chars.len()
        invariant
            i <= chars.len(),
            keep.len() == i,
            forall|j: int| 0 <= j < i ==> keep@[j] == is_alphanumeric(chars@[j]),
        decreases chars.len() - i,
    {
        keep.push(alphanumeric(chars[i]));
        i += 1;
    }
    proof {
        lemma_marked_is_filter(sender@, keep@, |c: char| is_alphanumeric(c));
    }
    keep_marked(sender, &keep, FILE_STEM_LIMIT)
}

/// The digit `d` as a text of one character.
fn digit_text(d: u8) -> (text: &'static str)
    requires
        d < 10,
    ensures
        text@ == seq![digit(d as nat)],
{
    proof {
        reveal_strlit("0");
        reveal_strlit("1");
        reveal_strlit("2");
        reveal_strlit("3");
        reveal_strlit("4");
        reveal_strlit("5");
        reveal_strlit("6");
        reveal_strlit("7");
        reveal_strlit("8");
        reveal_strlit("9");
    }
    if d == 0 {
        "0"
    } else if d == 1 {
        "1"
    } else if d == 2 {
        "2"
    } else if d == 3 {
        "3"
    } else if d == 4 {
        "4"
    } else if d == 5 {
        "5"
    } else if d == 6 {
        "6"
    } else if d == 7 {
        "7"
    } else if d == 8 {
        "8"
    } else {
        "9"
    }
}

/// `n` written in base ten.
pub fn decimal_string(n: u128) -> (out: String)
    ensures
        out@ == decimal(n as nat),
{
    if n == 0 {
        proof {
            reveal_strlit("0");
        }
        return String::from_str("0");
    }
    let mut digits: Vec<u8> = Vec::new();
    let mut rest: u128 = n;
    while rest > 0
        invariant
            forall|j: int| 0 <= j < digits.len() ==> digits@[j] < 10,
            digits_of(rest as nat) + reversed_digits(digits@) == digits_of(n as nat),
        decreases rest,
    {
        digits.push((rest % 10) as u8);
        rest = rest / 10;
    }
    let mut out = String::new();
    let mut left: usize = digits.len();
    while left > 0
        invariant
            left <= digits.len(),
            forall|j: int| 0 <= j < digits.len() ==> digits@[j] < 10,
            out@ == reversed_digits(digits@).take(digits.len() - left),
        decreases left,
    {
        left -= 1;
        out.append(digit_text(digits[left]));
    }
    out
}

/// A file name for a message of `sender` taken up at `timestamp`: the stem
/// made of the sender's name, an underscore, the timestamp in base ten, and
/// `extension`.
fn temp_file_name(sender: &str, timestamp: u128, extension: &str) -> (name: String)
    ensures
        name@ == file_name(sender@, timestamp as nat, extension@),
{
    let mut name = safe_file_stem(sender);
    proof {
        reveal_strlit("_");
    }
    name.append("_");
    name.append(decimal_string(timestamp).as_str());
    name.append(extension);
    name
}

/// The name of the raw audio file for a message of `sender` taken up at
/// `timestamp`.
pub fn raw_file_name(sender: &str, timestamp: u128) -> (name: String)
    ensures
        name@ == file_name(sender@, timestamp as nat, ".raw"@),
{
    temp_file_name(sender, timestamp, ".raw")
}

/// The name of the playable audio file for a message of `sender` taken up
/// at `timestamp`.
pub fn wav_file_name(sender: &str, timestamp: u128) -> (name: String)
    ensures
        name@ == file_name(sender@, timestamp as nat, ".wav"@),
{
    temp_file_name(sender, timestamp, ".wav")
}

/// What the worker does for one message: the text to speak and the two
/// files that hold the audio on the way.
#[derive(Debug, Clone, PartialEq, Eq)]
pub struct SpeechJob {
    pub text: String,
    pub raw_file: String,
    pub wav_file: String,
}

impl View for SpeechJob {
    type V = SpeechJobView;

    open spec fn view(&self) -> SpeechJobView {
        SpeechJobView { text: self.text@, raw_file: self.raw_file@, wav_file: self.wav_file@ }
    }
}

/// The job that `message` makes when the worker takes it up at
/// `timestamp`, in milliseconds.
pub fn plan_speech(message: &IrcMessage, timestamp: u128) -> (job: SpeechJob)
    ensures
        job@ == speech_job(message@, timestamp as nat),
{
    SpeechJob {
        text: message.message.clone(),
        raw_file: raw_file_name(message.sender.as_str(), timestamp),
        wav_file: wav_file_name(message.sender.as_str(), timestamp),
    }
}

/// A call of an outside tool: the program and its arguments, in order.
#[derive(Debug, Clone, PartialEq, Eq)]
pub struct ToolCommand {
    pub program: String,
    pub args: Vec<String>,
}

impl View for ToolCommand {
    type V = ToolCommandView;

    open spec fn view(&self) -> ToolCommandView {
        ToolCommandView { program: self.program@, args: self.args.deep_view() }
    }
}

/// The call that converts the raw samples in `audio_path` into the playable
/// file `output`.
pub fn convert_audio(audio_path: &str, output: &str) -> (command: ToolCommand)
    ensures
        command@ == convert_command(audio_path@, output@),
{
    let mut args: Vec<String> = Vec::new();
    args.push(String::from_str("-f"));
    args.push(String::from_str("f32le"));
    args.push(String::from_str("-ar"));
    args.push(String::from_str("22050"));
    args.push(String::from_str("-ac"));
    args.push(String::from_str("1"));
    args.push(String::from_str("-i"));
    args.push(String::from_str(audio_path));
    args.push(String::from_str("-c:a"));
    args.push(String::from_str("pcm_s16le"));
    args.push(String::from_str("-y"));
    args.push(String::from_str(output));
    proof {
        assert(args.deep_view() =~= convert_command(audio_path@, output@).args);
    }
    ToolCommand { program: String::from_str("ffmpeg"), args }
}

/// The call that plays the file `audio_path`.
pub fn play_audio(audio_path: &str) -> (command: ToolCommand)
    ensures
        command@ == play_command(audio_path@),
{
    let mut args: Vec<String> = Vec::new();
    args.push(String::from_str("-nodisp"));
    args.push(String::from_str("-autoexit"));
    args.push(String::from_str(audio_path));
    proof {
        assert(args.deep_view() =~= play_command(audio_path@).args);
    }
    ToolCommand { program: String::from_str("ffplay"), args }
}

/// One thing that the worker does on the way from a message to its sound.
#[derive(Debug, Clone, PartialEq, Eq)]
pub enum WorkerStep {
    /// Have the engine speak `text` and write the audio to `raw_file`.
    Synthesize { text: String, raw_file: String },
    /// Run an outside tool and wait until it has ended.
    Run(ToolCommand),
    /// Remove a file; if that fails, go on.
    Remove(String),
}

impl View for WorkerStep {
    type V = WorkerStepView;

    open spec fn view(&self) -> WorkerStepView {
        match *self {
            WorkerStep::Synthesize { text, raw_file } => WorkerStepView::Synthesize {
                text: text@,
                raw_file: raw_file@,
            },
            WorkerStep::Run(command) => WorkerStepView::Run(command@),
            WorkerStep::Remove(file) => WorkerStepView::Remove(file@),
        }
    }
}

/// The views of `steps`, in order.
pub open spec fn step_views(steps: Seq<WorkerStep>) -> Seq<WorkerStepView> {
    steps.map_values(|step: WorkerStep| step@)
}

impl SpeechJob {
    /// The steps that the job takes, in order: the engine speaks the text
    /// into the raw file, the raw file is converted into the playable one,
    /// the playable one is played, and both files are removed.
    pub fn steps(&self) -> (steps: Vec<WorkerStep>)
        ensures
            step_views(steps@) == job_steps(self@),
    {
        let mut steps: Vec<WorkerStep> = Vec::new();
        steps.push(
            WorkerStep::Synthesize { text: self.text.clone(), raw_file: self.raw_file.clone() },
        );
        steps.push(WorkerStep::Run(convert_audio(self.raw_file.as_str(), self.wav_file.as_str())));
        steps.push(WorkerStep::Run(play_audio(self.wav_file.as_str())));
        steps.push(WorkerStep::Remove(self.raw_file.clone()));
        steps.push(WorkerStep::Remove(self.wav_file.clone()));
        steps
    }
}

} // verus!
