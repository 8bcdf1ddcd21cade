//! What the listener of one session keeps between two reads of the worker's
//! output: the text that has come without a line feed after it, and the
//! reason for which the session has to be restarted.

use crate::protocol::{find_line_end, frames, line_end, ndjson_frames, texts};
use crate::text::{
    chars_of, join2, join3, signed_decimal, signed_decimal_text, text_of, trim_bounds, trimmed,
};
use vstd::prelude::*;

verus! {

/// One MiB: more bytes than this without a line feed are taken for runaway
/// output.
pub const MAX_STDOUT_BUFFER_BYTES: usize = 1_048_576;

/// The bytes that UTF-8 takes for `c`.
pub open spec fn char_width(c: char) -> int {
    let n = c as u32;
    if n < 0x80 {
        1
    } else if n < 0x800 {
        2
    } else if n < 0x10000 {
        3
    } else {
        4
    }
}

/// The bytes that UTF-8 takes for `s`.
pub open spec fn utf8_len(s: Seq<char>) -> int
    decreases s.len(),
{
    if s.len() == 0 {
        0
    } else {
        utf8_len(s.drop_last()) + char_width(s.last())
    }
}

/// The text that std's lossy decoding of UTF-8 makes of `bytes`.
pub uninterp spec fn utf8_lossy(bytes: Seq<u8>) -> Seq<char>;

/// `String::from_utf8_lossy` of std, as an owned text. The text depends on
/// the bytes alone: well-formed UTF-8 is decoded as it stands, and each
/// ill-formed sequence gives U+FFFD.
#[verifier::external_body]
fn decode_lossy(bytes: &[u8]) -> (text: String)
    ensures
        text@ == utf8_lossy(bytes@),
{
    String::from_utf8_lossy(bytes).into_owned()
}

/// What is said of an exit code or signal that may be missing.
pub open spec fn optional_number(value: Option<i32>) -> Seq<char> {
    match value {
        Some(n) => "Some("@ + signed_decimal(n as int) + ")"@,
        None => "None"@,
    }
}

/// The reason given when the worker's output overruns the buffer.
pub open spec fn overrun_reason() -> Seq<char> {
    "worker stdout exceeded 1 MiB without complete NDJSON frames"@
}

/// The reason given when the stream ends and nothing else was wrong.
pub open spec fn closed_reason() -> Seq<char> {
    "worker stream closed"@
}

/// The reason given for a line that is no message.
pub open spec fn rejected_reason(why: Seq<char>) -> Seq<char> {
    "invalid NDJSON frame from worker: "@ + why
}

/// The reason given for text left at the end of the stream that is no
/// message.
pub open spec fn trailing_reason(why: Seq<char>) -> Seq<char> {
    "invalid trailing NDJSON from worker: "@ + why
}

/// The reason given for an error of the worker process.
pub open spec fn error_reason(error: Seq<char>) -> Seq<char> {
    "worker error: "@ + error
}

/// The reason given when the worker process has ended.
pub open spec fn exit_reason(code: Option<i32>, signal: Option<i32>) -> Seq<char> {
    "worker exited with code "@ + optional_number(code) + ", signal "@ + optional_number(signal)
}

/// What the next complete line of `pending` gives: the first frame among
/// the complete lines, with what follows its line; or nothing, with what is
/// left once the complete lines, all of them empty, are taken away.
pub open spec fn next_frame_of(pending: Seq<char>) -> (Option<Seq<char>>, Seq<char>)
    decreases pending.len(),
{
    let n = line_end(pending);
    if 0 <= n < pending.len() {
        let line = trimmed(pending.take(n));
        let rest = pending.skip(n + 1);
        if line.len() == 0 {
            next_frame_of(rest)
        } else {
            (Some(line), rest)
        }
    } else {
        (None, pending)
    }
}

/// What taking a frame from a listener ends in.
#[derive(Debug)]
pub enum Drained {
    /// The text of one message.
    Frame(String),
    /// No complete line is left: the listener waits for more output.
    Waiting,
    /// No complete line is left, and what is left is longer than the
    /// buffer allows: the listener ends.
    Overrun,
}

/// The mathematical state of an [`EventListener`].
pub struct ListenerView {
    pub session_id: u64,
    pub pending: Seq<char>,
    pub restart_reason: Option<Seq<char>>,
}

impl ListenerView {
    /// The state after more output has come.
    pub open spec fn pushed(self, text: Seq<char>) -> ListenerView {
        ListenerView { pending: self.pending + text, ..self }
    }

    /// The state after a frame was asked for.
    pub open spec fn drained(self) -> ListenerView {
        let (frame, rest) = next_frame_of(self.pending);
        ListenerView {
            pending: rest,
            restart_reason: if frame is None && utf8_len(rest) > MAX_STDOUT_BUFFER_BYTES {
                Some(overrun_reason())
            } else {
                self.restart_reason
            },
            ..self
        }
    }

    /// The state once `reason` is the reason for the restart.
    pub open spec fn blamed(self, reason: Seq<char>) -> ListenerView {
        ListenerView { restart_reason: Some(reason), ..self }
    }

    /// The state once `reason` is the reason for the restart unless one is
    /// known already.
    pub open spec fn blamed_at_last(self, reason: Seq<char>) -> ListenerView {
        if self.restart_reason is Some {
            self
        } else {
            self.blamed(reason)
        }
    }

    /// The reason with which the restart is scheduled.
    pub open spec fn final_reason(self) -> Seq<char> {
        match self.restart_reason {
            Some(reason) => reason,
            None => closed_reason(),
        }
    }
}

/// The listener's state for one session.
pub struct EventListener {
    session_id: u64,
    pending: Vec<char>,
    restart_reason: Option<String>,
}

impl View for EventListener {
    type V = ListenerView;

    closed spec fn view(&self) -> ListenerView {
        ListenerView {
            session_id: self.session_id,
            pending: self.pending@,
            restart_reason: match self.restart_reason {
                Some(reason) => Some(reason@),
                None => None,
            },
        }
    }
}

/// A longer text takes no fewer bytes.
pub proof fn lemma_utf8_len_prefix(s: Seq<char>, n: int)
    requires
        0 <= n <= s.len(),
    ensures
        0 <= utf8_len(s.take(n)) <= utf8_len(s),
    decreases s.len() - n,
{
    if n == s.len() {
        assert(s.take(n) =~= s);
        lemma_utf8_len_nonnegative(s);
    } else {
        lemma_utf8_len_prefix(s, n + 1);
        assert(s.take(n + 1).drop_last() =~= s.take(n));
        lemma_utf8_len_nonnegative(s.take(n));
    }
}

proof fn lemma_utf8_len_nonnegative(s: Seq<char>)
    ensures
        utf8_len(s) >= 0,
    decreases s.len(),
{
    if s.len() > 0 {
        lemma_utf8_len_nonnegative(s.drop_last());
    }
}

/// Whether UTF-8 takes more bytes for `chars` than the buffer allows.
fn exceeds_buffer(chars: &Vec<char>) -> (over: bool)
    ensures
        over == (utf8_len(chars@) > MAX_STDOUT_BUFFER_BYTES),
{
    let mut bytes: usize = 0;
    let mut i: usize = 0;
    while i < chars.len()
        invariant
            i <= chars@.len(),
            bytes == utf8_len(chars@.take(i as int)),
            bytes <= MAX_STDOUT_BUFFER_BYTES,
        decreases chars@.len() - i,
    {
        let n: u32 = chars[i] as u32;
        let width: usize = if n < 0x80 {
            1
        } else if n < 0x800 {
            2
        } else if n < 0x10000 {
            3
        } else {
            4
        };
        proof {
            assert(chars@.take(i + 1).drop_last() =~= chars@.take(i as int));
        }
        bytes = bytes + width;
        i += 1;
        if bytes > MAX_STDOUT_BUFFER_BYTES {
            proof {
                lemma_utf8_len_prefix(chars@, i as int);
            }
            return true;
        }
    }
    assert(chars@.take(i as int) =~= chars@);
    false
}

/// What is said of an exit code or signal that may be missing.
fn optional_number_text(value: Option<i32>) -> (text: String)
    ensures
        text@ == optional_number(value),
{
    match value {
        Some(n) => {
            let digits = signed_decimal_text(n);
            join3("Some(", digits.as_str(), ")")
        },
        None => "None".to_string(),
    }
}

impl EventListener {
    /// The listener of session `session_id`, before any output has come.
    pub fn new(session_id: u64) -> (listener: EventListener)
        ensures
            listener@ == (ListenerView {
                session_id,
                pending: Seq::empty(),
                restart_reason: None,
            }),
    {
        EventListener { session_id, pending: Vec::new(), restart_reason: None }
    }

    /// The session that this listener belongs to.
    pub fn session_id(&self) -> (id: u64)
        ensures
            id == self@.session_id,
    {
        self.session_id
    }

    /// Takes in output of the worker, decoded as UTF-8 with U+FFFD in place
    /// of what is ill-formed.
    pub fn on_stdout(&mut self, bytes: &[u8])
        ensures
            final(self)@ == old(self)@.pushed(utf8_lossy(bytes@)),
    {
        let text = decode_lossy(bytes);
        self.push_text(text.as_str());
    }

    /// Takes in output of the worker that is text already.
    pub fn push_text(&mut self, text: &str)
        ensures
            final(self)@ == old(self)@.pushed(text@),
    {
        let mut more = chars_of(text);
        self.pending.append(&mut more);
    }

    /// Takes the next frame from the output that has come: the first
    /// complete line that is not blank, trimmed. Blank lines before it are
    /// dropped. Where no complete line is left, what is left may take at
    /// most `MAX_STDOUT_BUFFER_BYTES` bytes; more is an overrun, and the
    /// reason for the restart.
    pub fn next_frame(&mut self) -> (drained: Drained)
        ensures
            final(self)@ == old(self)@.drained(),
            match drained {
                Drained::Frame(line) => next_frame_of(old(self)@.pending).0 == Some(line@),
                Drained::Waiting => next_frame_of(old(self)@.pending).0 is None && utf8_len(
                    final(self)@.pending,
                ) <= MAX_STDOUT_BUFFER_BYTES,
                Drained::Overrun => next_frame_of(old(self)@.pending).0 is None && utf8_len(
                    final(self)@.pending,
                ) > MAX_STDOUT_BUFFER_BYTES,
            },
    {
        let mut pos: usize = 0;
        let mut found: Option<String> = None;
        let mut open_line = false;
        proof {
            assert(self.pending@.skip(0) =~= self.pending@);
        }
        while pos < self.pending.len() && found.is_none() && !open_line
            invariant
                pos <= self.pending@.len(),
                self.pending == old(self).pending,
                self.session_id == old(self).session_id,
                self.restart_reason == old(self).restart_reason,
                open_line ==> found is None && next_frame_of(self.pending@.skip(pos as int)) == (
                    None::<Seq<char>>,
                    self.pending@.skip(pos as int),
                ),
                match found {
                    Some(line) => next_frame_of(old(self).pending@) == (
                        Some(line@),
                        self.pending@.skip(pos as int),
                    ),
                    None => next_frame_of(old(self).pending@) == next_frame_of(
                        self.pending@.skip(pos as int),
                    ),
                },
            decreases self.pending@.len() - pos, if open_line { 0int } else { 1int },
        {
            let ghost sub = self.pending@.skip(pos as int);
            let end = find_line_end(&self.pending, pos);
            if end == self.pending.len() {
                proof {
                    assert(next_frame_of(sub) == (None::<Seq<char>>, sub));
                }
                open_line = true;
            } else {
                let (a, b) = trim_bounds(&self.pending, pos, end);
                proof {
                    assert(sub.take(end - pos) =~= self.pending@.subrange(pos as int, end as int));
                    assert(sub.skip(end - pos + 1) =~= self.pending@.skip(end + 1));
                }
                if a < b {
                    found = Some(text_of(&self.pending, a, b));
                }
                proof {
                    let n = end - pos;
                    let line = trimmed(sub.take(n));
                    assert(line_end(sub) == n);
                    if a < b {
                        assert(next_frame_of(sub) == (Some(line), sub.skip(n + 1)));
                    } else {
                        assert(line.len() == 0);
                        assert(next_frame_of(sub) == next_frame_of(sub.skip(n + 1)));
                    }
                }
                pos = end + 1;
            }
        }
        proof {
            if found is None && !open_line {
                let sub = self.pending@.skip(pos as int);
                assert(sub.len() == 0);
                assert(next_frame_of(sub) == (None::<Seq<char>>, sub));
            }
        }
        let rest = self.pending.split_off(pos);
        self.pending = rest;
        proof {
            assert(self.pending@ =~= old(self).pending@.skip(pos as int));
        }
        if let Some(line) = found {
            return Drained::Frame(line);
        }
        if exceeds_buffer(&self.pending) {
            self.restart_reason = Some(
                "worker stdout exceeded 1 MiB without complete NDJSON frames".to_string(),
            );
            Drained::Overrun
        } else {
            Drained::Waiting
        }
    }

    /// Notes that a frame was no message; `why` says what was wrong with it.
    pub fn frame_rejected(&mut self, why: &str)
        ensures
            final(self)@ == old(self)@.blamed(rejected_reason(why@)),
    {
        self.restart_reason = Some(join2("invalid NDJSON frame from worker: ", why));
    }

    /// Notes an error of the worker process.
    pub fn on_error(&mut self, error: &str)
        ensures
            final(self)@ == old(self)@.blamed(error_reason(error@)),
    {
        self.restart_reason = Some(join2("worker error: ", error));
    }

    /// Notes that the worker process has ended, with its exit code and the
    /// signal that ended it, as far as they are known.
    pub fn on_terminated(&mut self, code: Option<i32>, signal: Option<i32>)
        ensures
            final(self)@ == old(self)@.blamed(exit_reason(code, signal)),
    {
        let code_text = optional_number_text(code);
        let signal_text = optional_number_text(signal);
        let head = join3("worker exited with code ", code_text.as_str(), ", signal ");
        self.restart_reason = Some(join2(head.as_str(), signal_text.as_str()));
    }

    /// The frames of what is left once the stream has ended, complete lines
    /// or not.
    pub fn trailing_frames(&self) -> (lines: Vec<String>)
        ensures
            texts(lines@) == frames(self@.pending),
    {
        let left = text_of(&self.pending, 0, self.pending.len());
        proof {
            assert(self.pending@.subrange(0, self.pending@.len() as int) =~= self.pending@);
        }
        ndjson_frames(left.as_str())
    }

    /// Notes that what was left at the end of the stream holds a frame that
    /// is no message. An earlier reason for the restart stands.
    pub fn trailing_rejected(&mut self, why: &str)
        ensures
            final(self)@ == old(self)@.blamed_at_last(trailing_reason(why@)),
    {
        if self.restart_reason.is_none() {
            self.restart_reason = Some(join2("invalid trailing NDJSON from worker: ", why));
        }
    }

    /// The reason with which the restart is scheduled once the stream has
    /// ended.
    pub fn final_reason(self) -> (reason: String)
        ensures
            reason@ == self@.final_reason(),
    {
        match self.restart_reason {
            Some(reason) => reason,
            None => "worker stream closed".to_string(),
        }
    }
}

} // verus!
