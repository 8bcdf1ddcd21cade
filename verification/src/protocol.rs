//! The messages that supervisor and worker exchange, one per line of text.

use crate::text::{
    chars_of, is_whitespace, lemma_trimmed_edges, lemma_trimmed_fixed, lemma_trimmed_keeps_out,
    text_of, trim_bounds, trimmed,
};
use serde_json::Value;
use vstd::prelude::*;

verus! {

#[verifier::external_type_specification]
#[verifier::external_body]
pub struct ExValue(serde_json::Value);

/// `Clone::clone` of `serde_json::Value`: the copy is the same JSON value.
pub assume_specification[ <serde_json::Value as Clone>::clone ](value: &serde_json::Value) -> (copy:
    serde_json::Value)
    ensures
        copy == *value,
;

/// The protocol version that this supervisor speaks.
pub const IPC_VERSION: &'static str = "1.0";

pub const EVENT_WORKER_HELLO: &'static str = "worker.hello";

pub const EVENT_WORKER_WELCOME: &'static str = "worker.welcome";

pub const EVENT_WORKER_HEARTBEAT: &'static str = "worker.heartbeat";

pub const EVENT_TASK_SUBMIT: &'static str = "task.submit";

pub const EVENT_TASK_CANCEL: &'static str = "task.cancel";

pub const EVENT_TASK_STARTED: &'static str = "task.started";

pub const EVENT_TASK_PROGRESS: &'static str = "task.progress";

pub const EVENT_TASK_COMPLETED: &'static str = "task.completed";

pub const EVENT_TASK_FAILED: &'static str = "task.failed";

/// The kind of a message.
#[derive(Debug, Clone, Copy, PartialEq, Eq, Structural)]
pub enum MessageKind {
    Command,
    Event,
    Ack,
    Error,
}

/// `uuid::Uuid::new_v4` written out by `to_string`: a fresh random
/// identifier in the hyphenated form, which has 36 characters. Which
/// identifier comes is left open: two calls may differ. uuid gives up where
/// the system has no random bytes for it.
#[verifier::external_body]
pub(crate) fn fresh_uuid() -> (id: String)
    ensures
        id@.len() == 36,
{
    uuid::Uuid::new_v4().to_string()
}

/// One message on the wire, with a payload of type `P`.
#[derive(Debug)]
pub struct Envelope<P> {
    pub v: String,
    pub kind: MessageKind,
    pub event: String,
    pub msg_id: String,
    pub trace_id: String,
    pub payload: P,
}

impl<P> Envelope<P> {
    /// A message of this protocol version with fresh message and trace ids.
    /// Minting the ids is uuid's part, and uuid gives up with a panic where
    /// the system has no random bytes for them.
    pub fn new(kind: MessageKind, event: &str, payload: P) -> (envelope: Envelope<P>)
        ensures
            envelope.v@ == IPC_VERSION@,
            envelope.kind == kind,
            envelope.event@ == event@,
            envelope.payload == payload,
            envelope.msg_id@.len() == 36,
            envelope.trace_id@.len() == 36,
    {
        Envelope {
            v: IPC_VERSION.to_string(),
            kind,
            event: event.to_string(),
            msg_id: fresh_uuid(),
            trace_id: fresh_uuid(),
            payload,
        }
    }
}

/// What `task.submit` carries.
#[derive(Debug)]
pub struct TaskPayload {
    pub task_id: String,
    pub task_type: String,
    pub project_id: String,
    pub config: Value,
}

impl Clone for TaskPayload {
    fn clone(&self) -> (copy: Self)
        ensures
            copy == *self,
    {
        TaskPayload {
            task_id: self.task_id.clone(),
            task_type: self.task_type.clone(),
            project_id: self.project_id.clone(),
            config: self.config.clone(),
        }
    }
}

/// What `task.cancel` carries.
#[derive(Debug)]
pub struct CancelPayload {
    pub task_id: String,
}

/// What `worker.welcome` carries.
#[derive(Debug, Clone, Copy, PartialEq, Eq, Structural)]
pub struct WelcomePayload {
    pub accepted: bool,
}

/// What `task.progress` carries.
#[derive(Debug)]
pub struct ProgressPayload {
    pub task_id: String,
    /// In millionths of the whole task; any value may come.
    pub progress: i64,
    pub message: Option<String>,
}

/// What `task.completed` and `task.failed` carry.
#[derive(Debug)]
pub struct TaskResultPayload {
    pub task_id: String,
    pub status: String,
    pub output: Option<Value>,
    pub error: Option<String>,
}

/// The payload of a message from the worker, read in each of the ways in
/// which the supervisor may need it. Which reading counts is decided by the
/// event that the message names.
#[derive(Debug)]
pub struct WorkerPayload {
    /// The payload's member `task_id`, where it has one that is a text.
    pub task_id: Option<String>,
    /// The payload read as a progress report, or why it is none.
    pub progress: Result<ProgressPayload, String>,
    /// The payload read as a task's result, or why it is none.
    pub result: Result<TaskResultPayload, String>,
}

/// Where the first line of `s` ends: the place of its first line feed, or
/// the length of `s` where it has none.
pub open spec fn line_end(s: Seq<char>) -> int
    decreases s.len(),
{
    if s.len() == 0 || s[0] == '\n' {
        0
    } else {
        1 + line_end(s.drop_first())
    }
}

/// The frames of `s`: its lines, each trimmed, without those that are left
/// empty. A last line needs no line feed after it.
pub open spec fn frames(s: Seq<char>) -> Seq<Seq<char>>
    decreases s.len(),
{
    if s.len() == 0 {
        Seq::empty()
    } else {
        let n = line_end(s);
        let rest = if 0 <= n < s.len() {
            s.skip(n + 1)
        } else {
            Seq::empty()
        };
        let line = trimmed(s.take(n));
        if line.len() == 0 {
            frames(rest)
        } else {
            seq![line] + frames(rest)
        }
    }
}

/// The texts of `lines`.
pub open spec fn texts(lines: Seq<String>) -> Seq<Seq<char>> {
    Seq::new(lines.len(), |i: int| lines[i]@)
}

/// A text that can stand as one frame: it is not empty, holds no line feed
/// and neither begins nor ends with white space.
pub open spec fn is_frame(line: Seq<char>) -> bool {
    &&& line.len() > 0
    &&& forall|i: int| 0 <= i < line.len() ==> line[i] != '\n'
    &&& !is_whitespace(line[0])
    &&& !is_whitespace(line.last())
}

/// `lines` written out one after the other, each followed by a line feed.
pub open spec fn joined(lines: Seq<Seq<char>>) -> Seq<char>
    decreases lines.len(),
{
    if lines.len() == 0 {
        Seq::empty()
    } else {
        lines[0] + seq!['\n'] + joined(lines.drop_first())
    }
}

/// The first line of `s` ends at `n` if no line feed comes before `n` and
/// one stands at `n`, or `s` ends there.
pub proof fn lemma_line_end(s: Seq<char>, n: int)
    requires
        0 <= n <= s.len(),
        forall|i: int| 0 <= i < n ==> s[i] != '\n',
        n < s.len() ==> s[n] == '\n',
    ensures
        line_end(s) == n,
    decreases n,
{
    if n > 0 {
        let rest = s.drop_first();
        assert forall|i: int| 0 <= i < n - 1 implies rest[i] != '\n' by {
            assert(rest[i] == s[i + 1]);
        }
        lemma_line_end(rest, n - 1);
    }
}

/// The first line of `s` ends within `s`, no line feed comes before its
/// end, and where it ends before `s` does, a line feed stands.
pub proof fn lemma_line_end_bounds(s: Seq<char>)
    ensures
        0 <= line_end(s) <= s.len(),
        forall|i: int| 0 <= i < line_end(s) ==> s[i] != '\n',
        line_end(s) < s.len() ==> s[line_end(s)] == '\n',
    decreases s.len(),
{
    if !(s.len() == 0 || s[0] == '\n') {
        let rest = s.drop_first();
        lemma_line_end_bounds(rest);
        assert forall|i: int| 0 <= i < line_end(s) implies s[i] != '\n' by {
            if i > 0 {
                assert(s[i] == rest[i - 1]);
            }
        }
        if line_end(s) < s.len() {
            assert(s[line_end(s)] == rest[line_end(rest)]);
        }
    }
}

/// Framing undoes joining: the frames of lines that were written out one
/// after the other, each followed by a line feed, are those lines.
pub proof fn lemma_frames_of_joined(lines: Seq<Seq<char>>)
    requires
        forall|i: int| 0 <= i < lines.len() ==> is_frame(#[trigger] lines[i]),
    ensures
        frames(joined(lines)) == lines,
    decreases lines.len(),
{
    if lines.len() == 0 {
        assert(frames(joined(lines)) =~= lines);
    } else {
        let first = lines[0];
        let rest = lines.drop_first();
        let s = joined(lines);
        let n = first.len() as int;
        assert(is_frame(first));
        assert forall|i: int| 0 <= i < rest.len() implies is_frame(#[trigger] rest[i]) by {
            assert(rest[i] == lines[i + 1]);
        }
        lemma_frames_of_joined(rest);
        assert forall|i: int| 0 <= i < n implies s[i] != '\n' by {
            assert(s[i] == first[i]);
        }
        assert(s[n] == '\n');
        lemma_line_end(s, n);
        assert(s.take(n) =~= first);
        assert(s.skip(n + 1) =~= joined(rest));
        lemma_trimmed_fixed(first);
        assert(seq![first] + rest =~= lines);
    }
}

/// What framing gives are frames: none of them is empty, holds a line feed,
/// or begins or ends with white space.
pub proof fn lemma_frames_are_frames(s: Seq<char>)
    ensures
        forall|i: int| 0 <= i < frames(s).len() ==> is_frame(#[trigger] frames(s)[i]),
    decreases s.len(),
{
    if s.len() > 0 {
        let n = line_end(s);
        lemma_line_end_bounds(s);
        let rest = if 0 <= n < s.len() {
            s.skip(n + 1)
        } else {
            Seq::<char>::empty()
        };
        let head = s.take(n);
        let line = trimmed(head);
        lemma_frames_are_frames(rest);
        if line.len() > 0 {
            assert forall|i: int| 0 <= i < head.len() implies head[i] != '\n' by {
                assert(head[i] == s[i]);
            }
            lemma_trimmed_keeps_out(head, '\n');
            lemma_trimmed_edges(head);
            assert(is_frame(line));
            assert forall|i: int| 0 <= i < frames(s).len() implies is_frame(
                #[trigger] frames(s)[i],
            ) by {
                if i > 0 {
                    assert(frames(s)[i] == frames(rest)[i - 1]);
                }
            }
        }
    }
}

/// Where the line that begins at `from` ends.
pub(crate) fn find_line_end(chars: &Vec<char>, from: usize) -> (end: usize)
    requires
        from <= chars@.len(),
    ensures
        from <= end <= chars@.len(),
        end - from == line_end(chars@.skip(from as int)),
{
    let mut end: usize = from;
    while end < chars.len() && chars[end] != '\n'
        invariant
            from <= end <= chars@.len(),
            forall|i: int| from <= i < end ==> chars@[i] != '\n',
        decreases chars@.len() - end,
    {
        end += 1;
    }
    proof {
        let sub = chars@.skip(from as int);
        assert forall|i: int| 0 <= i < end - from implies sub[i] != '\n' by {
            assert(sub[i] == chars@[i + from]);
        }
        if end < chars@.len() {
            assert(sub[end - from] == chars@[end as int]);
        }
        lemma_line_end(sub, end - from);
    }
    end
}

/// Splits `input` into its frames: one per line, trimmed, the lines that
/// hold nothing but white space left out.
pub fn ndjson_frames(input: &str) -> (lines: Vec<String>)
    ensures
        texts(lines@) == frames(input@),
{
    let chars = chars_of(input);
    let mut lines: Vec<String> = Vec::new();
    let mut pos: usize = 0;
    proof {
        assert(chars@.skip(0) =~= chars@);
        assert(texts(lines@) =~= Seq::<Seq<char>>::empty());
        assert(texts(lines@) + frames(chars@.skip(0)) =~= frames(chars@));
    }
    while pos < chars.len()
        invariant
            pos <= chars@.len(),
            chars@ == input@,
            texts(lines@) + frames(chars@.skip(pos as int)) == frames(chars@),
        decreases chars@.len() - pos,
    {
        let ghost sub = chars@.skip(pos as int);
        let ghost before = texts(lines@);
        let end = find_line_end(&chars, pos);
        let (a, b) = trim_bounds(&chars, pos, end);
        proof {
            assert(sub.take(end - pos) =~= chars@.subrange(pos as int, end as int));
        }
        if a < b {
            let line = text_of(&chars, a, b);
            lines.push(line);
            proof {
                assert(texts(lines@) =~= before + seq![line@]);
            }
        }
        let next: usize = if end < chars.len() {
            end + 1
        } else {
            end
        };
        proof {
            let rest = if 0 <= end - pos < sub.len() {
                sub.skip(end - pos + 1)
            } else {
                Seq::<char>::empty()
            };
            assert(rest =~= chars@.skip(next as int));
            let line = trimmed(sub.take(end - pos));
            if line.len() == 0 {
                assert(frames(sub) == frames(rest));
            } else {
                assert(frames(sub) == seq![line] + frames(rest));
                assert(texts(lines@) + frames(rest) =~= before + (seq![line] + frames(rest)));
            }
        }
        pos = next;
    }
    proof {
        assert(frames(chars@.skip(pos as int)) =~= Seq::<Seq<char>>::empty());
        assert(texts(lines@) + Seq::<Seq<char>>::empty() =~= texts(lines@));
    }
    lines
}

} // verus!
