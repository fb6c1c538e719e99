//! What an SSH tunnel said before it ended.
use vstd::prelude::*;

use super::frame::ViewError;
use crate::text::{
    chars_of, concat3, contains_text, has_prefix, has_text, join_text, joined, starts_with,
    string_of, texts, trim, trim_span,
};

verus! {

/// Scalars kept of a line.
pub const STDERR_LINE_CHARS: usize = 200;

/// A failed forward is reported as a cause line followed by a summary line.
pub const STDERR_TAIL_LINES: usize = 2;

/// How long to wait for the diagnostic after the pipe closed.
pub const STDERR_FLUSH_GRACE_MS: u64 = 300;

/// A killed process exits at once; this only bounds a wedged one.
pub const REAP_TIMEOUT_MS: u64 = 2_000;

/// The last lines that the tunnel printed.
pub struct StderrTail {
    pub lines: Vec<String>,
}

pub open spec fn cut_line(line: Seq<char>) -> Seq<char> {
    if line.len() > STDERR_LINE_CHARS {
        line.take(STDERR_LINE_CHARS as int)
    } else {
        line
    }
}

/// The tail after one more line: a blank line counts for nothing, and the
/// oldest makes room.
pub open spec fn tail_after(tail: Seq<Seq<char>>, line: Seq<char>) -> Seq<Seq<char>> {
    let text = trim(line);
    if text.len() == 0 {
        tail
    } else if tail.len() >= STDERR_TAIL_LINES {
        tail.drop_first().push(cut_line(text))
    } else {
        tail.push(cut_line(text))
    }
}

pub open spec fn known_key_mark() -> Seq<char> {
    "host key is known"@
}

pub open spec fn trust_hint() -> Seq<char> {
    " (the tunnel never trusts a first-contact key; open the host over SSH once to trust it)"@
}

/// What the end of a connection reads as, given what ssh said. A host key that
/// is not known yet can be trusted by connecting once; nothing of the kind is
/// offered for one that changed.
pub open spec fn explained(error: Seq<char>, tail: Seq<char>) -> Seq<char> {
    if contains_text(tail, known_key_mark()) {
        error + "; ssh: "@ + tail + trust_hint()
    } else if starts_with(tail, "ssh: "@) {
        error + "; "@ + tail
    } else {
        error + "; ssh: "@ + tail
    }
}

impl StderrTail {
    pub open spec fn valid(self) -> bool {
        self.lines@.len() <= STDERR_TAIL_LINES
    }

    pub fn new() -> (tail: Self)
        ensures
            tail.valid(),
            tail.lines@.len() == 0,
    {
        StderrTail { lines: Vec::new() }
    }

    pub fn push_line(&mut self, line: &str)
        requires
            old(self).valid(),
        ensures
            final(self).valid(),
            texts(final(self).lines@) == tail_after(texts(old(self).lines@), line@),
    {
        let chars = chars_of(line);
        let (from, to) = trim_span(chars.as_slice());
        if from == to {
            return ;
        }
        let ghost before = texts(self.lines@);
        if self.lines.len() == STDERR_TAIL_LINES {
            let oldest = self.lines.remove(0);
            assert(texts(self.lines@) =~= before.drop_first());
        }
        let end: usize = if to - from > STDERR_LINE_CHARS {
            from + STDERR_LINE_CHARS
        } else {
            to
        };
        let kept = string_of(chars.as_slice(), from, end);
        let ghost text = kept@;
        assert(text =~= cut_line(trim(line@)));
        let ghost shorter = texts(self.lines@);
        self.lines.push(kept);
        assert(texts(self.lines@) =~= shorter.push(text));
    }

    /// Attaches what ssh said, which names the real failure when the forwarded
    /// stream simply ended.
    pub fn explain(&self, error: ViewError) -> (explained_error: ViewError)
        ensures
            ({
                let tail = join_text(texts(self.lines@), "; "@);
                if tail.len() == 0 {
                    explained_error == error
                } else {
                    &&& explained_error is Tunnel
                    &&& explained_error.text() == explained(error.text(), tail)
                }
            }),
    {
        let tail = joined(self.lines.as_slice(), "; ");
        if tail.as_str().is_empty() {
            return error;
        }
        let text = error.message();
        if has_text(tail.as_str(), "host key is known") {
            let mut long = concat3(text.as_str(), "; ssh: ", tail.as_str());
            long.append(
                " (the tunnel never trusts a first-contact key; open the host over SSH once to trust it)",
            );
            ViewError::Tunnel(long)
        } else if has_prefix(tail.as_str(), "ssh: ") {
            ViewError::Tunnel(concat3(text.as_str(), "; ", tail.as_str()))
        } else {
            ViewError::Tunnel(concat3(text.as_str(), "; ssh: ", tail.as_str()))
        }
    }
}

/// Whether to go on waiting for a killed process.
#[derive(Clone, Copy, Debug, PartialEq, Eq, Structural)]
pub enum Reaping {
    Done,
    Wait,
    /// It did not exit in time.
    GiveUp,
}

/// `exited` says whether the process is gone, or can no longer be asked.
pub fn reap_step(exited: bool, waited_ms: u64) -> (step: Reaping)
    ensures
        step == (if exited {
            Reaping::Done
        } else if waited_ms < REAP_TIMEOUT_MS {
            Reaping::Wait
        } else {
            Reaping::GiveUp
        }),
{
    if exited {
        Reaping::Done
    } else if waited_ms < REAP_TIMEOUT_MS {
        Reaping::Wait
    } else {
        Reaping::GiveUp
    }
}

/// The last two lines are kept, each trimmed and cut to two hundred characters;
/// a blank line counts for nothing.
pub proof fn law_the_last_two_lines_are_kept(tail: Seq<Seq<char>>, line: Seq<char>)
    requires
        tail.len() <= 2,
    ensures
        ({
            let after = tail_after(tail, line);
            let text = trim(line);
            &&& text.len() == 0 ==> after == tail
            &&& text.len() > 0 ==> after.len() <= 2 && after.len() >= 1
            &&& 0 < text.len() <= 200 ==> after.last() == text
            &&& text.len() > 200 ==> after.last() == text.take(200)
            &&& text.len() > 0 && tail.len() > 0 ==> after.len() == 2 && after[0] == tail.last()
            &&& text.len() > 0 && tail.len() == 0 ==> after.len() == 1
        }),
{
}

/// What ssh said follows the error, marked as its words once; a first contact
/// with a host is explained.
pub proof fn law_what_ssh_said_is_attached(error: Seq<char>, tail: Seq<char>)
    ensures
        contains_text(tail, "host key is known"@) ==> explained(error, tail) == error + "; ssh: "@
            + tail
            + " (the tunnel never trusts a first-contact key; open the host over SSH once to trust it)"@,
        !contains_text(tail, "host key is known"@) && starts_with(tail, "ssh: "@) ==> explained(
            error,
            tail,
        ) == error + "; "@ + tail,
        !contains_text(tail, "host key is known"@) && !starts_with(tail, "ssh: "@) ==> explained(
            error,
            tail,
        ) == error + "; ssh: "@ + tail,
{
}

/// A killed process is waited for two seconds, and its last words three tenths
/// of one.
pub proof fn law_waits_are_bounded(waited_ms: u64)
    ensures
        waited_ms < REAP_TIMEOUT_MS <==> waited_ms < 2_000,
        waited_ms < STDERR_FLUSH_GRACE_MS <==> waited_ms < 300,
{
}

} // verus!
