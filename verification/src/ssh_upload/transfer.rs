//! Streaming one file to the remote shell, step by step.
use vstd::prelude::*;

use super::worker::{
    failure_text, finish_child, handle_early_child_exit, non_empty_output, poll_upload_control, ChildExit,
    ControlPoll, WorkerExit,
};
use crate::text::{concat2, concat3, concat4};

verus! {

/// Between two reports at least this long passes, except for the last.
pub const SSH_PROGRESS_INTERVAL_MS: u64 = 100;

/// A wait for the process looks this often.
pub const SSH_POLL_INTERVAL_MS: u64 = 100;

pub const SSH_UPLOAD_CHUNK_SIZE: usize = 262_144;

/// What the process that takes the bytes is doing.
pub enum ChildPoll {
    Running,
    Exited(ChildExit),
    Unknown(String),
}

/// Where a transfer stands.
#[derive(Clone, Copy, Debug, PartialEq, Eq, Structural)]
pub enum TransferPhase {
    /// The chunk is through: look around, then read the next.
    BeforeRead,
    Reading,
    /// Part of the chunk is left: look around, then write it.
    BeforeWrite,
    Writing,
    Over,
}

/// What to do next.
pub enum TransferNext {
    Look,
    Read,
    Write { from: usize, to: usize },
    /// Close standard input and wait for the process.
    CloseAndWait,
    Stop(Result<(), WorkerExit>),
}

pub struct TransferTurn {
    /// Kill the process and wait for it before anything else.
    pub kill: bool,
    /// Report that this much of the file went out.
    pub report: Option<u64>,
    pub next: TransferNext,
}

pub struct SshTransfer {
    pub name: String,
    pub path: String,
    pub size_bytes: u64,
    pub phase: TransferPhase,
    /// The chunk holds this many bytes, of which `written` went out.
    pub read: usize,
    pub written: usize,
    /// What went out of the whole file.
    pub sent: u64,
    pub last_report_ms: u64,
}

impl SshTransfer {
    pub open spec fn valid(self) -> bool {
        &&& self.written <= self.read
        &&& (self.phase == TransferPhase::BeforeWrite || self.phase == TransferPhase::Writing)
            ==> self.written < self.read
    }

    pub open spec fn detail_text(self) -> Seq<char> {
        "Uploading "@ + self.name@ + " over SSH"@
    }

    pub fn detail(&self) -> (detail: String)
        ensures
            detail@ == self.detail_text(),
    {
        concat3("Uploading ", self.name.as_str(), " over SSH")
    }

    pub fn new(name: String, path: String, size_bytes: u64, now_ms: u64) -> (transfer: Self)
        ensures
            transfer.valid(),
            transfer.name@ == name@,
            transfer.path@ == path@,
            transfer.size_bytes == size_bytes,
            transfer.phase == TransferPhase::BeforeRead,
            transfer.read == 0,
            transfer.written == 0,
            transfer.sent == 0,
            transfer.last_report_ms == now_ms,
    {
        SshTransfer {
            name,
            path,
            size_bytes,
            phase: TransferPhase::BeforeRead,
            read: 0,
            written: 0,
            sent: 0,
            last_report_ms: now_ms,
        }
    }

    /// Everything but the progress stays as it was.
    pub open spec fn same_file(self, other: Self) -> bool {
        self.name@ == other.name@ && self.path@ == other.path@ && self.size_bytes
            == other.size_bytes
    }

    pub open spec fn same_progress(self, other: Self) -> bool {
        self.read == other.read && self.written == other.written && self.sent == other.sent
            && self.last_report_ms == other.last_report_ms
    }

    /// Whether a look found a reason to stop, and which.
    pub open spec fn look_stops(self, control: ControlPoll, child: ChildPoll) -> bool {
        control != ControlPoll::Empty || !(child is Running)
    }

    /// A request or a lost panel comes before the end of the process.
    pub open spec fn stop_is(
        self,
        control: ControlPoll,
        child: ChildPoll,
        result: Result<(), WorkerExit>,
    ) -> bool {
        if control != ControlPoll::Empty {
            result matches Err(WorkerExit::Cancelled)
        } else {
            match child {
                ChildPoll::Unknown(error) => result matches Err(WorkerExit::Failed(text)) && text@
                    == "failed to poll SSH upload: "@ + error@,
                ChildPoll::Exited(exit) => if exit.success && self.sent >= self.size_bytes {
                    result is Ok
                } else {
                    result matches Err(WorkerExit::Failed(text)) && text@ == failure_text(
                        exit.output@,
                        if exit.success {
                            "SSH upload ended before all local bytes were sent"@
                        } else {
                            "command exited with status "@ + exit.status@
                        },
                    )
                },
                ChildPoll::Running => false,
            }
        }
    }

    /// After a look at the requests and the process.
    pub fn looked(&mut self, control: ControlPoll, child: ChildPoll) -> (turn: TransferTurn)
        requires
            old(self).valid(),
            old(self).phase == TransferPhase::BeforeRead || old(self).phase
                == TransferPhase::BeforeWrite,
        ensures
            final(self).valid(),
            final(self).same_file(*old(self)),
            final(self).same_progress(*old(self)),
            turn.report is None,
            turn.kill == (control is Requested),
            old(self).look_stops(control, child) ==> {
                &&& final(self).phase == TransferPhase::Over
                &&& turn.next matches TransferNext::Stop(result) && old(self).stop_is(
                    control,
                    child,
                    result,
                )
            },
            !old(self).look_stops(control, child) ==> if old(self).phase
                == TransferPhase::BeforeRead {
                final(self).phase == TransferPhase::Reading && turn.next is Read
            } else {
                final(self).phase == TransferPhase::Writing && turn.next == (TransferNext::Write {
                    from: old(self).written,
                    to: old(self).read,
                })
            },
    {
        let (verdict, kill) = poll_upload_control(control);
        if let Err(exit) = verdict {
            self.phase = TransferPhase::Over;
            return TransferTurn { kill, report: None, next: TransferNext::Stop(Err(exit)) };
        }
        match child {
            ChildPoll::Unknown(error) => {
                self.phase = TransferPhase::Over;
                let text = concat2("failed to poll SSH upload: ", error.as_str());
                TransferTurn {
                    kill: false,
                    report: None,
                    next: TransferNext::Stop(Err(WorkerExit::Failed(text))),
                }
            },
            ChildPoll::Exited(exit) => {
                self.phase = TransferPhase::Over;
                let result = handle_early_child_exit(&exit, self.sent, self.size_bytes);
                TransferTurn { kill: false, report: None, next: TransferNext::Stop(result) }
            },
            ChildPoll::Running => {
                if self.phase == TransferPhase::BeforeRead {
                    self.phase = TransferPhase::Reading;
                    TransferTurn { kill: false, report: None, next: TransferNext::Read }
                } else {
                    self.phase = TransferPhase::Writing;
                    TransferTurn {
                        kill: false,
                        report: None,
                        next: TransferNext::Write { from: self.written, to: self.read },
                    }
                }
            },
        }
    }

    /// After a read. Nothing read means the file is through: that is reported
    /// as its whole size.
    pub fn chunk_read(&mut self, count: Result<usize, String>) -> (turn: TransferTurn)
        requires
            old(self).valid(),
            old(self).phase == TransferPhase::Reading,
        ensures
            final(self).valid(),
            final(self).same_file(*old(self)),
            final(self).sent == old(self).sent,
            final(self).last_report_ms == old(self).last_report_ms,
            !turn.kill,
            match count {
                Err(error) => {
                    &&& final(self).phase == TransferPhase::Over
                    &&& final(self).same_progress(*old(self))
                    &&& turn.report is None
                    &&& turn.next matches TransferNext::Stop(Err(WorkerExit::Failed(text))) && text@
                        == "failed to read "@ + old(self).path@ + ": "@ + error@
                },
                Ok(read) => if read == 0 {
                    &&& final(self).phase == TransferPhase::Over
                    &&& final(self).same_progress(*old(self))
                    &&& turn.report == Some(old(self).size_bytes)
                    &&& turn.next is CloseAndWait
                } else {
                    &&& final(self).phase == TransferPhase::BeforeWrite
                    &&& final(self).read == read
                    &&& final(self).written == 0
                    &&& turn.report is None
                    &&& turn.next is Look
                },
            },
    {
        match count {
            Err(error) => {
                self.phase = TransferPhase::Over;
                let text = concat4("failed to read ", self.path.as_str(), ": ", error.as_str());
                TransferTurn {
                    kill: false,
                    report: None,
                    next: TransferNext::Stop(Err(WorkerExit::Failed(text))),
                }
            },
            Ok(read) => {
                if read == 0 {
                    self.phase = TransferPhase::Over;
                    return TransferTurn {
                        kill: false,
                        report: Some(self.size_bytes),
                        next: TransferNext::CloseAndWait,
                    };
                }
                self.phase = TransferPhase::BeforeWrite;
                self.read = read;
                self.written = 0;
                TransferTurn { kill: false, report: None, next: TransferNext::Look }
            },
        }
    }

    pub open spec fn sent_with(self, count: usize) -> u64 {
        if self.sent + count <= u64::MAX {
            (self.sent + count) as u64
        } else {
            u64::MAX
        }
    }

    /// A report is due after the interval, and always once the file's size has
    /// gone out.
    pub open spec fn report_due(self, sent: u64, now_ms: u64) -> bool {
        now_ms - self.last_report_ms >= SSH_PROGRESS_INTERVAL_MS || sent >= self.size_bytes
    }

    /// After a write.
    pub fn chunk_written(
        &mut self,
        count: Result<usize, String>,
        output: &str,
        now_ms: u64,
    ) -> (turn: TransferTurn)
        requires
            old(self).valid(),
            old(self).phase == TransferPhase::Writing,
            count matches Ok(n) ==> n <= old(self).read - old(self).written,
        ensures
            final(self).valid(),
            final(self).same_file(*old(self)),
            final(self).read == old(self).read,
            !turn.kill,
            match count {
                Err(error) => {
                    &&& final(self).phase == TransferPhase::Over
                    &&& final(self).same_progress(*old(self))
                    &&& turn.report is None
                    &&& turn.next matches TransferNext::Stop(Err(WorkerExit::Failed(text))) && text@
                        == failure_text(
                        output@,
                        "failed to stream "@ + old(self).name@ + " over SSH: "@ + error@,
                    )
                },
                Ok(n) => if n == 0 {
                    &&& final(self).phase == TransferPhase::Over
                    &&& final(self).same_progress(*old(self))
                    &&& turn.report is None
                    &&& turn.next matches TransferNext::Stop(Err(WorkerExit::Failed(text))) && text@
                        == failure_text(
                        output@,
                        "SSH upload for "@ + old(self).name@ + " stopped accepting data"@,
                    )
                } else {
                    &&& final(self).written == old(self).written + n
                    &&& final(self).sent == old(self).sent_with(n)
                    &&& turn.next is Look
                    &&& final(self).phase == (if old(self).written + n < old(self).read {
                        TransferPhase::BeforeWrite
                    } else {
                        TransferPhase::BeforeRead
                    })
                    &&& turn.report == (if old(self).report_due(final(self).sent, now_ms) {
                        Some(final(self).sent)
                    } else {
                        None
                    })
                    &&& final(self).last_report_ms == (if turn.report is Some {
                        now_ms
                    } else {
                        old(self).last_report_ms
                    })
                },
            },
    {
        match count {
            Err(error) => {
                self.phase = TransferPhase::Over;
                let fallback = concat4(
                    "failed to stream ",
                    self.name.as_str(),
                    " over SSH: ",
                    error.as_str(),
                );
                gave_up(output, fallback)
            },
            Ok(n) => {
                if n == 0 {
                    self.phase = TransferPhase::Over;
                    let fallback = concat3(
                        "SSH upload for ",
                        self.name.as_str(),
                        " stopped accepting data",
                    );
                    return gave_up(output, fallback);
                }
                self.written = self.written + n;
                self.sent = self.sent.saturating_add(n as u64);
                self.phase =
                if self.written < self.read {
                    TransferPhase::BeforeWrite
                } else {
                    TransferPhase::BeforeRead
                };
                let elapsed: u64 = if now_ms >= self.last_report_ms {
                    now_ms - self.last_report_ms
                } else {
                    0
                };
                if elapsed >= SSH_PROGRESS_INTERVAL_MS || self.sent >= self.size_bytes {
                    self.last_report_ms = now_ms;
                    TransferTurn {
                        kill: false,
                        report: Some(self.sent),
                        next: TransferNext::Look,
                    }
                } else {
                    TransferTurn { kill: false, report: None, next: TransferNext::Look }
                }
            },
        }
    }
}

/// What a wait goes on with.
pub enum WaitNext {
    /// Look again after the poll interval.
    Sleep,
    Stop(Result<(), WorkerExit>),
}

/// One look while waiting for the process to end; the flag says that it has to
/// be killed first.
pub fn wait_for_child(control: ControlPoll, child: ChildPoll) -> (turn: (WaitNext, bool))
    ensures
        turn.1 == (control is Requested),
        control != ControlPoll::Empty ==> turn.0 == WaitNext::Stop(Err(WorkerExit::Cancelled)),
        control == ControlPoll::Empty ==> match child {
            ChildPoll::Running => turn.0 is Sleep,
            ChildPoll::Unknown(error) => {
                turn.0 matches WaitNext::Stop(Err(WorkerExit::Failed(text))) && text@
                    == "failed to wait for upload: "@ + error@
            },
            ChildPoll::Exited(exit) => if exit.success {
                turn.0 matches WaitNext::Stop(Ok(_))
            } else {
                turn.0 matches WaitNext::Stop(Err(WorkerExit::Failed(text))) && text@
                    == failure_text(exit.output@, "command exited with status "@ + exit.status@)
            },
        },
{
    let (verdict, kill) = poll_upload_control(control);
    if let Err(exit) = verdict {
        return (WaitNext::Stop(Err(exit)), kill);
    }
    match child {
        ChildPoll::Running => (WaitNext::Sleep, false),
        ChildPoll::Unknown(error) => (
            WaitNext::Stop(
                Err(WorkerExit::Failed(concat2("failed to wait for upload: ", error.as_str()))),
            ),
            false,
        ),
        ChildPoll::Exited(exit) => (WaitNext::Stop(finish_child(&exit)), false),
    }
}

fn gave_up(output: &str, fallback: String) -> (turn: TransferTurn)
    ensures
        !turn.kill,
        turn.report is None,
        turn.next matches TransferNext::Stop(Err(WorkerExit::Failed(text))) && text@
            == failure_text(output@, fallback@),
{
    let text = match non_empty_output(output) {
        Some(text) => text,
        None => fallback,
    };
    TransferTurn {
        kill: false,
        report: None,
        next: TransferNext::Stop(Err(WorkerExit::Failed(text))),
    }
}

/// A transfer goes on only while nobody asks it to stop and the process runs. A
/// request, or a panel that is gone, cancels it; a process that ends early is a
/// success only where it says so and the whole file had gone out.
pub proof fn law_transfers_stop_for_a_reason(
    transfer: SshTransfer,
    control: ControlPoll,
    child: ChildPoll,
    result: Result<(), WorkerExit>,
)
    requires
        transfer.stop_is(control, child, result),
    ensures
        transfer.look_stops(control, child),
        !(control is Empty) ==> result matches Err(WorkerExit::Cancelled),
        control is Empty ==> !(result matches Err(WorkerExit::Cancelled)),
        control is Empty ==> (child matches ChildPoll::Exited(exit) ==> (result is Ok
            <==> exit.success && transfer.sent >= transfer.size_bytes)),
        control is Empty && child is Unknown ==> result is Err,
        result is Ok ==> transfer.sent >= transfer.size_bytes,
{
}

/// Nothing stops a transfer whose process runs and which nobody asked anything.
pub proof fn law_transfers_go_on_while_the_process_runs(transfer: SshTransfer)
    ensures
        !transfer.look_stops(ControlPoll::Empty, ChildPoll::Running),
{
}

/// What went out is counted byte by byte, up to what the counter holds. It is
/// reported once a tenth of a second has passed, and at once when the file's
/// size has gone out.
pub proof fn law_progress_counts_what_went_out(transfer: SshTransfer, count: usize, now_ms: u64)
    ensures
        transfer.sent + count <= u64::MAX ==> transfer.sent_with(count) == transfer.sent + count,
        transfer.sent + count > u64::MAX ==> transfer.sent_with(count) == u64::MAX,
        ({
            let sent = transfer.sent_with(count);
            &&& sent >= transfer.size_bytes ==> transfer.report_due(sent, now_ms)
            &&& now_ms >= transfer.last_report_ms + 100 ==> transfer.report_due(sent, now_ms)
            &&& sent < transfer.size_bytes && now_ms < transfer.last_report_ms + 100
                ==> !transfer.report_due(sent, now_ms)
        }),
{
}

/// A transfer of the same file has its name, its path and its size; one that is
/// as far has read, written and sent as much, and reported as late.
pub proof fn law_transfers_are_the_same_in_all(a: SshTransfer, b: SshTransfer)
    ensures
        a.same_file(b) ==> a.name@ == b.name@ && a.path@ == b.path@ && a.size_bytes
            == b.size_bytes,
        a.same_progress(b) ==> a.read == b.read && a.written == b.written && a.sent == b.sent
            && a.last_report_ms == b.last_report_ms,
        a.detail_text() == "Uploading "@ + a.name@ + " over SSH"@,
{
}

} // verus!
