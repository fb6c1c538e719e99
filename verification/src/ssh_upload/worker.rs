//! The upload worker: what it tells the panel, and what it does next.
use vstd::prelude::*;

use crate::text::{
    ascii_lowercase, concat2, concat3, concat4, contains_text, decimal, decimal_of, has_text,
    lowercased, opt_text, trim, trimmed,
};

verus! {

pub struct LocalUploadFile {
    pub path: String,
    pub name: String,
    pub size_bytes: u64,
}

/// What a file to upload is.
pub struct FileView {
    pub path: Seq<char>,
    pub name: Seq<char>,
    pub size_bytes: u64,
}

impl View for LocalUploadFile {
    type V = FileView;

    open spec fn view(&self) -> FileView {
        FileView { path: self.path@, name: self.name@, size_bytes: self.size_bytes }
    }
}

/// What the file system said about a dropped path.
pub enum PathProbe {
    File { size_bytes: u64 },
    Other,
    Unreadable(String),
}

pub struct DroppedPath {
    /// The whole path, for messages.
    pub path: String,
    /// Its last component, where it has one that is valid Unicode.
    pub file_name: Option<String>,
    pub probe: PathProbe,
}

impl DroppedPath {
    pub open spec fn outcome(self) -> Result<FileView, Seq<char>> {
        match self.probe {
            PathProbe::Unreadable(error) => Err(
                "failed to read "@ + self.path@ + ": "@ + error@,
            ),
            PathProbe::Other => Err(self.path@ + " is not a regular file"@),
            PathProbe::File { size_bytes } => Ok(
                FileView {
                    path: self.path@,
                    name: match self.file_name {
                        Some(name) => name@,
                        None => self.path@,
                    },
                    size_bytes,
                },
            ),
        }
    }
}

impl LocalUploadFile {
    pub fn from_path(dropped: &DroppedPath) -> (file: Result<Self, String>)
        ensures
            match (file, dropped.outcome()) {
                (Ok(f), Ok(v)) => f@ == v,
                (Err(e), Err(t)) => e@ == t,
                _ => false,
            },
    {
        match &dropped.probe {
            PathProbe::Unreadable(error) => Err(
                concat4("failed to read ", dropped.path.as_str(), ": ", error.as_str()),
            ),
            PathProbe::Other => Err(concat2(dropped.path.as_str(), " is not a regular file")),
            PathProbe::File { size_bytes } => {
                let name = match &dropped.file_name {
                    Some(name) => name.clone(),
                    None => dropped.path.clone(),
                };
                Ok(LocalUploadFile { path: dropped.path.clone(), name, size_bytes: *size_bytes })
            },
        }
    }
}

pub open spec fn file_views(files: Seq<LocalUploadFile>) -> Seq<FileView> {
    files.map_values(|f: LocalUploadFile| f@)
}

pub open spec fn first_failure(paths: Seq<DroppedPath>) -> Option<Seq<char>>
    decreases paths.len(),
{
    if paths.len() == 0 {
        None
    } else {
        match paths[0].outcome() {
            Err(error) => Some(error),
            Ok(_) => first_failure(paths.drop_first()),
        }
    }
}

/// The files behind the dropped paths; the first path that is none fails the
/// whole drop, and so does a drop without paths.
pub fn build_local_upload_files(paths: &Vec<DroppedPath>) -> (files: Result<
    Vec<LocalUploadFile>,
    String,
>)
    ensures
        match first_failure(paths@) {
            Some(error) => files is Err && files->Err_0@ == error,
            None => if paths@.len() == 0 {
                files is Err && files->Err_0@
                    == "only local filesystem file drops are supported"@
            } else {
                &&& files is Ok
                &&& files->Ok_0@.len() == paths@.len()
                &&& forall|i: int|
                    0 <= i < paths@.len() ==> Ok::<FileView, Seq<char>>(
                        #[trigger] files->Ok_0@[i]@,
                    ) == paths@[i].outcome()
            },
        },
{
    let mut files: Vec<LocalUploadFile> = Vec::new();
    let mut i: usize = 0;
    assert(paths@.skip(0) =~= paths@);
    while i < paths.len()
        invariant
            i <= paths@.len(),
            files@.len() == i,
            first_failure(paths@) == first_failure(paths@.skip(i as int)),
            forall|j: int|
                0 <= j < i ==> Ok::<FileView, Seq<char>>(#[trigger] files@[j]@)
                    == paths@[j].outcome(),
        decreases paths@.len() - i,
    {
        assert(paths@.skip(i as int)[0] == paths@[i as int]);
        assert(paths@.skip(i as int).drop_first() =~= paths@.skip(i + 1));
        match LocalUploadFile::from_path(&paths[i]) {
            Ok(file) => {
                files.push(file);
            },
            Err(error) => {
                return Err(error);
            },
        }
        i = i + 1;
    }
    if files.len() == 0 {
        return Err("only local filesystem file drops are supported".to_owned());
    }
    Ok(files)
}

pub struct PreparationResult {
    pub suggested_destination: Option<String>,
    pub ssh_upload_error: Option<String>,
    pub taildrop_target: Option<String>,
}

/// Puts together what was found out about a session before an upload. A
/// destination used before is suggested again, unless it is blank.
pub fn prepare(
    taildrop_target: Option<String>,
    probed: Result<String, String>,
    last_destination: Option<String>,
) -> (result: PreparationResult)
    ensures
        opt_text(result.taildrop_target) == opt_text(taildrop_target),
        match probed {
            Ok(directory) => {
                &&& result.ssh_upload_error is None
                &&& opt_text(result.suggested_destination) == Some(
                    match last_destination {
                        Some(path) => if trim(path@).len() > 0 {
                            path@
                        } else {
                            directory@
                        },
                        None => directory@,
                    },
                )
            },
            Err(error) => {
                &&& result.suggested_destination is None
                &&& opt_text(result.ssh_upload_error) == Some(probe_error_text(error@))
            },
        },
{
    match probed {
        Ok(directory) => {
            let suggested = match last_destination {
                Some(path) => if trimmed(path.as_str()).as_str().is_empty() {
                    directory
                } else {
                    path
                },
                None => directory,
            };
            PreparationResult {
                suggested_destination: Some(suggested),
                ssh_upload_error: None,
                taildrop_target,
            }
        },
        Err(error) => PreparationResult {
            suggested_destination: None,
            ssh_upload_error: Some(classify_ssh_probe_error(error.as_str())),
            taildrop_target,
        },
    }
}

/// What marks an error as coming from a login that wants a person.
pub open spec fn interactive_marks() -> Seq<Seq<char>> {
    seq![
        "permission denied"@,
        "keyboard-interactive"@,
        "password:"@,
        "passphrase"@,
        "verification code"@,
        "one-time password"@,
        "confirm user presence"@,
        "agent refused operation"@,
        "sign_and_send_pubkey"@,
        "batchmode"@,
        "no tty present"@,
    ]
}

/// One of the marks stands in `error`, whatever its ASCII case.
pub open spec fn wants_a_person(error: Seq<char>) -> bool {
    exists|i: int|
        0 <= i < interactive_marks().len() && contains_text(
            ascii_lowercase(error),
            #[trigger] interactive_marks()[i],
        )
}

pub open spec fn interactive_text() -> Seq<char> {
    "SSH upload requires non-interactive authentication for new SSH upload commands. This session appears to need a password, OTP, or hardware-key prompt, so drag-and-drop SSH upload is unavailable."@
}

pub open spec fn probe_error_text(error: Seq<char>) -> Seq<char> {
    if wants_a_person(error) {
        interactive_text()
    } else {
        "SSH upload is unavailable for this session: "@ + error
    }
}

pub fn classify_ssh_probe_error(error: &str) -> (text: String)
    ensures
        text@ == probe_error_text(error@),
{
    if requires_interactive_ssh_auth(error) {
        return "SSH upload requires non-interactive authentication for new SSH upload commands. This session appears to need a password, OTP, or hardware-key prompt, so drag-and-drop SSH upload is unavailable.".to_owned();
    }
    concat2("SSH upload is unavailable for this session: ", error)
}

pub fn requires_interactive_ssh_auth(error: &str) -> (yes: bool)
    ensures
        yes == wants_a_person(error@),
{
    let lower = lowercased(error);
    let marks: [&str; 11] = [
        "permission denied",
        "keyboard-interactive",
        "password:",
        "passphrase",
        "verification code",
        "one-time password",
        "confirm user presence",
        "agent refused operation",
        "sign_and_send_pubkey",
        "batchmode",
        "no tty present",
    ];
    let ghost spec_marks = interactive_marks();
    assert(spec_marks.len() == 11);
    assert forall|i: int| 0 <= i < 11 implies (#[trigger] marks@[i])@ == spec_marks[i] by {}
    let mut i: usize = 0;
    while i < 11
        invariant
            i <= 11,
            lower@ == ascii_lowercase(error@),
            spec_marks == interactive_marks(),
            spec_marks.len() == 11,
            marks@.len() == 11,
            forall|j: int| 0 <= j < 11 ==> (#[trigger] marks@[j])@ == spec_marks[j],
            forall|j: int|
                0 <= j < i ==> !contains_text(
                    ascii_lowercase(error@),
                    #[trigger] interactive_marks()[j],
                ),
        decreases 11 - i,
    {
        if has_text(lower.as_str(), marks[i]) {
            assert(marks@[i as int]@ == spec_marks[i as int]);
            assert(contains_text(ascii_lowercase(error@), interactive_marks()[i as int]));
            return true;
        }
        assert(marks@[i as int]@ == spec_marks[i as int]);
        i = i + 1;
    }
    false
}

pub fn non_empty_output(output: &str) -> (text: Option<String>)
    ensures
        opt_text(text) == (if trim(output@).len() > 0 {
            Some(trim(output@))
        } else {
            None
        }),
{
    let t = trimmed(output);
    if t.as_str().is_empty() {
        None
    } else {
        Some(t)
    }
}

/// Standard output followed by standard error; a line feed stands between them
/// where both say something, and a blank standard error is left out.
pub open spec fn joined_output(stdout: Option<Seq<char>>, stderr: Option<Seq<char>>) -> Seq<char> {
    let out = match stdout {
        Some(s) => s,
        None => Seq::empty(),
    };
    match stderr {
        Some(err) => if trim(err).len() == 0 {
            out
        } else if trim(out).len() > 0 {
            out.push('\n') + err
        } else {
            out + err
        },
        None => out,
    }
}

pub fn child_output(stdout: Option<String>, stderr: Option<String>) -> (output: String)
    ensures
        output@ == joined_output(opt_text(stdout), opt_text(stderr)),
{
    let mut output = match stdout {
        Some(s) => s,
        None => String::new(),
    };
    if let Some(err) = stderr {
        if !trimmed(err.as_str()).as_str().is_empty() {
            if !trimmed(output.as_str()).as_str().is_empty() {
                output.push('\n');
            }
            output.append(err.as_str());
        }
    }
    output
}

pub enum WorkerExit {
    Cancelled,
    Failed(String),
}

/// How a child process that ended went.
pub struct ChildExit {
    pub success: bool,
    /// The exit status in words.
    pub status: String,
    /// What it printed, as `child_output` joins it.
    pub output: String,
}

/// `fallback` unless the output says something.
pub open spec fn failure_text(output: Seq<char>, fallback: Seq<char>) -> Seq<char> {
    if trim(output).len() > 0 {
        trim(output)
    } else {
        fallback
    }
}

fn failure(output: &str, fallback: String) -> (exit: WorkerExit)
    ensures
        exit matches WorkerExit::Failed(text) && text@ == failure_text(output@, fallback@),
{
    match non_empty_output(output) {
        Some(text) => WorkerExit::Failed(text),
        None => WorkerExit::Failed(fallback),
    }
}

/// The end of a process that was waited for.
pub fn finish_child(exit: &ChildExit) -> (result: Result<(), WorkerExit>)
    ensures
        exit.success ==> result is Ok,
        !exit.success ==> (result matches Err(WorkerExit::Failed(text)) && text@ == failure_text(
            exit.output@,
            "command exited with status "@ + exit.status@,
        )),
{
    if exit.success {
        return Ok(());
    }
    Err(
        failure(
            exit.output.as_str(),
            concat2("command exited with status ", exit.status.as_str()),
        ),
    )
}

/// The end of an SSH upload process before standard input was closed. It went
/// well only where every local byte had been sent.
pub fn handle_early_child_exit(
    exit: &ChildExit,
    current_file_bytes: u64,
    expected_file_bytes: u64,
) -> (result: Result<(), WorkerExit>)
    ensures
        (result is Ok) == (exit.success && current_file_bytes >= expected_file_bytes),
        result is Err ==> (result matches Err(WorkerExit::Failed(text)) && text@ == failure_text(
            exit.output@,
            if exit.success {
                "SSH upload ended before all local bytes were sent"@
            } else {
                "command exited with status "@ + exit.status@
            },
        )),
{
    if exit.success && current_file_bytes >= expected_file_bytes {
        return Ok(());
    }
    let fallback = if exit.success {
        "SSH upload ended before all local bytes were sent".to_owned()
    } else {
        concat2("command exited with status ", exit.status.as_str())
    };
    Err(failure(exit.output.as_str(), fallback))
}

#[derive(Clone, Copy, Debug, PartialEq, Eq, Structural)]
pub enum UploadControl {
    Cancel,
}

/// The panel's end of a running upload: what it asked of the worker and the
/// worker has not taken yet.
pub struct UploadWorkerHandle {
    pub controls: Vec<UploadControl>,
}

impl UploadWorkerHandle {
    pub fn new() -> (handle: Self)
        ensures
            handle.controls@.len() == 0,
    {
        UploadWorkerHandle { controls: Vec::new() }
    }

    pub fn cancel(&mut self)
        ensures
            final(self).controls@ == old(self).controls@.push(UploadControl::Cancel),
    {
        self.controls.push(UploadControl::Cancel);
    }

    /// Hands the worker the oldest request.
    pub fn poll(&mut self) -> (poll: ControlPoll)
        ensures
            poll == (if old(self).controls@.len() > 0 {
                ControlPoll::Requested(old(self).controls@[0])
            } else {
                ControlPoll::Empty
            }),
            final(self).controls@ == (if old(self).controls@.len() > 0 {
                old(self).controls@.remove(0)
            } else {
                old(self).controls@
            }),
    {
        if self.controls.len() == 0 {
            return ControlPoll::Empty;
        }
        ControlPoll::Requested(self.controls.remove(0))
    }
}

/// What the worker finds when it looks for requests.
#[derive(Clone, Copy, Debug, PartialEq, Eq, Structural)]
pub enum ControlPoll {
    Empty,
    Requested(UploadControl),
    Disconnected,
}

/// Whether the worker goes on; the flag says that it has to kill the process
/// first.
pub fn poll_upload_control(poll: ControlPoll) -> (verdict: (Result<(), WorkerExit>, bool))
    ensures
        (verdict.0 is Ok) == (poll == ControlPoll::Empty),
        verdict.0 is Err ==> verdict.0->Err_0 is Cancelled,
        verdict.1 == (poll is Requested),
{
    match poll {
        ControlPoll::Requested(UploadControl::Cancel) => (Err(WorkerExit::Cancelled), true),
        ControlPoll::Empty => (Ok(()), false),
        ControlPoll::Disconnected => (Err(WorkerExit::Cancelled), false),
    }
}

pub struct UploadSnapshot {
    pub completed_files: usize,
    pub total_files: usize,
    pub completed_bytes: u64,
    pub total_bytes: u64,
    pub current_file_name: Option<String>,
    pub current_file_size: Option<u64>,
    pub detail: String,
}

#[derive(Clone, Copy, Debug, PartialEq, Eq, Structural)]
pub struct UploadProgressContext {
    pub completed_files: usize,
    pub total_files: usize,
    pub completed_bytes: u64,
    pub total_bytes: u64,
}

pub open spec fn lesser(a: u64, b: u64) -> u64 {
    if a <= b {
        a
    } else {
        b
    }
}

pub open spec fn saturating_sum(a: u64, b: u64) -> u64 {
    if a + b <= u64::MAX {
        (a + b) as u64
    } else {
        u64::MAX
    }
}

impl UploadProgressContext {
    /// Progress while `file` is being sent. What was read of a file that grew
    /// counts no more than its size.
    pub fn snapshot_for(
        self,
        file: &LocalUploadFile,
        current_file_bytes: u64,
        detail: &str,
    ) -> (snapshot: UploadSnapshot)
        ensures
            snapshot.completed_files == self.completed_files,
            snapshot.total_files == self.total_files,
            snapshot.completed_bytes == saturating_sum(
                self.completed_bytes,
                lesser(current_file_bytes, file.size_bytes),
            ),
            snapshot.total_bytes == self.total_bytes,
            opt_text(snapshot.current_file_name) == Some(file.name@),
            snapshot.current_file_size == Some(file.size_bytes),
            snapshot.detail@ == detail@,
    {
        let counted: u64 = if current_file_bytes <= file.size_bytes {
            current_file_bytes
        } else {
            file.size_bytes
        };
        UploadSnapshot {
            completed_files: self.completed_files,
            total_files: self.total_files,
            completed_bytes: self.completed_bytes.saturating_add(counted),
            total_bytes: self.total_bytes,
            current_file_name: Some(file.name.clone()),
            current_file_size: Some(file.size_bytes),
            detail: detail.to_owned(),
        }
    }
}

pub struct UploadOutcome {
    pub cancelled: bool,
    pub completed_files: usize,
    pub total_files: usize,
    pub completed_bytes: u64,
    pub total_bytes: u64,
    pub detail: String,
}

pub enum UploadTransport {
    Ssh { destination_dir: String },
    Taildrop { target: String },
}

/// The bytes of all `files` together.
pub open spec fn size_sum(files: Seq<FileView>) -> int
    decreases files.len(),
{
    if files.len() == 0 {
        0
    } else {
        size_sum(files.drop_last()) + files.last().size_bytes
    }
}

proof fn lemma_size_sum_grows(files: Seq<FileView>, n: int)
    requires
        0 <= n <= files.len(),
    ensures
        0 <= size_sum(files.take(n)) <= size_sum(files),
    decreases files.len(),
{
    if n < files.len() {
        lemma_size_sum_grows(files.drop_last(), n);
        assert(files.drop_last().take(n) =~= files.take(n));
    } else {
        assert(files.take(n) =~= files);
        if files.len() > 0 {
            lemma_size_sum_grows(files.drop_last(), files.len() - 1);
            assert(files.drop_last().take(files.len() - 1) =~= files.drop_last());
        }
    }
}

/// What the worker does after it has set up, or after a file.
pub enum WorkerTurn {
    /// Send the file with this index.
    Send { file: usize },
    /// Report this and end.
    Finish(Result<UploadOutcome, String>),
}

/// A worker that sends `files` one after the other.
pub struct UploadWorker {
    pub files: Vec<LocalUploadFile>,
    pub completed_files: usize,
    pub completed_bytes: u64,
    pub total_bytes: u64,
}

impl UploadWorker {
    pub open spec fn valid(self) -> bool {
        &&& self.completed_files <= self.files@.len()
        &&& self.total_bytes == size_sum(file_views(self.files@))
        &&& self.completed_bytes == size_sum(
            file_views(self.files@).take(self.completed_files as int),
        )
    }

    /// Where the sizes add up to more than a `u64` holds there is no worker.
    pub fn start(files: Vec<LocalUploadFile>) -> (worker: Option<Self>)
        ensures
            (worker is Some) == (size_sum(file_views(files@)) <= u64::MAX),
            worker matches Some(w) ==> w.valid() && w.files@ == files@ && w.completed_files == 0
                && w.completed_bytes == 0,
    {
        let mut total: u64 = 0;
        let mut i: usize = 0;
        let ghost views = file_views(files@);
        assert(views.take(0) =~= Seq::<FileView>::empty());
        while i < files.len()
            invariant
                views == file_views(files@),
                i <= files@.len(),
                total == size_sum(views.take(i as int)),
            decreases files@.len() - i,
        {
            assert(views.take(i + 1).drop_last() =~= views.take(i as int));
            assert(views.take(i + 1).last() == files@[i as int]@);
            let size: u64 = files[i].size_bytes;
            if size > u64::MAX - total {
                proof {
                    lemma_size_sum_grows(views, i + 1);
                }
                return None;
            }
            total = total + size;
            i = i + 1;
        }
        assert(views.take(i as int) =~= views);
        Some(UploadWorker { files, completed_files: 0, completed_bytes: 0, total_bytes: total })
    }

    pub open spec fn progress_view(self) -> UploadProgressContext {
        UploadProgressContext {
            completed_files: self.completed_files,
            total_files: self.files@.len() as usize,
            completed_bytes: self.completed_bytes,
            total_bytes: self.total_bytes,
        }
    }

    pub fn progress(&self) -> (context: UploadProgressContext)
        ensures
            context == self.progress_view(),
    {
        UploadProgressContext {
            completed_files: self.completed_files,
            total_files: self.files.len(),
            completed_bytes: self.completed_bytes,
            total_bytes: self.total_bytes,
        }
    }

    pub open spec fn outcome_is(self, cancelled: bool, detail: Seq<char>, outcome: UploadOutcome) -> bool {
        &&& outcome.cancelled == cancelled
        &&& outcome.completed_files == self.completed_files
        &&& outcome.total_files == self.files@.len()
        &&& outcome.completed_bytes == self.completed_bytes
        &&& outcome.total_bytes == self.total_bytes
        &&& outcome.detail@ == detail
    }

    fn outcome(&self, cancelled: bool, detail: String) -> (outcome: UploadOutcome)
        ensures
            self.outcome_is(cancelled, detail@, outcome),
    {
        UploadOutcome {
            cancelled,
            completed_files: self.completed_files,
            total_files: self.files.len(),
            completed_bytes: self.completed_bytes,
            total_bytes: self.total_bytes,
            detail,
        }
    }

    /// The next file, or the report that all are done.
    pub open spec fn next_is(self, turn: WorkerTurn) -> bool {
        if self.completed_files < self.files@.len() {
            turn == (WorkerTurn::Send { file: self.completed_files })
        } else {
            turn matches WorkerTurn::Finish(Ok(outcome)) && self.outcome_is(
                false,
                "Uploaded "@ + decimal(self.completed_files as nat) + " file(s)"@,
                outcome,
            )
        }
    }

    fn next(&self) -> (turn: WorkerTurn)
        requires
            self.valid(),
        ensures
            self.next_is(turn),
    {
        if self.completed_files < self.files.len() {
            return WorkerTurn::Send { file: self.completed_files };
        }
        let detail = concat3(
            "Uploaded ",
            decimal_of(self.completed_files as u64).as_str(),
            " file(s)",
        );
        WorkerTurn::Finish(Ok(self.outcome(false, detail)))
    }

    /// The first turn: a destination that could not be resolved ends the upload.
    pub fn begin(&self, resolved: Result<(), String>) -> (turn: WorkerTurn)
        requires
            self.valid(),
        ensures
            match resolved {
                Ok(_) => self.next_is(turn),
                Err(error) => turn matches WorkerTurn::Finish(Err(text)) && text@ == error@,
            },
    {
        match resolved {
            Ok(_) => self.next(),
            Err(error) => WorkerTurn::Finish(Err(error)),
        }
    }

    /// What follows once the file being sent is through.
    pub fn file_done(&mut self, result: Result<(), WorkerExit>) -> (turn: WorkerTurn)
        requires
            old(self).valid(),
            old(self).completed_files < old(self).files@.len(),
        ensures
            final(self).valid(),
            final(self).files@ == old(self).files@,
            final(self).total_bytes == old(self).total_bytes,
            match result {
                Ok(_) => {
                    &&& final(self).completed_files == old(self).completed_files + 1
                    &&& final(self).completed_bytes == old(self).completed_bytes + old(
                        self,
                    ).files@[old(self).completed_files as int].size_bytes
                    &&& final(self).next_is(turn)
                },
                Err(WorkerExit::Cancelled) => {
                    &&& *final(self) == *old(self)
                    &&& turn matches WorkerTurn::Finish(Ok(outcome)) && old(self).outcome_is(
                        true,
                        "Cancelled after "@ + decimal(old(self).completed_files as nat) + " of "@
                            + decimal(old(self).files@.len()) + " files"@,
                        outcome,
                    )
                },
                Err(WorkerExit::Failed(error)) => {
                    &&& *final(self) == *old(self)
                    &&& turn matches WorkerTurn::Finish(Err(text)) && text@ == error@
                },
            },
    {
        match result {
            Ok(_) => {
                let ghost views = file_views(self.files@);
                let ghost at = self.completed_files as int;
                proof {
                    assert(views.take(at + 1).drop_last() =~= views.take(at));
                    assert(views.take(at + 1).last() == self.files@[at]@);
                    lemma_size_sum_grows(views, at + 1);
                }
                let size: u64 = self.files[self.completed_files].size_bytes;
                assert(self.completed_files < self.files.len());
                self.completed_files = self.completed_files + 1;
                self.completed_bytes = self.completed_bytes + size;
                self.next()
            },
            Err(WorkerExit::Cancelled) => {
                let mut detail = concat4(
                    "Cancelled after ",
                    decimal_of(self.completed_files as u64).as_str(),
                    " of ",
                    decimal_of(self.files.len() as u64).as_str(),
                );
                detail.append(" files");
                WorkerTurn::Finish(Ok(self.outcome(true, detail)))
            },
            Err(WorkerExit::Failed(error)) => WorkerTurn::Finish(Err(error)),
        }
    }

    /// A worker never counts more than it was given: what is complete is part
    /// of the whole, in files and in bytes.
    pub proof fn law_completed_is_part_of_the_whole(self)
        requires
            self.valid(),
        ensures
            self.completed_files <= self.files@.len(),
            self.completed_bytes <= self.total_bytes,
            self.completed_files == self.files@.len() ==> self.completed_bytes == self.total_bytes,
    {
        let views = file_views(self.files@);
        lemma_size_sum_grows(views, self.completed_files as int);
        if self.completed_files == self.files@.len() {
            assert(views.take(self.completed_files as int) =~= views);
        }
    }
}

/// A drop is refused for its first path that is no readable regular file, with
/// what is wrong with that path; whatever stands behind it does not matter.
pub proof fn law_drops_fail_at_the_first_path_that_is_no_file(
    paths: Seq<DroppedPath>,
    k: int,
)
    requires
        0 <= k <= paths.len(),
        forall|i: int| 0 <= i < k ==> (#[trigger] paths[i]).probe is File,
    ensures
        k == paths.len() ==> first_failure(paths) is None,
        k < paths.len() ==> match paths[k].probe {
            PathProbe::Unreadable(error) => first_failure(paths) == Some(
                "failed to read "@ + paths[k].path@ + ": "@ + error@,
            ),
            PathProbe::Other => first_failure(paths) == Some(
                paths[k].path@ + " is not a regular file"@,
            ),
            PathProbe::File { .. } => true,
        },
    decreases k,
{
    if k > 0 {
        let rest = paths.drop_first();
        assert(paths[0].probe is File);
        assert forall|i: int| 0 <= i < k - 1 implies (#[trigger] rest[i]).probe is File by {
            assert(rest[i] == paths[i + 1]);
        }
        law_drops_fail_at_the_first_path_that_is_no_file(rest, k - 1);
        if k < paths.len() {
            assert(rest[k - 1] == paths[k]);
        }
    }
}

/// A dropped file is uploaded under its own name, with the size it has.
pub proof fn law_files_keep_their_name_and_size(dropped: DroppedPath, size: u64)
    requires
        dropped.probe == (PathProbe::File { size_bytes: size }),
    ensures
        dropped.outcome() matches Ok(file) && {
            &&& file.path == dropped.path@
            &&& file.size_bytes == size
            &&& dropped.file_name matches Some(name) ==> file.name == name@
            &&& dropped.file_name is None ==> file.name == dropped.path@
        },
{
}

/// An error that speaks of a password, a passphrase, a code, a key that wants to
/// be touched, or of a login that may not ask, is told as one that needs a
/// person; any other is told as it is.
pub proof fn law_probe_errors_are_told_apart(error: Seq<char>)
    ensures
        ({
            let lower = ascii_lowercase(error);
            let asks = contains_text(lower, "permission denied"@)
                || contains_text(lower, "keyboard-interactive"@)
                || contains_text(lower, "password:"@)
                || contains_text(lower, "passphrase"@)
                || contains_text(lower, "verification code"@)
                || contains_text(lower, "one-time password"@)
                || contains_text(lower, "confirm user presence"@)
                || contains_text(lower, "agent refused operation"@)
                || contains_text(lower, "sign_and_send_pubkey"@)
                || contains_text(lower, "batchmode"@)
                || contains_text(lower, "no tty present"@);
            &&& wants_a_person(error) <==> asks
            &&& asks ==> probe_error_text(error)
                == "SSH upload requires non-interactive authentication for new SSH upload commands. This session appears to need a password, OTP, or hardware-key prompt, so drag-and-drop SSH upload is unavailable."@
            &&& !asks ==> probe_error_text(error)
                == "SSH upload is unavailable for this session: "@ + error
        }),
{
    let lower = ascii_lowercase(error);
    let marks = interactive_marks();
    assert(marks[0] == "permission denied"@);
    assert(marks[1] == "keyboard-interactive"@);
    assert(marks[2] == "password:"@);
    assert(marks[3] == "passphrase"@);
    assert(marks[4] == "verification code"@);
    assert(marks[5] == "one-time password"@);
    assert(marks[6] == "confirm user presence"@);
    assert(marks[7] == "agent refused operation"@);
    assert(marks[8] == "sign_and_send_pubkey"@);
    assert(marks[9] == "batchmode"@);
    assert(marks[10] == "no tty present"@);
}

/// What a process printed explains its failure; only where that is blank is the
/// reason put in words.
pub proof fn law_output_explains_failures(output: Seq<char>, fallback: Seq<char>)
    ensures
        trim(output).len() > 0 ==> failure_text(output, fallback) == trim(output),
        trim(output).len() == 0 ==> failure_text(output, fallback) == fallback,
{
}

/// Both streams of a process are kept: standard output first, then standard
/// error on a line of its own, unless it is blank.
pub proof fn law_both_streams_are_kept(out: Seq<char>, err: Seq<char>)
    ensures
        joined_output(None, None) == Seq::<char>::empty(),
        joined_output(Some(out), None) == out,
        trim(err).len() == 0 ==> joined_output(Some(out), Some(err)) == out,
        trim(err).len() > 0 && trim(out).len() > 0 ==> joined_output(Some(out), Some(err)) == out
            + seq!['\n'] + err,
        trim(err).len() > 0 && trim(out).len() == 0 ==> joined_output(Some(out), Some(err)) == out
            + err,
        trim(err).len() > 0 ==> joined_output(None, Some(err)) == err,
{
    assert(out.push('\n') + err =~= out + seq!['\n'] + err);
    assert(Seq::<char>::empty() + err =~= err);
}

/// The bytes of an upload are those of its files together.
pub proof fn law_sizes_add_up(files: Seq<FileView>, file: FileView)
    ensures
        size_sum(Seq::empty()) == 0,
        size_sum(files.push(file)) == size_sum(files) + file.size_bytes,
{
    assert(files.push(file).drop_last() =~= files);
}

/// Progress never counts more of a file than its size.
pub proof fn law_progress_counts_no_more_than_the_size(done: u64, current: u64, size: u64)
    ensures
        current <= size && done + current <= u64::MAX ==> saturating_sum(
            done,
            lesser(current, size),
        ) == done + current,
        current > size && done + size <= u64::MAX ==> saturating_sum(done, lesser(current, size))
            == done + size,
        done + size > u64::MAX && current >= size ==> saturating_sum(done, lesser(current, size))
            == u64::MAX,
{
}

/// The files go out in the order in which they were dropped, one at a time; only
/// when every one is through does the worker report success, with what it sent.
pub proof fn law_files_are_sent_in_order(worker: UploadWorker, turn: WorkerTurn)
    requires
        worker.valid(),
        worker.next_is(turn),
    ensures
        worker.completed_files < worker.files@.len() ==> turn == (WorkerTurn::Send {
            file: worker.completed_files,
        }),
        worker.completed_files == worker.files@.len() ==> (turn matches WorkerTurn::Finish(
            Ok(outcome),
        ) && {
            &&& !outcome.cancelled
            &&& outcome.completed_files == outcome.total_files == worker.files@.len()
            &&& outcome.completed_bytes == outcome.total_bytes == size_sum(
                file_views(worker.files@),
            )
            &&& outcome.detail@ == "Uploaded "@ + decimal(worker.files@.len()) + " file(s)"@
        }),
{
    worker.law_completed_is_part_of_the_whole();
}

/// What an outcome says is what the worker has done, whether it was cancelled or
/// not.
pub proof fn law_outcomes_report_the_worker(
    worker: UploadWorker,
    cancelled: bool,
    detail: Seq<char>,
    outcome: UploadOutcome,
)
    requires
        worker.outcome_is(cancelled, detail, outcome),
    ensures
        outcome.cancelled == cancelled,
        outcome.completed_files == worker.completed_files,
        outcome.total_files == worker.files@.len(),
        outcome.completed_bytes == worker.completed_bytes,
        outcome.total_bytes == worker.total_bytes,
        outcome.detail@ == detail,
        worker.progress_view().completed_files == worker.completed_files,
        worker.progress_view().total_files == worker.files@.len(),
        worker.progress_view().completed_bytes == worker.completed_bytes,
        worker.progress_view().total_bytes == worker.total_bytes,
{
}

/// What is said of a file is said of what it holds.
pub proof fn law_local_upload_file_is_seen_as_it_is(value: LocalUploadFile)
    ensures
        value@.path == value.path@,
        value@.name == value.name@,
        value@.size_bytes == value.size_bytes,
{
}

/// Files are seen one by one, in their order.
pub proof fn law_files_are_seen_in_order(list: Seq<LocalUploadFile>, k: int)
    requires
        0 <= k < list.len(),
    ensures
        file_views(list).len() == list.len(),
        file_views(list)[k] == list[k]@,
{
}

} // verus!
