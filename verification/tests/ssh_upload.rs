use horizon_ui::dir_picker::{PickerModalAction, PickerModalState};
use horizon_ui::ssh_upload::destination_picker::{
    browse_query_for, query_targets_current_dir, remote_entry_matches, remote_query_request,
    ListingPoll, PendingRemoteListing, RemoteDestinationEntry, RemoteDestinationPicker,
    RemoteDestinationPickerAction, REMOTE_DEBOUNCE_MS,
};
use horizon_ui::ssh_upload::listing::{
    join_remote_browser_path, parse_remote_directory_listing, RemoteDirectoryListing,
};
use horizon_ui::ssh_upload::panel::{
    file_pills, files_label, single_file_display_name, truncate_name, DirectoryBrowser,
    PanelClicks, UploadMode, UploadPanel, UploadTransportChoice, UploadUiAction,
};
use horizon_ui::ssh_upload::probe::{
    list_remote_directories, resolve_remote_directory, ScriptRun,
};
use horizon_ui::ssh_upload::shell::{
    build_remote_shell_command, build_remote_upload_command, list_remote_dirs_script,
    resolve_remote_dir_script, shell_escape, write_remote_file_script,
};
use horizon_ui::ssh_upload::taildrop::{
    detect_taildrop_target, parse_taildrop_targets, parse_tailscale_ips, tailscale_ips, CommandRun,
};
use horizon_ui::ssh_upload::transfer::{
    wait_for_child, ChildPoll, SshTransfer, TransferNext, TransferPhase, WaitNext,
};
use horizon_ui::ssh_upload::worker::{
    build_local_upload_files, child_output, classify_ssh_probe_error, finish_child,
    handle_early_child_exit, non_empty_output, poll_upload_control, prepare, ChildExit,
    ControlPoll, DroppedPath, LocalUploadFile, PathProbe, UploadControl, UploadProgressContext,
    UploadWorker, UploadWorkerHandle, WorkerExit, WorkerTurn,
};

fn picker(query: &str) -> RemoteDestinationPicker {
    RemoteDestinationPicker {
        modal: PickerModalState::new(query.to_string(), 0),
        results: Vec::new(),
        current_dir: String::new(),
        error: None,
        pending_listing: None,
        last_query_sent: query.to_string(),
        last_query_ms: 0,
        initial_results_loaded: false,
    }
}

fn entry(name: &str, resolved_path: &str) -> RemoteDestinationEntry {
    RemoteDestinationEntry {
        name: name.to_string(),
        resolved_path: resolved_path.to_string(),
    }
}

#[test]
fn remote_query_request_uses_parent_for_partial_leaf() {
    let request = remote_query_request("/srv/log");
    assert_eq!(request.list_path, "/srv");
    assert_eq!(request.prefix, "log");
}

#[test]
fn remote_query_request_keeps_directory_queries() {
    let request = remote_query_request("~/projects/");
    assert_eq!(request.list_path, "~/projects");
    assert!(request.prefix.is_empty());
}

#[test]
fn remote_query_request_handles_the_root_and_bare_names() {
    let root = remote_query_request(" / ");
    assert_eq!((root.list_path.as_str(), root.prefix.as_str()), ("/", ""));
    let child = remote_query_request("/srv");
    assert_eq!((child.list_path.as_str(), child.prefix.as_str()), ("/", "srv"));
    let doubled = remote_query_request("//");
    assert_eq!((doubled.list_path.as_str(), doubled.prefix.as_str()), ("/", ""));
    let bare = remote_query_request("logs");
    assert_eq!((bare.list_path.as_str(), bare.prefix.as_str()), ("", "logs"));
    let empty = remote_query_request("   ");
    assert_eq!((empty.list_path.as_str(), empty.prefix.as_str()), ("", ""));
}

#[test]
fn remote_entry_matches_is_case_insensitive_prefix_match() {
    assert!(remote_entry_matches("ComputeCache", "comp"));
    assert!(!remote_entry_matches("ComputeCache", "cache"));
}

#[test]
fn browse_query_for_preserves_root() {
    assert_eq!(browse_query_for("/"), "/");
    assert_eq!(browse_query_for("/srv/logs"), "/srv/logs/");
}

#[test]
fn browsing_a_path_lists_that_path() {
    for path in ["/", "/srv", "/srv/my logs"] {
        let request = remote_query_request(&browse_query_for(path));
        assert_eq!(request.list_path, path);
        assert!(request.prefix.is_empty());
    }
}

#[test]
fn query_targets_current_dir_accepts_trailing_slash() {
    assert!(query_targets_current_dir("/srv/logs/", "/srv/logs"));
    assert!(query_targets_current_dir("/srv/logs", "/srv/logs"));
    assert!(!query_targets_current_dir("/srv", "/srv/logs"));
    assert!(!query_targets_current_dir("", ""));
}

#[test]
fn pending_listing_matches_prefix_changes_within_same_directory() {
    let pending = PendingRemoteListing {
        requested_list_path: "/srv".to_string(),
    };

    assert!(pending.matches_query("/srv/log"));
}

#[test]
fn pending_listing_rejects_stale_directory_changes() {
    let pending = PendingRemoteListing {
        requested_list_path: "/srv".to_string(),
    };

    assert!(!pending.matches_query("/tmp/log"));
}

#[test]
fn update_search_discards_stale_remote_listing_results() {
    let mut picker = picker("/tmp/log");
    picker.results = vec![entry("kept", "/tmp/kept")];
    picker.current_dir = "/tmp".to_string();
    picker.pending_listing = Some(PendingRemoteListing {
        requested_list_path: "/srv".to_string(),
    });
    picker.last_query_sent = "/srv/log".to_string();

    picker.update_search(
        ListingPoll::Listed(Ok(RemoteDirectoryListing {
            current_dir: "/srv".to_string(),
            entries: vec!["logs".to_string()],
        })),
        0,
    );

    assert_eq!(picker.current_dir, "/tmp");
    assert_eq!(picker.results.len(), 1);
    assert_eq!(picker.results[0].name, "kept");
    assert!(!picker.initial_results_loaded);
}

#[test]
fn confirm_selection_prefers_current_directory_after_completion() {
    let mut picker = picker("/srv/logs/nested/");
    picker.results = vec![entry("..", "/srv/logs")];
    picker.current_dir = "/srv/logs/nested".to_string();
    picker.initial_results_loaded = true;

    assert!(matches!(
        picker.confirm_selection(),
        RemoteDestinationPickerAction::Selected(path) if path == "/srv/logs/nested"
    ));
}

#[test]
fn a_listing_for_the_query_is_filtered_and_resolved() {
    let mut picker = RemoteDestinationPicker::new("/srv/l", 0);
    picker.modal.selected = 5;
    assert_eq!(
        picker.pending_listing.as_ref().map(|p| p.requested_list_path.clone()),
        Some("/srv".to_string())
    );
    let start = picker.update_search(
        ListingPoll::Listed(Ok(RemoteDirectoryListing {
            current_dir: "/srv".to_string(),
            entries: vec!["..".into(), "Lib".into(), "etc".into(), "logs".into()],
        })),
        10,
    );
    assert!(start.is_none());
    let rows: Vec<(&str, &str)> = picker
        .results
        .iter()
        .map(|row| (row.name.as_str(), row.resolved_path.as_str()))
        .collect();
    assert_eq!(rows, vec![("Lib", "/srv/Lib"), ("logs", "/srv/logs")]);
    assert_eq!(picker.modal.selected_index(), 0);
    assert!(picker.initial_results_loaded);
    assert_eq!(picker.status_line().as_deref(), Some("Browsing: /srv"));

    picker.modal.selected = 1;
    picker.act(PickerModalAction::CompleteSelection, 20);
    assert_eq!(picker.modal.query(), "/srv/logs/");
    assert!(picker.update_search(ListingPoll::Empty, 20 + REMOTE_DEBOUNCE_MS - 1).is_none());
    assert_eq!(
        picker.update_search(ListingPoll::Empty, 20 + REMOTE_DEBOUNCE_MS).as_deref(),
        Some("/srv/logs")
    );
    assert_eq!(picker.last_query_sent, "/srv/logs/");
}

#[test]
fn a_failed_or_lost_listing_clears_the_rows_and_says_so() {
    let mut failed = RemoteDestinationPicker::new("/srv/", 0);
    failed.results = vec![entry("old", "/srv/old")];
    failed.update_search(ListingPoll::Listed(Err("no route".into())), 1);
    assert!(failed.results.is_empty());
    assert_eq!(failed.error.as_deref(), Some("no route"));
    assert_eq!(failed.empty_state().0, "no route");

    let mut lost = RemoteDestinationPicker::new("/srv/", 0);
    assert_eq!(lost.empty_state().0, "Loading remote directories...");
    lost.update_search(ListingPoll::Disconnected, 1);
    assert_eq!(lost.error.as_deref(), Some("remote directory picker disconnected"));
}

#[test]
fn confirm_falls_back_to_row_then_typed_path_then_directory() {
    let mut p = picker("/tmp/x");
    p.results = vec![entry("x1", "/tmp/x1")];
    assert!(matches!(p.confirm_selection(), RemoteDestinationPickerAction::Selected(s) if s == "/tmp/x1"));
    p.results.clear();
    assert!(matches!(p.confirm_selection(), RemoteDestinationPickerAction::Selected(s) if s == "/tmp/x"));
    let mut q = picker("  ");
    assert!(matches!(q.confirm_selection(), RemoteDestinationPickerAction::Idle));
    q.current_dir = "/home/me".into();
    assert!(matches!(q.confirm_selection(), RemoteDestinationPickerAction::Selected(s) if s == "/home/me"));
    assert!(matches!(
        q.act(PickerModalAction::Cancelled, 0),
        RemoteDestinationPickerAction::Cancelled
    ));
}

#[test]
fn upload_pill_name_is_flattened_before_its_scalar_budget_is_applied() {
    assert_eq!(
        single_file_display_name("first line\nsecond line with more detail"),
        "first line second l…"
    );
}

#[test]
fn names_are_cut_only_where_they_are_too_long() {
    assert_eq!(single_file_display_name("exactly twenty chars"), "exactly twenty chars");
    assert_eq!(truncate_name("short.txt", 20), "short.txt");
    assert_eq!(truncate_name("a_very_long_file_name.txt", 20), "a_very_long_file_...");
    assert_eq!(truncate_name("abc", 2), "...");
}

#[test]
fn parse_taildrop_targets_reads_ip_and_name() {
    let targets = parse_taildrop_targets("100.70.83.123\tfinter-sin-mac-studio-1\n");

    assert_eq!(targets.len(), 1);
    assert_eq!(targets[0].ip, "100.70.83.123");
    assert_eq!(targets[0].name.as_deref(), Some("finter-sin-mac-studio-1"));
}

#[test]
fn progress_context_clamps_current_file_bytes_to_file_size() {
    let file = LocalUploadFile {
        path: "large.bin".to_string(),
        name: "large.bin".to_string(),
        size_bytes: 1024,
    };
    let progress = UploadProgressContext {
        completed_files: 1,
        total_files: 3,
        completed_bytes: 512,
        total_bytes: 4096,
    };

    let snapshot = progress.snapshot_for(&file, 4096, "Uploading large.bin over SSH");

    assert_eq!(snapshot.completed_bytes, 1536);
    assert_eq!(snapshot.current_file_name.as_deref(), Some("large.bin"));
}

#[test]
fn parse_tailscale_ips_reads_ipv4_and_ipv6_lines() {
    let ips = parse_tailscale_ips("100.70.83.123\nfd7a:115c:a1e0::123\n");

    assert_eq!(ips, vec!["100.70.83.123", "fd7a:115c:a1e0::123"]);
}

#[test]
fn classify_ssh_probe_error_marks_permission_denied_as_interactive_auth() {
    let error = classify_ssh_probe_error("Permission denied (publickey,keyboard-interactive).");

    assert!(error.contains("requires non-interactive authentication"));
}

#[test]
fn other_probe_errors_are_passed_on() {
    assert_eq!(
        classify_ssh_probe_error("Connection refused"),
        "SSH upload is unavailable for this session: Connection refused"
    );
}

#[test]
fn taildrop_target_is_the_first_with_one_of_the_addresses() {
    let ips = tailscale_ips(&CommandRun::Succeeded { stdout: " 1.1.1.1 \n\n2.2.2.2\r\n".into() });
    let ips = match ips {
        Ok(ips) => ips,
        Err(error) => panic!("{error}"),
    };
    assert_eq!(ips, vec!["1.1.1.1", "2.2.2.2"]);
    let listed = CommandRun::Succeeded {
        stdout: "3.3.3.3 other\n  2.2.2.2   box  offline\n1.1.1.1 late\n".into(),
    };
    assert_eq!(detect_taildrop_target(&ips, &listed), Ok(Some("box".to_string())));
    let nameless = CommandRun::Succeeded { stdout: "1.1.1.1\n".into() };
    assert_eq!(detect_taildrop_target(&ips, &nameless), Ok(Some("1.1.1.1".to_string())));
    assert_eq!(detect_taildrop_target(&ips, &CommandRun::NotFound), Ok(None));
    assert_eq!(detect_taildrop_target(&ips, &CommandRun::Unsuccessful), Ok(None));
    assert_eq!(
        detect_taildrop_target(&ips, &CommandRun::Broken("io".into())),
        Err("failed to query Taildrop targets: io".to_string())
    );
    // A machine without addresses is none of the targets, however they are asked for.
    for run in [CommandRun::Broken("io".into()), CommandRun::NotFound, listed] {
        assert_eq!(detect_taildrop_target(&Vec::new(), &run), Ok(None));
    }
    assert_eq!(
        tailscale_ips(&CommandRun::Broken("io".into())),
        Err("failed to run tailscale ip: io".to_string())
    );
}

#[test]
fn a_listing_offers_no_entry_twice_in_a_row() {
    let listing =
        parse_remote_directory_listing("__PWD__/\n__DIR__b\n__DIR__a\n__DIR__b\n").expect("listing");
    assert_eq!(listing.entries, vec!["a", "b"]);
    // Names that differ in their case alone keep the order they were listed in.
    let cased =
        parse_remote_directory_listing("__PWD__/\n__DIR__a\n__DIR__A\n__DIR__a\n").expect("listing");
    assert_eq!(cased.entries, vec!["a", "A", "a"]);
}

#[test]
fn parse_remote_directory_listing_sorts_parent_first() {
    let listing =
        parse_remote_directory_listing("__PWD__/srv\n__DIR__logs\n__DIR__..\n__DIR__.cache\n").expect("listing");

    assert_eq!(listing.current_dir, "/srv");
    assert_eq!(listing.entries, vec!["..", ".cache", "logs"]);
}

#[test]
fn listings_sort_without_case_keep_ties_and_drop_repeats() {
    let listing = parse_remote_directory_listing(
        "motd\n__PWD__/a\n__DIR__b\n__DIR__A\n__DIR__a\n__DIR__b\n__PWD__/last\n__DIR__A\n",
    )
    .expect("listing");
    assert_eq!(listing.current_dir, "/last");
    assert_eq!(listing.entries, vec!["A", "a", "A", "b"]);
    assert_eq!(
        parse_remote_directory_listing("__DIR__x\n").err().as_deref(),
        Some("remote directory listing did not include a working directory")
    );
}

#[test]
fn browser_paths_follow_names_and_the_parent() {
    assert_eq!(join_remote_browser_path("/srv", "logs"), "/srv/logs");
    assert_eq!(join_remote_browser_path("/", "srv"), "/srv");
    assert_eq!(join_remote_browser_path("/srv/logs/nested", ".."), "/srv/logs");
    assert_eq!(join_remote_browser_path("/srv", ".."), "/");
}

#[test]
fn build_remote_shell_command_quotes_all_arguments() {
    let command = build_remote_shell_command("printf '%s %s' \"$1\" \"$2\"", &["/tmp/with space", "file name.txt"]);

    assert_eq!(
        command,
        "sh -c 'printf '\"'\"'%s %s'\"'\"' \"$1\" \"$2\"' -- '/tmp/with space' 'file name.txt'"
    );
}

#[test]
fn build_remote_upload_command_keeps_destination_and_name_separate() {
    let command = build_remote_upload_command("/tmp/with space", "report 1.txt");

    assert!(command.ends_with("-- '/tmp/with space' 'report 1.txt'"));
}

#[test]
fn escaping_never_lets_a_quote_out() {
    assert_eq!(shell_escape("it's"), "'it'\"'\"'s'");
    assert_eq!(shell_escape(""), "''");
    assert_ne!(
        build_remote_shell_command("x", &["a b"]),
        build_remote_shell_command("x", &["a", "b"])
    );
}

#[test]
fn the_remote_scripts_read_their_arguments() {
    assert!(resolve_remote_dir_script().ends_with("cd -- \"$path\" 2>/dev/null || exit 1\npwd -P\n"));
    assert!(list_remote_dirs_script().contains("printf '__PWD__%s\\n' \"$PWD\""));
    assert!(list_remote_dirs_script().contains("for entry in * .[!.]* ..?*; do"));
    assert!(write_remote_file_script().contains("mv -f -- \"$tmp_path\" \"$name\""));
}

fn dropped(path: &str, name: Option<&str>, probe: PathProbe) -> DroppedPath {
    DroppedPath {
        path: path.to_string(),
        file_name: name.map(str::to_string),
        probe,
    }
}

#[test]
fn dropped_paths_become_files_or_the_first_error() {
    let good = vec![
        dropped("/a/x", Some("x"), PathProbe::File { size_bytes: 3 }),
        dropped("/a/y", None, PathProbe::File { size_bytes: 4 }),
    ];
    let files = build_local_upload_files(&good).expect("files");
    assert_eq!(files[0].name, "x");
    assert_eq!(files[1].name, "/a/y");
    assert_eq!(files[1].size_bytes, 4);
    let bad = vec![
        dropped("/a/x", Some("x"), PathProbe::File { size_bytes: 3 }),
        dropped("/a/d", Some("d"), PathProbe::Other),
        dropped("/a/e", Some("e"), PathProbe::Unreadable("gone".into())),
    ];
    assert_eq!(
        build_local_upload_files(&bad).err().as_deref(),
        Some("/a/d is not a regular file")
    );
    assert_eq!(
        build_local_upload_files(&vec![dropped("/a/e", None, PathProbe::Unreadable("gone".into()))])
            .err()
            .as_deref(),
        Some("failed to read /a/e: gone")
    );
    assert_eq!(
        build_local_upload_files(&Vec::new()).err().as_deref(),
        Some("only local filesystem file drops are supported")
    );
}

#[test]
fn preparation_prefers_a_used_destination_that_is_not_blank() {
    let used = prepare(None, Ok("/home/me".into()), Some("/srv".into()));
    assert_eq!(used.suggested_destination.as_deref(), Some("/srv"));
    let blank = prepare(Some("box".into()), Ok("/home/me".into()), Some(" \t".into()));
    assert_eq!(blank.suggested_destination.as_deref(), Some("/home/me"));
    assert_eq!(blank.taildrop_target.as_deref(), Some("box"));
    let failed = prepare(None, Err("Host down".into()), Some("/srv".into()));
    assert_eq!(failed.suggested_destination, None);
    assert_eq!(
        failed.ssh_upload_error.as_deref(),
        Some("SSH upload is unavailable for this session: Host down")
    );
}

#[test]
fn process_output_is_joined_and_classified() {
    assert_eq!(child_output(Some("out".into()), Some("err".into())), "out\nerr");
    assert_eq!(child_output(Some(" ".into()), Some("err".into())), " err");
    assert_eq!(child_output(Some("out".into()), Some(" \n".into())), "out");
    assert_eq!(child_output(None, None), "");
    assert_eq!(non_empty_output("  x y \n").as_deref(), Some("x y"));
    assert_eq!(non_empty_output(" \n"), None);
    let failed = ChildExit { success: false, status: "exit status: 2".into(), output: String::new() };
    assert!(matches!(
        finish_child(&failed),
        Err(WorkerExit::Failed(text)) if text == "command exited with status exit status: 2"
    ));
    let done = ChildExit { success: true, status: "exit status: 0".into(), output: String::new() };
    assert!(finish_child(&done).is_ok());
    assert!(handle_early_child_exit(&done, 10, 10).is_ok());
    assert!(matches!(
        handle_early_child_exit(&done, 9, 10),
        Err(WorkerExit::Failed(text)) if text == "SSH upload ended before all local bytes were sent"
    ));
}

fn local(name: &str, size_bytes: u64) -> LocalUploadFile {
    LocalUploadFile { path: format!("/tmp/{name}"), name: name.to_string(), size_bytes }
}

#[test]
fn a_worker_sends_every_file_and_reports_the_total() {
    let mut worker = UploadWorker::start(vec![local("a", 5), local("b", 7)]).expect("worker");
    assert_eq!(worker.progress().total_bytes, 12);
    assert!(matches!(worker.begin(Ok(())), WorkerTurn::Send { file: 0 }));
    assert!(matches!(worker.file_done(Ok(())), WorkerTurn::Send { file: 1 }));
    assert_eq!(worker.progress().completed_bytes, 5);
    match worker.file_done(Ok(())) {
        WorkerTurn::Finish(Ok(outcome)) => {
            assert!(!outcome.cancelled);
            assert_eq!(outcome.detail, "Uploaded 2 file(s)");
            assert_eq!((outcome.completed_bytes, outcome.total_bytes), (12, 12));
        }
        _ => panic!("expected the end"),
    }
}

#[test]
fn a_worker_stops_on_cancel_failure_and_bad_destinations() {
    let mut worker = UploadWorker::start(vec![local("a", 5), local("b", 7)]).expect("worker");
    worker.file_done(Ok(()));
    match worker.file_done(Err(WorkerExit::Cancelled)) {
        WorkerTurn::Finish(Ok(outcome)) => {
            assert!(outcome.cancelled);
            assert_eq!(outcome.detail, "Cancelled after 1 of 2 files");
            assert_eq!(outcome.completed_bytes, 5);
        }
        _ => panic!("expected the end"),
    }
    assert!(matches!(
        worker.file_done(Err(WorkerExit::Failed("disk full".into()))),
        WorkerTurn::Finish(Err(text)) if text == "disk full"
    ));
    assert!(matches!(
        worker.begin(Err("no such directory".into())),
        WorkerTurn::Finish(Err(text)) if text == "no such directory"
    ));
    assert!(UploadWorker::start(vec![local("a", u64::MAX), local("b", 1)]).is_none());
}

#[test]
fn cancelling_reaches_the_worker_once() {
    let mut handle = UploadWorkerHandle::new();
    assert_eq!(handle.poll(), ControlPoll::Empty);
    handle.cancel();
    let poll = handle.poll();
    assert_eq!(poll, ControlPoll::Requested(UploadControl::Cancel));
    assert_eq!(handle.poll(), ControlPoll::Empty);
    let (verdict, kill) = poll_upload_control(poll);
    assert!(matches!(verdict, Err(WorkerExit::Cancelled)) && kill);
    let (lost, kill_lost) = poll_upload_control(ControlPoll::Disconnected);
    assert!(matches!(lost, Err(WorkerExit::Cancelled)) && !kill_lost);
}

#[test]
fn a_transfer_writes_its_chunk_reports_and_closes() {
    let mut transfer = SshTransfer::new("a.bin".into(), "/tmp/a.bin".into(), 10, 0);
    assert_eq!(transfer.detail(), "Uploading a.bin over SSH");
    assert!(matches!(transfer.looked(ControlPoll::Empty, ChildPoll::Running).next, TransferNext::Read));
    assert!(matches!(transfer.chunk_read(Ok(10)).next, TransferNext::Look));
    assert!(matches!(
        transfer.looked(ControlPoll::Empty, ChildPoll::Running).next,
        TransferNext::Write { from: 0, to: 10 }
    ));
    let part = transfer.chunk_written(Ok(4), "", 50);
    assert_eq!(part.report, None);
    assert_eq!(transfer.phase, TransferPhase::BeforeWrite);
    assert!(matches!(
        transfer.looked(ControlPoll::Empty, ChildPoll::Running).next,
        TransferNext::Write { from: 4, to: 10 }
    ));
    let rest = transfer.chunk_written(Ok(6), "", 60);
    assert_eq!(rest.report, Some(10), "the last bytes are reported before the interval");
    transfer.looked(ControlPoll::Empty, ChildPoll::Running);
    let end = transfer.chunk_read(Ok(0));
    assert_eq!(end.report, Some(10));
    assert!(matches!(end.next, TransferNext::CloseAndWait));
}

#[test]
fn a_transfer_stops_on_requests_exits_and_errors() {
    let mut cancelled = SshTransfer::new("a".into(), "/a".into(), 10, 0);
    let turn = cancelled.looked(ControlPoll::Requested(UploadControl::Cancel), ChildPoll::Running);
    assert!(turn.kill);
    assert!(matches!(turn.next, TransferNext::Stop(Err(WorkerExit::Cancelled))));

    let mut unknown = SshTransfer::new("a".into(), "/a".into(), 10, 0);
    let turn = unknown.looked(ControlPoll::Empty, ChildPoll::Unknown("bad".into()));
    assert!(matches!(
        turn.next,
        TransferNext::Stop(Err(WorkerExit::Failed(text))) if text == "failed to poll SSH upload: bad"
    ));

    let mut unread = SshTransfer::new("a".into(), "/a".into(), 10, 0);
    unread.looked(ControlPoll::Empty, ChildPoll::Running);
    assert!(matches!(
        unread.chunk_read(Err("bad disk".into())).next,
        TransferNext::Stop(Err(WorkerExit::Failed(text))) if text == "failed to read /a: bad disk"
    ));

    let mut stuck = SshTransfer::new("a".into(), "/a".into(), 10, 0);
    stuck.looked(ControlPoll::Empty, ChildPoll::Running);
    stuck.chunk_read(Ok(2));
    stuck.looked(ControlPoll::Empty, ChildPoll::Running);
    assert!(matches!(
        stuck.chunk_written(Ok(0), "", 1).next,
        TransferNext::Stop(Err(WorkerExit::Failed(text))) if text == "SSH upload for a stopped accepting data"
    ));

    let mut broken = SshTransfer::new("a".into(), "/a".into(), 10, 0);
    broken.looked(ControlPoll::Empty, ChildPoll::Running);
    broken.chunk_read(Ok(2));
    broken.looked(ControlPoll::Empty, ChildPoll::Running);
    assert!(matches!(
        broken.chunk_written(Err("pipe".into()), " no space left \n", 1).next,
        TransferNext::Stop(Err(WorkerExit::Failed(text))) if text == "no space left"
    ));
}

fn panel(mode: UploadMode) -> UploadPanel {
    UploadPanel {
        file_count: 2,
        mode,
        transport_choice: UploadTransportChoice::Ssh,
        ssh_upload_error: None,
        taildrop_target: None,
        destination_input: "~/uploads".into(),
        browser: DirectoryBrowser {
            open: false,
            loading: false,
            error: None,
            current_dir: "/srv".into(),
            entries: vec!["..".into(), "logs".into()],
        },
    }
}

#[test]
fn panel_buttons_ask_only_for_what_their_state_offers() {
    let both = PanelClicks { quiet: true, main: true };
    assert_eq!(panel(UploadMode::Preparing).actions(both), vec![]);
    assert_eq!(
        panel(UploadMode::Ready).actions(both),
        vec![UploadUiAction::Close, UploadUiAction::StartUpload]
    );
    let mut blank = panel(UploadMode::Ready);
    blank.destination_input = "  ".into();
    assert_eq!(blank.actions(both), vec![UploadUiAction::Close]);
    blank.taildrop_target = Some("box".into());
    blank.choose_transport(false, true);
    assert_eq!(
        blank.actions(both),
        vec![UploadUiAction::Close, UploadUiAction::StartUpload]
    );
    assert_eq!(panel(UploadMode::Uploading).actions(both), vec![UploadUiAction::CancelUpload]);
    assert_eq!(panel(UploadMode::Finished).actions(both), vec![UploadUiAction::Close]);
    assert_eq!(
        panel(UploadMode::Failed).actions(both),
        vec![UploadUiAction::Close, UploadUiAction::BackToReady]
    );
    let mut empty = panel(UploadMode::Failed);
    empty.file_count = 0;
    assert_eq!(empty.actions(both), vec![UploadUiAction::Close]);
}

#[test]
fn the_panel_browses_and_takes_remote_folders() {
    let mut p = panel(UploadMode::Ready);
    assert_eq!(p.navigate(Some(1)), None, "a closed browser has no rows");
    assert_eq!(p.browse_label(), "Browse");
    assert_eq!(p.press_browse().as_deref(), Some("~/uploads"));
    assert_eq!(p.browse_label(), "Close");
    assert_eq!(p.navigate(Some(1)).as_deref(), Some("/srv/logs"));
    assert_eq!(p.navigate(Some(0)).as_deref(), Some("/"));
    p.use_folder();
    assert_eq!(p.destination_input, "/srv");
    assert_eq!(p.press_browse(), None);
    assert_eq!(file_pills(6), (6, None));
    assert_eq!(file_pills(9), (6, Some("+3 more".to_string())));
    assert_eq!(files_label(1, 12), "1 / 12 files");
}

#[test]
fn probes_give_a_directory_or_a_reason() {
    let succeeded = |stdout: &str| ScriptRun::Succeeded {
        stdout: stdout.to_string(),
    };
    let unsuccessful = |stderr: &str| ScriptRun::Unsuccessful {
        stderr: stderr.to_string(),
    };
    assert_eq!(
        resolve_remote_directory(succeeded("/home/kim\n")),
        Ok("/home/kim".to_string())
    );
    assert_eq!(
        resolve_remote_directory(succeeded(" \n")),
        Err("remote directory probe returned an empty path".to_string())
    );
    assert_eq!(
        resolve_remote_directory(unsuccessful("Permission denied\n")),
        Err("Permission denied".to_string())
    );
    assert_eq!(
        resolve_remote_directory(unsuccessful("\n")),
        Err("ssh probe failed".to_string())
    );
    assert_eq!(
        resolve_remote_directory(ScriptRun::Broken("no such file".to_string())),
        Err("failed to launch ssh probe: no such file".to_string())
    );
    let Ok(listing) = list_remote_directories(succeeded("__PWD__/srv\n__DIR__b\n__DIR__..\n")) else {
        panic!("expected a listing");
    };
    assert_eq!(listing.current_dir, "/srv");
    assert_eq!(listing.entries, ["..", "b"]);
}

#[test]
fn waiting_ends_with_the_process_or_a_request() {
    let exited = |success: bool, output: &str| {
        ChildPoll::Exited(ChildExit {
            success,
            status: "exit status: 3".to_string(),
            output: output.to_string(),
        })
    };
    assert!(matches!(
        wait_for_child(ControlPoll::Empty, ChildPoll::Running),
        (WaitNext::Sleep, false)
    ));
    assert!(matches!(
        wait_for_child(ControlPoll::Empty, exited(true, "")),
        (WaitNext::Stop(Ok(())), false)
    ));
    let (WaitNext::Stop(Err(WorkerExit::Failed(text))), false) =
        wait_for_child(ControlPoll::Empty, exited(false, " "))
    else {
        panic!("expected a failure");
    };
    assert_eq!(text, "command exited with status exit status: 3");
    let (WaitNext::Stop(Err(WorkerExit::Failed(text))), false) =
        wait_for_child(ControlPoll::Empty, ChildPoll::Unknown("lost".to_string()))
    else {
        panic!("expected a failure");
    };
    assert_eq!(text, "failed to wait for upload: lost");
    assert!(matches!(
        wait_for_child(
            ControlPoll::Requested(UploadControl::Cancel),
            ChildPoll::Running
        ),
        (WaitNext::Stop(Err(WorkerExit::Cancelled)), true)
    ));
    assert!(matches!(
        wait_for_child(ControlPoll::Disconnected, ChildPoll::Running),
        (WaitNext::Stop(Err(WorkerExit::Cancelled)), false)
    ));
}
