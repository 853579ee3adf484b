use ora_core::domain::{LocalNote, NoteError};
use ora_core::error::OraError;
use ora_core::watcher::debounce::Debouncer;
use ora_core::watcher::event::{relevant_changes, Change, ChangeKind, SourceKind};
use ora_core::watcher::handler::{is_markdown_file, Dispatch, FileIndexHandler, Outcome, Reply};
use ora_core::watcher::index::IndexedNote;
use ora_core::watcher::service::{Phase, ShutdownStep, WatcherService};
use std::collections::BTreeMap;
use std::io::{Error, ErrorKind};
use std::time::Duration;

fn note(path: &str, content: &str) -> LocalNote {
    LocalNote::open(path, Ok(content.to_string())).unwrap()
}

/// Runs one exchange against files and an index held in memory, and counts
/// the requests.
fn settle(
    first: Dispatch,
    files: &BTreeMap<String, String>,
    index: &mut BTreeMap<String, IndexedNote>,
) -> (Outcome, usize) {
    let mut request = first;
    let mut asked = 0;
    loop {
        let reply = match &request {
            Dispatch::CheckIndexed { path } => Reply::Known(index.contains_key(path)),
            Dispatch::OpenNote { path, .. } => match files.get(path) {
                Some(text) => Reply::Opened(note(path, text)),
                None => Reply::Unreadable(NoteError::Io(Error::new(ErrorKind::NotFound, "gone"))),
            },
            Dispatch::IndexNote { note } => {
                index.insert(note.path.clone(), IndexedNote::of(note));
                Reply::Stored
            }
            Dispatch::RemoveNote { path } => Reply::Removed(index.remove(path).is_some()),
            Dispatch::Done { .. } => break,
        };
        asked += 1;
        request = request.resume(reply);
    }
    match request {
        Dispatch::Done { outcome } => (outcome, asked),
        _ => unreachable!(),
    }
}

#[test]
fn five_rapid_changes_pass_on_one() {
    let mut debouncer = Debouncer::new(Duration::from_millis(50));
    let kinds = [
        ChangeKind::Create,
        ChangeKind::Modify,
        ChangeKind::Modify,
        ChangeKind::Remove,
        ChangeKind::Modify,
    ];
    let mut tickets = Vec::new();
    let mut previous: Option<u64> = None;
    for kind in kinds {
        let armed = debouncer.on_event(kind, "/D/a.md");
        assert_eq!(armed.cancelled, previous);
        previous = Some(armed.ticket);
        tickets.push(armed.ticket);
    }
    assert_eq!(tickets, vec![0, 1, 2, 3, 4]);
    assert_eq!(debouncer.in_flight(), 1);

    // Every timer runs out, the cancelled ones too: only the last passes on.
    let mut passed_on: Vec<Change> = Vec::new();
    for ticket in tickets {
        if let Some(change) = debouncer.on_timer("/D/a.md", ticket) {
            passed_on.push(change);
        }
    }
    assert_eq!(passed_on.len(), 1);
    assert_eq!(passed_on[0].kind, ChangeKind::Modify);
    assert_eq!(passed_on[0].path, "/D/a.md");
    assert_eq!(debouncer.in_flight(), 0);
    assert!(debouncer.on_timer("/D/a.md", 4).is_none());
}

#[test]
fn the_last_kind_survives_a_burst() {
    let mut debouncer = Debouncer::new(Duration::from_millis(50));
    debouncer.on_event(ChangeKind::Create, "/D/a.md");
    debouncer.on_event(ChangeKind::Modify, "/D/a.md");
    let last = debouncer.on_event(ChangeKind::Remove, "/D/a.md");
    let change = debouncer.on_timer("/D/a.md", last.ticket).unwrap();
    assert_eq!(change.kind, ChangeKind::Remove);
}

#[test]
fn paths_are_debounced_apart() {
    let mut debouncer = Debouncer::new(Duration::from_millis(50));
    let a = debouncer.on_event(ChangeKind::Create, "/D/a.md");
    let b = debouncer.on_event(ChangeKind::Modify, "/D/b.md");
    let a2 = debouncer.on_event(ChangeKind::Modify, "/D/a.md");
    assert_eq!((a.ticket, a.cancelled), (0, None));
    assert_eq!((b.ticket, b.cancelled), (1, None));
    assert_eq!((a2.ticket, a2.cancelled), (2, Some(0)));
    assert_eq!(debouncer.in_flight(), 2);

    // A ticket counts for its own path only.
    assert!(debouncer.on_timer("/D/b.md", a2.ticket).is_none());
    assert!(debouncer.on_timer("/D/c.md", b.ticket).is_none());

    let from_b = debouncer.on_timer("/D/b.md", b.ticket).unwrap();
    assert_eq!((from_b.kind, from_b.path.as_str()), (ChangeKind::Modify, "/D/b.md"));
    assert_eq!(debouncer.in_flight(), 1);
    let from_a = debouncer.on_timer("/D/a.md", a2.ticket).unwrap();
    assert_eq!((from_a.kind, from_a.path.as_str()), (ChangeKind::Modify, "/D/a.md"));
    assert_eq!(debouncer.in_flight(), 0);
}

#[test]
fn a_path_can_go_quiet_and_change_again() {
    let mut debouncer = Debouncer::new(Duration::from_millis(50));
    let first = debouncer.on_event(ChangeKind::Create, "/D/a.md");
    assert!(debouncer.on_timer("/D/a.md", first.ticket).is_some());
    let second = debouncer.on_event(ChangeKind::Remove, "/D/a.md");
    assert_eq!(second.cancelled, None);
    assert_eq!(second.ticket, 1);
    assert!(debouncer.on_timer("/D/a.md", first.ticket).is_none());
    assert_eq!(debouncer.on_timer("/D/a.md", second.ticket).unwrap().kind, ChangeKind::Remove);
}

#[test]
fn a_debouncer_keeps_its_quiet_time() {
    let debouncer = Debouncer::new(Duration::from_millis(75));
    assert_eq!(debouncer.duration(), Duration::from_millis(75));
    assert!(debouncer.can_arm());
    assert_eq!(debouncer.in_flight(), 0);
}

#[test]
fn only_creations_modifications_and_removals_count() {
    assert_eq!(ChangeKind::of(SourceKind::Create), Some(ChangeKind::Create));
    assert_eq!(ChangeKind::of(SourceKind::Modify), Some(ChangeKind::Modify));
    assert_eq!(ChangeKind::of(SourceKind::Remove), Some(ChangeKind::Remove));
    assert_eq!(ChangeKind::of(SourceKind::Access), None);
    assert_eq!(ChangeKind::of(SourceKind::Any), None);
    assert_eq!(ChangeKind::of(SourceKind::Other), None);

    let paths = vec!["/D/a.md".to_string(), "/D/b.md".to_string()];
    let changes = relevant_changes(SourceKind::Modify, &paths);
    assert_eq!(changes.len(), 2);
    assert_eq!((changes[0].kind, changes[0].path.as_str()), (ChangeKind::Modify, "/D/a.md"));
    assert_eq!((changes[1].kind, changes[1].path.as_str()), (ChangeKind::Modify, "/D/b.md"));
    assert!(relevant_changes(SourceKind::Access, &paths).is_empty());
    assert!(relevant_changes(SourceKind::Create, &Vec::new()).is_empty());
}

#[test]
fn note_files_are_visible_markdown_files() {
    assert!(is_markdown_file("/D/Note.md"));
    assert!(is_markdown_file("/D/sub/My Note 1.md"));
    assert!(is_markdown_file("Note.md"));
    assert!(is_markdown_file("/D/a.b.md"));
    assert!(!is_markdown_file("/D/.hidden.md"));
    assert!(!is_markdown_file("/D/.md"));
    assert!(!is_markdown_file("/D/test.txt"));
    assert!(!is_markdown_file("/D/test.json"));
    assert!(!is_markdown_file("/D/Note.MD"));
    assert!(!is_markdown_file("/D/Note"));
    assert!(is_markdown_file("/D/Note.md/"));
    assert!(!is_markdown_file("/D/.."));
    assert!(!is_markdown_file("/"));
    assert!(!is_markdown_file(""));
    assert!(is_markdown_file("/.git/Note.md"));
}

#[test]
fn a_duplicate_create_leaves_one_entry() {
    let handler = FileIndexHandler::new();
    let mut files = BTreeMap::new();
    files.insert("/D/a.md".to_string(), "first".to_string());
    let mut index = BTreeMap::new();

    let (outcome, asked) = settle(handler.handle_create("/D/a.md"), &files, &mut index);
    assert!(matches!(outcome, Outcome::Indexed));
    assert_eq!(asked, 3);
    assert_eq!(index.len(), 1);

    // The file changes, and the creation is reported once more.
    files.insert("/D/a.md".to_string(), "second".to_string());
    let (outcome, asked) = settle(handler.handle_create("/D/a.md"), &files, &mut index);
    assert!(matches!(outcome, Outcome::AlreadyIndexed));
    assert_eq!(asked, 1);
    assert_eq!(index.len(), 1);
    assert_eq!(index["/D/a.md"].content, "first");
    assert_eq!(index["/D/a.md"].title, "a");
}

#[test]
fn a_created_file_that_vanished_is_passed_over() {
    let handler = FileIndexHandler::new();
    let files = BTreeMap::new();
    let mut index = BTreeMap::new();
    let (outcome, asked) = settle(handler.handle_create("/D/gone.md"), &files, &mut index);
    assert!(matches!(outcome, Outcome::Vanished));
    assert_eq!(asked, 2);
    assert!(index.is_empty());
}

#[test]
fn a_modification_puts_the_new_text_in() {
    let handler = FileIndexHandler::new();
    let mut files = BTreeMap::new();
    files.insert("/D/a.md".to_string(), "v1".to_string());
    let mut index = BTreeMap::new();
    settle(handler.handle_modify("/D/a.md"), &files, &mut index);
    files.insert("/D/a.md".to_string(), "v2".to_string());
    let (outcome, asked) = settle(handler.handle_modify("/D/a.md"), &files, &mut index);
    assert!(matches!(outcome, Outcome::Indexed));
    assert_eq!(asked, 2);
    assert_eq!(index.len(), 1);
    assert_eq!(index["/D/a.md"].content, "v2");
}

#[test]
fn a_modification_of_a_vanished_file_takes_the_entry_out() {
    let handler = FileIndexHandler::new();
    let mut files = BTreeMap::new();
    files.insert("/D/a.md".to_string(), "v1".to_string());
    let mut index = BTreeMap::new();
    settle(handler.handle_modify("/D/a.md"), &files, &mut index);
    files.clear();
    let (outcome, asked) = settle(handler.handle_modify("/D/a.md"), &files, &mut index);
    assert!(matches!(outcome, Outcome::Removed { existed: true }));
    assert_eq!(asked, 2);
    assert!(index.is_empty());
    let (outcome, _) = settle(handler.handle_modify("/D/a.md"), &files, &mut index);
    assert!(matches!(outcome, Outcome::Removed { existed: false }));
}

#[test]
fn a_removal_takes_the_entry_out_if_there_is_one() {
    let handler = FileIndexHandler::new();
    let files = BTreeMap::new();
    let mut index = BTreeMap::new();
    index.insert("/D/a.md".to_string(), IndexedNote::of(&note("/D/a.md", "text")));
    let (outcome, asked) = settle(handler.handle_remove("/D/a.md"), &files, &mut index);
    assert!(matches!(outcome, Outcome::Removed { existed: true }));
    assert_eq!(asked, 1);
    let (outcome, _) = settle(handler.handle_remove("/D/a.md"), &files, &mut index);
    assert!(matches!(outcome, Outcome::Removed { existed: false }));
    assert!(index.is_empty());
}

#[test]
fn other_files_ask_nothing() {
    let handler = FileIndexHandler::new();
    for path in ["/D/test.txt", "/D/.hidden.md", "/D/test.json", "/D/dir/"] {
        assert!(matches!(
            handler.handle_create(path),
            Dispatch::Done { outcome: Outcome::Ignored }
        ));
        assert!(matches!(
            handler.handle_modify(path),
            Dispatch::Done { outcome: Outcome::Ignored }
        ));
        assert!(matches!(
            handler.handle_remove(path),
            Dispatch::Done { outcome: Outcome::Ignored }
        ));
    }
}

#[test]
fn changes_are_routed_by_kind() {
    let handler = FileIndexHandler::new();
    let created = Change { kind: ChangeKind::Create, path: "/D/a.md".to_string() };
    let modified = Change { kind: ChangeKind::Modify, path: "/D/a.md".to_string() };
    let removed = Change { kind: ChangeKind::Remove, path: "/D/a.md".to_string() };
    match handler.dispatch(&created) {
        Dispatch::CheckIndexed { path } => assert_eq!(path, "/D/a.md"),
        _ => panic!("a creation asks whether the path is indexed"),
    }
    match handler.dispatch(&modified) {
        Dispatch::OpenNote { path, heal } => {
            assert_eq!(path, "/D/a.md");
            assert!(heal);
        }
        _ => panic!("a modification opens the note"),
    }
    match handler.dispatch(&removed) {
        Dispatch::RemoveNote { path } => assert_eq!(path, "/D/a.md"),
        _ => panic!("a removal takes the entry out"),
    }
}

#[test]
fn a_failing_index_ends_the_exchange() {
    let handler = FileIndexHandler::new();
    let failure = || Reply::Failed(OraError::Connection("database is locked".to_string()));

    let ended = handler.handle_create("/D/a.md").resume(failure());
    match ended {
        Dispatch::Done { outcome: Outcome::Failed { error: OraError::Connection(text) } } => {
            assert_eq!(text, "database is locked")
        }
        _ => panic!("a failed lookup ends the exchange"),
    }

    let storing = handler.handle_modify("/D/a.md").resume(Reply::Opened(note("/D/a.md", "x")));
    assert!(matches!(storing, Dispatch::IndexNote { .. }));
    assert!(matches!(
        storing.resume(failure()),
        Dispatch::Done { outcome: Outcome::Failed { .. } }
    ));

    assert!(matches!(
        handler.handle_remove("/D/a.md").resume(failure()),
        Dispatch::Done { outcome: Outcome::Failed { .. } }
    ));
    assert!(matches!(
        handler
            .handle_remove("/D/a.md")
            .resume(Reply::Failed(OraError::Db(rusqlite::Error::QueryReturnedNoRows))),
        Dispatch::Done { outcome: Outcome::Failed { error: OraError::Db(_) } }
    ));
}

#[test]
fn a_reply_to_another_request_is_not_taken() {
    let handler = FileIndexHandler::new();
    let asked = handler.handle_create("/D/a.md").resume(Reply::Stored);
    assert!(matches!(asked, Dispatch::CheckIndexed { .. }));
    let asked = asked.resume(Reply::Removed(true));
    assert!(matches!(asked, Dispatch::CheckIndexed { .. }));
    let opening = asked.resume(Reply::Known(false));
    match &opening {
        Dispatch::OpenNote { path, heal } => {
            assert_eq!(path, "/D/a.md");
            assert!(!heal);
        }
        _ => panic!("an unindexed creation opens the note"),
    }
    assert!(!opening.is_done());
    let opening = opening.resume(Reply::Known(true));
    assert!(matches!(opening, Dispatch::OpenNote { .. }));
    let done = opening.resume(Reply::Unreadable(NoteError::InvalidPath));
    assert!(done.is_done());
    let done = done.resume(Reply::Stored);
    assert!(matches!(done, Dispatch::Done { outcome: Outcome::Vanished }));
}

#[test]
fn an_entry_is_a_copy_of_the_note() {
    let source = LocalNote {
        title: "T".to_string(),
        content: "text".to_string(),
        path: "/D/T.md".to_string(),
    };
    let entry = IndexedNote::of(&source);
    assert_eq!(entry.title, "T");
    assert_eq!(entry.content, "text");
    assert_eq!(entry.path, "/D/T.md");
}

#[test]
fn a_service_runs_once() {
    let mut service = WatcherService::create("/D", Duration::from_millis(40));
    assert_eq!(service.phase(), Phase::Created);
    assert_eq!(service.watch_path(), "/D");

    let debouncer = service.run(Ok(())).unwrap();
    assert_eq!(service.phase(), Phase::Running);
    assert_eq!(debouncer.duration(), Duration::from_millis(40));
    assert_eq!(debouncer.in_flight(), 0);

    match service.run(Ok(())) {
        Err(OraError::Other(text)) => assert_eq!(text, "watcher service was started before"),
        _ => panic!("a second start must be refused"),
    }
    assert_eq!(service.phase(), Phase::Running);

    let steps = service.shutdown();
    assert_eq!(
        steps,
        vec![ShutdownStep::StopWatcher, ShutdownStep::JoinDebouncer, ShutdownStep::JoinHandler]
    );
    assert_eq!(service.phase(), Phase::ShuttingDown);
    assert!(service.shutdown().is_empty());
    assert_eq!(service.phase(), Phase::ShuttingDown);
    service.stopped();
    assert_eq!(service.phase(), Phase::Stopped);

    assert!(matches!(service.run(Ok(())), Err(OraError::Other(_))));
    assert!(service.shutdown().is_empty());
    service.stopped();
    assert_eq!(service.phase(), Phase::Stopped);
}

#[test]
fn a_watcher_that_does_not_start_fails_the_run() {
    let mut service = WatcherService::create("/D", Duration::from_millis(40));
    match service.run(Err(notify::Error::generic("no such directory"))) {
        Err(OraError::Watcher(_)) => {}
        _ => panic!("the watcher's error must come back"),
    }
    assert_eq!(service.phase(), Phase::Created);
    assert!(service.run(Ok(())).is_ok());
    assert_eq!(service.phase(), Phase::Running);
}

#[test]
fn abandoned_changes_are_lost() {
    let mut debouncer = Debouncer::new(Duration::from_millis(50));
    let a = debouncer.on_event(ChangeKind::Create, "/D/a.md");
    let b = debouncer.on_event(ChangeKind::Modify, "/D/b.md");
    let a2 = debouncer.on_event(ChangeKind::Modify, "/D/a.md");
    let mut to_cancel = debouncer.abandon();
    to_cancel.sort();
    assert_eq!(to_cancel, vec![b.ticket, a2.ticket]);
    assert_eq!(debouncer.in_flight(), 0);
    assert!(debouncer.on_timer("/D/a.md", a.ticket).is_none());
    assert!(debouncer.on_timer("/D/a.md", a2.ticket).is_none());
    assert!(debouncer.on_timer("/D/b.md", b.ticket).is_none());
    assert!(debouncer.abandon().is_empty());

    // Tickets are never handed out twice.
    let next = debouncer.on_event(ChangeKind::Create, "/D/a.md");
    assert_eq!((next.ticket, next.cancelled), (3, None));
}
