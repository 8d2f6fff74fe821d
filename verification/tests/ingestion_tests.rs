use rs_timeskip_archiver::digest::digest_bytes;
use rs_timeskip_archiver::session::IngestionSession;
use rs_timeskip_archiver::session::PollResult;
use rs_timeskip_archiver::session::SessionState;
use rs_timeskip_archiver::store::RecordStore;
use rs_timeskip_archiver::worker::IngestInput;
use rs_timeskip_archiver::worker::ingest_batch;
use rs_timeskip_archiver::worker::ingest_item;

fn input(path: &str, content: Option<&[u8]>) -> IngestInput {
    IngestInput { path: path.to_string(), content: content.map(|b| b.to_vec()) }
}

#[test]
fn batch_signals_count_up_to_the_total() {
    let mut store = RecordStore::new();
    assert!(store.create_profile("books").is_ok());
    let mut session = IngestionSession::new();
    let mut tx = session.start();
    let items = vec![
        input("one", Some(b"1")),
        input("two", Some(b"2")),
        input("three", Some(b"3")),
    ];
    let signals = ingest_batch(&mut store, 1, &items, &mut tx);
    assert_eq!(signals.len(), 3);
    for (i, sig) in signals.iter().enumerate() {
        assert_eq!(sig.completed, i + 1);
        assert_eq!(sig.total, 3);
        assert!(sig.completed <= sig.total);
    }
    // Monotone in emission order.
    for pair in signals.windows(2) {
        assert!(pair[0].completed <= pair[1].completed);
    }
}

#[test]
fn skip_and_continue_keeps_only_readable_paths() {
    let mut store = RecordStore::new();
    assert!(store.create_profile("books").is_ok());
    let mut session = IngestionSession::new();
    let mut tx = session.start();
    let items = vec![
        input("valid_a", Some(b"alpha")),
        input("missing_b", None),
        input("valid_c", Some(b"gamma")),
    ];
    // Process the batch one path at a time, polling cooperatively in between
    // as a caller's event loop would, so every emitted signal is observed.
    let mut signals = Vec::new();
    let mut done = false;
    for (i, item) in items.iter().enumerate() {
        signals.push(ingest_item(&mut store, 1, item, i, items.len(), &mut tx));
        for _ in 0..5 {
            if session.poll() == PollResult::Done {
                done = true;
                break;
            }
        }
    }
    // The skipped path still advances progress; the batch is never aborted.
    assert_eq!(signals.len(), 3);
    assert_eq!(signals[2].completed, 3);
    assert_eq!(signals[2].total, 3);
    let files = store.list_files(1);
    assert_eq!(files.len(), 2);
    assert_eq!(files[0].file_name, "valid_a");
    assert_eq!(files[1].file_name, "valid_c");
    assert_eq!(files[0].digest, digest_bytes(b"alpha"));
    assert_eq!(files[1].digest, digest_bytes(b"gamma"));
    assert!(files.iter().all(|f| f.file_name != "missing_b"));
    // The batch with a skipped path still reached the terminal state.
    assert!(done);
    assert_eq!(session.state(), SessionState::Completed);
    assert_eq!(session.completed(), 3);
    assert_eq!(session.total(), 3);
}

#[test]
fn unknown_profile_skips_every_path_but_still_finishes() {
    let mut store = RecordStore::new();
    assert!(store.create_profile("books").is_ok());
    let mut session = IngestionSession::new();
    let mut tx = session.start();
    let items = vec![input("a", Some(b"a")), input("b", Some(b"b"))];
    let signals = ingest_batch(&mut store, 99, &items, &mut tx);
    assert_eq!(signals.len(), 2);
    assert_eq!(signals[1].completed, 2);
    assert!(store.list_files(99).is_empty());
    assert!(store.list_files(1).is_empty());
}

#[test]
fn polling_reaches_completion_for_a_fully_valid_batch() {
    let mut store = RecordStore::new();
    assert!(store.create_profile("books").is_ok());
    let mut session = IngestionSession::new();
    let mut tx = session.start();
    let items = vec![input("one", Some(b"1")), input("two", Some(b"2"))];
    // Interleave item processing with cooperative polls, as a caller's event
    // loop would; bounded attempts suffice to observe completion.
    let total = items.len();
    let mut completed = false;
    for (i, item) in items.iter().enumerate() {
        ingest_item(&mut store, 1, item, i, total, &mut tx);
        for _ in 0..5 {
            match session.poll() {
                PollResult::Done => {
                    completed = true;
                    break;
                }
                PollResult::Pending { completed: c, total: t } => {
                    assert!(c <= t || t == 0);
                }
            }
        }
    }
    assert!(completed);
    assert_eq!(session.state(), SessionState::Completed);
    assert_eq!(session.completed(), 2);
    assert_eq!(session.total(), 2);
    // Completed is terminal until a new batch starts.
    assert_eq!(session.poll(), PollResult::Done);
}

#[test]
fn session_reports_pending_while_no_signal_was_ever_delivered() {
    let mut session = IngestionSession::new();
    assert_eq!(session.state(), SessionState::Idle);
    let _tx = session.start();
    assert_eq!(session.state(), SessionState::InProgress);
    // An empty batch emits no signal: the session alone cannot observe
    // completion and keeps reporting its fresh counters.
    for _ in 0..10 {
        assert_eq!(session.poll(), PollResult::Pending { completed: 0, total: 0 });
    }
    assert_eq!(session.state(), SessionState::InProgress);
}

#[test]
fn restarting_a_session_resets_its_counters() {
    let mut store = RecordStore::new();
    assert!(store.create_profile("books").is_ok());
    let mut session = IngestionSession::new();
    let mut tx = session.start();
    let items = vec![input("one", Some(b"1"))];
    ingest_batch(&mut store, 1, &items, &mut tx);
    let mut done = false;
    for _ in 0..10 {
        if session.poll() == PollResult::Done {
            done = true;
            break;
        }
    }
    assert!(done);
    assert_eq!(session.completed(), 1);
    let _tx2 = session.start();
    assert_eq!(session.state(), SessionState::InProgress);
    assert_eq!(session.completed(), 0);
    assert_eq!(session.total(), 0);
}

#[test]
fn books_scenario_records_both_digests_and_a_terminal_signal() {
    let mut store = RecordStore::new();
    assert!(store.create_profile("Books").is_ok());
    let profiles = store.list_profiles();
    assert_eq!(profiles.len(), 1);
    assert_eq!(profiles[0].name, "Books");
    let profile_id = profiles[0].id;

    let mut session = IngestionSession::new();
    let mut tx = session.start();
    let items = vec![input("book1.txt", Some(b"abc")), input("book2.txt", Some(b"xyz"))];
    let signals = ingest_batch(&mut store, profile_id, &items, &mut tx);
    assert_eq!(signals.last(), Some(&rs_timeskip_archiver::progress::ProgressSignal {
        completed: 2,
        total: 2,
    }));

    let files = store.list_files(profile_id);
    assert_eq!(files.len(), 2);
    assert_eq!(files[0].file_name, "book1.txt");
    assert_eq!(files[1].file_name, "book2.txt");
    assert_eq!(files[0].digest, digest_bytes(b"abc"));
    assert_eq!(files[1].digest, digest_bytes(b"xyz"));
    assert_eq!(
        files[0].digest,
        "3a985da74fe225b2045c172d6bd390bd855f086e3e9d525b46bfe24511431532"
    );

    let mut done = false;
    for _ in 0..10 {
        if session.poll() == PollResult::Done {
            done = true;
            break;
        }
    }
    assert!(done);
    assert_eq!(session.completed(), 2);
    assert_eq!(session.total(), 2);
}
