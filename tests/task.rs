use rust_paper::digest::calculate_sha256;
use rust_paper::errors::SyncError;
use rust_paper::ledger::LockFile;
use rust_paper::retry::{RetryState, MAX_RETRY, RETRY_DELAY_SECS};
use rust_paper::task::{find_existing_image, join, metadata_link, stem, Action, Outcome, Phase, Task, MAX_IN_FLIGHT};

const PNG_BYTES: [u8; 12] = [0x89, b'P', b'N', b'G', 0x0D, 0x0A, 0x1A, 0x0A, 1, 2, 3, 4];
const REPLY: &str = r#"{"data":{"path":"https://w.example/full/abc.png"}}"#;

fn strs(v: &[&str]) -> Vec<String> {
    v.iter().map(|s| s.to_string()).collect()
}

#[test]
fn stems_of_file_names() {
    assert_eq!(stem("abc.png"), "abc");
    assert_eq!(stem("a.b.c"), "a.b");
    assert_eq!(stem(".bashrc"), ".bashrc");
    assert_eq!(stem(".a.b"), ".a");
    assert_eq!(stem("foo."), "foo");
    assert_eq!(stem("plain"), "plain");
}

#[test]
fn find_first_matching_stem() {
    let names = strs(&["abcd.png", "ABC.png", "abc.jpeg", "abc.png"]);
    assert_eq!(find_existing_image(&names, "abc"), Some(2));
    assert_eq!(find_existing_image(&names, "ab"), None);
    assert_eq!(find_existing_image(&Vec::new(), "abc"), None);
}

#[test]
fn paths_and_links() {
    assert_eq!(join("/w", "a.png"), "/w/a.png");
    assert_eq!(metadata_link(" abc "), "https://wallhaven.cc/api/v1/w/abc");
    assert_eq!(MAX_IN_FLIGHT, 10);
}

#[test]
fn retry_machine_steps() {
    let s = RetryState::start();
    assert_eq!(s, RetryState::Attempt(1));
    assert_eq!(s.on_result(true), (RetryState::Success, false));
    assert_eq!(s.on_result(false), (RetryState::Attempt(2), true));
    assert_eq!(RetryState::Attempt(MAX_RETRY).on_result(false), (RetryState::Failed, false));
    assert_eq!(RETRY_DELAY_SECS, 1);
}

/// Drives the metadata stage of a fresh task over a run of transport
/// results; returns the number of requests made and the action reached.
fn drive_fetch(task: &mut Task, results: &[bool]) -> (usize, Action) {
    let mut requests = 0;
    let mut action = task.on_listed(Some(Vec::new()));
    let mut next = 0;
    loop {
        match action {
            Action::GetText(_) => {
                requests += 1;
                let ok = results[next];
                next += 1;
                action = task.on_reply(if ok { Some(REPLY.to_string()) } else { None });
            }
            Action::Sleep(s) => {
                assert_eq!(s, 1);
                action = task.on_slept();
            }
            other => return (requests, other),
        }
    }
}

fn begun(id: &str, integrity: bool) -> Task {
    let mut t = Task::new(id.to_string(), "/w".to_string(), integrity);
    match t.begin() {
        Action::ListDir(d) => assert_eq!(d, "/w"),
        _ => panic!("expected a directory listing"),
    }
    t
}

#[test]
fn fetch_succeeds_on_third_attempt() {
    let mut t = begun("abc", false);
    let (requests, action) = drive_fetch(&mut t, &[false, false, true]);
    assert_eq!(requests, 3);
    match action {
        Action::GetBytes(u) => assert_eq!(u, "https://w.example/full/abc.png"),
        _ => panic!("expected a download"),
    }
    match t.on_body(Some(PNG_BYTES.to_vec())) {
        Action::Save { path, bytes } => {
            assert_eq!(path, "/w/abc.png");
            assert_eq!(bytes, PNG_BYTES.to_vec());
        }
        _ => panic!("expected a save"),
    }
    assert!(matches!(t.on_saved(true), Action::Finish(Outcome::Downloaded)));
}

#[test]
fn fetch_failing_three_times_fails_only_that_identifier() {
    let mut bad = begun("bad", false);
    let mut good = begun("good", false);
    let (requests, action) = drive_fetch(&mut bad, &[false, false, false]);
    assert_eq!(requests, 3);
    assert!(matches!(action, Action::Finish(Outcome::Failed(SyncError::Fetch))));
    assert!(matches!(bad.phase(), Phase::Done(Outcome::Failed(SyncError::Fetch))));
    let (requests, action) = drive_fetch(&mut good, &[true]);
    assert_eq!(requests, 1);
    assert!(matches!(action, Action::GetBytes(_)));
    assert!(matches!(good.on_body(Some(PNG_BYTES.to_vec())), Action::Save { .. }));
    assert!(matches!(good.on_saved(true), Action::Finish(Outcome::Downloaded)));
}

#[test]
fn integrity_off_skips_existing_file() {
    let mut t = begun("abc", false);
    let a = t.on_listed(Some(strs(&["x.png", "abc.jpg"])));
    assert!(matches!(a, Action::Finish(Outcome::Skipped)));
}

#[test]
fn listing_failure_fails_identifier() {
    let mut t = begun("abc", true);
    assert!(matches!(t.on_listed(None), Action::Finish(Outcome::Failed(SyncError::ListDir))));
}

#[test]
fn reply_errors_fail_identifier() {
    let mut t = begun("abc", false);
    t.on_listed(Some(Vec::new()));
    assert!(matches!(t.on_reply(Some("{\"error\":\"x\"}".to_string())), Action::Finish(Outcome::Failed(SyncError::Api))));
    let mut t = begun("abc", false);
    t.on_listed(Some(Vec::new()));
    assert!(matches!(t.on_reply(Some("oops".to_string())), Action::Finish(Outcome::Failed(SyncError::Parse))));
    let mut t = begun("abc", false);
    t.on_listed(Some(Vec::new()));
    assert!(matches!(t.on_reply(Some("{\"data\":{\"path\":\"nope\"}}".to_string())), Action::Finish(Outcome::Failed(SyncError::BadUrl))));
}

#[test]
fn download_failures_fail_identifier() {
    let mut t = begun("abc", false);
    t.on_listed(Some(Vec::new()));
    t.on_reply(Some(REPLY.to_string()));
    assert!(matches!(t.on_body(None), Action::Finish(Outcome::Failed(SyncError::Download))));
    let mut t = begun("abc", false);
    t.on_listed(Some(Vec::new()));
    t.on_reply(Some(REPLY.to_string()));
    assert!(matches!(t.on_body(Some(b"text".to_vec())), Action::Finish(Outcome::Failed(SyncError::Decode))));
    let mut t = begun("abc", true);
    t.on_listed(Some(Vec::new()));
    t.on_reply(Some(REPLY.to_string()));
    t.on_body(Some(PNG_BYTES.to_vec()));
    assert!(matches!(t.on_saved(false), Action::Finish(Outcome::Failed(SyncError::Save))));
}

/// One run of a task with integrity on, against a directory holding `names`
/// and files whose content is `content`.
fn run_with_integrity(id: &str, names: Vec<String>, content: &[u8], ledger: &mut LockFile) -> (Outcome, usize) {
    let mut t = begun(id, true);
    let mut downloads = 0;
    let mut action = t.on_listed(Some(names));
    loop {
        action = match action {
            Action::ReadFile(p) => {
                assert_eq!(p, format!("/w/{}.png", id));
                t.on_checked(Some(content.to_vec()), ledger)
            }
            Action::GetText(_) => t.on_reply(Some(REPLY.to_string())),
            Action::GetBytes(_) => {
                downloads += 1;
                t.on_body(Some(content.to_vec()))
            }
            Action::Save { .. } => t.on_saved(true),
            Action::Record(p) => {
                assert_eq!(p, format!("/w/{}.png", id));
                t.on_recorded(Some(content.to_vec()), ledger)
            }
            Action::Persist => t.on_persisted(true),
            Action::Finish(o) => return (o, downloads),
            _ => panic!("unexpected action"),
        };
    }
}

#[test]
fn second_run_skips_everything() {
    let mut ledger = LockFile::new();
    let (o, d) = run_with_integrity("abc", Vec::new(), &PNG_BYTES, &mut ledger);
    assert_eq!((o, d), (Outcome::Downloaded, 1));
    let (o, d) = run_with_integrity("def", Vec::new(), &PNG_BYTES, &mut ledger);
    assert_eq!((o, d), (Outcome::Downloaded, 1));
    assert_eq!(ledger.len(), 2);
    assert!(ledger.contains("abc", &calculate_sha256(&PNG_BYTES)));
    assert_eq!(ledger.entry(0).image_location, "/w/abc.png");
    let (o, d) = run_with_integrity("abc", strs(&["abc.png", "def.png"]), &PNG_BYTES, &mut ledger);
    assert_eq!((o, d), (Outcome::Skipped, 0));
    let (o, d) = run_with_integrity("def", strs(&["abc.png", "def.png"]), &PNG_BYTES, &mut ledger);
    assert_eq!((o, d), (Outcome::Skipped, 0));
    assert_eq!(ledger.len(), 2);
}

#[test]
fn changed_file_is_fetched_again() {
    let mut ledger = LockFile::new();
    ledger.add("abc".to_string(), "/w/abc.png".to_string(), "0000".to_string());
    let (o, d) = run_with_integrity("abc", strs(&["abc.png"]), &PNG_BYTES, &mut ledger);
    assert_eq!((o, d), (Outcome::Downloaded, 1));
    assert_eq!(ledger.len(), 1);
    assert_eq!(ledger.entry(0).sha256, calculate_sha256(&PNG_BYTES));
}

#[test]
fn record_and_persist_failures() {
    let mut ledger = LockFile::new();
    let mut t = begun("abc", true);
    t.on_listed(Some(Vec::new()));
    t.on_reply(Some(REPLY.to_string()));
    t.on_body(Some(PNG_BYTES.to_vec()));
    assert!(matches!(t.on_saved(true), Action::Record(_)));
    assert!(matches!(t.on_recorded(None, &mut ledger), Action::Finish(Outcome::Failed(SyncError::ReadFile))));
    assert_eq!(ledger.len(), 0);
    let mut t = begun("abc", true);
    t.on_listed(Some(Vec::new()));
    t.on_reply(Some(REPLY.to_string()));
    t.on_body(Some(PNG_BYTES.to_vec()));
    t.on_saved(true);
    assert!(matches!(t.on_recorded(Some(PNG_BYTES.to_vec()), &mut ledger), Action::Persist));
    assert!(matches!(t.on_persisted(false), Action::Finish(Outcome::Failed(SyncError::Persist))));
}

#[test]
fn unreadable_file_fails_check() {
    let ledger = LockFile::new();
    let mut t = begun("abc", true);
    assert!(matches!(t.on_listed(Some(strs(&["abc.png"]))), Action::ReadFile(_)));
    assert!(matches!(t.on_checked(None, &ledger), Action::Finish(Outcome::Failed(SyncError::ReadFile))));
}
