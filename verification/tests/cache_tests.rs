use gsc_client::cache::{build_table, UriCache};
use gsc_client::errors::GscError;
use gsc_client::messages::SubmissionRecord;
use gsc_client::{submission_files_uri, user_submissions_uri, user_uri, GscClient};
use gsc_client::config::Config;

fn record(n: usize, uri: &str) -> SubmissionRecord {
    SubmissionRecord { assignment_number: n, uri: uri.to_owned() }
}

#[test]
fn build_table_is_sparse() {
    let subs = vec![record(1, "/api/submissions/51"), record(3, "/api/submissions/52")];
    let table = build_table(&subs, "http://host");
    assert_eq!(table.len(), 4);
    assert_eq!(table[0], None);
    assert_eq!(table[1].as_deref(), Some("http://host/api/submissions/51"));
    assert_eq!(table[2], None);
    assert_eq!(table[3].as_deref(), Some("http://host/api/submissions/52"));
}

#[test]
fn build_table_later_record_wins() {
    let subs = vec![record(2, "/old"), record(2, "/new")];
    let table = build_table(&subs, "e");
    assert_eq!(table.len(), 3);
    assert_eq!(table[2].as_deref(), Some("e/new"));
}

// Resolving the same (username, assignment) twice needs one fetch: after
// the table from the first fetch is stored, the cache reports no fetch
// needed, and both resolutions come from that payload.
#[test]
fn resolve_twice_fetches_once() {
    let mut cache = UriCache::new();
    assert!(cache.needs_fetch("alice"));

    let subs = vec![record(3, "/api/submissions/9")];
    cache.store("alice", build_table(&subs, "http://host"));

    assert!(!cache.needs_fetch("alice"));
    let first = cache.resolve("alice", 3).unwrap();
    let second = cache.resolve("alice", 3).unwrap();
    assert_eq!(first, "http://host/api/submissions/9");
    assert_eq!(first, second);
}

#[test]
fn cache_is_per_username() {
    let mut cache = UriCache::new();
    cache.store("alice", build_table(&vec![record(1, "/a1")], "e"));
    assert!(cache.needs_fetch("bob"));
    cache.store("bob", build_table(&vec![record(1, "/b1")], "e"));
    assert_eq!(cache.resolve("alice", 1).unwrap(), "e/a1");
    assert_eq!(cache.resolve("bob", 1).unwrap(), "e/b1");
    assert!(!cache.needs_fetch("alice"));
}

#[test]
fn unknown_homework_is_an_error_not_a_skip() {
    let mut cache = UriCache::new();
    cache.store("alice", build_table(&vec![record(1, "/a1")], "e"));
    assert!(matches!(cache.resolve("alice", 0), Err(GscError::UnknownHomework(0))));
    assert!(matches!(cache.resolve("alice", 7), Err(GscError::UnknownHomework(7))));
}

#[test]
fn server_addresses() {
    assert_eq!(user_uri("http://host", "alice"), "http://host/api/users/alice");
    assert_eq!(
        user_submissions_uri("http://host", "alice"),
        "http://host/api/users/alice/submissions"
    );
    assert_eq!(
        submission_files_uri("http://host/api/submissions/9"),
        "http://host/api/submissions/9/files"
    );
}

#[test]
fn client_context_state() {
    let config = Config::new(None, "http://host");
    let mut client = GscClient::new(config);
    assert!(!client.had_warning());
    assert!(client.submission_uris.needs_fetch("alice"));
    client.note_warning();
    assert!(client.had_warning());
    assert_eq!(client.config().get_endpoint(), "http://host");
    client.config_mut().set_username("alice".to_owned());
    assert_eq!(client.config().get_username(), "alice");
}
