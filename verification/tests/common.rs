use plex_pg_core::shim_init::{
    linux_process_name_is_primary, linux_process_name_requires_passthrough,
};
use plex_pg_core::text::rust_simple_str_replace;
use plex_pg_core::worker::{rust_worker_cleanup, rust_worker_init, Worker};

fn call_replace(input: Option<&str>, old: Option<&str>, new_str: Option<&str>) -> Option<String> {
    rust_simple_str_replace(input, old, new_str)
}

#[test]
fn common_helpers_simple_str_replace_null_str_returns_none() {
    assert!(call_replace(None, Some("old"), Some("new")).is_none());
}

#[test]
fn common_helpers_simple_str_replace_null_old_returns_none() {
    assert!(call_replace(Some("hello"), None, Some("new")).is_none());
}

#[test]
fn common_helpers_simple_str_replace_null_new_returns_none() {
    assert!(call_replace(Some("hello"), Some("old"), None).is_none());
}

#[test]
fn common_helpers_simple_str_replace_no_match_returns_none() {
    assert!(call_replace(Some("hello world"), Some("xyz"), Some("abc")).is_none());
}

#[test]
fn common_helpers_simple_str_replace_basic_replace() {
    assert_eq!(
        call_replace(Some("hello world"), Some("world"), Some("earth")),
        Some("hello earth".to_string())
    );
}

#[test]
fn common_helpers_simple_str_replace_at_start() {
    assert_eq!(
        call_replace(Some("hello world"), Some("hello"), Some("goodbye")),
        Some("goodbye world".to_string())
    );
}

#[test]
fn common_helpers_simple_str_replace_at_end() {
    assert_eq!(
        call_replace(Some("hello world"), Some("world"), Some("!")),
        Some("hello !".to_string())
    );
}

#[test]
fn common_helpers_simple_str_replace_shorter_with_longer() {
    assert_eq!(
        call_replace(Some("ab"), Some("a"), Some("xyz")),
        Some("xyzb".to_string())
    );
}

#[test]
fn common_helpers_simple_str_replace_longer_with_shorter() {
    assert_eq!(
        call_replace(Some("hello world"), Some("hello"), Some("hi")),
        Some("hi world".to_string())
    );
}

#[test]
fn common_helpers_simple_str_replace_delete_segment() {
    assert_eq!(
        call_replace(Some("hello world"), Some("hello "), Some("")),
        Some("world".to_string())
    );
}

#[test]
fn common_helpers_simple_str_replace_empty_old_prepends() {
    assert_eq!(
        call_replace(Some("hello"), Some(""), Some("X")),
        Some("Xhello".to_string())
    );
}

#[test]
fn common_helpers_simple_str_replace_first_occurrence_only() {
    assert_eq!(
        call_replace(Some("aaa"), Some("a"), Some("b")),
        Some("baa".to_string())
    );
}

#[test]
fn common_helpers_simple_str_replace_sql_transform() {
    assert_eq!(
        call_replace(
            Some("INSERT OR REPLACE INTO tags"),
            Some("INSERT OR REPLACE INTO"),
            Some("INSERT INTO")
        ),
        Some("INSERT INTO tags".to_string())
    );
}

#[test]
fn str_replace_counts_characters_not_bytes() {
    assert_eq!(
        call_replace(Some("caf\u{e9} noir"), Some("\u{e9}"), Some("e")),
        Some("cafe noir".to_string())
    );
}

#[test]
fn worker_init_does_not_spawn_a_second_worker() {
    // Two threads that delegate at once both find no worker and both start one.
    // A second start must not replace the thread, or two workers would read the
    // one request and the first could never be waited for.
    let mut worker = Worker::new();
    rust_worker_cleanup(&mut worker);
    assert_eq!(worker.running, 0, "worker should be stopped before the test");

    assert_eq!(rust_worker_init(&mut worker, || Some(0x1000)), 0);
    let first = worker.thread;
    assert_ne!(worker.running, 0);

    assert_eq!(rust_worker_init(&mut worker, || Some(0x2000)), 0);
    let second = worker.thread;

    let stopped = rust_worker_cleanup(&mut worker);

    assert_eq!(
        first, second,
        "second init spawned another worker and orphaned the first"
    );
    assert_eq!(stopped, Some(first));
}

#[test]
fn worker_that_cannot_be_started_is_not_running() {
    let mut worker = Worker::new();
    assert_eq!(rust_worker_init(&mut worker, || None), -1);
    assert_eq!(worker.running, 0);
    assert_eq!(rust_worker_cleanup(&mut worker), None);
    assert_eq!(rust_worker_init(&mut worker, || Some(7)), 0);
    assert_eq!(worker.thread, 7);
}

#[test]
fn linux_primary_process_names_stay_active() {
    assert!(linux_process_name_is_primary("Plex Media Server"));
    assert!(linux_process_name_is_primary("Plex Media Serv"));
    assert!(linux_process_name_is_primary("Plex Media Scanner"));
    assert!(!linux_process_name_requires_passthrough(
        "Plex Media Scanner"
    ));
}

#[test]
fn linux_helper_process_names_switch_to_passthrough() {
    assert!(linux_process_name_requires_passthrough("PMS CPM"));
    assert!(linux_process_name_requires_passthrough("PMS ReqHandler"));
    assert!(linux_process_name_requires_passthrough("PMS FileWatcher"));
    assert!(!linux_process_name_requires_passthrough(""));
}

#[test]
fn linux_names_cut_by_the_kernel_stay_active() {
    assert!(linux_process_name_is_primary("Plex Media Scan"));
    assert!(!linux_process_name_is_primary("Plex Media Sc"));
    assert!(!linux_process_name_requires_passthrough("Plex Media Serv"));
}
