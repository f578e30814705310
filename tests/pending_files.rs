use launch_files::launch::{handle_event, launch_paths, LaunchEvent, Reaction};
use launch_files::opened::{names_bare_drive, opened_file_paths, resolved_paths};
use launch_files::store::{add_pending_files, get_pending_files, PendingFileStore};

fn strings(items: &[&str]) -> Vec<String> {
    items.iter().map(|s| s.to_string()).collect()
}

/// The text of each URL as the `url` crate serialises it, as the host hands it on.
fn urls(items: &[&str]) -> Vec<String> {
    items.iter().map(|s| url::Url::parse(s).unwrap().as_str().to_string()).collect()
}

/// Local paths are written with `/` here; elsewhere the path tests below
/// have nothing to compare with.
fn slash_paths() -> bool {
    std::path::MAIN_SEPARATOR == '/'
}

#[test]
fn new_store_drains_empty() {
    let mut store = PendingFileStore::new();
    assert_eq!(get_pending_files(&mut store), Vec::<String>::new());
}

#[test]
fn appends_keep_order_and_duplicates() {
    let mut store = PendingFileStore::new();
    add_pending_files(&mut store, strings(&["/a", "/b"]));
    add_pending_files(&mut store, strings(&["/a"]));
    assert_eq!(get_pending_files(&mut store), strings(&["/a", "/b", "/a"]));
}

#[test]
fn second_drain_without_append_is_empty() {
    let mut store = PendingFileStore::new();
    add_pending_files(&mut store, strings(&["/one.txt"]));
    assert_eq!(get_pending_files(&mut store), strings(&["/one.txt"]));
    assert_eq!(get_pending_files(&mut store), Vec::<String>::new());
}

#[test]
fn interleaved_appends_and_drains_deliver_each_path_once() {
    let mut store = PendingFileStore::new();
    let mut delivered: Vec<String> = Vec::new();
    add_pending_files(&mut store, strings(&["/1", "/2"]));
    delivered.extend(get_pending_files(&mut store));
    add_pending_files(&mut store, strings(&["/3"]));
    add_pending_files(&mut store, strings(&[]));
    add_pending_files(&mut store, strings(&["/2"]));
    delivered.extend(get_pending_files(&mut store));
    delivered.extend(get_pending_files(&mut store));
    add_pending_files(&mut store, strings(&["/4"]));
    delivered.extend(get_pending_files(&mut store));
    assert_eq!(delivered, strings(&["/1", "/2", "/3", "/2", "/4"]));
}

#[test]
fn racing_appends_both_delivered_in_either_order() {
    let mut first = PendingFileStore::new();
    add_pending_files(&mut first, strings(&["/p.txt"]));
    add_pending_files(&mut first, strings(&["/q.txt"]));
    assert_eq!(get_pending_files(&mut first), strings(&["/p.txt", "/q.txt"]));

    let mut second = PendingFileStore::new();
    add_pending_files(&mut second, strings(&["/q.txt"]));
    add_pending_files(&mut second, strings(&["/p.txt"]));
    assert_eq!(get_pending_files(&mut second), strings(&["/q.txt", "/p.txt"]));
}

#[test]
fn launch_paths_drop_the_executable() {
    assert_eq!(launch_paths(strings(&["app", "/a.txt", "/b.txt"])), strings(&["/a.txt", "/b.txt"]));
    assert_eq!(launch_paths(strings(&["app"])), Vec::<String>::new());
    assert_eq!(launch_paths(Vec::new()), Vec::<String>::new());
    assert_eq!(launch_paths(strings(&["app", "not a path", ""])), strings(&["not a path", ""]));
}

#[test]
fn startup_arguments_are_queried_in_order() {
    let mut store = PendingFileStore::new();
    let started = LaunchEvent::Started { args: strings(&["app", "/a.txt", "/b.txt"]) };
    assert_eq!(handle_event(&mut store, started), Reaction::Nothing);
    assert_eq!(
        handle_event(&mut store, LaunchEvent::Query),
        Reaction::Reply { files: strings(&["/a.txt", "/b.txt"]) }
    );
    assert_eq!(handle_event(&mut store, LaunchEvent::Query), Reaction::Reply { files: Vec::new() });
}

#[test]
fn duplicate_launch_reaches_primary_query() {
    let mut store = PendingFileStore::new();
    handle_event(&mut store, LaunchEvent::Started { args: strings(&["app"]) });
    let relayed = LaunchEvent::SecondInstance { args: strings(&["app", "/c.txt"]) };
    assert_eq!(handle_event(&mut store, relayed), Reaction::Notify);
    assert_eq!(
        handle_event(&mut store, LaunchEvent::Query),
        Reaction::Reply { files: strings(&["/c.txt"]) }
    );
}

#[test]
fn open_event_keeps_only_local_files() {
    if !slash_paths() {
        return;
    }
    let paths = opened_file_paths(&urls(&["file:///x.txt", "https://example.com"]));
    assert_eq!(paths, strings(&["/x.txt"]));
    let mut store = PendingFileStore::new();
    assert_eq!(handle_event(&mut store, LaunchEvent::Opened { paths }), Reaction::Notify);
    assert_eq!(
        handle_event(&mut store, LaunchEvent::Query),
        Reaction::Reply { files: strings(&["/x.txt"]) }
    );
}

#[test]
fn open_event_decodes_and_keeps_order() {
    if !slash_paths() {
        return;
    }
    let paths = opened_file_paths(&urls(&[
        "file:///b/second%20file.md",
        "mailto:someone@example.com",
        "file://localhost/a.txt",
        "file://fileserver/share/c.txt",
    ]));
    assert_eq!(paths, strings(&["/b/second file.md", "/a.txt"]));
}

#[test]
fn open_event_drops_remote_web_urls_everywhere() {
    let paths = opened_file_paths(&urls(&["https://example.com", "http://example.org/a/b.txt"]));
    assert_eq!(paths, Vec::<String>::new());
    assert_eq!(opened_file_paths(&Vec::new()), Vec::<String>::new());
}

#[test]
fn open_event_drops_bare_drive_urls() {
    let texts = urls(&["file:///Y:", "file:///Z%3A?x", "file://localhost/C|"]);
    assert_eq!(opened_file_paths(&texts), Vec::<String>::new());
}

#[test]
fn bare_drive_text_is_recognised() {
    assert!(names_bare_drive(b"file:///Y:"));
    assert!(names_bare_drive(b"file:///Y|#top"));
    assert!(names_bare_drive(b"file:///Y%3a"));
    assert!(names_bare_drive(b"file:///Y%3A "));
    assert!(names_bare_drive(b"file:///a\tb.txt"));
    assert!(!names_bare_drive(b"file:///Y:/notes.txt"));
    assert!(!names_bare_drive(b"file:///x.txt"));
    assert!(!names_bare_drive(b"https://example.com"));
    assert!(!names_bare_drive(b""));
}

#[test]
fn resolved_paths_skip_unresolved_entries() {
    let results = vec![None, Some("/k.txt".to_string()), None, Some("/j.txt".to_string())];
    assert_eq!(resolved_paths(&results), strings(&["/k.txt", "/j.txt"]));
    assert_eq!(resolved_paths(&vec![None, None]), Vec::<String>::new());
}

#[test]
fn events_on_one_store_interleave_by_arrival() {
    let mut store = PendingFileStore::new();
    handle_event(&mut store, LaunchEvent::Started { args: strings(&["app", "/s.txt"]) });
    handle_event(&mut store, LaunchEvent::Opened { paths: strings(&["/o.txt"]) });
    handle_event(&mut store, LaunchEvent::SecondInstance { args: strings(&["app", "/s.txt"]) });
    assert_eq!(
        handle_event(&mut store, LaunchEvent::Query),
        Reaction::Reply { files: strings(&["/s.txt", "/o.txt", "/s.txt"]) }
    );
}
