use lazysync::cache::CacheData;
use lazysync::client::{
    announce_request, begin_request, checked_path, conclude, find_entries, first_match,
    inbound_line, lookup, CacheLookup, ClientError, WaitOutcome,
};
use lazysync::entry::{entry_from_info, FileEntry, FileInfo};
use lazysync::protocol::{DirEntries, Request, Response};
use lazysync::router::{route_response, RequestRouter};
use lazysync::snapshot::{build_entries_for_path, ChildProbe, Listing, SnapshotProbe};

fn info(name: &str, permissions: &str) -> FileInfo {
    FileInfo {
        name: name.to_string(),
        file_type: String::new(),
        permissions: permissions.to_string(),
        absolute_path: format!("/tmp/proj/{}", name),
        modified: "2024-01-01 00:00:00".to_string(),
        size: 5,
    }
}

fn dir(path: &str, names: &[&str]) -> DirEntries {
    DirEntries { absolute_path: path.to_string(), entries: names.iter().map(|n| info(n, "-rw-r--r--")).collect() }
}

fn names(entries: &[FileEntry]) -> Vec<String> {
    entries.iter().map(|e| e.name.clone()).collect()
}

fn own(paths: &[&str]) -> Vec<String> {
    paths.iter().map(|p| p.to_string()).collect()
}

#[test]
fn empty_path_is_refused_before_sending() {
    assert_eq!(checked_path(""), Err(ClientError::EmptyPath));
    assert_eq!(checked_path("  \t\n"), Err(ClientError::EmptyPath));
    assert_eq!(checked_path("  /a "), Ok("/a".to_string()));
    assert_eq!(checked_path("/a/"), Ok("/a/".to_string()));
}

#[test]
fn inbound_lines_are_trimmed_and_blank_ones_skipped() {
    assert_eq!(inbound_line("{\"id\":1}\n"), Some("{\"id\":1}".to_string()));
    assert_eq!(inbound_line("\r\n"), None);
    assert_eq!(inbound_line(""), None);
}

#[test]
fn error_messages() {
    assert_eq!(ClientError::Timeout.message(), "Timeout waiting for response");
    assert_eq!(ClientError::ChannelClosed.message(), "Channel error");
    assert_eq!(ClientError::Connection.message(), "Write error");
    assert_eq!(ClientError::EmptyPath.message(), "Path is required");
}

#[test]
fn lookup_hits_or_names_the_path_to_request() {
    let mut cache = CacheData::new();
    match lookup(&cache, " /tmp/proj/ ") {
        CacheLookup::Miss(request) => assert_eq!(request, "/tmp/proj"),
        CacheLookup::Hit(_) => panic!("cache is empty"),
    }
    cache.insert("/tmp/proj".to_string(), vec![entry_from_info(&info("a", "-rw-r--r--"))]);
    match lookup(&cache, "/tmp/proj/") {
        CacheLookup::Hit(entries) => assert_eq!(names(&entries), vec!["a"]),
        CacheLookup::Miss(_) => panic!("cache holds the path"),
    }
}

#[test]
fn requests_are_numbered_in_order() {
    let mut router: RequestRouter<u8> = RequestRouter::new();
    let first = begin_request(&mut router, 1, "/a".to_string());
    assert_eq!(first, Request { id: 1, path: "/a".to_string() });
    let second = announce_request(&mut router, "/b".to_string());
    assert_eq!(second, Request { id: 2, path: "/b".to_string() });
    let third = begin_request(&mut router, 3, "/c".to_string());
    assert_eq!(third.id, 3);
    assert!(router.is_pending(1));
    assert!(!router.is_pending(2));
    assert!(router.is_pending(3));
}

#[test]
fn first_matching_directory_wins() {
    let resp = Response {
        id: 1,
        path: "/tmp/proj".to_string(),
        data: vec![dir("/tmp", &["proj"]), dir("/tmp/proj/", &["first"]), dir("/tmp/proj", &["second"])],
    };
    let canonical = own(&["/tmp", "/tmp/proj", "/tmp/proj"]);
    assert_eq!(first_match(&resp, "/tmp/proj", "/tmp/proj", &canonical), Some(1));
    let found = find_entries(&resp, "/tmp/proj", "/tmp/proj", &canonical);
    assert_eq!(names(&found), vec!["first"]);
}

#[test]
fn first_match_wins_even_when_it_is_empty() {
    let resp = Response {
        id: 1,
        path: "/tmp/proj".to_string(),
        data: vec![dir("/tmp/proj", &[]), dir("/tmp/proj", &["later"])],
    };
    let canonical = own(&["/tmp/proj", "/tmp/proj"]);
    assert_eq!(first_match(&resp, "/tmp/proj", "/tmp/proj", &canonical), Some(0));
    assert!(find_entries(&resp, "/tmp/proj", "/tmp/proj", &canonical).is_empty());
}

#[test]
fn match_through_canonical_forms() {
    let resp = Response { id: 1, path: "link".to_string(), data: vec![dir("/other", &["x"]), dir("/cwd/link", &["y"])] };
    let canonical = own(&["/other", "/real/target"]);
    assert_eq!(first_match(&resp, "link", "/real/target", &canonical), Some(1));
    assert_eq!(first_match(&resp, "link", "/cwd/link", &canonical), Some(1));
    assert_eq!(first_match(&resp, "/real/target/", "/elsewhere", &canonical), Some(1));
    assert_eq!(first_match(&resp, "link", "/nowhere", &canonical), None);
}

#[test]
fn missing_canonical_forms_fall_back_to_the_path_itself() {
    let resp = Response { id: 1, path: "/a".to_string(), data: vec![dir("/b", &["x"]), dir("/a", &["y"])] };
    assert_eq!(first_match(&resp, "/a", "/a", &Vec::new()), Some(1));
    assert_eq!(first_match(&resp, "/zzz", "/b", &Vec::new()), Some(0));
}

#[test]
fn no_match_gives_an_empty_success() {
    let resp = Response { id: 1, path: "/a".to_string(), data: vec![dir("/b", &["x"])] };
    let mut router: RequestRouter<u8> = RequestRouter::new();
    let id = router.register(0);
    let result = conclude(&mut router, id, WaitOutcome::Answered(resp), "/a", "/a", &own(&["/b"]));
    assert_eq!(result, Ok(Vec::new()));
}

#[test]
fn timeout_removes_the_pending_request() {
    let mut router: RequestRouter<u8> = RequestRouter::new();
    let id = router.register(0);
    let other = router.register(1);
    let result = conclude(&mut router, id, WaitOutcome::TimedOut, "/a", "/a", &Vec::new());
    assert_eq!(result, Err(ClientError::Timeout));
    assert!(!router.is_pending(id));
    assert!(router.is_pending(other));
}

#[test]
fn failed_send_removes_the_pending_request() {
    let mut router: RequestRouter<u8> = RequestRouter::new();
    let id = router.register(0);
    let result = conclude(&mut router, id, WaitOutcome::NotSent, "/a", "/a", &Vec::new());
    assert_eq!(result, Err(ClientError::Connection));
    assert!(!router.is_pending(id));
}

#[test]
fn wait_lasts_five_seconds() {
    assert_eq!(lazysync::client::RESPONSE_TIMEOUT_SECS, 5);
    assert_eq!(lazysync::transfer::READ_CHANNEL_CAPACITY, 8);
}

#[test]
fn closed_channel_removes_the_pending_request() {
    let mut router: RequestRouter<u8> = RequestRouter::new();
    let id = router.register(0);
    let result = conclude(&mut router, id, WaitOutcome::Closed, "/a", "/a", &Vec::new());
    assert_eq!(result, Err(ClientError::ChannelClosed));
    assert!(!router.is_pending(id));
}

#[test]
fn request_then_response_then_cached_answer() {
    let mut cache = CacheData::new();
    let mut router: RequestRouter<&str> = RequestRouter::new();

    // The cache is empty: the lookup names the path to request.
    let request_path = match lookup(&cache, "/tmp/proj") {
        CacheLookup::Miss(p) => p,
        CacheLookup::Hit(_) => panic!("cache is empty"),
    };
    let request = begin_request(&mut router, "caller", request_path.clone());
    assert_eq!(request, Request { id: 1, path: "/tmp/proj".to_string() });

    // The server assembles the snapshot.
    let probe = SnapshotProbe {
        path: request.path.clone(),
        cwd: "/".to_string(),
        parent: Some(Listing { path: "/tmp".to_string(), entries: Some(vec![info("proj", "drwxr-xr-x")]) }),
        dir_like: true,
        entries: Some(vec![info("src", "drwxr-xr-x"), info("README", "-rw-r--r--")]),
        children: vec![
            ChildProbe { path: "/tmp/proj/src".to_string(), dir_like: true, entries: Some(vec![info("lib.rs", "-rw-r--r--")]) },
            ChildProbe { path: "/tmp/proj/README".to_string(), dir_like: false, entries: None },
        ],
    };
    let resp = Response { id: request.id, path: request.path.clone(), data: build_entries_for_path(&probe) };

    // The listener routes it and folds it into the cache.
    let waiter = route_response(&mut router, &mut cache, &resp);
    assert_eq!(waiter, Some("caller"));
    let canonical: Vec<String> = resp.data.iter().map(|d| d.absolute_path.clone()).collect();
    let first = conclude(&mut router, request.id, WaitOutcome::Answered(resp), &request_path, &request_path, &canonical)
        .expect("answered");
    assert_eq!(names(&first), vec!["src", "README"]);
    assert!(first[0].is_dir);
    assert_eq!(first[0].file_type, "dir");
    assert_eq!(first[1].file_type, "file");

    // The second call is answered from the cache, and no id is used.
    match lookup(&cache, "/tmp/proj") {
        CacheLookup::Hit(second) => assert_eq!(second, first),
        CacheLookup::Miss(_) => panic!("cache holds the path now"),
    }
    assert_eq!(router.latest_id(), 1);
    assert!(cache.get("/tmp/proj/src").is_some());
    assert!(cache.get("/tmp").is_some());
    assert!(cache.get("/tmp/proj/README").is_none());
}
