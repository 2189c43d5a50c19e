use lazysync::cache::{cache_file_name, generate_hash, update_cache_with_response, CacheData};
use lazysync::entry::{entry_from_info, FileEntry, FileInfo};
use lazysync::protocol::{DirEntries, Response};

fn info(name: &str, file_type: &str, permissions: &str) -> FileInfo {
    FileInfo {
        name: name.to_string(),
        file_type: file_type.to_string(),
        permissions: permissions.to_string(),
        absolute_path: format!("/x/{}", name),
        modified: "2024-05-06 07:08:09".to_string(),
        size: 11,
    }
}

fn dir(path: &str, infos: Vec<FileInfo>) -> DirEntries {
    DirEntries { absolute_path: path.to_string(), entries: infos }
}

fn response(id: u64, path: &str, data: Vec<DirEntries>) -> Response {
    Response { id, path: path.to_string(), data }
}

#[test]
fn empty_cache_misses() {
    let cache = CacheData::new();
    assert!(cache.get("/tmp/proj").is_none());
    assert!(cache.get("").is_none());
    assert!(cache.listings().is_empty());
}

#[test]
fn update_then_get_returns_converted_entries() {
    let mut cache = CacheData::new();
    let infos = vec![info("sub", "", "drwxr-xr-x"), info("f.txt", "", "-rw-r--r--"), info("ln", "symlink", "-rwxrwxrwx")];
    let resp = response(1, "/tmp/proj", vec![dir("/tmp", vec![info("proj", "dir", "drwxr-xr-x")]), dir("/tmp/proj", infos.clone())]);
    cache.update(&resp);
    let got = cache.get("/tmp/proj").expect("present");
    let expected: Vec<FileEntry> = infos.iter().map(entry_from_info).collect();
    assert_eq!(got, expected);
    assert_eq!(got[0].file_type, "dir");
    assert!(got[0].is_dir);
    assert_eq!(got[1].file_type, "file");
    assert!(!got[1].is_dir);
    assert_eq!(got[2].permissions, "lrwxrwxrwx");
    let parent = cache.get("/tmp").expect("parent present");
    assert_eq!(parent.len(), 1);
    assert_eq!(parent[0].name, "proj");
}

#[test]
fn get_normalizes_the_requested_path() {
    let mut cache = CacheData::new();
    cache.update(&response(1, "/a", vec![dir("/a", vec![info("x", "file", "-rw-------")])]));
    assert!(cache.get("/a/").is_some());
    assert!(cache.get("  /a//  ").is_some());
    assert!(cache.get("/a/b").is_none());
}

#[test]
fn path_stored_with_trailing_slash_is_not_reached() {
    let mut cache = CacheData::new();
    cache.update(&response(1, "/a/", vec![dir("/a/", vec![info("x", "file", "-rw-------")])]));
    assert!(cache.get("/a/").is_none());
    assert!(cache.get("/a").is_none());
    assert_eq!(cache.listings().len(), 1);
}

#[test]
fn update_overwrites_whole_listing() {
    let mut cache = CacheData::new();
    cache.update(&response(1, "/a", vec![dir("/a", vec![info("x", "file", "-rw-------"), info("y", "file", "-rw-------")])]));
    cache.update(&response(2, "/a", vec![dir("/a", vec![info("z", "file", "-rw-------")])]));
    let got = cache.get("/a").expect("present");
    assert_eq!(got.len(), 1);
    assert_eq!(got[0].name, "z");
    assert_eq!(cache.listings().len(), 1);
}

#[test]
fn last_pair_for_a_duplicated_path_wins() {
    let mut cache = CacheData::new();
    let resp = response(
        1,
        "/a",
        vec![dir("/a", vec![info("first", "file", "-rw-------")]), dir("/b", vec![]), dir("/a", vec![info("second", "file", "-rw-------")])],
    );
    update_cache_with_response(&resp, &mut cache);
    let got = cache.get("/a").expect("present");
    assert_eq!(got.len(), 1);
    assert_eq!(got[0].name, "second");
    assert_eq!(cache.get("/b").expect("present").len(), 0);
}

#[test]
fn update_keeps_paths_it_does_not_list() {
    let mut cache = CacheData::new();
    cache.update(&response(1, "/a", vec![dir("/a", vec![info("x", "file", "-rw-------")])]));
    cache.update(&response(2, "/b", vec![dir("/b", vec![info("y", "file", "-rw-------")])]));
    assert_eq!(cache.get("/a").expect("kept")[0].name, "x");
    assert_eq!(cache.get("/b").expect("added")[0].name, "y");
}

#[test]
fn get_heals_stale_entries() {
    let mut cache = CacheData::new();
    let stale = FileEntry {
        name: "d".to_string(),
        is_dir: false,
        file_type: String::new(),
        size: 0,
        permissions: "drwxr-xr-x".to_string(),
        modified: "N/A".to_string(),
    };
    cache.insert("/old".to_string(), vec![stale]);
    let got = cache.get("/old").expect("present");
    assert_eq!(got[0].file_type, "dir");
    assert!(got[0].is_dir);
}

#[test]
fn listings_hold_each_path_once() {
    let mut cache = CacheData::new();
    cache.insert("/a".to_string(), vec![]);
    cache.insert("/b".to_string(), vec![]);
    cache.insert("/a".to_string(), vec![]);
    let mut paths: Vec<String> = cache.listings().into_iter().map(|p| p.0).collect();
    paths.sort();
    assert_eq!(paths, vec!["/a".to_string(), "/b".to_string()]);
}

#[test]
fn cache_file_name_without_hash() {
    assert_eq!(cache_file_name(false, 1234, 5678), "cache.json");
}

#[test]
fn cache_file_name_with_hash() {
    assert_eq!(cache_file_name(true, 255, 4096), "cache.json.ff1000");
    assert_eq!(cache_file_name(true, 0, 0), "cache.json.00");
}

#[test]
fn generate_hash_is_hex_of_pid_then_time() {
    assert_eq!(generate_hash(255, 4096), "ff1000");
    assert_eq!(generate_hash(4242, 1_700_000_000_123_456_789), format!("{:x}{:x}", 4242u128, 1_700_000_000_123_456_789u128));
    assert_eq!(generate_hash(u32::MAX, u128::MAX), format!("{:x}{:x}", u32::MAX, u128::MAX));
}
