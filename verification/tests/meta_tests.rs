use lazysync::meta::{
    build_file_info, file_type_string, format_modified_time, format_permissions,
    is_dir_or_symlink_dir, local_instant, modified_text, to_absolute_path, FileMeta,
};
use lazysync::text::{decimal_string, hex_string};

fn meta(is_symlink: bool, is_dir: bool, is_file: bool, mode: u32) -> FileMeta {
    FileMeta { is_symlink, is_dir, is_file, mode, modified: None, len: 0 }
}

#[test]
fn permissions_of_common_modes() {
    assert_eq!(format_permissions(&meta(false, true, false, 0o755)), "drwxr-xr-x");
    assert_eq!(format_permissions(&meta(false, false, true, 0o644)), "-rw-r--r--");
    assert_eq!(format_permissions(&meta(true, false, false, 0o777)), "lrwxrwxrwx");
    assert_eq!(format_permissions(&meta(false, false, true, 0)), "----------");
    assert_eq!(format_permissions(&meta(false, false, false, 0o100)), "---x------");
    assert_eq!(format_permissions(&meta(false, false, true, 0o421)), "-r---w---x");
}

#[test]
fn permissions_ignore_bits_above_the_nine() {
    assert_eq!(format_permissions(&meta(false, false, true, 0o100644)), "-rw-r--r--");
    assert_eq!(format_permissions(&meta(false, true, false, 0o40755)), "drwxr-xr-x");
    assert_eq!(format_permissions(&meta(false, false, true, 0o7000)), "----------");
}

#[test]
fn symlink_flag_comes_before_directory_flag() {
    assert_eq!(format_permissions(&meta(true, true, false, 0o700)), "lrwx------");
    assert_eq!(file_type_string(&meta(true, true, false, 0)), "symlink");
}

#[test]
fn type_names() {
    assert_eq!(file_type_string(&meta(true, false, false, 0)), "symlink");
    assert_eq!(file_type_string(&meta(false, true, false, 0)), "dir");
    assert_eq!(file_type_string(&meta(false, false, true, 0)), "file");
    assert_eq!(file_type_string(&meta(false, false, false, 0)), "other");
}

#[test]
fn dir_like_rules() {
    let dir = meta(false, true, false, 0);
    let file = meta(false, false, true, 0);
    let link = meta(true, false, false, 0);
    assert!(is_dir_or_symlink_dir(Some(dir), None));
    assert!(!is_dir_or_symlink_dir(Some(file), Some(dir)));
    assert!(is_dir_or_symlink_dir(Some(link), Some(dir)));
    assert!(!is_dir_or_symlink_dir(Some(link), Some(file)));
    assert!(!is_dir_or_symlink_dir(Some(link), None));
    assert!(!is_dir_or_symlink_dir(None, Some(dir)));
    assert!(!is_dir_or_symlink_dir(None, None));
}

#[test]
fn absolute_paths() {
    assert_eq!(to_absolute_path("/a/b", "/cwd"), "/a/b");
    assert_eq!(to_absolute_path("a/b", "/cwd"), "/cwd/a/b");
    assert_eq!(to_absolute_path("a/b", "/cwd/"), "/cwd/a/b");
    assert_eq!(to_absolute_path("a", "/"), "/a");
    assert_eq!(to_absolute_path("", "/cwd"), "/cwd/");
    assert_eq!(to_absolute_path("a", ""), "a");
    assert_eq!(to_absolute_path("./a/", "/cwd"), "/cwd/./a/");
}

#[test]
fn absolute_paths_agree_with_std_join() {
    for (path, cwd) in [("a/b", "/cwd"), ("/a", "/cwd"), ("a", "/cwd/"), ("", "/cwd"), ("..", "/x/y")] {
        let expected = std::path::Path::new(cwd).join(path).display().to_string();
        assert_eq!(to_absolute_path(path, cwd), expected, "{:?} {:?}", path, cwd);
    }
}

#[test]
fn unknown_modification_time() {
    assert_eq!(format_modified_time(&meta(false, false, true, 0)), "N/A");
    assert_eq!(modified_text(None, Some("2020-01-01 00:00:00".to_string())), "N/A");
    assert_eq!(modified_text(None, None), "N/A");
}

#[test]
fn modification_time_falls_back_to_seconds() {
    assert_eq!(modified_text(Some(1_700_000_000), None), "1700000000");
    assert_eq!(modified_text(Some(0), None), "0");
    assert_eq!(modified_text(Some(5), Some("2020-01-01 00:00:00".to_string())), "2020-01-01 00:00:00");
}

#[test]
fn modification_time_is_written_in_local_time() {
    for secs in [0u64, 86_399, 951_782_400, 1_700_000_000, 4_102_444_800] {
        let mut m = meta(false, false, true, 0o644);
        m.modified = Some(secs);
        let text = format_modified_time(&m);
        let expected = chrono::DateTime::from_timestamp(secs as i64, 0)
            .expect("in range")
            .with_timezone(&chrono::Local)
            .format("%Y-%m-%d %H:%M:%S")
            .to_string();
        assert_eq!(text, expected);
        assert_ne!(text, secs.to_string());
        let bytes = text.as_bytes();
        assert_eq!(bytes.len(), 19);
        assert_eq!(bytes[4], b'-');
        assert_eq!(bytes[7], b'-');
        assert_eq!(bytes[10], b' ');
        assert_eq!(bytes[13], b':');
        assert_eq!(bytes[16], b':');
    }
}

#[test]
fn modification_time_follows_the_local_offset() {
    for secs in [0u64, 1_000_000_000, 1_720_000_000] {
        let utc = chrono::DateTime::from_timestamp(secs as i64, 0).expect("in range");
        let off = utc.with_timezone(&chrono::Local).offset().local_minus_utc();
        let shifted = chrono::DateTime::from_timestamp(secs as i64 + off as i64, 0).expect("in range");
        let mut m = meta(false, false, true, 0o644);
        m.modified = Some(secs);
        assert_eq!(format_modified_time(&m), shifted.format("%Y-%m-%d %H:%M:%S").to_string());
    }
}

#[test]
fn modification_time_beyond_the_calendar_is_written_in_seconds() {
    let mut m = meta(false, false, true, 0o644);
    m.modified = Some(9_000_000_000_000_000);
    assert_eq!(format_modified_time(&m), "9000000000000000");
}

#[test]
fn instants_are_moved_by_the_offset() {
    assert_eq!(local_instant(1000, Some(3600)), Some(4600));
    assert_eq!(local_instant(1000, Some(-3600)), Some(-2600));
    assert_eq!(local_instant(0, Some(0)), Some(0));
    assert_eq!(local_instant(1000, None), None);
    assert_eq!(local_instant(i64::MAX as u64, Some(1)), None);
    assert_eq!(local_instant(i64::MAX as u64, Some(0)), Some(i64::MAX));
    assert_eq!(local_instant(i64::MAX as u64 - 5, Some(5)), Some(i64::MAX));
    assert_eq!(local_instant(i64::MAX as u64 + 5, Some(-5)), Some(i64::MAX));
    assert_eq!(local_instant(i64::MAX as u64 + 5, Some(-4)), None);
    assert_eq!(local_instant(u64::MAX, Some(i32::MIN)), None);
    assert_eq!(local_instant(0, Some(i32::MIN)), Some(i32::MIN as i64));
}

#[test]
fn modification_time_out_of_range_is_written_in_seconds() {
    let mut m = meta(false, false, true, 0o644);
    m.modified = Some(u64::MAX);
    assert_eq!(format_modified_time(&m), "18446744073709551615");
    m.modified = Some(i64::MAX as u64);
    assert_eq!(format_modified_time(&m), "9223372036854775807");
}

#[test]
fn decimal_and_hex() {
    assert_eq!(decimal_string(0), "0");
    assert_eq!(decimal_string(9), "9");
    assert_eq!(decimal_string(10), "10");
    assert_eq!(decimal_string(1_234_567_890), "1234567890");
    assert_eq!(decimal_string(u64::MAX), "18446744073709551615");
    assert_eq!(hex_string(0), "0");
    assert_eq!(hex_string(15), "f");
    assert_eq!(hex_string(16), "10");
    assert_eq!(hex_string(0xdead_beef), "deadbeef");
    assert_eq!(hex_string(u128::MAX), "ffffffffffffffffffffffffffffffff");
}

#[test]
fn file_info_is_built_from_metadata() {
    let m = FileMeta { is_symlink: false, is_dir: true, is_file: false, mode: 0o750, modified: None, len: 4096 };
    let info = build_file_info("sub".to_string(), "proj/sub", "/tmp", &m);
    assert_eq!(info.name, "sub");
    assert_eq!(info.file_type, "dir");
    assert_eq!(info.permissions, "drwxr-x---");
    assert_eq!(info.absolute_path, "/tmp/proj/sub");
    assert_eq!(info.modified, "N/A");
    assert_eq!(info.size, 4096);
}
