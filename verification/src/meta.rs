//! From the facts the file system gives about a path to the record the
//! server sends for it.

use vstd::prelude::*;
use crate::entry::{FileInfo, FileInfoView};
use crate::text::{decimal_string, decimal_text, option_text, starts_with_char};

verus! {

/// What the file system says about a path, taken without following a
/// final symlink.
#[derive(Debug, PartialEq, Eq, Structural, Clone, Copy)]
pub struct FileMeta {
    pub is_symlink: bool,
    pub is_dir: bool,
    pub is_file: bool,
    /// The permission bits.
    pub mode: u32,
    /// Modification time in seconds since the epoch, if it is known.
    pub modified: Option<u64>,
    /// Size in bytes.
    pub len: u64,
}

/// The type name of an entry.
pub open spec fn kind_name(meta: FileMeta) -> Seq<char> {
    if meta.is_symlink {
        "symlink"@
    } else if meta.is_dir {
        "dir"@
    } else if meta.is_file {
        "file"@
    } else {
        "other"@
    }
}

/// The character that stands for an entry's type in its permissions.
pub open spec fn type_flag(meta: FileMeta) -> char {
    if meta.is_symlink {
        'l'
    } else if meta.is_dir {
        'd'
    } else {
        '-'
    }
}

/// `flag` if `mode` has any bit of `mask`, a dash if not.
pub open spec fn mode_flag(mode: u32, mask: u32, flag: char) -> char {
    if mode & mask != 0 {
        flag
    } else {
        '-'
    }
}

/// The ten-character permission string: the type, then read, write and
/// execute for owner, group and others.
pub open spec fn permission_text(meta: FileMeta) -> Seq<char> {
    seq![
        type_flag(meta),
        mode_flag(meta.mode, 0o400, 'r'),
        mode_flag(meta.mode, 0o200, 'w'),
        mode_flag(meta.mode, 0o100, 'x'),
        mode_flag(meta.mode, 0o040, 'r'),
        mode_flag(meta.mode, 0o020, 'w'),
        mode_flag(meta.mode, 0o010, 'x'),
        mode_flag(meta.mode, 0o004, 'r'),
        mode_flag(meta.mode, 0o002, 'w'),
        mode_flag(meta.mode, 0o001, 'x'),
    ]
}

pub fn file_type_string(meta: &FileMeta) -> (name: String)
    ensures
        name@ == kind_name(*meta),
{
    if meta.is_symlink {
        "symlink".to_owned()
    } else if meta.is_dir {
        "dir".to_owned()
    } else if meta.is_file {
        "file".to_owned()
    } else {
        "other".to_owned()
    }
}

fn flag_text(mode: u32, mask: u32, flag: &'static str) -> (text: &'static str)
    requires
        flag@.len() == 1,
    ensures
        text@ == seq![mode_flag(mode, mask, flag@[0])],
{
    if mode & mask != 0 {
        assert(flag@ =~= seq![flag@[0]]);
        flag
    } else {
        proof {
            reveal_strlit("-");
        }
        assert("-"@ =~= seq!['-']);
        "-"
    }
}

pub fn format_permissions(meta: &FileMeta) -> (text: String)
    ensures
        text@ == permission_text(*meta),
{
    proof {
        reveal_strlit("l");
        reveal_strlit("d");
        reveal_strlit("-");
        reveal_strlit("r");
        reveal_strlit("w");
        reveal_strlit("x");
    }
    let mode = meta.mode;
    let mut text = if meta.is_symlink {
        "l".to_owned()
    } else if meta.is_dir {
        "d".to_owned()
    } else {
        "-".to_owned()
    };
    assert(text@ =~= seq![type_flag(*meta)]);
    text.append(flag_text(mode, 0o400, "r"));
    text.append(flag_text(mode, 0o200, "w"));
    text.append(flag_text(mode, 0o100, "x"));
    text.append(flag_text(mode, 0o040, "r"));
    text.append(flag_text(mode, 0o020, "w"));
    text.append(flag_text(mode, 0o010, "x"));
    text.append(flag_text(mode, 0o004, "r"));
    text.append(flag_text(mode, 0o002, "w"));
    text.append(flag_text(mode, 0o001, "x"));
    assert(text@ =~= permission_text(*meta));
    text
}

/// Whether a path can be listed: it is a directory, or a symlink whose
/// target is one. `meta` is what is known of the path itself and `target`
/// what is known of the path with symlinks followed; either is absent
/// where the file system gave nothing.
pub open spec fn dir_like(meta: Option<FileMeta>, target: Option<FileMeta>) -> bool {
    match meta {
        None => false,
        Some(m) => m.is_dir || (m.is_symlink && target is Some && target->Some_0.is_dir),
    }
}

pub fn is_dir_or_symlink_dir(meta: Option<FileMeta>, target: Option<FileMeta>) -> (listable: bool)
    ensures
        listable == dir_like(meta, target),
{
    let m = match meta {
        Some(m) => m,
        None => {
            return false;
        },
    };
    if m.is_dir {
        return true;
    }
    if m.is_symlink {
        if let Some(t) = target {
            return t.is_dir;
        }
    }
    false
}

/// Whether a path is absolute: it begins with a slash.
pub open spec fn is_absolute(path: Seq<char>) -> bool {
    path.len() > 0 && path[0] == '/'
}

/// A path made absolute: an absolute path stays, any other is joined to
/// the working directory `cwd` with one slash between them.
pub open spec fn absolute_path(path: Seq<char>, cwd: Seq<char>) -> Seq<char> {
    if is_absolute(path) {
        path
    } else if cwd.len() > 0 && cwd[cwd.len() - 1] != '/' {
        cwd + seq!['/'] + path
    } else {
        cwd + path
    }
}

/// Makes a path absolute against the working directory, without
/// resolving symlinks.
pub fn to_absolute_path(path: &str, cwd: &str) -> (absolute: String)
    ensures
        absolute@ == absolute_path(path@, cwd@),
{
    if starts_with_char(path, '/') {
        return path.to_owned();
    }
    let mut absolute = cwd.to_owned();
    let n = cwd.unicode_len();
    if n > 0 && cwd.get_char(n - 1) != '/' {
        proof {
            reveal_strlit("/");
        }
        assert("/"@ =~= seq!['/']);
        absolute.append("/");
    }
    absolute.append(path);
    absolute
}

/// The pattern in which a modification time is written: year, month,
/// day, hour, minute and second.
pub open spec fn time_pattern() -> Seq<char> {
    "%Y-%m-%d %H:%M:%S"@
}

/// What chrono writes, in `pattern`, for the time `secs` seconds after
/// the epoch taken as UTC; `None` where the time is outside chrono's
/// range.
pub uninterp spec fn utc_time_text(secs: int, pattern: Seq<char>) -> Option<Seq<char>>;

/// Calls chrono: `DateTime::from_timestamp` with no nanoseconds, then
/// `with_timezone(&Local)`, `offset` and `local_minus_utc`. The result is
/// the number of seconds by which local time is ahead of UTC at that
/// instant, and `None` where `from_timestamp` gives `None`. The offset
/// depends on the time zone of the machine; chrono keeps every offset
/// within a day, and that is all that is claimed.
#[verifier::external_body]
fn local_offset(secs: i64) -> (offset: Option<i32>)
    ensures
        offset matches Some(off) ==> -86_400 < off < 86_400,
{
    match chrono::DateTime::from_timestamp(secs, 0) {
        Some(utc) => Some(utc.with_timezone(&chrono::Local).offset().local_minus_utc()),
        None => None,
    }
}

/// Calls chrono: `DateTime::from_timestamp` with no nanoseconds, then
/// `format` with `pattern`. The result depends on the two arguments
/// alone and is named `utc_time_text`. With the pattern of
/// `time_pattern` chrono writes at least four characters for the year
/// and two for each other field, so the text has nineteen or more.
#[verifier::external_body]
fn format_utc(secs: i64, pattern: &str) -> (text: Option<String>)
    requires
        pattern@ == time_pattern(),
    ensures
        option_text(text) == utc_time_text(secs as int, pattern@),
        text matches Some(t) ==> t@.len() >= 19,
{
    match chrono::DateTime::from_timestamp(secs, 0) {
        Some(utc) => Some(utc.format(pattern).to_string()),
        None => None,
    }
}

/// The instant whose UTC form reads as the local form of `secs`, where
/// local time is `offset` seconds ahead: their sum. Absent where no
/// offset is known or the sum is beyond the largest signed number of
/// seconds.
pub open spec fn shifted_instant(secs: u64, offset: Option<i32>) -> Option<i64> {
    match offset {
        Some(off) => if secs + off <= i64::MAX {
            Some((secs + off) as i64)
        } else {
            None
        },
        None => None,
    }
}

/// Moves an instant by the local offset.
pub fn local_instant(secs: u64, offset: Option<i32>) -> (shifted: Option<i64>)
    ensures
        shifted == shifted_instant(secs, offset),
{
    let off = match offset {
        Some(off) => off as i64,
        None => {
            return None;
        },
    };
    if secs > 0x7fff_ffff_ffff_ffff {
        return if off < 0 && secs - 0x7fff_ffff_ffff_ffff <= (-off) as u64 {
            Some((secs - (-off) as u64) as i64)
        } else {
            None
        };
    }
    let base = secs as i64;
    if off > 0 && base > 0x7fff_ffff_ffff_ffff - off {
        None
    } else {
        Some(base + off)
    }
}

/// The text shown for a modification time. `local` is the time written
/// in local time, where that could be done.
pub open spec fn modified_label(modified: Option<u64>, local: Option<Seq<char>>) -> Seq<char> {
    match modified {
        None => "N/A"@,
        Some(secs) => match local {
            Some(text) => text,
            None => decimal_text(secs as nat),
        },
    }
}

/// Chooses the text for a modification time: `N/A` where the time is not
/// known, the local time where it could be written, and otherwise the
/// seconds in decimal.
pub fn modified_text(modified: Option<u64>, local: Option<String>) -> (text: String)
    ensures
        text@ == modified_label(modified, option_text(local)),
{
    match modified {
        None => "N/A".to_owned(),
        Some(secs) => match local {
            Some(text) => text,
            None => decimal_string(secs),
        },
    }
}

/// Whether `text` is the local form of the time `secs`: what chrono
/// writes, in the pattern of `time_pattern`, for an instant less than a
/// day away from `secs`.
pub open spec fn is_local_text(secs: u64, text: Seq<char>) -> bool {
    exists|shifted: int|
        secs - 86_400 < shifted < secs + 86_400 && #[trigger] utc_time_text(shifted, time_pattern())
            == Some(text)
}

/// Whether `text` may stand for the modification time `modified`. A time
/// that is not known is `N/A`. A known one is written in its local form,
/// which has nineteen characters or more, or else as the seconds in
/// decimal; a time beyond the largest signed number of seconds has the
/// decimal form only.
pub open spec fn is_modified_text(modified: Option<u64>, text: Seq<char>) -> bool {
    match modified {
        None => text == "N/A"@,
        Some(secs) => {
            ||| text == decimal_text(secs as nat)
            ||| secs <= i64::MAX && text.len() >= 19 && is_local_text(secs, text)
        },
    }
}

/// The text for the modification time of an entry. A time that is not
/// known gives `N/A`. For a known one the local offset at that instant is
/// asked of the time-zone library, and the shifted instant is written in
/// the pattern of `time_pattern`; where the library has no answer, the
/// seconds are written in decimal.
pub fn format_modified_time(meta: &FileMeta) -> (text: String)
    ensures
        is_modified_text(meta.modified, text@),
{
    let local = match meta.modified {
        Some(secs) => {
            let offset = if secs <= 0x7fff_ffff_ffff_ffff {
                local_offset(secs as i64)
            } else {
                None
            };
            match local_instant(secs, offset) {
                Some(shifted) => format_utc(shifted, "%Y-%m-%d %H:%M:%S"),
                None => None,
            }
        },
        None => None,
    };
    modified_text(meta.modified, local)
}

/// The record for an entry named `name` at `path`, made absolute against
/// the working directory `cwd`.
pub fn build_file_info(name: String, path: &str, cwd: &str, meta: &FileMeta) -> (info: FileInfo)
    ensures
        info@.name == name@,
        info@.file_type == kind_name(*meta),
        info@.permissions == permission_text(*meta),
        info@.absolute_path == absolute_path(path@, cwd@),
        info@.size == meta.len,
        is_modified_text(meta.modified, info@.modified),
{
    FileInfo {
        name,
        file_type: file_type_string(meta),
        permissions: format_permissions(meta),
        absolute_path: to_absolute_path(path, cwd),
        modified: format_modified_time(meta),
        size: meta.len,
    }
}

} // verus!
