//! Directory-entry records: the wire form sent by the server, the
//! normalised form kept by the client, and the rules that derive one
//! from the other.

use vstd::prelude::*;
use crate::text::{first_char, without_first, str_eq, starts_with_char};

verus! {

/// One directory entry as the server reports it.
#[derive(Debug, PartialEq, Eq)]
pub struct FileInfo {
    pub name: String,
    /// `dir`, `file`, `symlink` or `other`; may arrive empty.
    pub file_type: String,
    /// One type character followed by nine `rwx` flags.
    pub permissions: String,
    pub absolute_path: String,
    pub modified: String,
    pub size: u64,
}

/// Mathematical value of a [`FileInfo`].
pub ghost struct FileInfoView {
    pub name: Seq<char>,
    pub file_type: Seq<char>,
    pub permissions: Seq<char>,
    pub absolute_path: Seq<char>,
    pub modified: Seq<char>,
    pub size: u64,
}

impl View for FileInfo {
    type V = FileInfoView;

    open spec fn view(&self) -> FileInfoView {
        FileInfoView {
            name: self.name@,
            file_type: self.file_type@,
            permissions: self.permissions@,
            absolute_path: self.absolute_path@,
            modified: self.modified@,
            size: self.size,
        }
    }
}

impl Clone for FileInfo {
    fn clone(&self) -> (copy: Self)
        ensures
            copy@ == self@,
    {
        FileInfo {
            name: self.name.clone(),
            file_type: self.file_type.clone(),
            permissions: self.permissions.clone(),
            absolute_path: self.absolute_path.clone(),
            modified: self.modified.clone(),
            size: self.size,
        }
    }
}

/// One directory entry as the client caches and returns it.
#[derive(Debug, PartialEq, Eq)]
pub struct FileEntry {
    pub name: String,
    pub is_dir: bool,
    pub file_type: String,
    pub size: u64,
    pub permissions: String,
    pub modified: String,
}

/// Mathematical value of a [`FileEntry`].
pub ghost struct FileEntryView {
    pub name: Seq<char>,
    pub is_dir: bool,
    pub file_type: Seq<char>,
    pub size: u64,
    pub permissions: Seq<char>,
    pub modified: Seq<char>,
}

impl View for FileEntry {
    type V = FileEntryView;

    open spec fn view(&self) -> FileEntryView {
        FileEntryView {
            name: self.name@,
            is_dir: self.is_dir,
            file_type: self.file_type@,
            size: self.size,
            permissions: self.permissions@,
            modified: self.modified@,
        }
    }
}

impl Clone for FileEntry {
    fn clone(&self) -> (copy: Self)
        ensures
            copy@ == self@,
    {
        FileEntry {
            name: self.name.clone(),
            is_dir: self.is_dir,
            file_type: self.file_type.clone(),
            size: self.size,
            permissions: self.permissions.clone(),
            modified: self.modified.clone(),
        }
    }
}

/// The type of an entry: the reported one when present, otherwise read
/// from the first permission character, otherwise from the directory flag.
pub open spec fn inferred_type(file_type: Seq<char>, permissions: Seq<char>, is_dir: bool) -> Seq<
    char,
> {
    if file_type.len() > 0 {
        file_type
    } else if first_char(permissions) == Some('l') {
        "symlink"@
    } else if first_char(permissions) == Some('d') {
        "dir"@
    } else if is_dir {
        "dir"@
    } else {
        "file"@
    }
}

/// The permission string of an entry of the given type: a symlink always
/// starts with `l`, whatever its first character was; any other type keeps
/// the string as it is.
pub open spec fn normalized_permissions(permissions: Seq<char>, file_type: Seq<char>) -> Seq<char> {
    if file_type == "symlink"@ {
        seq!['l'] + without_first(permissions)
    } else {
        permissions
    }
}

/// The normal form of an entry: type inferred, permissions adjusted to the
/// type, and the directory flag recomputed from both.
pub open spec fn normalized_entry(e: FileEntryView) -> FileEntryView {
    let file_type = inferred_type(e.file_type, e.permissions, e.is_dir);
    let permissions = normalized_permissions(e.permissions, file_type);
    FileEntryView {
        name: e.name,
        is_dir: file_type == "dir"@ || first_char(permissions) == Some('d'),
        file_type,
        size: e.size,
        permissions,
        modified: e.modified,
    }
}

/// The cache entry that stands for a wire record.
pub open spec fn entry_of_info(fi: FileInfoView) -> FileEntryView {
    normalized_entry(
        FileEntryView {
            name: fi.name,
            is_dir: first_char(fi.permissions) == Some('d'),
            file_type: fi.file_type,
            size: fi.size,
            permissions: fi.permissions,
            modified: fi.modified,
        },
    )
}

/// The values of a list of wire records.
pub open spec fn infos_view(s: Seq<FileInfo>) -> Seq<FileInfoView> {
    Seq::new(s.len(), |i: int| s[i]@)
}

/// The values of a list of entries.
pub open spec fn entries_view(s: Seq<FileEntry>) -> Seq<FileEntryView> {
    Seq::new(s.len(), |i: int| s[i]@)
}

/// The cache entries that stand for a list of wire records, in order.
pub open spec fn entries_of_infos(s: Seq<FileInfoView>) -> Seq<FileEntryView> {
    Seq::new(s.len(), |i: int| entry_of_info(s[i]))
}

/// A list of entries with each entry in normal form.
pub open spec fn normalized_entries(s: Seq<FileEntryView>) -> Seq<FileEntryView> {
    Seq::new(s.len(), |i: int| normalized_entry(s[i]))
}

/// What the three type names and the symlink marker hold.
pub proof fn lemma_type_names()
    ensures
        "symlink"@ == seq!['s', 'y', 'm', 'l', 'i', 'n', 'k'],
        "dir"@ == seq!['d', 'i', 'r'],
        "file"@ == seq!['f', 'i', 'l', 'e'],
        "l"@ == seq!['l'],
{
    reveal_strlit("symlink");
    reveal_strlit("dir");
    reveal_strlit("file");
    reveal_strlit("l");
    assert("symlink"@ =~= seq!['s', 'y', 'm', 'l', 'i', 'n', 'k']);
    assert("dir"@ =~= seq!['d', 'i', 'r']);
    assert("file"@ =~= seq!['f', 'i', 'l', 'e']);
    assert("l"@ =~= seq!['l']);
}

pub fn infer_file_type(file_type: &str, permissions: &str, is_dir: bool) -> (inferred: String)
    ensures
        inferred@ == inferred_type(file_type@, permissions@, is_dir),
{
    if file_type.unicode_len() > 0 {
        return file_type.to_owned();
    }
    if starts_with_char(permissions, 'l') {
        return "symlink".to_owned();
    }
    if starts_with_char(permissions, 'd') {
        return "dir".to_owned();
    }
    if is_dir {
        "dir".to_owned()
    } else {
        "file".to_owned()
    }
}

pub fn normalize_permissions(permissions: &str, file_type: &str) -> (normal: String)
    ensures
        normal@ == normalized_permissions(permissions@, file_type@),
{
    if !str_eq(file_type, "symlink") {
        return permissions.to_owned();
    }
    let n = permissions.unicode_len();
    let mut out = "l".to_owned();
    proof {
        lemma_type_names();
    }
    if n > 0 {
        out.append(permissions.substring_char(1, n));
    }
    assert(out@ =~= seq!['l'] + without_first(permissions@));
    out
}

pub fn normalize_entry(entry: FileEntry) -> (normal: FileEntry)
    ensures
        normal@ == normalized_entry(entry@),
{
    let file_type = infer_file_type(entry.file_type.as_str(), entry.permissions.as_str(), entry.is_dir);
    let permissions = normalize_permissions(entry.permissions.as_str(), file_type.as_str());
    let is_dir = str_eq(file_type.as_str(), "dir") || starts_with_char(permissions.as_str(), 'd');
    FileEntry {
        name: entry.name,
        is_dir,
        file_type,
        size: entry.size,
        permissions,
        modified: entry.modified,
    }
}

/// Converts a wire record into the entry the client keeps for it.
pub fn entry_from_info(fi: &FileInfo) -> (entry: FileEntry)
    ensures
        entry@ == entry_of_info(fi@),
{
    let is_dir = starts_with_char(fi.permissions.as_str(), 'd');
    normalize_entry(
        FileEntry {
            name: fi.name.clone(),
            is_dir,
            file_type: fi.file_type.clone(),
            size: fi.size,
            permissions: fi.permissions.clone(),
            modified: fi.modified.clone(),
        },
    )
}

/// Converts a list of wire records, keeping their order.
pub fn entries_from_infos(infos: &Vec<FileInfo>) -> (entries: Vec<FileEntry>)
    ensures
        entries_view(entries@) == entries_of_infos(infos_view(infos@)),
{
    let mut entries: Vec<FileEntry> = Vec::new();
    let mut i: usize = 0;
    while i < infos.len()
        invariant
            i <= infos.len(),
            entries.len() == i,
            forall|k: int| 0 <= k < i ==> entries[k]@ == entry_of_info(#[trigger] infos[k]@),
        decreases infos.len() - i,
    {
        entries.push(entry_from_info(&infos[i]));
        i += 1;
    }
    assert(entries_view(entries@) =~= entries_of_infos(infos_view(infos@)));
    entries
}

/// Copies a list of entries, bringing each copy into normal form.
pub fn normalize_entries(stored: &Vec<FileEntry>) -> (entries: Vec<FileEntry>)
    ensures
        entries_view(entries@) == normalized_entries(entries_view(stored@)),
{
    let mut entries: Vec<FileEntry> = Vec::new();
    let mut i: usize = 0;
    while i < stored.len()
        invariant
            i <= stored.len(),
            entries.len() == i,
            forall|k: int| 0 <= k < i ==> entries[k]@ == normalized_entry(#[trigger] stored[k]@),
        decreases stored.len() - i,
    {
        entries.push(normalize_entry(stored[i].clone()));
        i += 1;
    }
    assert(entries_view(entries@) =~= normalized_entries(entries_view(stored@)));
    entries
}

/// Copies a list of entries.
pub fn clone_entries(entries: &Vec<FileEntry>) -> (copy: Vec<FileEntry>)
    ensures
        entries_view(copy@) == entries_view(entries@),
{
    let mut copy: Vec<FileEntry> = Vec::new();
    let mut i: usize = 0;
    while i < entries.len()
        invariant
            i <= entries.len(),
            copy.len() == i,
            forall|k: int| 0 <= k < i ==> copy[k]@ == #[trigger] entries[k]@,
        decreases entries.len() - i,
    {
        copy.push(entries[i].clone());
        i += 1;
    }
    assert(entries_view(copy@) =~= entries_view(entries@));
    copy
}

/// Copies a list of wire records.
pub fn clone_infos(infos: &Vec<FileInfo>) -> (copy: Vec<FileInfo>)
    ensures
        infos_view(copy@) == infos_view(infos@),
{
    let mut copy: Vec<FileInfo> = Vec::new();
    let mut i: usize = 0;
    while i < infos.len()
        invariant
            i <= infos.len(),
            copy.len() == i,
            forall|k: int| 0 <= k < i ==> copy[k]@ == #[trigger] infos[k]@,
        decreases infos.len() - i,
    {
        copy.push(infos[i].clone());
        i += 1;
    }
    assert(infos_view(copy@) =~= infos_view(infos@));
    copy
}

/// Normalising an entry twice gives the same entry as normalising it once.
pub proof fn lemma_normalize_entry_idempotent(e: FileEntryView)
    ensures
        normalized_entry(normalized_entry(e)) == normalized_entry(e),
{
    lemma_type_names();
    let once = normalized_entry(e);
    let twice = normalized_entry(once);
    assert(once.file_type.len() > 0);
    assert(twice.file_type == once.file_type);
    if once.file_type == "symlink"@ {
        assert(without_first(once.permissions) =~= without_first(e.permissions));
        assert(twice.permissions =~= once.permissions);
    }
}

/// The entry derived from a wire record is already in normal form.
pub proof fn lemma_entry_of_info_normal(fi: FileInfoView)
    ensures
        normalized_entry(entry_of_info(fi)) == entry_of_info(fi),
{
    lemma_normalize_entry_idempotent(
        FileEntryView {
            name: fi.name,
            is_dir: first_char(fi.permissions) == Some('d'),
            file_type: fi.file_type,
            size: fi.size,
            permissions: fi.permissions,
            modified: fi.modified,
        },
    );
}

/// The entries derived from wire records are already in normal form.
pub proof fn lemma_entries_of_infos_normal(s: Seq<FileInfoView>)
    ensures
        normalized_entries(entries_of_infos(s)) == entries_of_infos(s),
{
    assert forall|i: int| 0 <= i < s.len() implies normalized_entry(entry_of_info(s[i]))
        == entry_of_info(s[i]) by {
        lemma_entry_of_info_normal(s[i]);
    }
    assert(normalized_entries(entries_of_infos(s)) =~= entries_of_infos(s));
}

/// A record without a type whose permissions start with `d` becomes a
/// directory entry.
pub proof fn lemma_directory_from_permissions(fi: FileInfoView)
    requires
        fi.file_type.len() == 0,
        first_char(fi.permissions) == Some('d'),
    ensures
        entry_of_info(fi).file_type == "dir"@,
        entry_of_info(fi).is_dir,
{
    lemma_type_names();
}

/// A symlink entry has `l` as its first permission character after
/// normalisation, whatever stood there before.
pub proof fn lemma_symlink_permissions(e: FileEntryView)
    requires
        e.file_type == "symlink"@,
    ensures
        first_char(normalized_entry(e).permissions) == Some('l'),
        normalized_entry(e).file_type == "symlink"@,
{
    lemma_type_names();
}

} // verus!
