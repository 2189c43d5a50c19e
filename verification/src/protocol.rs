//! Messages exchanged between client and server.

use vstd::prelude::*;
use crate::entry::{FileInfo, FileInfoView, infos_view, clone_infos};

verus! {

/// A client's request for the snapshot of one path.
#[derive(Debug, PartialEq, Eq)]
pub struct Request {
    pub id: u64,
    pub path: String,
}

/// One directory of a snapshot: its absolute path and what it holds.
#[derive(Debug, PartialEq, Eq)]
pub struct DirEntries {
    pub absolute_path: String,
    pub entries: Vec<FileInfo>,
}

/// Mathematical value of a [`DirEntries`].
pub ghost struct DirEntriesView {
    pub absolute_path: Seq<char>,
    pub entries: Seq<FileInfoView>,
}

impl View for DirEntries {
    type V = DirEntriesView;

    open spec fn view(&self) -> DirEntriesView {
        DirEntriesView { absolute_path: self.absolute_path@, entries: infos_view(self.entries@) }
    }
}

impl Clone for DirEntries {
    fn clone(&self) -> (copy: Self)
        ensures
            copy@ == self@,
    {
        DirEntries { absolute_path: self.absolute_path.clone(), entries: clone_infos(&self.entries) }
    }
}

/// The values of a list of directories.
pub open spec fn dirs_view(s: Seq<DirEntries>) -> Seq<DirEntriesView> {
    Seq::new(s.len(), |i: int| s[i]@)
}

/// A snapshot: the answer to one request. `data` is an ordered list of
/// directories, in which a path may occur more than once.
#[derive(Debug, PartialEq, Eq)]
pub struct Response {
    pub id: u64,
    pub path: String,
    pub data: Vec<DirEntries>,
}

/// Mathematical value of a [`Response`].
pub ghost struct ResponseView {
    pub id: u64,
    pub path: Seq<char>,
    pub data: Seq<DirEntriesView>,
}

impl View for Response {
    type V = ResponseView;

    open spec fn view(&self) -> ResponseView {
        ResponseView { id: self.id, path: self.path@, data: dirs_view(self.data@) }
    }
}

impl Clone for Response {
    fn clone(&self) -> (copy: Self)
        ensures
            copy@ == self@,
    {
        let mut data: Vec<DirEntries> = Vec::new();
        let mut i: usize = 0;
        while i < self.data.len()
            invariant
                i <= self.data.len(),
                data.len() == i,
                forall|k: int| 0 <= k < i ==> data[k]@ == #[trigger] self.data[k]@,
            decreases self.data.len() - i,
        {
            data.push(self.data[i].clone());
            i += 1;
        }
        assert(dirs_view(data@) =~= dirs_view(self.data@));
        Response { id: self.id, path: self.path.clone(), data }
    }
}

} // verus!
