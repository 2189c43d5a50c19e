//! Assembly of a snapshot: which directories the server returns for one
//! requested path, and in which order.

use vstd::prelude::*;
use crate::entry::{FileInfo, FileInfoView, infos_view, clone_infos};
use crate::meta::{absolute_path, to_absolute_path};
use crate::path::{normalized_path, normalize_path};
use crate::protocol::{DirEntries, DirEntriesView, dirs_view};

verus! {

/// A directory next to the requested path and what listing it gave;
/// `entries` is absent where the listing failed.
pub struct Listing {
    pub path: String,
    pub entries: Option<Vec<FileInfo>>,
}

/// Mathematical value of a [`Listing`].
pub ghost struct ListingView {
    pub path: Seq<char>,
    pub entries: Option<Seq<FileInfoView>>,
}

/// The value of a list of records that may be absent.
pub open spec fn option_infos_view(o: Option<Vec<FileInfo>>) -> Option<Seq<FileInfoView>> {
    match o {
        Some(v) => Some(infos_view(v@)),
        None => None,
    }
}

impl View for Listing {
    type V = ListingView;

    open spec fn view(&self) -> ListingView {
        ListingView { path: self.path@, entries: option_infos_view(self.entries) }
    }
}

/// An immediate child of the requested path: whether it can be listed,
/// and what listing it gave.
pub struct ChildProbe {
    pub path: String,
    pub dir_like: bool,
    pub entries: Option<Vec<FileInfo>>,
}

/// Mathematical value of a [`ChildProbe`].
pub ghost struct ChildProbeView {
    pub path: Seq<char>,
    pub dir_like: bool,
    pub entries: Option<Seq<FileInfoView>>,
}

impl View for ChildProbe {
    type V = ChildProbeView;

    open spec fn view(&self) -> ChildProbeView {
        ChildProbeView {
            path: self.path@,
            dir_like: self.dir_like,
            entries: option_infos_view(self.entries),
        }
    }
}

/// The values of a list of children.
pub open spec fn children_view(s: Seq<ChildProbe>) -> Seq<ChildProbeView> {
    Seq::new(s.len(), |i: int| s[i]@)
}

/// Everything the file system said about a requested path.
pub struct SnapshotProbe {
    /// The path as it was requested.
    pub path: String,
    /// The working directory, against which relative paths are resolved.
    pub cwd: String,
    /// The parent directory, if the path has one.
    pub parent: Option<Listing>,
    /// Whether the path is a directory or a symlink to one.
    pub dir_like: bool,
    /// The listing of the path itself; absent where it failed.
    pub entries: Option<Vec<FileInfo>>,
    /// The immediate children of the path, in listing order.
    pub children: Vec<ChildProbe>,
}

/// Mathematical value of a [`SnapshotProbe`].
pub ghost struct SnapshotProbeView {
    pub path: Seq<char>,
    pub cwd: Seq<char>,
    pub parent: Option<ListingView>,
    pub dir_like: bool,
    pub entries: Option<Seq<FileInfoView>>,
    pub children: Seq<ChildProbeView>,
}

impl View for SnapshotProbe {
    type V = SnapshotProbeView;

    open spec fn view(&self) -> SnapshotProbeView {
        SnapshotProbeView {
            path: self.path@,
            cwd: self.cwd@,
            parent: match self.parent {
                Some(l) => Some(l@),
                None => None,
            },
            dir_like: self.dir_like,
            entries: option_infos_view(self.entries),
            children: children_view(self.children@),
        }
    }
}

/// Whether the parent directory enters the snapshot: the path has a
/// parent and its listing succeeded.
pub open spec fn parent_listed(p: SnapshotProbeView) -> bool {
    p.parent is Some && p.parent->Some_0.entries is Some
}

/// Whether the requested path itself enters the snapshot: it can be
/// listed and its listing succeeded.
pub open spec fn self_listed(p: SnapshotProbeView) -> bool {
    p.dir_like && p.entries is Some
}

/// Whether a child enters the snapshot: it can be listed and its listing
/// succeeded.
pub open spec fn child_listed(c: ChildProbeView) -> bool {
    c.dir_like && c.entries is Some
}

/// The absolute path under which the requested path is listed.
pub open spec fn self_key(p: SnapshotProbeView) -> Seq<char> {
    absolute_path(p.path, p.cwd)
}

/// The absolute form of the request's canonical path: the alias under
/// which the listing is repeated where it differs from [`self_key`].
pub open spec fn alias_key(p: SnapshotProbeView) -> Seq<char> {
    absolute_path(normalized_path(p.path), p.cwd)
}

/// The parent's share of a snapshot.
pub open spec fn parent_part(p: SnapshotProbeView) -> Seq<DirEntriesView> {
    if parent_listed(p) {
        seq![
            DirEntriesView {
                absolute_path: absolute_path(p.parent->Some_0.path, p.cwd),
                entries: p.parent->Some_0.entries->Some_0,
            },
        ]
    } else {
        Seq::empty()
    }
}

/// The requested path's own share: its listing, and the same listing
/// under the alias where the alias differs.
pub open spec fn self_part(p: SnapshotProbeView) -> Seq<DirEntriesView> {
    let own = DirEntriesView { absolute_path: self_key(p), entries: p.entries->Some_0 };
    if alias_key(p) != self_key(p) {
        seq![own, DirEntriesView { absolute_path: alias_key(p), entries: p.entries->Some_0 }]
    } else {
        seq![own]
    }
}

/// The children's share: one directory for each child that is listed, in
/// the order of the children.
pub open spec fn children_part(children: Seq<ChildProbeView>, cwd: Seq<char>) -> Seq<DirEntriesView>
    decreases children.len(),
{
    if children.len() == 0 {
        Seq::empty()
    } else {
        let c = children.last();
        let before = children_part(children.drop_last(), cwd);
        if child_listed(c) {
            before.push(
                DirEntriesView {
                    absolute_path: absolute_path(c.path, cwd),
                    entries: c.entries->Some_0,
                },
            )
        } else {
            before
        }
    }
}

/// The snapshot for a requested path: the parent; then, if the path
/// itself is listed, the path, its alias and its listed children.
pub open spec fn snapshot_of(p: SnapshotProbeView) -> Seq<DirEntriesView> {
    if self_listed(p) {
        parent_part(p) + self_part(p) + children_part(p.children, p.cwd)
    } else {
        parent_part(p)
    }
}

/// Assembles the snapshot for a requested path from what the file system
/// said about it.
pub fn build_entries_for_path(probe: &SnapshotProbe) -> (data: Vec<DirEntries>)
    ensures
        dirs_view(data@) == snapshot_of(probe@),
{
    let mut data: Vec<DirEntries> = Vec::new();
    if let Some(parent) = &probe.parent {
        if let Some(entries) = &parent.entries {
            data.push(
                DirEntries {
                    absolute_path: to_absolute_path(parent.path.as_str(), probe.cwd.as_str()),
                    entries: clone_infos(entries),
                },
            );
        }
    }
    assert(dirs_view(data@) =~= parent_part(probe@));
    if !probe.dir_like {
        return data;
    }
    let entries = match &probe.entries {
        Some(entries) => entries,
        None => {
            return data;
        },
    };
    let own_path = to_absolute_path(probe.path.as_str(), probe.cwd.as_str());
    let normal = normalize_path(probe.path.as_str());
    let alias = to_absolute_path(normal.as_str(), probe.cwd.as_str());
    let differs = alias != own_path;
    data.push(DirEntries { absolute_path: own_path, entries: clone_infos(entries) });
    if differs {
        data.push(DirEntries { absolute_path: alias, entries: clone_infos(entries) });
    }
    assert(dirs_view(data@) =~= parent_part(probe@) + self_part(probe@));
    let ghost fixed = parent_part(probe@) + self_part(probe@);
    let ghost children = children_view(probe.children@);
    let mut i: usize = 0;
    while i < probe.children.len()
        invariant
            i <= probe.children.len(),
            children == children_view(probe.children@),
            dirs_view(data@) == fixed + children_part(children.take(i as int), probe.cwd@),
        decreases probe.children.len() - i,
    {
        let child = &probe.children[i];
        proof {
            let next = children.take(i + 1);
            assert(next.drop_last() =~= children.take(i as int));
            assert(next.last() == child@);
        }
        let ghost before = dirs_view(data@);
        if child.dir_like {
            if let Some(listing) = &child.entries {
                data.push(
                    DirEntries {
                        absolute_path: to_absolute_path(child.path.as_str(), probe.cwd.as_str()),
                        entries: clone_infos(listing),
                    },
                );
                assert(dirs_view(data@) =~= before.push(data@[data.len() - 1]@));
            }
        }
        assert(dirs_view(data@) =~= fixed + children_part(children.take(i + 1), probe.cwd@));
        i += 1;
    }
    assert(children.take(i as int) =~= children);
    data
}

/// Whether a snapshot holds a directory under the path `key`.
pub open spec fn has_key(data: Seq<DirEntriesView>, key: Seq<char>) -> bool {
    exists|i: int| 0 <= i < data.len() && data[i].absolute_path == key
}

/// Whether a directory of a snapshot comes from a listed child.
pub open spec fn from_listed_child(
    dir: DirEntriesView,
    children: Seq<ChildProbeView>,
    cwd: Seq<char>,
) -> bool {
    exists|j: int|
        0 <= j < children.len() && child_listed(children[j]) && dir.absolute_path == absolute_path(
            children[j].path,
            cwd,
        ) && dir.entries == children[j].entries->Some_0
}

/// The children's share holds every listed child, and nothing else.
pub proof fn lemma_children_part(children: Seq<ChildProbeView>, cwd: Seq<char>)
    ensures
        forall|j: int|
            0 <= j < children.len() && child_listed(#[trigger] children[j]) ==> has_key(
                children_part(children, cwd),
                absolute_path(children[j].path, cwd),
            ),
        forall|k: int|
            0 <= k < children_part(children, cwd).len() ==> from_listed_child(
                #[trigger] children_part(children, cwd)[k],
                children,
                cwd,
            ),
    decreases children.len(),
{
    if children.len() > 0 {
        let head = children.drop_last();
        let c = children.last();
        let part = children_part(children, cwd);
        let before = children_part(head, cwd);
        lemma_children_part(head, cwd);
        assert forall|j: int|
            0 <= j < children.len() && child_listed(#[trigger] children[j]) implies has_key(
            part,
            absolute_path(children[j].path, cwd),
        ) by {
            if j < head.len() {
                assert(child_listed(head[j]));
                let i = choose|i: int|
                    0 <= i < before.len() && before[i].absolute_path == absolute_path(
                        head[j].path,
                        cwd,
                    );
                assert(part[i] == before[i]);
            } else {
                assert(part[part.len() - 1].absolute_path == absolute_path(c.path, cwd));
            }
        }
        assert forall|k: int| 0 <= k < part.len() implies from_listed_child(
            #[trigger] part[k],
            children,
            cwd,
        ) by {
            if k < before.len() {
                assert(part[k] == before[k]);
                assert(from_listed_child(before[k], head, cwd));
                let j = choose|j: int|
                    0 <= j < head.len() && child_listed(head[j]) && before[k].absolute_path
                        == absolute_path(head[j].path, cwd) && before[k].entries
                        == head[j].entries->Some_0;
                assert(children[j] == head[j]);
            } else {
                assert(children[children.len() - 1] == c);
            }
        }
    }
}

/// A snapshot is complete: it holds the parent where the parent was
/// listed and, where the requested path was listed, the path itself, its
/// alias and every listed child.
pub proof fn lemma_snapshot_complete(p: SnapshotProbeView)
    ensures
        parent_listed(p) ==> has_key(snapshot_of(p), absolute_path(p.parent->Some_0.path, p.cwd)),
        self_listed(p) ==> has_key(snapshot_of(p), self_key(p)),
        self_listed(p) ==> has_key(snapshot_of(p), alias_key(p)),
        forall|j: int|
            self_listed(p) && 0 <= j < p.children.len() && child_listed(#[trigger] p.children[j])
                ==> has_key(snapshot_of(p), absolute_path(p.children[j].path, p.cwd)),
{
    let data = snapshot_of(p);
    let a = parent_part(p).len() as int;
    if parent_listed(p) {
        assert(data[0].absolute_path == absolute_path(p.parent->Some_0.path, p.cwd));
    }
    if self_listed(p) {
        let b = self_part(p).len() as int;
        assert(data[a].absolute_path == self_key(p));
        if alias_key(p) != self_key(p) {
            assert(data[a + 1].absolute_path == alias_key(p));
        }
        lemma_children_part(p.children, p.cwd);
        let part = children_part(p.children, p.cwd);
        assert forall|j: int|
            0 <= j < p.children.len() && child_listed(#[trigger] p.children[j]) implies has_key(
            data,
            absolute_path(p.children[j].path, p.cwd),
        ) by {
            let key = absolute_path(p.children[j].path, p.cwd);
            let i = choose|i: int| 0 <= i < part.len() && part[i].absolute_path == key;
            assert(data[a + b + i] == part[i]);
        }
    }
}

/// A snapshot holds nothing else: each of its directories is the
/// parent, the requested path, its alias, or a child that can be listed.
/// A child that is a plain file gets no directory of its own.
pub proof fn lemma_snapshot_sound(p: SnapshotProbeView, k: int)
    requires
        0 <= k < snapshot_of(p).len(),
    ensures
        ({
            let dir = snapshot_of(p)[k];
            ||| parent_listed(p) && dir.absolute_path == absolute_path(
                p.parent->Some_0.path,
                p.cwd,
            ) && dir.entries == p.parent->Some_0.entries->Some_0
            ||| self_listed(p) && dir.absolute_path == self_key(p) && dir.entries
                == p.entries->Some_0
            ||| self_listed(p) && dir.absolute_path == alias_key(p) && dir.entries
                == p.entries->Some_0
            ||| self_listed(p) && from_listed_child(dir, p.children, p.cwd)
        }),
{
    let data = snapshot_of(p);
    let a = parent_part(p).len() as int;
    if self_listed(p) {
        let b = self_part(p).len() as int;
        if k >= a + b {
            lemma_children_part(p.children, p.cwd);
            assert(data[k] == children_part(p.children, p.cwd)[k - a - b]);
        } else if k >= a {
            assert(data[k] == self_part(p)[k - a]);
        } else {
            assert(data[k] == parent_part(p)[k]);
        }
    }
}

} // verus!
