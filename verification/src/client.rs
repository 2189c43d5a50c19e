//! The client's side of a path lookup: validation, the cache check, the
//! search of a snapshot for the requested path, and what a finished wait
//! amounts to.

use vstd::prelude::*;
use crate::cache::{CacheData, CacheMap, cache_lookup, cache_updated, lemma_update_then_get};
use crate::entry::{FileEntry, FileEntryView, entries_view, entries_of_infos, entries_from_infos};
use crate::path::{
    ends_in_space, lemma_normalize_idempotent, normalized_path, normalize_path, paths_match, trim,
    trimmed,
};
use crate::protocol::{DirEntriesView, Request, Response};
use crate::router::RequestRouter;
use crate::text::strings_view;

verus! {

/// How many seconds a caller waits for the response to its request.
pub const RESPONSE_TIMEOUT_SECS: u64 = 5;

/// Why a client operation failed.
#[derive(Debug, PartialEq, Eq, Structural, Clone, Copy)]
pub enum ClientError {
    /// The path was empty once trimmed; nothing was sent.
    EmptyPath,
    /// The request could not be written to the connection.
    Connection,
    /// The wait ended because the listener went away.
    ChannelClosed,
    /// No response came within the time allowed.
    Timeout,
}

impl ClientError {
    /// The text shown for this error.
    pub fn message(&self) -> (text: String)
        ensures
            text@ == match *self {
                ClientError::EmptyPath => "Path is required"@,
                ClientError::Connection => "Write error"@,
                ClientError::ChannelClosed => "Channel error"@,
                ClientError::Timeout => "Timeout waiting for response"@,
            },
    {
        match self {
            ClientError::EmptyPath => "Path is required".to_owned(),
            ClientError::Connection => "Write error".to_owned(),
            ClientError::ChannelClosed => "Channel error".to_owned(),
            ClientError::Timeout => "Timeout waiting for response".to_owned(),
        }
    }
}

/// Checks a path given by a caller: trimmed, it must not be empty.
pub fn checked_path(path: &str) -> (checked: Result<String, ClientError>)
    ensures
        match checked {
            Ok(p) => p@ == trimmed(path@) && p@.len() > 0,
            Err(e) => e == ClientError::EmptyPath && trimmed(path@).len() == 0,
        },
{
    let p = trim(path);
    if p.as_str().unicode_len() == 0 {
        Err(ClientError::EmptyPath)
    } else {
        Ok(p)
    }
}

/// One line read from the connection, ready for decoding: trimmed, and
/// absent when nothing is left of it.
pub fn inbound_line(raw: &str) -> (line: Option<String>)
    ensures
        match line {
            Some(l) => l@ == trimmed(raw@) && l@.len() > 0,
            None => trimmed(raw@).len() == 0,
        },
{
    let l = trim(raw);
    if l.as_str().unicode_len() == 0 {
        None
    } else {
        Some(l)
    }
}

/// What the cache says about a requested path.
pub enum CacheLookup {
    /// The cache holds the path: its entries.
    Hit(Vec<FileEntry>),
    /// The cache does not hold it: the path to ask the server for.
    Miss(String),
}

/// First step of a lookup: a hit needs no request; a miss names the
/// canonical path to request.
pub fn lookup(cache: &CacheData, path: &str) -> (found: CacheLookup)
    ensures
        match found {
            CacheLookup::Hit(entries) => cache_lookup(cache@, path@) == Some(entries_view(entries@)),
            CacheLookup::Miss(request) => cache_lookup(cache@, path@) is None && request@
                == normalized_path(path@),
        },
{
    match cache.get(path) {
        Some(entries) => CacheLookup::Hit(entries),
        None => CacheLookup::Miss(normalize_path(path)),
    }
}

/// Numbers a request for `path` and records that `signal` waits for its
/// response.
pub fn begin_request<S>(router: &mut RequestRouter<S>, signal: S, path: String) -> (request: Request)
    requires
        old(router).last_id() < u64::MAX,
    ensures
        request.id == old(router).last_id() + 1,
        request.path@ == path@,
        final(router).last_id() == request.id,
        !old(router).pending().contains_key(request.id),
        final(router).pending() == old(router).pending().insert(request.id, signal),
{
    let id = router.register(signal);
    Request { id, path }
}

/// Numbers a request for `path` that nobody waits for.
pub fn announce_request<S>(router: &mut RequestRouter<S>, path: String) -> (request: Request)
    requires
        old(router).last_id() < u64::MAX,
    ensures
        request.id == old(router).last_id() + 1,
        request.path@ == path@,
        final(router).last_id() == request.id,
        final(router).pending() == old(router).pending(),
{
    let id = router.next_id();
    Request { id, path }
}

/// The canonical form of the `i`-th directory of a snapshot: the one
/// supplied for it, or its own path where none was supplied.
pub open spec fn canonical_at(data: Seq<DirEntriesView>, canonical: Seq<Seq<char>>, i: int) -> Seq<
    char,
> {
    if i < canonical.len() {
        canonical[i]
    } else {
        data[i].absolute_path
    }
}

/// Whether the `i`-th directory of a snapshot stands for the request.
pub open spec fn matches_at(
    data: Seq<DirEntriesView>,
    request: Seq<char>,
    canonical_request: Seq<char>,
    canonical: Seq<Seq<char>>,
    i: int,
) -> bool {
    paths_match(request, data[i].absolute_path, canonical_request, canonical_at(data, canonical, i))
}

/// Whether `i` is the first directory of a snapshot that stands for the
/// request.
pub open spec fn is_first_match(
    data: Seq<DirEntriesView>,
    request: Seq<char>,
    canonical_request: Seq<char>,
    canonical: Seq<Seq<char>>,
    i: int,
) -> bool {
    &&& 0 <= i < data.len()
    &&& matches_at(data, request, canonical_request, canonical, i)
    &&& forall|j: int| 0 <= j < i ==> !matches_at(data, request, canonical_request, canonical, j)
}

/// Whether no directory of a snapshot stands for the request.
pub open spec fn no_match(
    data: Seq<DirEntriesView>,
    request: Seq<char>,
    canonical_request: Seq<char>,
    canonical: Seq<Seq<char>>,
) -> bool {
    forall|j: int| 0 <= j < data.len() ==> !matches_at(data, request, canonical_request, canonical, j)
}

/// The entries a snapshot holds for the request: those of the first
/// directory that stands for it, or none.
pub open spec fn found_entries(
    data: Seq<DirEntriesView>,
    request: Seq<char>,
    canonical_request: Seq<char>,
    canonical: Seq<Seq<char>>,
) -> Seq<FileEntryView> {
    if no_match(data, request, canonical_request, canonical) {
        Seq::empty()
    } else {
        entries_of_infos(
            data[choose|i: int| is_first_match(data, request, canonical_request, canonical, i)].entries,
        )
    }
}

/// Finds the first directory of a snapshot that stands for the request.
/// `canonical` gives the canonical form of each directory's path, in the
/// order of the snapshot.
pub fn first_match(
    resp: &Response,
    request: &str,
    canonical_request: &str,
    canonical: &Vec<String>,
) -> (found: Option<usize>)
    ensures
        match found {
            Some(i) => is_first_match(
                resp@.data,
                request@,
                canonical_request@,
                strings_view(canonical@),
                i as int,
            ),
            None => no_match(
                resp@.data,
                request@,
                canonical_request@,
                strings_view(canonical@),
            ),
        },
{
    let ghost canon = strings_view(canonical@);
    let mut i: usize = 0;
    while i < resp.data.len()
        invariant
            i <= resp.data.len(),
            canon == strings_view(canonical@),
            forall|j: int| 0 <= j < i ==> !matches_at(resp@.data, request@, canonical_request@, canon, j),
        decreases resp.data.len() - i,
    {
        let candidate = resp.data[i].absolute_path.as_str();
        let hit = if i < canonical.len() {
            crate::path::matches(request, candidate, canonical_request, canonical[i].as_str())
        } else {
            crate::path::matches(request, candidate, canonical_request, candidate)
        };
        if hit {
            return Some(i);
        }
        i += 1;
    }
    None
}

/// Searches a snapshot for the requested path and converts what it
/// finds. A snapshot without a match gives an empty list, as a match on
/// an empty directory does.
pub fn find_entries(
    resp: &Response,
    request: &str,
    canonical_request: &str,
    canonical: &Vec<String>,
) -> (entries: Vec<FileEntry>)
    ensures
        entries_view(entries@) == found_entries(
            resp@.data,
            request@,
            canonical_request@,
            strings_view(canonical@),
        ),
{
    let ghost canon = strings_view(canonical@);
    match first_match(resp, request, canonical_request, canonical) {
        Some(i) => {
            proof {
                lemma_first_match_unique(resp@.data, request@, canonical_request@, canon, i as int);
            }
            entries_from_infos(&resp.data[i].entries)
        },
        None => {
            let entries: Vec<FileEntry> = Vec::new();
            assert(entries_view(entries@) =~= Seq::<FileEntryView>::empty());
            entries
        },
    }
}

/// A snapshot has at most one first match.
pub proof fn lemma_first_match_unique(
    data: Seq<DirEntriesView>,
    request: Seq<char>,
    canonical_request: Seq<char>,
    canonical: Seq<Seq<char>>,
    i: int,
)
    requires
        is_first_match(data, request, canonical_request, canonical, i),
    ensures
        !no_match(data, request, canonical_request, canonical),
        (choose|k: int| is_first_match(data, request, canonical_request, canonical, k)) == i,
        found_entries(data, request, canonical_request, canonical) == entries_of_infos(
            data[i].entries,
        ),
{
    let k = choose|k: int| is_first_match(data, request, canonical_request, canonical, k);
    assert(is_first_match(data, request, canonical_request, canonical, k));
    if k < i {
        assert(!matches_at(data, request, canonical_request, canonical, k));
    }
    if i < k {
        assert(!matches_at(data, request, canonical_request, canonical, i));
    }
}

/// What a caller is answered from a response, it is answered from the
/// cache afterwards. Where the first directory of a snapshot that stands
/// for the requested path is listed under that path's canonical form,
/// and is the last one listed under it, the entries found in the
/// snapshot are the entries that a lookup of the path gives once the
/// snapshot is folded into the cache. The canonical form must not end in
/// white space, or no lookup reaches it.
pub proof fn lemma_answer_is_cached(
    m: CacheMap,
    data: Seq<DirEntriesView>,
    path: Seq<char>,
    canonical_request: Seq<char>,
    canonical: Seq<Seq<char>>,
    i: int,
)
    requires
        !ends_in_space(normalized_path(path)),
        is_first_match(data, normalized_path(path), canonical_request, canonical, i),
        data[i].absolute_path == normalized_path(path),
        forall|j: int| i < j < data.len() ==> data[j].absolute_path != data[i].absolute_path,
    ensures
        found_entries(data, normalized_path(path), canonical_request, canonical)
            == entries_of_infos(data[i].entries),
        cache_lookup(cache_updated(m, data), path) == Some(entries_of_infos(data[i].entries)),
{
    lemma_first_match_unique(data, normalized_path(path), canonical_request, canonical, i);
    lemma_normalize_idempotent(path);
    lemma_update_then_get(m, data, i);
}

/// How a request ended.
pub enum WaitOutcome {
    /// The request could not be written to the connection.
    NotSent,
    /// The response arrived.
    Answered(Response),
    /// The listener went away before a response arrived.
    Closed,
    /// The time allowed ran out.
    TimedOut,
}

/// Last step of a lookup. A response is searched for the requested path.
/// A request that ended without one is removed from the router, so that a
/// late response wakes nobody, and the reason is reported.
pub fn conclude<S>(
    router: &mut RequestRouter<S>,
    id: u64,
    outcome: WaitOutcome,
    request: &str,
    canonical_request: &str,
    canonical: &Vec<String>,
) -> (result: Result<Vec<FileEntry>, ClientError>)
    ensures
        final(router).last_id() == old(router).last_id(),
        match outcome {
            WaitOutcome::Answered(resp) => {
                &&& final(router).pending() == old(router).pending()
                &&& result is Ok
                &&& entries_view(result->Ok_0@) == found_entries(
                    resp@.data,
                    request@,
                    canonical_request@,
                    strings_view(canonical@),
                )
            },
            WaitOutcome::NotSent => {
                &&& final(router).pending() == old(router).pending().remove(id)
                &&& result == Err::<Vec<FileEntry>, ClientError>(ClientError::Connection)
            },
            WaitOutcome::Closed => {
                &&& final(router).pending() == old(router).pending().remove(id)
                &&& result == Err::<Vec<FileEntry>, ClientError>(ClientError::ChannelClosed)
            },
            WaitOutcome::TimedOut => {
                &&& final(router).pending() == old(router).pending().remove(id)
                &&& result == Err::<Vec<FileEntry>, ClientError>(ClientError::Timeout)
            },
        },
{
    match outcome {
        WaitOutcome::Answered(resp) => Ok(
            find_entries(&resp, request, canonical_request, canonical),
        ),
        WaitOutcome::NotSent => {
            router.expire(id);
            Err(ClientError::Connection)
        },
        WaitOutcome::Closed => {
            router.expire(id);
            Err(ClientError::ChannelClosed)
        },
        WaitOutcome::TimedOut => {
            router.expire(id);
            Err(ClientError::Timeout)
        },
    }
}

} // verus!
