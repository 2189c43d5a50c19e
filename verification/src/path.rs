//! Canonical form of paths, and the rule that decides whether a path the
//! server reported stands for the path a client asked for.

use vstd::prelude::*;
use crate::text::{chars_of, str_eq};

verus! {

/// Unicode white space, the characters that trimming removes.
pub open spec fn is_space(c: char) -> bool {
    let u = c as u32;
    ||| 0x09 <= u <= 0x0D
    ||| u == 0x20
    ||| u == 0x85
    ||| u == 0xA0
    ||| u == 0x1680
    ||| 0x2000 <= u <= 0x200A
    ||| u == 0x2028
    ||| u == 0x2029
    ||| u == 0x202F
    ||| u == 0x205F
    ||| u == 0x3000
}

/// `s` without the white space it begins with.
pub open spec fn skip_leading_space(s: Seq<char>) -> Seq<char>
    decreases s.len(),
{
    if s.len() > 0 && is_space(s[0]) {
        skip_leading_space(s.subrange(1, s.len() as int))
    } else {
        s
    }
}

/// `s` without the white space it ends with.
pub open spec fn skip_trailing_space(s: Seq<char>) -> Seq<char>
    decreases s.len(),
{
    if s.len() > 0 && is_space(s[s.len() - 1]) {
        skip_trailing_space(s.subrange(0, s.len() - 1))
    } else {
        s
    }
}

/// `s` without the slashes it ends with.
pub open spec fn skip_trailing_slashes(s: Seq<char>) -> Seq<char>
    decreases s.len(),
{
    if s.len() > 0 && s[s.len() - 1] == '/' {
        skip_trailing_slashes(s.subrange(0, s.len() - 1))
    } else {
        s
    }
}

/// `s` without white space at either end.
pub open spec fn trimmed(s: Seq<char>) -> Seq<char> {
    skip_trailing_space(skip_leading_space(s))
}

/// Canonical form of a path: trimmed; the root and the empty path stay as
/// they are; any other path loses all its trailing slashes.
pub open spec fn normalized_path(p: Seq<char>) -> Seq<char> {
    let t = trimmed(p);
    if t == seq!['/'] || t.len() == 0 {
        t
    } else {
        skip_trailing_slashes(t)
    }
}

/// Whether a path ends in a white-space character.
pub open spec fn ends_in_space(s: Seq<char>) -> bool {
    s.len() > 0 && is_space(s[s.len() - 1])
}

fn is_space_char(c: char) -> (b: bool)
    ensures
        b == is_space(c),
{
    let u: u32 = c as u32;
    (0x09 <= u && u <= 0x0D) || u == 0x20 || u == 0x85 || u == 0xA0 || u == 0x1680 || (0x2000 <= u
        && u <= 0x200A) || u == 0x2028 || u == 0x2029 || u == 0x202F || u == 0x205F || u == 0x3000
}

/// Index of the first character of `cs` that is not white space, or the
/// length of `cs` if there is none.
fn leading_space_end(cs: &Vec<char>) -> (start: usize)
    ensures
        start <= cs.len(),
        skip_leading_space(cs@) == cs@.subrange(start as int, cs.len() as int),
{
    let n = cs.len();
    let mut start: usize = 0;
    assert(cs@.subrange(0, n as int) =~= cs@);
    while start < n && is_space_char(cs[start])
        invariant
            n == cs.len(),
            start <= n,
            skip_leading_space(cs@) == skip_leading_space(cs@.subrange(start as int, n as int)),
        decreases n - start,
    {
        proof {
            let cur = cs@.subrange(start as int, n as int);
            assert(is_space(cur[0]));
            assert(cur.subrange(1, cur.len() as int) =~= cs@.subrange(start + 1, n as int));
        }
        start += 1;
    }
    proof {
        let cur = cs@.subrange(start as int, n as int);
        if start < n {
            assert(!is_space(cur[0]));
        }
    }
    start
}

/// Cuts white space off the end of `cs[start..end]`.
fn trailing_space_start(cs: &Vec<char>, start: usize, end: usize) -> (cut: usize)
    requires
        start <= end <= cs.len(),
    ensures
        start <= cut <= end,
        skip_trailing_space(cs@.subrange(start as int, end as int))
            == cs@.subrange(start as int, cut as int),
{
    let mut cut: usize = end;
    while cut > start && is_space_char(cs[cut - 1])
        invariant
            start <= cut <= end <= cs.len(),
            skip_trailing_space(cs@.subrange(start as int, end as int)) == skip_trailing_space(
                cs@.subrange(start as int, cut as int),
            ),
        decreases cut,
    {
        proof {
            let cur = cs@.subrange(start as int, cut as int);
            assert(is_space(cur[cur.len() - 1]));
            assert(cur.subrange(0, cur.len() - 1) =~= cs@.subrange(start as int, cut - 1));
        }
        cut -= 1;
    }
    proof {
        let cur = cs@.subrange(start as int, cut as int);
        if cut > start {
            assert(!is_space(cur[cur.len() - 1]));
        }
    }
    cut
}

/// Cuts slashes off the end of `cs[start..end]`.
fn trailing_slash_start(cs: &Vec<char>, start: usize, end: usize) -> (cut: usize)
    requires
        start <= end <= cs.len(),
    ensures
        start <= cut <= end,
        skip_trailing_slashes(cs@.subrange(start as int, end as int)) == cs@.subrange(
            start as int,
            cut as int,
        ),
{
    let mut cut: usize = end;
    while cut > start && cs[cut - 1] == '/'
        invariant
            start <= cut <= end <= cs.len(),
            skip_trailing_slashes(cs@.subrange(start as int, end as int))
                == skip_trailing_slashes(cs@.subrange(start as int, cut as int)),
        decreases cut,
    {
        proof {
            let cur = cs@.subrange(start as int, cut as int);
            assert(cur[cur.len() - 1] == '/');
            assert(cur.subrange(0, cur.len() - 1) =~= cs@.subrange(start as int, cut - 1));
        }
        cut -= 1;
    }
    proof {
        let cur = cs@.subrange(start as int, cut as int);
        if cut > start {
            assert(cur[cur.len() - 1] != '/');
        }
    }
    cut
}

/// Removes white space from both ends of `s`.
pub fn trim(s: &str) -> (t: String)
    ensures
        t@ == trimmed(s@),
{
    let cs = chars_of(s);
    let start = leading_space_end(&cs);
    let end = trailing_space_start(&cs, start, cs.len());
    s.substring_char(start, end).to_owned()
}

/// Brings a path into canonical form.
pub fn normalize_path(path: &str) -> (normal: String)
    ensures
        normal@ == normalized_path(path@),
{
    let cs = chars_of(path);
    let start = leading_space_end(&cs);
    let end = trailing_space_start(&cs, start, cs.len());
    if end == start || (end - start == 1 && cs[start] == '/') {
        assert(end - start == 1 ==> cs@.subrange(start as int, end as int) =~= seq![
            cs@[start as int],
        ]);
        return path.substring_char(start, end).to_owned();
    }
    assert(trimmed(path@) != seq!['/']) by {
        let t = cs@.subrange(start as int, end as int);
        if t == seq!['/'] {
            assert(t.len() == 1);
            assert(t[0] == '/');
        }
    }
    let cut = trailing_slash_start(&cs, start, end);
    path.substring_char(start, cut).to_owned()
}

/// Whether the path `candidate`, reported by the server, stands for the
/// path `request`. The two canonical forms are what resolving each path
/// against the file system gave.
pub open spec fn paths_match(
    request: Seq<char>,
    candidate: Seq<char>,
    canonical_request: Seq<char>,
    canonical_candidate: Seq<char>,
) -> bool {
    ||| candidate == request
    ||| normalized_path(candidate) == normalized_path(request)
    ||| candidate == canonical_request
    ||| canonical_candidate == canonical_request
    ||| canonical_candidate == normalized_path(request)
}

/// Decides whether `candidate` stands for `request`, given the canonical
/// form of each.
pub fn matches(
    request: &str,
    candidate: &str,
    canonical_request: &str,
    canonical_candidate: &str,
) -> (hit: bool)
    ensures
        hit == paths_match(request@, candidate@, canonical_request@, canonical_candidate@),
{
    if str_eq(candidate, request) {
        return true;
    }
    let normal_request = normalize_path(request);
    let normal_candidate = normalize_path(candidate);
    normal_candidate == normal_request || str_eq(candidate, canonical_request) || str_eq(
        canonical_candidate,
        canonical_request,
    ) || str_eq(canonical_candidate, normal_request.as_str())
}

/// What is left after trailing white space is cut is a prefix that does
/// not end in white space.
pub proof fn lemma_skip_trailing_space(s: Seq<char>)
    ensures
        skip_trailing_space(s).len() <= s.len(),
        skip_trailing_space(s) == s.subrange(0, skip_trailing_space(s).len() as int),
        !ends_in_space(skip_trailing_space(s)),
        ends_in_space(s) ==> skip_trailing_space(s).len() < s.len(),
    decreases s.len(),
{
    if s.len() > 0 && is_space(s[s.len() - 1]) {
        let head = s.subrange(0, s.len() - 1);
        lemma_skip_trailing_space(head);
        let k = skip_trailing_space(head).len() as int;
        assert(head.subrange(0, k) =~= s.subrange(0, k));
    } else {
        assert(s.subrange(0, s.len() as int) =~= s);
    }
}

/// What is left after trailing slashes are cut is a prefix that does not
/// end in a slash.
pub proof fn lemma_skip_trailing_slashes(s: Seq<char>)
    ensures
        skip_trailing_slashes(s).len() <= s.len(),
        skip_trailing_slashes(s) == s.subrange(0, skip_trailing_slashes(s).len() as int),
        skip_trailing_slashes(s).len() > 0 ==> skip_trailing_slashes(s).last() != '/',
    decreases s.len(),
{
    if s.len() > 0 && s[s.len() - 1] == '/' {
        let head = s.subrange(0, s.len() - 1);
        lemma_skip_trailing_slashes(head);
        let k = skip_trailing_slashes(head).len() as int;
        assert(head.subrange(0, k) =~= s.subrange(0, k));
    } else {
        assert(s.subrange(0, s.len() as int) =~= s);
    }
}

/// What is left after leading white space is cut does not begin with
/// white space.
pub proof fn lemma_skip_leading_space(s: Seq<char>)
    ensures
        skip_leading_space(s).len() > 0 ==> !is_space(skip_leading_space(s)[0]),
    decreases s.len(),
{
    if s.len() > 0 && is_space(s[0]) {
        lemma_skip_leading_space(s.subrange(1, s.len() as int));
    }
}

/// A trimmed string neither begins nor ends with white space.
pub proof fn lemma_trimmed_ends(s: Seq<char>)
    ensures
        trimmed(s).len() > 0 ==> !is_space(trimmed(s)[0]) && !is_space(trimmed(s).last()),
{
    let u = skip_leading_space(s);
    lemma_skip_leading_space(s);
    lemma_skip_trailing_space(u);
}

/// The root path is its own canonical form.
pub proof fn lemma_normalize_root()
    ensures
        normalized_path("/"@) == "/"@,
{
    reveal_strlit("/");
    assert("/"@ =~= seq!['/']);
    assert(!is_space('/'));
}

/// Normalising a path a second time changes nothing, except where the
/// first result ends in white space (a path such as `a /`): the second
/// pass then trims it further.
pub proof fn lemma_normalize_idempotent(p: Seq<char>)
    ensures
        normalized_path(normalized_path(p)) == normalized_path(p) <==> !ends_in_space(
            normalized_path(p),
        ),
{
    let t = trimmed(p);
    let n = normalized_path(p);
    lemma_trimmed_ends(p);
    assert(!is_space('/'));
    if t == seq!['/'] || t.len() == 0 {
        assert(n == t);
        assert(trimmed(n) == n);
    } else {
        lemma_skip_trailing_slashes(t);
        if n.len() > 0 {
            assert(n[0] == t[0]);
            assert(skip_leading_space(n) == n);
            if ends_in_space(n) {
                lemma_skip_trailing_space(n);
                let tn = trimmed(n);
                assert(tn.len() < n.len());
                if !(tn == seq!['/'] || tn.len() == 0) {
                    lemma_skip_trailing_slashes(tn);
                }
                assert(normalized_path(n).len() < n.len());
            } else {
                assert(trimmed(n) == n);
                assert(n.last() != '/');
                assert(n != seq!['/']) by {
                    if n == seq!['/'] {
                        assert(n.last() == seq!['/'][0]);
                    }
                }
                assert(skip_trailing_slashes(n) == n);
            }
        } else {
            assert(trimmed(n) == n);
        }
    }
}

} // verus!
