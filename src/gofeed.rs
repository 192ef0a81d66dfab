//! The Go release feed, read from the ids of the download page's release
//! sections (`go1.23.1`, `go1.24rc1`, `go1.24beta1`).
use vstd::prelude::*;
use crate::order::sort_by;
use crate::resolve::Release;
use crate::text::{
    chars_of, contains, has_infix, has_prefix, is_digit, occurs_at, parse_u32, parse_u32_spec,
    split, split_on, starts_with, string_of, strip_prefix, strip_prefix_or_self, views,
};

verus! {

/// The ids of the page's `div` elements whose id begins with `go`, in the
/// order in which the parser created the elements.
pub uninterp spec fn go_div_ids(html: Seq<char>) -> Seq<Seq<char>>;

/// Relies on scraper's `Html::parse_document` and its `div[id^='go']`
/// selection: the `id` of each selected element, in the order of the
/// parsed tree's node arena.
#[verifier::external_body]
fn div_ids(html: &str) -> (r: Vec<String>)
    ensures
        views(r@) == go_div_ids(html@),
{
    let document = scraper::Html::parse_document(html);
    let selector = scraper::Selector::parse("div[id^='go']").unwrap();
    document.select(&selector).filter_map(|e| e.value().attr("id")).map(String::from).collect()
}

/// The first position at or after `i` where `p` occurs in `s`.
pub open spec fn find_from(s: Seq<char>, p: Seq<char>, i: int) -> Option<int>
    decreases s.len() + 1 - i,
{
    if i < 0 || i + p.len() > s.len() {
        None
    } else if occurs_at(s, p, i) {
        Some(i)
    } else {
        find_from(s, p, i + 1)
    }
}

/// A number read as `str::parse::<u32>` reads it, 0 when it does not read.
pub open spec fn number_or_zero(s: Seq<char>) -> u32 {
    match parse_u32_spec(s) {
        Some(n) => n,
        None => 0,
    }
}

/// The `k`-th piece as a number, 0 when missing or unreadable.
pub open spec fn piece_number(pieces: Seq<Seq<char>>, k: int) -> u32 {
    if 0 <= k < pieces.len() {
        number_or_zero(pieces[k])
    } else {
        0
    }
}

/// The version without `go`, split at the first `marker` into its base and
/// pre-release number.
pub open spec fn split_marker(w: Seq<char>, marker: Seq<char>) -> Option<(Seq<char>, u32)> {
    match find_from(w, marker, 0) {
        Some(i) => Some((w.subrange(0, i), number_or_zero(w.subrange(i + marker.len(), w.len() as int)))),
        None => None,
    }
}

/// The sort key of a Go version: major, minor, patch, pre-release number.
pub open spec fn go_key(v: Seq<char>) -> (u32, u32, u32, u32) {
    let w = strip_prefix_or_self(v, "go"@);
    let (base, n) = match split_marker(w, "rc"@) {
        Some(bn) => bn,
        None => match split_marker(w, "beta"@) {
            Some(bn) => bn,
            None => (w, 0u32),
        },
    };
    let parts = split_on(base, '.');
    (piece_number(parts, 0), piece_number(parts, 1), piece_number(parts, 2), n)
}

/// `a` is greater than `b`, comparing the four numbers in turn.
pub open spec fn key_gt(a: (u32, u32, u32, u32), b: (u32, u32, u32, u32)) -> bool {
    a.0 > b.0 || (a.0 == b.0 && (a.1 > b.1 || (a.1 == b.1 && (a.2 > b.2 || (a.2 == b.2 && a.3 > b.3)))))
}

/// Newest Go version first.
pub open spec fn go_desc() -> spec_fn(Seq<char>, Seq<char>) -> bool {
    |a: Seq<char>, b: Seq<char>| key_gt(go_key(a), go_key(b))
}

/// An id names a release: `go` followed by a digit.
pub open spec fn is_release_id(id: Seq<char>) -> bool {
    has_prefix(id, "go"@) && id.len() > 2 && is_digit(id[2])
}

/// The release ids of one category, in page order: `0` stable (neither
/// `rc` nor `beta`), `1` release candidates, `2` betas.
pub open spec fn ids_in(ids: Seq<Seq<char>>, category: int) -> Seq<Seq<char>>
    decreases ids.len(),
{
    if ids.len() == 0 {
        ids
    } else {
        let acc = ids_in(ids.drop_last(), category);
        let id = ids.last();
        let cat = if has_infix(id, "rc"@) {
            1int
        } else if has_infix(id, "beta"@) {
            2int
        } else {
            0int
        };
        if is_release_id(id) && cat == category {
            acc.push(id)
        } else {
            acc
        }
    }
}

/// The text and flags of each release.
pub open spec fn releases_view(rs: Seq<Release>) -> Seq<(Seq<char>, bool, bool)> {
    rs.map_values(|r: Release| (r.version@, r.stable, r.lts))
}

/// Releases of the given versions, all with the same stable flag.
pub open spec fn flagged(vs: Seq<Seq<char>>, stable: bool) -> Seq<(Seq<char>, bool, bool)> {
    vs.map_values(|v: Seq<char>| (v, stable, false))
}

/// The feed: stable releases newest first, then release candidates, then
/// betas, each newest first; only the stable ones are flagged stable.
pub open spec fn go_feed(ids: Seq<Seq<char>>) -> Seq<(Seq<char>, bool, bool)> {
    flagged(sort_by(ids_in(ids, 0), go_desc()), true) + flagged(sort_by(ids_in(ids, 1), go_desc()), false)
        + flagged(sort_by(ids_in(ids, 2), go_desc()), false)
}

proof fn find_from_bounds(s: Seq<char>, p: Seq<char>, k: int)
    ensures
        find_from(s, p, k) matches Some(i) ==> k <= i && i + p.len() <= s.len(),
    decreases s.len() + 1 - k,
{
    if !(k < 0 || k + p.len() > s.len()) && !occurs_at(s, p, k) {
        find_from_bounds(s, p, k + 1);
    }
}

fn occurs_here(cs: &Vec<char>, ps: &Vec<char>, i: usize) -> (r: bool)
    requires
        i + ps@.len() <= cs@.len(),
    ensures
        r == occurs_at(cs@, ps@, i as int),
{
    let total = cs.len();
    let mut j: usize = 0;
    while j < ps.len()
        invariant
            j <= ps@.len(),
            i + ps@.len() <= cs@.len(),
            total == cs@.len(),
            forall|k: int| 0 <= k < j ==> cs@[i + k] == ps@[k],
        decreases ps@.len() - j,
    {
        if cs[i + j] != ps[j] {
            assert(cs@.subrange(i as int, i + ps@.len())[j as int] != ps@[j as int]);
            return false;
        }
        j = j + 1;
    }
    assert(cs@.subrange(i as int, i + ps@.len()) =~= ps@);
    true
}

fn find_first(cs: &Vec<char>, ps: &Vec<char>) -> (r: Option<usize>)
    requires
        ps@.len() > 0,
    ensures
        match find_from(cs@, ps@, 0) {
            Some(i) => r == Some(i as usize),
            None => r is None,
        },
        r matches Some(i) ==> i + ps@.len() <= cs@.len(),
{
    let mut i: usize = 0;
    while ps.len() <= cs.len() && i <= cs.len() - ps.len()
        invariant
            ps@.len() > 0,
            i <= cs@.len() + 1,
            find_from(cs@, ps@, 0) == find_from(cs@, ps@, i as int),
        decreases cs@.len() + 1 - i,
    {
        if occurs_here(cs, ps, i) {
            return Some(i);
        }
        i = i + 1;
    }
    None
}

fn number_or_zero_of(s: &str) -> (r: u32)
    ensures
        r == number_or_zero(s@),
{
    match parse_u32(s) {
        Some(n) => n,
        None => 0,
    }
}

fn marker_split(w: &str, marker: &str) -> (r: Option<(String, u32)>)
    requires
        marker@.len() > 0,
    ensures
        match split_marker(w@, marker@) {
            Some(bn) => r is Some && r->Some_0.0@ == bn.0 && r->Some_0.1 == bn.1,
            None => r is None,
        },
{
    let cs = chars_of(w);
    let ps = chars_of(marker);
    proof {
        find_from_bounds(w@, marker@, 0);
    }
    match find_first(&cs, &ps) {
        Some(i) => {
            let (head, rest) = cs.as_slice().split_at(i);
            let (_, tail) = rest.split_at(ps.len());
            assert(head@ =~= w@.subrange(0, i as int));
            assert(tail@ =~= w@.subrange(i + marker@.len(), w@.len() as int));
            let base = string_of(head);
            let after = string_of(tail);
            Some((base, number_or_zero_of(&after)))
        },
        None => None,
    }
}

pub(crate) fn piece_number_of(pieces: &Vec<String>, k: usize) -> (r: u32)
    ensures
        r == piece_number(views(pieces@), k as int),
{
    if k < pieces.len() {
        assert(views(pieces@)[k as int] == pieces@[k as int]@);
        number_or_zero_of(&pieces[k])
    } else {
        0
    }
}

/// The sort key of a Go version: major, minor, patch, pre-release number.
pub fn go_version_key(v: &str) -> (r: (u32, u32, u32, u32))
    ensures
        r == go_key(v@),
{
    proof {
        reveal_strlit("go");
        reveal_strlit("rc");
        reveal_strlit("beta");
    }
    let w = strip_prefix(v, "go");
    let (base, n) = match marker_split(&w, "rc") {
        Some(bn) => bn,
        None => match marker_split(&w, "beta") {
            Some(bn) => bn,
            None => (w, 0u32),
        },
    };
    let parts = split(&base, '.');
    (piece_number_of(&parts, 0), piece_number_of(&parts, 1), piece_number_of(&parts, 2), n)
}

fn key_greater(a: (u32, u32, u32, u32), b: (u32, u32, u32, u32)) -> (r: bool)
    ensures
        r == key_gt(a, b),
{
    a.0 > b.0 || (a.0 == b.0 && (a.1 > b.1 || (a.1 == b.1 && (a.2 > b.2 || (a.2 == b.2 && a.3 > b.3)))))
}

/// The Go versions newest first; equal keys keep their order.
pub fn sort_go_versions(vs: &Vec<String>) -> (r: Vec<String>)
    ensures
        views(r@) == sort_by(views(vs@), go_desc()),
{
    let mut out: Vec<String> = Vec::new();
    let mut i: usize = 0;
    while i < vs.len()
        invariant
            i <= vs@.len(),
            views(out@) == sort_by(views(vs@).subrange(0, i as int), go_desc()),
        decreases vs@.len() - i,
    {
        let ghost pre = views(vs@).subrange(0, i + 1);
        assert(pre.drop_last() =~= views(vs@).subrange(0, i as int));
        assert(pre.last() == vs@[i as int]@);
        let x = vs[i].clone();
        let kx = go_version_key(&x);
        let ghost before = views(out@);
        let mut p: usize = 0;
        let mut stop = false;
        while !stop && p < out.len()
            invariant
                p <= out@.len(),
                before == views(out@),
                kx == go_key(x@),
                stop ==> p < out@.len() && (go_desc())(x@, before[p as int]),
                forall|j: int| 0 <= j < p ==> !(go_desc())(x@, #[trigger] before[j]),
            decreases 2 * (out@.len() - p) + if stop { 0int } else { 1int },
        {
            assert(before[p as int] == out@[p as int]@);
            if key_greater(kx, go_version_key(&out[p])) {
                stop = true;
            } else {
                p = p + 1;
            }
        }
        proof {
            crate::order::insert_by_at(x@, before, go_desc(), p as int);
        }
        let ghost xv = x@;
        out.insert(p, x);
        assert(views(out@) =~= before.insert(p as int, xv));
        i = i + 1;
    }
    assert(views(vs@).subrange(0, vs@.len() as int) =~= views(vs@));
    out
}

fn release_id_category(id: &str) -> (r: Option<u8>)
    ensures
        is_release_id(id@) ==> r is Some && r->Some_0 as int == (if has_infix(id@, "rc"@) {
            1int
        } else if has_infix(id@, "beta"@) {
            2int
        } else {
            0int
        }),
        !is_release_id(id@) ==> r is None,
{
    proof {
        reveal_strlit("go");
        reveal_strlit("rc");
        reveal_strlit("beta");
    }
    let cs = chars_of(id);
    if !(starts_with(id, "go") && cs.len() > 2 && '0' <= cs[2] && cs[2] <= '9') {
        return None;
    }
    if contains(id, "rc") {
        Some(1)
    } else if contains(id, "beta") {
        Some(2)
    } else {
        Some(0)
    }
}

fn flag_all(vs: Vec<String>, stable: bool, out: &mut Vec<Release>)
    ensures
        releases_view(final(out)@) == releases_view(old(out)@) + flagged(views(vs@), stable),
{
    let ghost start = releases_view(out@);
    let mut i: usize = 0;
    while i < vs.len()
        invariant
            i <= vs@.len(),
            releases_view(out@) == start + flagged(views(vs@).subrange(0, i as int), stable),
        decreases vs@.len() - i,
    {
        let ghost o = releases_view(out@);
        out.push(Release { version: vs[i].clone(), stable, lts: false });
        assert(releases_view(out@) =~= o.push((vs@[i as int]@, stable, false)));
        assert(flagged(views(vs@).subrange(0, i + 1), stable) =~= flagged(
            views(vs@).subrange(0, i as int),
            stable,
        ).push((vs@[i as int]@, stable, false)));
        i = i + 1;
    }
    assert(views(vs@).subrange(0, vs@.len() as int) =~= views(vs@));
}

/// The Go feed from the ids of the download page: release ids only, stable
/// ones first, then release candidates, then betas, each newest first.
pub fn go_releases_from_ids(ids: &Vec<String>) -> (r: Vec<Release>)
    ensures
        releases_view(r@) == go_feed(views(ids@)),
{
    let mut stable: Vec<String> = Vec::new();
    let mut rc: Vec<String> = Vec::new();
    let mut beta: Vec<String> = Vec::new();
    let mut i: usize = 0;
    while i < ids.len()
        invariant
            i <= ids@.len(),
            views(stable@) == ids_in(views(ids@).subrange(0, i as int), 0),
            views(rc@) == ids_in(views(ids@).subrange(0, i as int), 1),
            views(beta@) == ids_in(views(ids@).subrange(0, i as int), 2),
        decreases ids@.len() - i,
    {
        let ghost pre = views(ids@).subrange(0, i + 1);
        assert(pre.drop_last() =~= views(ids@).subrange(0, i as int));
        assert(pre.last() == ids@[i as int]@);
        let ghost (s0, r0, b0) = (views(stable@), views(rc@), views(beta@));
        match release_id_category(&ids[i]) {
            Some(0) => {
                stable.push(ids[i].clone());
                assert(views(stable@) =~= s0.push(ids@[i as int]@));
            },
            Some(1) => {
                rc.push(ids[i].clone());
                assert(views(rc@) =~= r0.push(ids@[i as int]@));
            },
            Some(_) => {
                beta.push(ids[i].clone());
                assert(views(beta@) =~= b0.push(ids@[i as int]@));
            },
            None => {},
        }
        i = i + 1;
    }
    assert(views(ids@).subrange(0, ids@.len() as int) =~= views(ids@));
    let mut out: Vec<Release> = Vec::new();
    assert(releases_view(out@) =~= Seq::<(Seq<char>, bool, bool)>::empty());
    flag_all(sort_go_versions(&stable), true, &mut out);
    flag_all(sort_go_versions(&rc), false, &mut out);
    flag_all(sort_go_versions(&beta), false, &mut out);
    assert(Seq::<(Seq<char>, bool, bool)>::empty() + flagged(sort_by(ids_in(views(ids@), 0), go_desc()), true)
        =~= flagged(sort_by(ids_in(views(ids@), 0), go_desc()), true));
    out
}

/// The Go feed read from the download page's HTML.
pub fn go_releases_from_page(html: &str) -> (r: Vec<Release>)
    ensures
        releases_view(r@) == go_feed(go_div_ids(html@)),
{
    let ids = div_ids(html);
    go_releases_from_ids(&ids)
}

} // verus!
