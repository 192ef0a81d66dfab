//! Orders used by the listing, and insertion into sequences kept in order.
use vstd::prelude::*;
use crate::text::{chars_of, split, split_on, views};
use crate::gofeed::{piece_number, piece_number_of};
use crate::version::{cmp_numbers, compare_versions, components};
use core::cmp::Ordering;

verus! {

/// `x` put into `s` right before the first element that it goes before; an
/// element equal to `x` in the order stays in front of it.
pub open spec fn insert_by<T>(x: T, s: Seq<T>, before: spec_fn(T, T) -> bool) -> Seq<T>
    decreases s.len(),
{
    if s.len() == 0 {
        seq![x]
    } else if before(x, s[0]) {
        seq![x] + s
    } else {
        seq![s[0]] + insert_by(x, s.drop_first(), before)
    }
}

/// `s` sorted by `before`, keeping the input order of equal elements.
pub open spec fn sort_by<T>(s: Seq<T>, before: spec_fn(T, T) -> bool) -> Seq<T>
    decreases s.len(),
{
    if s.len() == 0 {
        s
    } else {
        insert_by(s.last(), sort_by(s.drop_last(), before), before)
    }
}

/// `x` put into `s` unless `s` holds it already.
pub open spec fn insert_new<T>(x: T, s: Seq<T>, before: spec_fn(T, T) -> bool) -> Seq<T> {
    if s.contains(x) {
        s
    } else {
        insert_by(x, s, before)
    }
}

/// The first `n` elements, or all of them when there are fewer.
pub open spec fn take<T>(s: Seq<T>, n: nat) -> Seq<T> {
    if s.len() <= n {
        s
    } else {
        s.subrange(0, n as int)
    }
}

/// Lexicographic order of characters, as `String`'s `Ord` compares.
pub open spec fn lex_lt(a: Seq<char>, b: Seq<char>) -> bool
    decreases a.len(),
{
    if a.len() == 0 {
        b.len() > 0
    } else if b.len() == 0 {
        false
    } else if a[0] != b[0] {
        a[0] < b[0]
    } else {
        lex_lt(a.drop_first(), b.drop_first())
    }
}

/// Greatest number first.
pub open spec fn number_desc() -> spec_fn(u32, u32) -> bool {
    |a: u32, b: u32| a > b
}

/// Text in descending lexicographic order.
pub open spec fn text_desc() -> spec_fn(Seq<char>, Seq<char>) -> bool {
    |a: Seq<char>, b: Seq<char>| lex_lt(b, a)
}

/// The numbers of a `major.minor` key: its first two `.`-separated pieces,
/// each 0 when it does not read as a number.
pub open spec fn minor_key(s: Seq<char>) -> (u32, u32) {
    let parts = split_on(s, '.');
    (piece_number(parts, 0), piece_number(parts, 1))
}

/// `major.minor` keys, greatest first by their numbers, then by descending
/// text when the numbers are equal (`20.11` before `20.9`).
pub open spec fn minor_desc() -> spec_fn(Seq<char>, Seq<char>) -> bool {
    |a: Seq<char>, b: Seq<char>|
        minor_key(a).0 > minor_key(b).0 || (minor_key(a).0 == minor_key(b).0 && (minor_key(a).1
            > minor_key(b).1 || (minor_key(a).1 == minor_key(b).1 && lex_lt(b, a))))
}

/// Text in ascending lexicographic order.
pub open spec fn text_asc() -> spec_fn(Seq<char>, Seq<char>) -> bool {
    |a: Seq<char>, b: Seq<char>| lex_lt(a, b)
}

/// Newest version first, by `compare_versions`.
pub open spec fn version_desc() -> spec_fn(Seq<char>, Seq<char>) -> bool {
    |a: Seq<char>, b: Seq<char>| cmp_numbers(components(a), components(b)) == Ordering::Greater
}

pub proof fn insert_by_at<T>(x: T, s: Seq<T>, before: spec_fn(T, T) -> bool, p: int)
    requires
        0 <= p <= s.len(),
        forall|j: int| 0 <= j < p ==> !before(x, #[trigger] s[j]),
        p < s.len() ==> before(x, s[p]),
    ensures
        insert_by(x, s, before) == s.insert(p, x),
    decreases p,
{
    if p == 0 {
        if s.len() == 0 {
            assert(seq![x] =~= s.insert(0, x));
        } else {
            assert(seq![x] + s =~= s.insert(0, x));
        }
    } else {
        assert(!before(x, s[0]));
        assert forall|j: int| 0 <= j < p - 1 implies !before(x, #[trigger] s.drop_first()[j]) by {
            assert(s.drop_first()[j] == s[j + 1]);
        }
        if p < s.len() {
            assert(s.drop_first()[p - 1] == s[p]);
        }
        insert_by_at(x, s.drop_first(), before, p - 1);
        assert(seq![s[0]] + s.drop_first().insert(p - 1, x) =~= s.insert(p, x));
    }
}

/// Whether `a` comes before `b` in lexicographic order.
pub fn lex_less(a: &str, b: &str) -> (r: bool)
    ensures
        r == lex_lt(a@, b@),
{
    let x = chars_of(a);
    let y = chars_of(b);
    let mut i: usize = 0;
    assert(x@.subrange(0, x@.len() as int) =~= x@);
    assert(y@.subrange(0, y@.len() as int) =~= y@);
    while i < x.len() && i < y.len()
        invariant
            x@ == a@,
            y@ == b@,
            i <= x.len(),
            i <= y.len(),
            forall|j: int| 0 <= j < i ==> x@[j] == y@[j],
            lex_lt(a@, b@) == lex_lt(
                x@.subrange(i as int, x@.len() as int),
                y@.subrange(i as int, y@.len() as int),
            ),
        decreases x.len() - i,
    {
        let ghost ra = x@.subrange(i as int, x@.len() as int);
        let ghost rb = y@.subrange(i as int, y@.len() as int);
        assert(ra[0] == x@[i as int] && rb[0] == y@[i as int]);
        if x[i] != y[i] {
            return x[i] < y[i];
        }
        assert(ra.drop_first() =~= x@.subrange(i + 1, x@.len() as int));
        assert(rb.drop_first() =~= y@.subrange(i + 1, y@.len() as int));
        i = i + 1;
    }
    i < y.len()
}

/// Puts `x` into `v`, kept greatest first, unless `v` holds it already.
pub fn insert_new_number(v: &mut Vec<u32>, x: u32)
    ensures
        final(v)@ == insert_new(x, old(v)@, number_desc()),
{
    let mut k: usize = 0;
    while k < v.len()
        invariant
            k <= v@.len(),
            forall|j: int| 0 <= j < k ==> v@[j] != x,
        decreases v@.len() - k,
    {
        if v[k] == x {
            assert(v@.contains(x));
            return;
        }
        k = k + 1;
    }
    let mut p: usize = 0;
    let mut stop = false;
    while !stop && p < v.len()
        invariant
            p <= v@.len(),
            stop ==> p < v@.len() && (number_desc())(x, v@[p as int]),
            forall|j: int| 0 <= j < p ==> !(number_desc())(x, #[trigger] v@[j]),
        decreases 2 * (v@.len() - p) + if stop { 0int } else { 1int },
    {
        if x > v[p] {
            stop = true;
        } else {
            p = p + 1;
        }
    }
    proof {
        insert_by_at(x, v@, number_desc(), p as int);
    }
    v.insert(p, x);
}

/// Puts `x` into `v`, kept in ascending text order, unless `v` holds it
/// already.
pub fn insert_new_text(v: &mut Vec<String>, x: String)
    ensures
        views(final(v)@) == insert_new(x@, views(old(v)@), text_asc()),
{
    let ghost before = text_asc();
    let ghost vs = views(v@);
    let mut k: usize = 0;
    while k < v.len()
        invariant
            k <= v@.len(),
            vs == views(v@),
            forall|j: int| 0 <= j < k ==> vs[j] != x@,
        decreases v@.len() - k,
    {
        if crate::resolve::same_text(&v[k], &x) {
            assert(vs[k as int] == x@);
            assert(vs.contains(x@));
            return;
        }
        k = k + 1;
    }
    let mut p: usize = 0;
    let mut stop = false;
    while !stop && p < v.len()
        invariant
            p <= v@.len(),
            vs == views(v@),
            before == text_asc(),
            stop ==> p < v@.len() && before(x@, vs[p as int]),
            forall|j: int| 0 <= j < p ==> !before(x@, #[trigger] vs[j]),
        decreases 2 * (v@.len() - p) + if stop { 0int } else { 1int },
    {
        let goes = lex_less(&x, &v[p]);
        assert(vs[p as int] == v@[p as int]@);
        if goes {
            stop = true;
        } else {
            p = p + 1;
        }
    }
    proof {
        insert_by_at(x@, vs, before, p as int);
    }
    let ghost xv = x@;
    v.insert(p, x);
    assert(views(v@) =~= vs.insert(p as int, xv));
}

/// Puts `x` into `v`, kept newest first, after every version that is not
/// older than it.
pub fn insert_version(v: &mut Vec<String>, x: String)
    ensures
        views(final(v)@) == insert_by(x@, views(old(v)@), version_desc()),
{
    let ghost vs = views(v@);
    let mut p: usize = 0;
    let mut stop = false;
    while !stop && p < v.len()
        invariant
            p <= v@.len(),
            vs == views(v@),
            stop ==> p < v@.len() && (version_desc())(x@, vs[p as int]),
            forall|j: int| 0 <= j < p ==> !(version_desc())(x@, #[trigger] vs[j]),
        decreases 2 * (v@.len() - p) + if stop { 0int } else { 1int },
    {
        assert(vs[p as int] == v@[p as int]@);
        if let Ordering::Greater = compare_versions(&x, &v[p]) {
            stop = true;
        } else {
            p = p + 1;
        }
    }
    proof {
        insert_by_at(x@, vs, version_desc(), p as int);
    }
    let ghost xv = x@;
    v.insert(p, x);
    assert(views(v@) =~= vs.insert(p as int, xv));
}

/// The versions newest first; versions that compare equal keep their order.
pub fn sort_versions(vs: &Vec<String>) -> (r: Vec<String>)
    ensures
        views(r@) == sort_by(views(vs@), version_desc()),
{
    let mut out: Vec<String> = Vec::new();
    let mut i: usize = 0;
    while i < vs.len()
        invariant
            i <= vs@.len(),
            views(out@) == sort_by(views(vs@).subrange(0, i as int), version_desc()),
        decreases vs@.len() - i,
    {
        let ghost pre = views(vs@).subrange(0, i + 1);
        assert(pre.drop_last() =~= views(vs@).subrange(0, i as int));
        assert(pre.last() == vs@[i as int]@);
        insert_version(&mut out, vs[i].clone());
        i = i + 1;
    }
    assert(views(vs@).subrange(0, vs@.len() as int) =~= views(vs@));
    out
}

/// Puts `x` into `v`, kept in descending text order, after every equal entry.
pub fn insert_text_desc(v: &mut Vec<String>, x: String)
    ensures
        views(final(v)@) == insert_by(x@, views(old(v)@), text_desc()),
{
    let ghost vs = views(v@);
    let mut p: usize = 0;
    let mut stop = false;
    while !stop && p < v.len()
        invariant
            p <= v@.len(),
            vs == views(v@),
            stop ==> p < v@.len() && (text_desc())(x@, vs[p as int]),
            forall|j: int| 0 <= j < p ==> !(text_desc())(x@, #[trigger] vs[j]),
        decreases 2 * (v@.len() - p) + if stop { 0int } else { 1int },
    {
        assert(vs[p as int] == v@[p as int]@);
        if lex_less(&v[p], &x) {
            stop = true;
        } else {
            p = p + 1;
        }
    }
    proof {
        insert_by_at(x@, vs, text_desc(), p as int);
    }
    let ghost xv = x@;
    v.insert(p, x);
    assert(views(v@) =~= vs.insert(p as int, xv));
}

/// The numbers of a `major.minor` key.
pub fn minor_key_of(s: &str) -> (r: (u32, u32))
    ensures
        r == minor_key(s@),
{
    let parts = split(s, '.');
    (piece_number_of(&parts, 0), piece_number_of(&parts, 1))
}

/// Puts the key `x` into `v`, kept in `minor_desc` order, unless `v` holds
/// it already.
pub fn insert_new_minor(v: &mut Vec<String>, x: String)
    ensures
        views(final(v)@) == insert_new(x@, views(old(v)@), minor_desc()),
{
    let ghost vs = views(v@);
    let mut k: usize = 0;
    while k < v.len()
        invariant
            k <= v@.len(),
            vs == views(v@),
            forall|j: int| 0 <= j < k ==> vs[j] != x@,
        decreases v@.len() - k,
    {
        if crate::resolve::same_text(&v[k], &x) {
            assert(vs[k as int] == x@);
            assert(vs.contains(x@));
            return;
        }
        k = k + 1;
    }
    let kx = minor_key_of(&x);
    let mut p: usize = 0;
    let mut stop = false;
    while !stop && p < v.len()
        invariant
            p <= v@.len(),
            vs == views(v@),
            kx == minor_key(x@),
            stop ==> p < v@.len() && (minor_desc())(x@, vs[p as int]),
            forall|j: int| 0 <= j < p ==> !(minor_desc())(x@, #[trigger] vs[j]),
        decreases 2 * (v@.len() - p) + if stop { 0int } else { 1int },
    {
        assert(vs[p as int] == v@[p as int]@);
        let kp = minor_key_of(&v[p]);
        let goes = kx.0 > kp.0 || (kx.0 == kp.0 && (kx.1 > kp.1 || (kx.1 == kp.1 && lex_less(&v[p], &x))));
        if goes {
            stop = true;
        } else {
            p = p + 1;
        }
    }
    proof {
        insert_by_at(x@, vs, minor_desc(), p as int);
    }
    let ghost xv = x@;
    v.insert(p, x);
    assert(views(v@) =~= vs.insert(p as int, xv));
}

} // verus!
