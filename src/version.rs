//! Version strings: display form, major and minor, release channel, order.
use vstd::prelude::*;
use crate::text::{
    chars_of, concat, has_infix, parse_u32, parse_u32_spec, split, split_on, strip_prefix,
    strip_prefix_or_self, views, contains,
};
use core::cmp::Ordering;

verus! {

/// A release as the listing sees it: its version, channel name and
/// `major.minor` key.
#[derive(Debug, Clone)]
pub struct VersionInfo {
    pub version: String,
    pub channel: String,
    pub major_minor: String,
}

/// A version without its leading `v`.
pub open spec fn clean_spec(v: Seq<char>) -> Seq<char> {
    strip_prefix_or_self(v, "v"@)
}

/// `major.minor` of a version: its first two `.`-separated pieces, once a
/// leading `v` is gone; none when it has fewer than two.
pub open spec fn major_minor_spec(v: Seq<char>) -> Option<Seq<char>> {
    let parts = split_on(clean_spec(v), '.');
    if parts.len() >= 2 {
        Some(parts[0] + "."@ + parts[1])
    } else {
        None
    }
}

/// The major of a version: its first piece read as a number.
pub open spec fn major_spec(v: Seq<char>) -> Option<u32> {
    parse_u32_spec(split_on(clean_spec(v), '.')[0])
}

/// The channel named by a lower-cased version: `LTS` when flagged so, then by
/// the first marker found among `alpha`, `beta`, `rc`, `nightly`, else `Stable`.
pub open spec fn channel_spec(lowered: Seq<char>, is_lts: bool) -> Seq<char> {
    if is_lts {
        "LTS"@
    } else if has_infix(lowered, "alpha"@) {
        "Alpha"@
    } else if has_infix(lowered, "beta"@) {
        "Beta"@
    } else if has_infix(lowered, "rc"@) {
        "RC"@
    } else if has_infix(lowered, "nightly"@) {
        "Nightly"@
    } else {
        "Stable"@
    }
}

/// What `str::to_lowercase` gives for `s`.
pub uninterp spec fn lower_of(s: Seq<char>) -> Seq<char>;

/// Relies on `str::to_lowercase`: a result that depends on the characters alone.
#[verifier::external_body]
fn lowercase(s: &str) -> (r: String)
    ensures
        r@ == lower_of(s@),
{
    s.to_lowercase()
}

/// The numbers among the pieces, in order; pieces that do not read as a
/// `u32` are skipped.
pub open spec fn numbers_of(pieces: Seq<Seq<char>>) -> Seq<u32>
    decreases pieces.len(),
{
    if pieces.len() == 0 {
        Seq::empty()
    } else {
        let rest = numbers_of(pieces.drop_last());
        match parse_u32_spec(pieces.last()) {
            Some(n) => rest.push(n),
            None => rest,
        }
    }
}

/// The numeric components of a version.
pub open spec fn components(v: Seq<char>) -> Seq<u32> {
    numbers_of(split_on(clean_spec(v), '.'))
}

/// Numbers compared one position at a time; when one runs out, the longer
/// is the greater.
pub open spec fn cmp_numbers(a: Seq<u32>, b: Seq<u32>) -> Ordering
    decreases a.len(),
{
    if a.len() == 0 || b.len() == 0 {
        if a.len() < b.len() {
            Ordering::Less
        } else if a.len() > b.len() {
            Ordering::Greater
        } else {
            Ordering::Equal
        }
    } else if a[0] < b[0] {
        Ordering::Less
    } else if a[0] > b[0] {
        Ordering::Greater
    } else {
        cmp_numbers(a.drop_first(), b.drop_first())
    }
}

/// Removes the `v` prefix from a version for display.
pub fn clean_version_for_display(version: &str) -> (r: String)
    ensures
        r@ == clean_spec(version@),
{
    proof {
        reveal_strlit("v");
    }
    strip_prefix(version, "v")
}

proof fn split_nonempty(s: Seq<char>, sep: char)
    ensures
        split_on(s, sep).len() >= 1,
    decreases s.len(),
{
    if s.len() > 0 {
        split_nonempty(s.drop_first(), sep);
    }
}

/// `major.minor` of a version (`v20.11.0` gives `20.11`).
pub fn extract_major_minor(version: &str) -> (r: Option<String>)
    ensures
        match major_minor_spec(version@) {
            Some(m) => r is Some && r->Some_0@ == m,
            None => r is None,
        },
{
    let clean = clean_version_for_display(version);
    let parts = split(&clean, '.');
    proof {
        reveal_strlit(".");
        assert(views(parts@).len() == parts@.len());
    }
    if parts.len() >= 2 {
        assert(views(parts@)[0] == parts@[0]@ && views(parts@)[1] == parts@[1]@);
        let a = concat(&parts[0], ".");
        Some(concat(&a, &parts[1]))
    } else {
        None
    }
}

/// The major of a version as a number (`20.11.0` gives 20).
pub fn extract_major_version(version: &str) -> (r: Option<u32>)
    ensures
        r == major_spec(version@),
{
    let clean = clean_version_for_display(version);
    let parts = split(&clean, '.');
    proof {
        split_nonempty(clean@, '.');
        assert(views(parts@).len() == parts@.len());
        assert(views(parts@)[0] == parts@[0]@);
    }
    parse_u32(&parts[0])
}

/// The channel of a version whose lower-cased text is `lowered`.
pub fn channel_of_lowered(lowered: &str, is_lts: bool) -> (r: String)
    ensures
        r@ == channel_spec(lowered@, is_lts),
{
    proof {
        reveal_strlit("LTS");
        reveal_strlit("alpha");
        reveal_strlit("Alpha");
        reveal_strlit("beta");
        reveal_strlit("Beta");
        reveal_strlit("rc");
        reveal_strlit("RC");
        reveal_strlit("nightly");
        reveal_strlit("Nightly");
        reveal_strlit("Stable");
    }
    if is_lts {
        "LTS".to_owned()
    } else if contains(lowered, "alpha") {
        "Alpha".to_owned()
    } else if contains(lowered, "beta") {
        "Beta".to_owned()
    } else if contains(lowered, "rc") {
        "RC".to_owned()
    } else if contains(lowered, "nightly") {
        "Nightly".to_owned()
    } else {
        "Stable".to_owned()
    }
}

/// The release channel of a version: `LTS` when flagged so, whatever the
/// text says; else by the markers of its lower-cased text.
pub fn detect_channel(version: &str, is_lts: bool) -> (r: String)
    ensures
        r@ == channel_spec(lower_of(version@), is_lts),
{
    let lowered = lowercase(version);
    channel_of_lowered(&lowered, is_lts)
}

fn numbers(pieces: &Vec<String>) -> (r: Vec<u32>)
    ensures
        r@ == numbers_of(views(pieces@)),
{
    let mut out: Vec<u32> = Vec::new();
    let mut i: usize = 0;
    while i < pieces.len()
        invariant
            i <= pieces.len(),
            out@ == numbers_of(views(pieces@).subrange(0, i as int)),
        decreases pieces.len() - i,
    {
        let ghost pre = views(pieces@).subrange(0, i + 1);
        assert(pre.drop_last() =~= views(pieces@).subrange(0, i as int));
        assert(pre.last() == pieces@[i as int]@);
        match parse_u32(&pieces[i]) {
            Some(n) => out.push(n),
            None => {},
        }
        i = i + 1;
    }
    assert(views(pieces@).subrange(0, pieces@.len() as int) =~= views(pieces@));
    out
}

/// Compares two versions by their numeric components (`v20.11.0` is greater
/// than `v20.10.5`); a version whose components run out first is the lesser.
pub fn compare_versions(a: &str, b: &str) -> (r: Ordering)
    ensures
        r == cmp_numbers(components(a@), components(b@)),
{
    let ca = clean_version_for_display(a);
    let cb = clean_version_for_display(b);
    let pa = numbers(&split(&ca, '.'));
    let pb = numbers(&split(&cb, '.'));
    assert(pa@.subrange(0, pa@.len() as int) =~= pa@);
    assert(pb@.subrange(0, pb@.len() as int) =~= pb@);
    let mut i: usize = 0;
    while i < pa.len() && i < pb.len()
        invariant
            i <= pa.len(),
            i <= pb.len(),
            pa@ == components(a@),
            pb@ == components(b@),
            cmp_numbers(pa@, pb@) == cmp_numbers(
                pa@.subrange(i as int, pa@.len() as int),
                pb@.subrange(i as int, pb@.len() as int),
            ),
        decreases pa.len() - i,
    {
        let ghost ra = pa@.subrange(i as int, pa@.len() as int);
        let ghost rb = pb@.subrange(i as int, pb@.len() as int);
        assert(ra[0] == pa@[i as int] && rb[0] == pb@[i as int]);
        if pa[i] < pb[i] {
            return Ordering::Less;
        } else if pa[i] > pb[i] {
            return Ordering::Greater;
        }
        assert(ra.drop_first() =~= pa@.subrange(i + 1, pa@.len() as int));
        assert(rb.drop_first() =~= pb@.subrange(i + 1, pb@.len() as int));
        i = i + 1;
    }
    if pa.len() < pb.len() {
        Ordering::Less
    } else if pa.len() > pb.len() {
        Ordering::Greater
    } else {
        Ordering::Equal
    }
}

/// The lines of a version list while it is being wrapped: the finished lines
/// and the line being filled. A version joins the current line after `, `
/// unless that would make a non-empty line longer than `max`, in which case
/// it starts a new line.
pub open spec fn wrap_spec(vs: Seq<Seq<char>>, max: nat) -> (Seq<Seq<char>>, Seq<char>)
    decreases vs.len(),
{
    if vs.len() == 0 {
        (Seq::empty(), Seq::empty())
    } else {
        let (done, cur) = wrap_spec(vs.drop_last(), max);
        let add = if vs.len() == 1 {
            vs.last()
        } else {
            ", "@ + vs.last()
        };
        if cur.len() > 0 && cur.len() + add.len() > max {
            (done.push(cur), vs.last())
        } else {
            (done, cur + add)
        }
    }
}

/// The wrapped lines of a version list.
pub open spec fn wrapped_lines(vs: Seq<Seq<char>>, max: nat) -> Seq<Seq<char>> {
    let (done, cur) = wrap_spec(vs, max);
    if cur.len() > 0 {
        done.push(cur)
    } else {
        done
    }
}

/// Lines joined by new lines, each after the first indented by six spaces.
pub open spec fn join_indented(ls: Seq<Seq<char>>) -> Seq<char>
    decreases ls.len(),
{
    if ls.len() == 0 {
        Seq::empty()
    } else if ls.len() == 1 {
        ls[0]
    } else {
        join_indented(ls.drop_last()) + "\n      "@ + ls.last()
    }
}

/// A list of versions as text, wrapped at `max_line_length` characters
/// (measured in characters); continuation lines are indented.
pub fn format_version_list(versions: &[String], max_line_length: usize) -> (r: String)
    ensures
        r@ == join_indented(wrapped_lines(views(versions@), max_line_length as nat)),
{
    proof {
        reveal_strlit(", ");
        reveal_strlit("\n      ");
    }
    let ghost vs = views(versions@);
    let mut lines: Vec<String> = Vec::new();
    let mut cur = String::new();
    let mut cur_len: usize = 0;
    let mut i: usize = 0;
    while i < versions.len()
        invariant
            i <= versions@.len(),
            vs == views(versions@),
            cur_len == cur@.len(),
            (views(lines@), cur@) == wrap_spec(vs.subrange(0, i as int), max_line_length as nat),
        decreases versions@.len() - i,
    {
        let ghost pre = vs.subrange(0, i + 1);
        assert(pre.drop_last() =~= vs.subrange(0, i as int));
        assert(pre.last() == versions@[i as int]@);
        let v = &versions[i];
        let addition = if i == 0 {
            v.clone()
        } else {
            concat(", ", v)
        };
        let add_len = chars_of(&addition).len();
        if cur_len > 0 && (cur_len > max_line_length || add_len > max_line_length - cur_len) {
            let ghost old_lines = views(lines@);
            lines.push(cur);
            assert(views(lines@) =~= old_lines.push(cur@));
            cur = v.clone();
        } else {
            cur = concat(&cur, &addition);
        }
        cur_len = chars_of(&cur).len();
        i = i + 1;
    }
    assert(vs.subrange(0, versions@.len() as int) =~= vs);
    if chars_of(&cur).len() > 0 {
        let ghost old_lines = views(lines@);
        lines.push(cur);
        assert(views(lines@) =~= old_lines.push(cur@));
    }
    let mut out = String::new();
    let mut k: usize = 0;
    while k < lines.len()
        invariant
            k <= lines@.len(),
            out@ == join_indented(views(lines@).subrange(0, k as int)),
        decreases lines@.len() - k,
    {
        let ghost pre = views(lines@).subrange(0, k + 1);
        assert(pre.drop_last() =~= views(lines@).subrange(0, k as int));
        assert(pre.last() == lines@[k as int]@);
        if k == 0 {
            out = lines[0].clone();
        } else {
            let a = concat(&out, "\n      ");
            out = concat(&a, &lines[k]);
        }
        k = k + 1;
    }
    assert(views(lines@).subrange(0, lines@.len() as int) =~= views(lines@));
    out
}

} // verus!
