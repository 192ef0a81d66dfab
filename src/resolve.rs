//! Resolution of a loose version specifier against a release feed or against
//! the installed versions.
use vstd::prelude::*;
use crate::error::RvmError;
use crate::text::{
    all_digits, chars_of, concat, count_char, count_of, has_prefix, is_all_digits, is_digit,
    starts_with,
};

verus! {

/// One entry of a release feed, newest first within each channel.
#[derive(Debug, Clone)]
pub struct Release {
    /// The version exactly as the feed writes it (`v20.11.0`, `go1.23.1`).
    pub version: String,
    /// Whether the feed marks it a stable release.
    pub stable: bool,
    /// Whether the feed marks it a long-term-support release.
    pub lts: bool,
}

/// The rule that a specifier falls under.
#[derive(Debug, Clone, Copy, PartialEq, Eq)]
pub enum SpecifierKind {
    Latest,
    Lts,
    Major,
    MajorMinor,
    Exact,
}

/// How a specifier is read: `latest`, `lts`, digits only, exactly one `.`,
/// else an exact version.
pub open spec fn kind_of(input: Seq<char>) -> SpecifierKind {
    if input == "latest"@ {
        SpecifierKind::Latest
    } else if input == "lts"@ {
        SpecifierKind::Lts
    } else if input.len() > 0 && all_digits(input) {
        SpecifierKind::Major
    } else if count_char(input, '.') == 1 {
        SpecifierKind::MajorMinor
    } else {
        SpecifierKind::Exact
    }
}

/// The specifier in the runtime's own spelling: `prefix` added unless present.
pub open spec fn with_prefix(prefix: Seq<char>, input: Seq<char>) -> Seq<char> {
    if has_prefix(input, prefix) {
        input
    } else {
        prefix + input
    }
}

/// `v` begins with `t`, and no digit follows `t` in `v`.
pub open spec fn prefix_at_boundary(v: Seq<char>, t: Seq<char>) -> bool {
    has_prefix(v, t) && (v.len() == t.len() || !is_digit(v[t.len() as int]))
}

/// Whether release `r` satisfies the specifier `input` for a runtime whose
/// versions begin with `prefix`.
pub open spec fn release_matches(prefix: Seq<char>, input: Seq<char>, r: Release) -> bool {
    match kind_of(input) {
        SpecifierKind::Latest => r.stable,
        SpecifierKind::Lts => r.lts,
        SpecifierKind::Major => r.stable && prefix_at_boundary(r.version@, prefix + input),
        SpecifierKind::MajorMinor => r.stable && prefix_at_boundary(
            r.version@,
            with_prefix(prefix, input),
        ),
        SpecifierKind::Exact => r.version@ == with_prefix(prefix, input),
    }
}

/// The version of the first release that satisfies the specifier.
pub open spec fn resolve_spec(prefix: Seq<char>, input: Seq<char>, rs: Seq<Release>) -> Option<
    Seq<char>,
>
    decreases rs.len(),
{
    if rs.len() == 0 {
        None
    } else if release_matches(prefix, input, rs[0]) {
        Some(rs[0].version@)
    } else {
        resolve_spec(prefix, input, rs.drop_first())
    }
}

/// Classifies a specifier.
pub fn classify_specifier(input: &str) -> (k: SpecifierKind)
    ensures
        k == kind_of(input@),
{
    let latest = "latest";
    let lts = "lts";
    proof {
        reveal_strlit("latest");
        reveal_strlit("lts");
    }
    if same_text(input, latest) {
        SpecifierKind::Latest
    } else if same_text(input, lts) {
        SpecifierKind::Lts
    } else if chars_of(input).len() > 0 && is_all_digits(input) {
        SpecifierKind::Major
    } else if count_of(input, '.') == 1 {
        SpecifierKind::MajorMinor
    } else {
        SpecifierKind::Exact
    }
}

/// Whether two strings hold the same characters.
pub fn same_text(a: &str, b: &str) -> (r: bool)
    ensures
        r == (a@ == b@),
{
    let x = chars_of(a);
    let y = chars_of(b);
    if x.len() != y.len() {
        return false;
    }
    let mut i: usize = 0;
    while i < x.len()
        invariant
            x@ == a@,
            y@ == b@,
            x.len() == y.len(),
            i <= x.len(),
            forall|j: int| 0 <= j < i ==> x@[j] == y@[j],
        decreases x.len() - i,
    {
        if x[i] != y[i] {
            return false;
        }
        i = i + 1;
    }
    assert(x@ =~= y@);
    true
}

/// `input` in the runtime's spelling.
pub fn add_prefix(prefix: &str, input: &str) -> (r: String)
    ensures
        r@ == with_prefix(prefix@, input@),
{
    if starts_with(input, prefix) {
        input.to_owned()
    } else {
        concat(prefix, input)
    }
}

/// Whether `v` begins with `t` with no digit right after it.
pub fn starts_at_boundary(v: &str, t: &str) -> (r: bool)
    ensures
        r == prefix_at_boundary(v@, t@),
{
    if !starts_with(v, t) {
        return false;
    }
    let vs = chars_of(v);
    let n = chars_of(t).len();
    n == vs.len() || !('0' <= vs[n] && vs[n] <= '9')
}

/// Resolves `input` against a feed whose versions begin with `prefix`: the
/// first release that the specifier's rule accepts, or `VersionNotFound`
/// naming the specifier.
pub fn resolve(prefix: &str, input: &str, releases: &Vec<Release>) -> (r: Result<String, RvmError>)
    ensures
        match resolve_spec(prefix@, input@, releases@) {
            Some(v) => r is Ok && r->Ok_0@ == v,
            None => r is Err && r->Err_0 is VersionNotFound && r->Err_0->VersionNotFound_0@
                == input@,
        },
{
    let kind = classify_specifier(input);
    let target = match kind {
        SpecifierKind::Major => concat(prefix, input),
        _ => add_prefix(prefix, input),
    };
    let mut i: usize = 0;
    assert(releases@.subrange(0, releases@.len() as int) =~= releases@);
    while i < releases.len()
        invariant
            i <= releases.len(),
            kind == kind_of(input@),
            kind == SpecifierKind::Major ==> target@ == prefix@ + input@,
            kind != SpecifierKind::Major ==> target@ == with_prefix(prefix@, input@),
            resolve_spec(prefix@, input@, releases@) == resolve_spec(
                prefix@,
                input@,
                releases@.subrange(i as int, releases@.len() as int),
            ),
        decreases releases.len() - i,
    {
        let rel = &releases[i];
        let hit = match kind {
            SpecifierKind::Latest => rel.stable,
            SpecifierKind::Lts => rel.lts,
            SpecifierKind::Major => rel.stable && starts_at_boundary(&rel.version, &target),
            SpecifierKind::MajorMinor => rel.stable && starts_at_boundary(&rel.version, &target),
            SpecifierKind::Exact => same_text(&rel.version, &target),
        };
        let ghost rest = releases@.subrange(i as int, releases@.len() as int);
        assert(rest[0] == releases@[i as int]);
        if hit {
            return Ok(rel.version.clone());
        }
        assert(rest.drop_first() == releases@.subrange(i + 1, releases@.len() as int));
        i = i + 1;
    }
    assert(releases@.subrange(i as int, releases@.len() as int).len() == 0);
    Err(RvmError::VersionNotFound(input.to_owned()))
}

/// `latest` resolves to the first stable release of the feed, and fails
/// exactly when the feed holds no stable release.
pub proof fn latest_is_first_stable(prefix: Seq<char>, rs: Seq<Release>)
    ensures
        match resolve_spec(prefix, "latest"@, rs) {
            Some(v) => exists|i: int|
                0 <= i < rs.len() && rs[i].stable && rs[i].version@ == v && forall|j: int|
                    0 <= j < i ==> !(#[trigger] rs[j]).stable,
            None => forall|i: int| 0 <= i < rs.len() ==> !(#[trigger] rs[i]).stable,
        },
    decreases rs.len(),
{
    reveal_strlit("latest");
    assert(kind_of("latest"@) == SpecifierKind::Latest);
    if rs.len() > 0 {
        latest_is_first_stable(prefix, rs.drop_first());
        if !rs[0].stable {
            match resolve_spec(prefix, "latest"@, rs) {
                Some(v) => {
                    let k = choose|k: int|
                        0 <= k < rs.drop_first().len() && rs.drop_first()[k].stable
                            && rs.drop_first()[k].version@ == v && forall|j: int|
                            0 <= j < k ==> !(#[trigger] rs.drop_first()[j]).stable;
                    assert(rs[k + 1] == rs.drop_first()[k]);
                    assert forall|j: int| 0 <= j < k + 1 implies !(#[trigger] rs[j]).stable by {
                        if j > 0 {
                            assert(rs[j] == rs.drop_first()[j - 1]);
                        }
                    }
                },
                None => {
                    assert forall|i: int| 0 <= i < rs.len() implies !(#[trigger] rs[i]).stable by {
                        if i > 0 {
                            assert(rs[i] == rs.drop_first()[i - 1]);
                        }
                    }
                },
            }
        }
    }
}

/// A specifier of digits only resolves to a stable release whose major
/// component is exactly those digits: the runtime's prefix, the digits, then
/// the end of the version or a character that is not a digit.
pub proof fn major_matches_whole_component(prefix: Seq<char>, m: Seq<char>, rs: Seq<Release>)
    requires
        m.len() > 0,
        all_digits(m),
    ensures
        resolve_spec(prefix, m, rs) matches Some(v) ==> exists|i: int|
            0 <= i < rs.len() && rs[i].stable && rs[i].version@ == v && has_prefix(v, prefix + m)
                && (v.len() == prefix.len() + m.len() || !is_digit(v[(prefix.len() + m.len()) as int])),
    decreases rs.len(),
{
    reveal_strlit("latest");
    reveal_strlit("lts");
    assert(is_digit(m[0]));
    assert(m != "latest"@) by {
        if m == "latest"@ {
            assert(m[0] == 'l');
        }
    }
    assert(m != "lts"@) by {
        if m == "lts"@ {
            assert(m[0] == 'l');
        }
    }
    assert(kind_of(m) == SpecifierKind::Major);
    if rs.len() > 0 {
        major_matches_whole_component(prefix, m, rs.drop_first());
        if !release_matches(prefix, m, rs[0]) {
            if let Some(v) = resolve_spec(prefix, m, rs) {
                let k = choose|k: int|
                    0 <= k < rs.drop_first().len() && rs.drop_first()[k].stable
                        && rs.drop_first()[k].version@ == v && has_prefix(v, prefix + m) && (
                    v.len() == prefix.len() + m.len() || !is_digit(v[(prefix.len() + m.len()) as int]));
                assert(rs[k + 1] == rs.drop_first()[k]);
            }
        }
    }
}

} // verus!
