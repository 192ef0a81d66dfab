//! Decisions over the set of installed versions of one runtime. The
//! directories themselves are read by the caller; what is decided here is
//! which of the names count and how they resolve.
use vstd::prelude::*;
use crate::error::RvmError;
use crate::resolve::{same_text, with_prefix, add_prefix};
use crate::text::{
    all_digits, chars_of, concat, count_char, count_of, has_prefix, is_all_digits, starts_with,
    views,
};

verus! {

/// `t` is one of the names in `vs`.
pub open spec fn holds_text(vs: Seq<Seq<char>>, t: Seq<char>) -> bool {
    exists|i: int| 0 <= i < vs.len() && vs[i] == t
}

/// The name matches a major specifier: it begins with `t` and a `.` follows.
pub open spec fn major_dot_match(s: Seq<char>, t: Seq<char>) -> bool {
    has_prefix(s, t) && s.len() > t.len() && s[t.len() as int] == '.'
}

/// The first name that `major_dot_match`es `t` (when `dot`), or that begins
/// with `t` (otherwise).
pub open spec fn first_with_prefix(vs: Seq<Seq<char>>, t: Seq<char>, dot: bool) -> Option<
    Seq<char>,
>
    decreases vs.len(),
{
    if vs.len() == 0 {
        None
    } else if (if dot {
        major_dot_match(vs[0], t)
    } else {
        has_prefix(vs[0], t)
    }) {
        Some(vs[0])
    } else {
        first_with_prefix(vs.drop_first(), t, dot)
    }
}

/// The installed version that `input` names, tried in this order: the name
/// itself, the name with a `v` in front, a major (`18` takes the first
/// `v18.`…), a major and minor (`18.20` takes the first `v18.20`…).
pub open spec fn installed_resolution(vs: Seq<Seq<char>>, input: Seq<char>) -> Option<Seq<char>> {
    let vp = with_prefix("v"@, input);
    if holds_text(vs, input) {
        Some(input)
    } else if holds_text(vs, vp) {
        Some(vp)
    } else if input.len() > 0 && all_digits(input) && first_with_prefix(
        vs,
        "v"@ + input,
        true,
    ) is Some {
        first_with_prefix(vs, "v"@ + input, true)
    } else if count_char(input, '.') == 1 {
        first_with_prefix(vs, vp, false)
    } else {
        None
    }
}

/// The message given when a runtime has nothing installed.
pub open spec fn nothing_installed_message(runtime: Seq<char>) -> Seq<char> {
    "No "@ + runtime + " versions installed"@
}

fn holds(vs: &Vec<String>, t: &str) -> (r: bool)
    ensures
        r == holds_text(views(vs@), t@),
{
    let mut i: usize = 0;
    while i < vs.len()
        invariant
            i <= vs.len(),
            forall|j: int| 0 <= j < i ==> vs@[j]@ != t@,
        decreases vs.len() - i,
    {
        if same_text(&vs[i], t) {
            assert(views(vs@)[i as int] == t@);
            return true;
        }
        i = i + 1;
    }
    false
}

fn find_with_prefix(vs: &Vec<String>, t: &str, dot: bool) -> (r: Option<String>)
    ensures
        match r {
            Some(s) => first_with_prefix(views(vs@), t@, dot) == Some(s@),
            None => first_with_prefix(views(vs@), t@, dot) is None,
        },
{
    let n = chars_of(t).len();
    let mut i: usize = 0;
    assert(views(vs@).subrange(0, vs@.len() as int) =~= views(vs@));
    while i < vs.len()
        invariant
            i <= vs.len(),
            n == t@.len(),
            first_with_prefix(views(vs@), t@, dot) == first_with_prefix(
                views(vs@).subrange(i as int, vs@.len() as int),
                t@,
                dot,
            ),
        decreases vs.len() - i,
    {
        let s = &vs[i];
        let hit = if dot {
            if starts_with(s, t) {
                let cs = chars_of(s);
                cs.len() > n && cs[n] == '.'
            } else {
                false
            }
        } else {
            starts_with(s, t)
        };
        let ghost rest = views(vs@).subrange(i as int, vs@.len() as int);
        assert(rest[0] == vs@[i as int]@);
        if hit {
            return Some(s.clone());
        }
        assert(rest.drop_first() =~= views(vs@).subrange(i + 1, vs@.len() as int));
        i = i + 1;
    }
    assert(views(vs@).subrange(i as int, vs@.len() as int).len() == 0);
    None
}

/// Resolves `version_input` against the installed versions of `runtime_name`
/// (`installed`, as listed). Fails with `VersionNotFound` when nothing is
/// installed (naming the runtime) or when nothing matches (naming the input).
pub fn resolve_installed_version(runtime_name: &str, installed: &Vec<String>, version_input: &str) -> (r:
    Result<String, RvmError>)
    ensures
        installed@.len() == 0 ==> r is Err && r->Err_0 is VersionNotFound
            && r->Err_0->VersionNotFound_0@ == nothing_installed_message(runtime_name@),
        installed@.len() > 0 ==> match installed_resolution(views(installed@), version_input@) {
            Some(v) => r is Ok && r->Ok_0@ == v,
            None => r is Err && r->Err_0 is VersionNotFound && r->Err_0->VersionNotFound_0@
                == version_input@,
        },
{
    if installed.len() == 0 {
        proof {
            reveal_strlit("No ");
            reveal_strlit(" versions installed");
        }
        let head = concat("No ", runtime_name);
        return Err(RvmError::VersionNotFound(concat(&head, " versions installed")));
    }
    if holds(installed, version_input) {
        return Ok(version_input.to_owned());
    }
    let vp = add_prefix("v", version_input);
    proof {
        reveal_strlit("v");
    }
    if holds(installed, &vp) {
        return Ok(vp);
    }
    if chars_of(version_input).len() > 0 && is_all_digits(version_input) {
        let target = concat("v", version_input);
        if let Some(found) = find_with_prefix(installed, &target, true) {
            return Ok(found);
        }
    }
    if count_of(version_input, '.') == 1 {
        if let Some(found) = find_with_prefix(installed, &vp, false) {
            return Ok(found);
        }
    }
    Err(RvmError::VersionNotFound(version_input.to_owned()))
}

} // verus!
