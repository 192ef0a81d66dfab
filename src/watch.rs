//! The arguments of the `watch` command: a command, its arguments, and an
//! optional `-<seconds>` interval.
use vstd::prelude::*;
use crate::error::RvmError;
use crate::text::{all_digits, chars_of, contains, has_infix, views};

verus! {

/// The words of `s`, as `str::split_whitespace` gives them.
pub uninterp spec fn words_of(s: Seq<char>) -> Seq<Seq<char>>;

/// Relies on `str::split_whitespace`, each word made a `String`.
#[verifier::external_body]
fn words(s: &str) -> (r: Vec<String>)
    ensures
        views(r@) == words_of(s@),
{
    s.split_whitespace().map(String::from).collect()
}

/// The value of a string of decimal digits, when it fits in 64 bits.
pub open spec fn digits_u64(s: Seq<char>) -> Option<u64>
    decreases s.len(),
{
    if s.len() == 0 {
        Some(0)
    } else {
        match digits_u64(s.drop_last()) {
            Some(v) => {
                let n = v * 10 + (s.last() as u32 - '0' as u32);
                if n <= u64::MAX {
                    Some(n as u64)
                } else {
                    None
                }
            },
            None => None,
        }
    }
}

/// An interval argument: `-` and at least one digit, with a value that fits
/// in 64 bits.
pub open spec fn interval_of(arg: Seq<char>) -> Option<u64> {
    if arg.len() > 1 && arg[0] == '-' && all_digits(arg.drop_first()) {
        digits_u64(arg.drop_first())
    } else {
        None
    }
}

/// The position among `rest` of the last interval argument.
pub open spec fn last_interval(rest: Seq<Seq<char>>) -> Option<int>
    decreases rest.len(),
{
    if rest.len() == 0 {
        None
    } else if interval_of(rest.last()) is Some {
        Some(rest.len() - 1)
    } else {
        last_interval(rest.drop_last())
    }
}

/// `rest` without the entry at `skip`.
pub open spec fn without(rest: Seq<Seq<char>>, skip: Option<int>) -> Seq<Seq<char>> {
    match skip {
        Some(i) => rest.remove(i),
        None => rest,
    }
}

/// What the watcher runs, and how often at most.
#[derive(Debug, Clone, PartialEq, Eq)]
pub struct WatchArgs {
    pub command: String,
    pub args: Vec<String>,
    /// The seconds given by the last `-<seconds>` argument, if any.
    pub interval: Option<u64>,
}

fn interval_arg(arg: &str) -> (r: Option<u64>)
    ensures
        r == interval_of(arg@),
{
    let cs = chars_of(arg);
    if cs.len() <= 1 || cs[0] != '-' {
        return None;
    }
    let ghost d = cs@.drop_first();
    let mut v: u64 = 0;
    let mut i: usize = 1;
    while i < cs.len()
        invariant
            cs@ == arg@,
            d == cs@.drop_first(),
            1 <= i <= cs@.len(),
            forall|j: int| 0 <= j < i - 1 ==> crate::text::is_digit(#[trigger] d[j]),
            digits_u64(d.subrange(0, i - 1)) == Some(v),
        decreases cs@.len() - i,
    {
        let c = cs[i];
        let ghost pre = d.subrange(0, i as int);
        assert(pre.drop_last() =~= d.subrange(0, i - 1));
        assert(pre.last() == c);
        if !('0' <= c && c <= '9') {
            assert(!crate::text::is_digit(d[i - 1]));
            return None;
        }
        let digit = (c as u32 - '0' as u32) as u64;
        if v > (u64::MAX - digit) / 10 {
            proof {
                assert(v * 10 + digit > u64::MAX) by (nonlinear_arith)
                    requires v > (u64::MAX - digit) / 10, digit <= 9;
                digits_none_stays(d, i as int);
            }
            return None;
        }
        assert(v * 10 + digit <= u64::MAX) by (nonlinear_arith)
            requires v <= (u64::MAX - digit) / 10, digit <= 9;
        v = v * 10 + digit;
        i = i + 1;
    }
    assert(d.subrange(0, d.len() as int) =~= d);
    Some(v)
}

proof fn digits_none_stays(d: Seq<char>, k: int)
    requires
        1 <= k <= d.len(),
        digits_u64(d.subrange(0, k)) is None,
    ensures
        digits_u64(d) is None,
    decreases d.len() - k,
{
    if k < d.len() {
        assert(d.subrange(0, k + 1).drop_last() =~= d.subrange(0, k));
        digits_none_stays(d, k + 1);
    } else {
        assert(d.subrange(0, k) =~= d);
    }
}

/// The watcher's reading of its arguments: the command (the first word of a
/// quoted first argument that holds a space, else the first argument), its
/// arguments (the other words, then the remaining arguments without the last
/// interval argument), and that interval. None when there is no command.
pub open spec fn watch_spec(args: Seq<Seq<char>>) -> Option<(Seq<char>, Seq<Seq<char>>, Option<u64>)> {
    if args.len() == 0 {
        None
    } else {
        watch_spec_with(args, words_of(args[0]))
    }
}

/// The same reading, given the words `ws` of the first argument.
pub open spec fn watch_spec_with(args: Seq<Seq<char>>, ws: Seq<Seq<char>>) -> Option<
    (Seq<char>, Seq<Seq<char>>, Option<u64>),
> {
    if args.len() == 0 {
        None
    } else {
        let rest = args.drop_first();
        let k = last_interval(rest);
        let kept = without(rest, k);
        let iv = match k {
            Some(i) => interval_of(rest[i]),
            None => None,
        };
        if has_infix(args[0], " "@) {
            if ws.len() == 0 {
                None
            } else {
                Some((ws[0], ws.drop_first() + kept, iv))
            }
        } else {
            Some((args[0], kept, iv))
        }
    }
}

/// Reads the arguments of the `watch` command; `MissingArgument` when they
/// name no command.
pub fn parse_watch_args(args: &Vec<String>) -> (r: Result<WatchArgs, RvmError>)
    ensures
        match watch_spec(views(args@)) {
            Some(t) => r is Ok && r->Ok_0.command@ == t.0 && views(r->Ok_0.args@) == t.1
                && r->Ok_0.interval == t.2,
            None => r is Err && r->Err_0 is MissingArgument,
        },
{
    if args.len() == 0 {
        return Err(RvmError::MissingArgument("command".to_owned()));
    }
    assert(views(args@)[0] == args@[0]@);
    let first_words = words(&args[0]);
    parse_watch_args_with(args, &first_words)
}

/// Reads the arguments of the `watch` command, given the words of the first
/// argument (used when it holds a space).
pub fn parse_watch_args_with(args: &Vec<String>, first_words: &Vec<String>) -> (r: Result<WatchArgs, RvmError>)
    ensures
        match watch_spec_with(views(args@), views(first_words@)) {
            Some(t) => r is Ok && r->Ok_0.command@ == t.0 && views(r->Ok_0.args@) == t.1
                && r->Ok_0.interval == t.2,
            None => r is Err && r->Err_0 is MissingArgument,
        },
{
    if args.len() == 0 {
        return Err(RvmError::MissingArgument("command".to_owned()));
    }
    let ghost all = views(args@);
    let ghost rest = all.drop_first();
    // the last interval argument among args[1..]
    let mut k: Option<usize> = None;
    let mut interval: Option<u64> = None;
    let mut i: usize = 1;
    while i < args.len()
        invariant
            1 <= i <= args@.len(),
            all == views(args@),
            rest == all.drop_first(),
            last_interval(rest.subrange(0, i - 1)) == match k {
                Some(j) => Some(j as int),
                None => None::<int>,
            },
            k matches Some(j) ==> j < i - 1 && interval == interval_of(rest[j as int]),
            k is None ==> interval is None,
        decreases args@.len() - i,
    {
        let ghost pre = rest.subrange(0, i as int);
        assert(pre.drop_last() =~= rest.subrange(0, i - 1));
        assert(pre.last() == args@[i as int]@);
        let found = interval_arg(&args[i]);
        if found.is_some() {
            k = Some(i - 1);
            interval = found;
        }
        i = i + 1;
    }
    assert(rest.subrange(0, rest.len() as int) =~= rest);
    let mut kept: Vec<String> = Vec::new();
    let mut j: usize = 1;
    while j < args.len()
        invariant
            1 <= j <= args@.len(),
            all == views(args@),
            rest == all.drop_first(),
            last_interval(rest) == match k {
                Some(q) => Some(q as int),
                None => None::<int>,
            },
            k matches Some(q) ==> q < rest.len(),
            views(kept@) == without(rest.subrange(0, j - 1), match k {
                Some(q) => if (q as int) < j - 1 { Some(q as int) } else { None::<int> },
                None => None::<int>,
            }),
        decreases args@.len() - j,
    {
        let ghost o = views(kept@);
        let skip = match k {
            Some(q) => q == j - 1,
            None => false,
        };
        if !skip {
            kept.push(args[j].clone());
        }
        proof {
            let sub = rest.subrange(0, j as int);
            assert(sub.drop_last() =~= rest.subrange(0, j - 1));
            assert(sub.last() == args@[j as int]@);
            match k {
                Some(q) => {
                    if (q as int) < j - 1 {
                        assert(sub.remove(q as int) =~= rest.subrange(0, j - 1).remove(q as int).push(args@[j as int]@));
                        assert(views(kept@) =~= o.push(args@[j as int]@));
                    } else if q as int == j - 1 {
                        assert(sub.remove(q as int) =~= rest.subrange(0, j - 1));
                    } else {
                        assert(views(kept@) =~= o.push(args@[j as int]@));
                        assert(sub =~= rest.subrange(0, j - 1).push(args@[j as int]@));
                    }
                },
                None => {
                    assert(views(kept@) =~= o.push(args@[j as int]@));
                    assert(sub =~= rest.subrange(0, j - 1).push(args@[j as int]@));
                },
            }
        }
        j = j + 1;
    }
    assert(rest.subrange(0, rest.len() as int) =~= rest);
    proof {
        reveal_strlit(" ");
    }
    if contains(&args[0], " ") {
        let mut ws = first_words.clone();
        assert(views(ws@) == views(first_words@));
        if ws.len() == 0 {
            return Err(RvmError::MissingArgument("command".to_owned()));
        }
        let command = ws.remove(0);
        let ghost w0 = views(ws@);
        let ghost kv = views(kept@);
        ws.append(&mut kept);
        assert(views(ws@) =~= w0 + kv);
        Ok(WatchArgs { command, args: ws, interval })
    } else {
        Ok(WatchArgs { command: args[0].clone(), args: kept, interval })
    }
}

} // verus!
