//! The listing of available versions: grouped by channel, then major, then
//! `major.minor`, each level cut to its four newest entries.
use vstd::prelude::*;
use crate::order::{
    insert_new, insert_new_number, insert_new_text, number_desc, sort_by, sort_versions, take,
    text_asc, version_desc, insert_new_minor, minor_desc,
};
use crate::resolve::same_text;
use crate::text::{chars_of, concat, views};
use crate::version::{
    clean_spec, clean_version_for_display, extract_major_version, format_version_list,
    join_indented, major_spec, wrapped_lines, VersionInfo,
};

verus! {

/// How many entries each level of the listing keeps.
pub const MAX_SHOWN: usize = 4;

/// The width at which a line of versions wraps.
pub const MAX_LINE_LENGTH: usize = 100;

/// A release as the listing reads it: its version, channel and key.
pub type InfoView = (Seq<char>, Seq<char>, Seq<char>);

/// The text of a release's fields.
pub open spec fn info_view(i: VersionInfo) -> InfoView {
    (i.version@, i.channel@, i.major_minor@)
}

/// The text of each release.
pub open spec fn infos_view(s: Seq<VersionInfo>) -> Seq<InfoView> {
    s.map_values(|i: VersionInfo| info_view(i))
}

/// A release takes part in the listing when its major reads as a number.
pub open spec fn counted(info: InfoView) -> bool {
    major_spec(info.0) is Some
}

/// The channels listed first, in this order.
pub open spec fn priority() -> Seq<Seq<char>> {
    seq!["Stable"@, "LTS"@, "Beta"@, "RC"@, "Alpha"@, "Nightly"@]
}

/// Some counted release is in channel `c`.
pub open spec fn present(infos: Seq<InfoView>, c: Seq<char>) -> bool {
    exists|i: int| 0 <= i < infos.len() && counted(infos[i]) && #[trigger] infos[i].1 == c
}

/// The first `k` priority channels that are present, in priority order.
pub open spec fn listed_priority(infos: Seq<InfoView>, k: nat) -> Seq<Seq<char>>
    decreases k,
{
    if k == 0 {
        Seq::empty()
    } else {
        let rest = listed_priority(infos, (k - 1) as nat);
        if present(infos, priority()[k - 1]) {
            rest.push(priority()[k - 1])
        } else {
            rest
        }
    }
}

/// The other channels of counted releases, in ascending order.
pub open spec fn other_channels(infos: Seq<InfoView>) -> Seq<Seq<char>>
    decreases infos.len(),
{
    if infos.len() == 0 {
        Seq::empty()
    } else {
        let acc = other_channels(infos.drop_last());
        let l = infos.last();
        if counted(l) && !priority().contains(l.1) {
            insert_new(l.1, acc, text_asc())
        } else {
            acc
        }
    }
}

/// The channels in the order they are listed.
pub open spec fn channel_order(infos: Seq<InfoView>) -> Seq<Seq<char>> {
    listed_priority(infos, 6) + other_channels(infos)
}

/// The distinct majors of channel `c`, greatest first.
pub open spec fn majors_of(infos: Seq<InfoView>, c: Seq<char>) -> Seq<u32>
    decreases infos.len(),
{
    if infos.len() == 0 {
        Seq::empty()
    } else {
        let acc = majors_of(infos.drop_last(), c);
        let l = infos.last();
        if counted(l) && l.1 == c {
            insert_new(major_spec(l.0)->Some_0, acc, number_desc())
        } else {
            acc
        }
    }
}

/// The distinct `major.minor` keys of major `m` in channel `c`, greatest
/// first by their numbers (`minor_desc`).
pub open spec fn minors_of(infos: Seq<InfoView>, c: Seq<char>, m: u32) -> Seq<Seq<char>>
    decreases infos.len(),
{
    if infos.len() == 0 {
        Seq::empty()
    } else {
        let acc = minors_of(infos.drop_last(), c, m);
        let l = infos.last();
        if counted(l) && l.1 == c && major_spec(l.0) == Some(m) {
            insert_new(l.2, acc, minor_desc())
        } else {
            acc
        }
    }
}

/// The display forms of the versions under one `major.minor` key, in input
/// order.
pub open spec fn bucket_of(infos: Seq<InfoView>, c: Seq<char>, m: u32, mm: Seq<char>) -> Seq<
    Seq<char>,
>
    decreases infos.len(),
{
    if infos.len() == 0 {
        Seq::empty()
    } else {
        let acc = bucket_of(infos.drop_last(), c, m, mm);
        let l = infos.last();
        if counted(l) && l.1 == c && major_spec(l.0) == Some(m) && l.2
            == mm {
            acc.push(clean_spec(l.0))
        } else {
            acc
        }
    }
}

/// Versions as shown in channel `c`: bare for `LTS` and `Stable`, else with
/// the channel in parentheses.
pub open spec fn shown(c: Seq<char>, vs: Seq<Seq<char>>) -> Seq<Seq<char>> {
    if c == "LTS"@ || c == "Stable"@ {
        vs
    } else {
        vs.map_values(|v: Seq<char>| v + " ("@ + c + ")"@)
    }
}

/// The line of one `major.minor` key: its four newest versions.
pub open spec fn minor_line(infos: Seq<InfoView>, c: Seq<char>, m: u32, mm: Seq<char>) -> Seq<
    char,
> {
    mm + ": "@ + join_indented(
        wrapped_lines(
            shown(c, take(sort_by(bucket_of(infos, c, m, mm), version_desc()), 4)),
            100,
        ),
    )
}

/// The lines of the given keys of major `m`.
pub open spec fn minor_lines(infos: Seq<InfoView>, c: Seq<char>, m: u32, mms: Seq<Seq<char>>) -> Seq<Seq<char>>
    decreases mms.len(),
{
    if mms.len() == 0 {
        Seq::empty()
    } else {
        minor_lines(infos, c, m, mms.drop_last()).push(minor_line(infos, c, m, mms.last()))
    }
}

/// The lines of the given majors, each with its four greatest keys.
pub open spec fn major_lines(infos: Seq<InfoView>, c: Seq<char>, ms: Seq<u32>) -> Seq<Seq<char>>
    decreases ms.len(),
{
    if ms.len() == 0 {
        Seq::empty()
    } else {
        major_lines(infos, c, ms.drop_last()) + minor_lines(
            infos,
            c,
            ms.last(),
            take(minors_of(infos, c, ms.last()), 4),
        )
    }
}

/// Major `m` has more than four keys, or one of its four shown keys has more
/// than four versions.
pub open spec fn minor_overflow(infos: Seq<InfoView>, c: Seq<char>, m: u32) -> bool {
    let mms = take(minors_of(infos, c, m), 4);
    minors_of(infos, c, m).len() > 4 || exists|k: int|
        0 <= k < mms.len() && #[trigger] bucket_of(infos, c, m, mms[k]).len() > 4
}

/// Something of channel `c` is left out of its listing.
pub open spec fn overflows(infos: Seq<InfoView>, c: Seq<char>) -> bool {
    let ms = take(majors_of(infos, c), 4);
    majors_of(infos, c).len() > 4 || exists|j: int|
        0 <= j < ms.len() && #[trigger] minor_overflow(infos, c, ms[j])
}

/// The notice that closes a channel of which something was left out.
pub open spec fn notice() -> Seq<char> {
    "... displaying top 4 versions, all other versions truncated"@
}

/// The listing of channel `c`: a heading, the lines of its four greatest
/// majors, the notice if anything was left out, and an empty line.
pub open spec fn channel_block(infos: Seq<InfoView>, c: Seq<char>) -> Seq<Seq<char>> {
    seq!["=== "@ + c + " Versions ==="@] + major_lines(infos, c, take(majors_of(infos, c), 4)) + (
    if overflows(infos, c) {
        seq![notice()]
    } else {
        Seq::empty()
    }) + seq![Seq::<char>::empty()]
}

/// The listings of the given channels, one after the other.
pub open spec fn blocks(infos: Seq<InfoView>, cs: Seq<Seq<char>>) -> Seq<Seq<char>>
    decreases cs.len(),
{
    if cs.len() == 0 {
        Seq::empty()
    } else {
        blocks(infos, cs.drop_last()) + channel_block(infos, cs.last())
    }
}

/// The whole listing, without its final empty line.
pub open spec fn grouped(infos: Seq<InfoView>) -> Seq<Seq<char>> {
    let all = blocks(infos, channel_order(infos));
    if all.len() > 0 && all.last() == Seq::<char>::empty() {
        all.drop_last()
    } else {
        all
    }
}

fn priority_name(k: usize) -> (r: String)
    requires
        k < 6,
    ensures
        r@ == priority()[k as int],
{
    proof {
        reveal_strlit("Stable");
        reveal_strlit("LTS");
        reveal_strlit("Beta");
        reveal_strlit("RC");
        reveal_strlit("Alpha");
        reveal_strlit("Nightly");
    }
    match k {
        0 => "Stable".to_owned(),
        1 => "LTS".to_owned(),
        2 => "Beta".to_owned(),
        3 => "RC".to_owned(),
        4 => "Alpha".to_owned(),
        _ => "Nightly".to_owned(),
    }
}

fn is_priority(c: &str) -> (r: bool)
    ensures
        r == priority().contains(c@),
{
    let mut k: usize = 0;
    while k < 6
        invariant
            k <= 6,
            forall|j: int| 0 <= j < k ==> priority()[j] != c@,
        decreases 6 - k,
    {
        let name = priority_name(k);
        if same_text(&name, c) {
            assert(priority()[k as int] == c@);
            return true;
        }
        k = k + 1;
    }
    false
}

fn is_counted(info: &VersionInfo) -> (r: bool)
    ensures
        r == counted(info_view(*info)),
{
    extract_major_version(&info.version).is_some()
}

fn is_present(infos: &Vec<VersionInfo>, c: &str) -> (r: bool)
    ensures
        r == present(infos_view(infos@), c@),
{
    let mut i: usize = 0;
    while i < infos.len()
        invariant
            i <= infos@.len(),
            forall|j: int| 0 <= j < i ==> !(counted(infos_view(infos@)[j]) && #[trigger] infos_view(infos@)[j].1 == c@),
        decreases infos@.len() - i,
    {
        assert(infos_view(infos@)[i as int] == info_view(infos@[i as int]));
        if is_counted(&infos[i]) && same_text(&infos[i].channel, c) {
            assert(counted(infos_view(infos@)[i as int]) && infos_view(infos@)[i as int].1 == c@);
            return true;
        }
        i = i + 1;
    }
    false
}

/// The channels of the listing, in the order they are listed: the priority
/// channels that occur, then the others in ascending order.
pub fn channels_in_order(infos: &Vec<VersionInfo>) -> (r: Vec<String>)
    ensures
        views(r@) == channel_order(infos_view(infos@)),
{
    let mut out: Vec<String> = Vec::new();
    let mut k: usize = 0;
    while k < 6
        invariant
            k <= 6,
            views(out@) == listed_priority(infos_view(infos@), k as nat),
        decreases 6 - k,
    {
        let name = priority_name(k);
        if is_present(infos, &name) {
            let ghost o = views(out@);
            out.push(name);
            assert(views(out@) =~= o.push(priority()[k as int]));
        }
        k = k + 1;
    }
    let mut others: Vec<String> = Vec::new();
    let mut i: usize = 0;
    while i < infos.len()
        invariant
            i <= infos@.len(),
            views(out@) == listed_priority(infos_view(infos@), 6),
            views(others@) == other_channels(infos_view(infos@).subrange(0, i as int)),
        decreases infos@.len() - i,
    {
        let ghost pre = infos_view(infos@).subrange(0, i + 1);
        assert(pre.drop_last() =~= infos_view(infos@).subrange(0, i as int));
        assert(pre.last() == info_view(infos@[i as int]));
        let info = &infos[i];
        if is_counted(info) && !is_priority(&info.channel) {
            insert_new_text(&mut others, info.channel.clone());
        }
        i = i + 1;
    }
    assert(infos_view(infos@).subrange(0, infos@.len() as int) =~= infos_view(infos@));
    let ghost o = views(out@);
    let ghost t = views(others@);
    out.append(&mut others);
    assert(views(out@) =~= o + t);
    out
}

/// The distinct majors of channel `c`, greatest first.
pub fn majors(infos: &Vec<VersionInfo>, c: &str) -> (r: Vec<u32>)
    ensures
        r@ == majors_of(infos_view(infos@), c@),
{
    let mut out: Vec<u32> = Vec::new();
    let mut i: usize = 0;
    while i < infos.len()
        invariant
            i <= infos@.len(),
            out@ == majors_of(infos_view(infos@).subrange(0, i as int), c@),
        decreases infos@.len() - i,
    {
        let ghost pre = infos_view(infos@).subrange(0, i + 1);
        assert(pre.drop_last() =~= infos_view(infos@).subrange(0, i as int));
        assert(pre.last() == info_view(infos@[i as int]));
        let info = &infos[i];
        if let Some(m) = extract_major_version(&info.version) {
            if same_text(&info.channel, c) {
                insert_new_number(&mut out, m);
            }
        }
        i = i + 1;
    }
    assert(infos_view(infos@).subrange(0, infos@.len() as int) =~= infos_view(infos@));
    out
}

/// The distinct `major.minor` keys of major `m` in channel `c`, greatest
/// first by their numbers.
pub fn minors(infos: &Vec<VersionInfo>, c: &str, m: u32) -> (r: Vec<String>)
    ensures
        views(r@) == minors_of(infos_view(infos@), c@, m),
{
    let mut out: Vec<String> = Vec::new();
    let mut i: usize = 0;
    while i < infos.len()
        invariant
            i <= infos@.len(),
            views(out@) == minors_of(infos_view(infos@).subrange(0, i as int), c@, m),
        decreases infos@.len() - i,
    {
        let ghost pre = infos_view(infos@).subrange(0, i + 1);
        assert(pre.drop_last() =~= infos_view(infos@).subrange(0, i as int));
        assert(pre.last() == info_view(infos@[i as int]));
        let info = &infos[i];
        if let Some(mj) = extract_major_version(&info.version) {
            if mj == m && same_text(&info.channel, c) {
                insert_new_minor(&mut out, info.major_minor.clone());
            }
        }
        i = i + 1;
    }
    assert(infos_view(infos@).subrange(0, infos@.len() as int) =~= infos_view(infos@));
    out
}

/// The display forms of the versions under key `mm` of major `m` in channel
/// `c`, in input order.
pub fn bucket(infos: &Vec<VersionInfo>, c: &str, m: u32, mm: &str) -> (r: Vec<String>)
    ensures
        views(r@) == bucket_of(infos_view(infos@), c@, m, mm@),
{
    let mut out: Vec<String> = Vec::new();
    let mut i: usize = 0;
    while i < infos.len()
        invariant
            i <= infos@.len(),
            views(out@) == bucket_of(infos_view(infos@).subrange(0, i as int), c@, m, mm@),
        decreases infos@.len() - i,
    {
        let ghost pre = infos_view(infos@).subrange(0, i + 1);
        assert(pre.drop_last() =~= infos_view(infos@).subrange(0, i as int));
        assert(pre.last() == info_view(infos@[i as int]));
        let info = &infos[i];
        if let Some(mj) = extract_major_version(&info.version) {
            if mj == m && same_text(&info.channel, c) && same_text(&info.major_minor, mm) {
                let ghost o = views(out@);
                out.push(clean_version_for_display(&info.version));
                assert(views(out@) =~= o.push(clean_spec(info.version@)));
            }
        }
        i = i + 1;
    }
    assert(infos_view(infos@).subrange(0, infos@.len() as int) =~= infos_view(infos@));
    out
}

/// Versions as shown in channel `c`: bare for `LTS` and `Stable`, else with
/// the channel in parentheses.
pub fn shown_versions(c: &str, vs: &Vec<String>) -> (r: Vec<String>)
    ensures
        views(r@) == shown(c@, views(vs@)),
{
    proof {
        reveal_strlit("LTS");
        reveal_strlit("Stable");
        reveal_strlit(" (");
        reveal_strlit(")");
    }
    if same_text(c, "LTS") || same_text(c, "Stable") {
        return vs.clone();
    }
    let mut out: Vec<String> = Vec::new();
    let mut i: usize = 0;
    while i < vs.len()
        invariant
            i <= vs@.len(),
            !(c@ == "LTS"@ || c@ == "Stable"@),
            views(out@) == views(vs@).subrange(0, i as int).map_values(
                |v: Seq<char>| v + " ("@ + c@ + ")"@,
            ),
        decreases vs@.len() - i,
    {
        let a = concat(&vs[i], " (");
        let b = concat(&a, c);
        let ghost o = views(out@);
        let e = concat(&b, ")");
        assert(e@ == views(vs@)[i as int] + " ("@ + c@ + ")"@);
        out.push(e);
        assert(views(out@) =~= o.push(views(vs@)[i as int] + " ("@ + c@ + ")"@));
        assert(views(out@) =~= views(vs@).subrange(0, i + 1).map_values(
            |v: Seq<char>| v + " ("@ + c@ + ")"@,
        ));
        i = i + 1;
    }
    assert(views(vs@).subrange(0, vs@.len() as int) =~= views(vs@));
    out
}

fn line_of(c: &str, mm: &str, versions: &Vec<String>) -> (r: String)
    ensures
        r@ == mm@ + ": "@ + join_indented(
            wrapped_lines(shown(c@, take(sort_by(views(versions@), version_desc()), 4)), 100),
        ),
{
    proof {
        reveal_strlit(": ");
    }
    let mut sorted = sort_versions(versions);
    let ghost full = views(sorted@);
    sorted.truncate(MAX_SHOWN);
    assert(views(sorted@) =~= take(full, 4));
    let sh = shown_versions(c, &sorted);
    let list = format_version_list(sh.as_slice(), MAX_LINE_LENGTH);
    let head = concat(mm, ": ");
    concat(&head, &list)
}

fn major_part(infos: &Vec<VersionInfo>, c: &str, m: u32) -> (r: (Vec<String>, bool))
    ensures
        views(r.0@) == minor_lines(infos_view(infos@), c@, m, take(minors_of(infos_view(infos@), c@, m), 4)),
        r.1 == minor_overflow(infos_view(infos@), c@, m),
{
    let mut mms = minors(infos, c, m);
    let total = mms.len();
    let ghost full = views(mms@);
    mms.truncate(MAX_SHOWN);
    let ghost shown_keys = take(full, 4);
    assert(views(mms@) =~= shown_keys);
    let mut lines: Vec<String> = Vec::new();
    let mut over = false;
    let mut k: usize = 0;
    while k < mms.len()
        invariant
            k <= mms@.len(),
            views(mms@) == shown_keys,
            shown_keys == take(minors_of(infos_view(infos@), c@, m), 4),
            views(lines@) == minor_lines(infos_view(infos@), c@, m, shown_keys.subrange(0, k as int)),
            over == exists|q: int|
                0 <= q < k && #[trigger] bucket_of(infos_view(infos@), c@, m, shown_keys[q]).len() > 4,
        decreases mms@.len() - k,
    {
        let ghost pre = shown_keys.subrange(0, k + 1);
        assert(pre.drop_last() =~= shown_keys.subrange(0, k as int));
        assert(pre.last() == mms@[k as int]@);
        let b = bucket(infos, c, m, &mms[k]);
        let line = line_of(c, &mms[k], &b);
        let ghost o = views(lines@);
        lines.push(line);
        assert(views(lines@) =~= o.push(line@));
        if b.len() > MAX_SHOWN {
            over = true;
        }
        k = k + 1;
    }
    assert(shown_keys.subrange(0, mms@.len() as int) =~= shown_keys);
    (lines, total > MAX_SHOWN || over)
}

/// The listing of one channel.
pub fn channel_block_lines(infos: &Vec<VersionInfo>, c: &str) -> (r: Vec<String>)
    ensures
        views(r@) == channel_block(infos_view(infos@), c@),
{
    proof {
        reveal_strlit("=== ");
        reveal_strlit(" Versions ===");
        reveal_strlit("... displaying top 4 versions, all other versions truncated");
    }
    let mut ms = majors(infos, c);
    let total = ms.len();
    let ghost full = ms@;
    ms.truncate(MAX_SHOWN);
    assert(ms@ =~= take(full, 4));
    let h0 = concat("=== ", c);
    let header = concat(&h0, " Versions ===");
    let mut out: Vec<String> = Vec::new();
    out.push(header);
    let ghost head = seq!["=== "@ + c@ + " Versions ==="@];
    assert(views(out@) =~= head);
    let mut over = false;
    let mut j: usize = 0;
    while j < ms.len()
        invariant
            j <= ms@.len(),
            ms@ == take(majors_of(infos_view(infos@), c@), 4),
            views(out@) == head + major_lines(infos_view(infos@), c@, ms@.subrange(0, j as int)),
            over == exists|q: int| 0 <= q < j && #[trigger] minor_overflow(infos_view(infos@), c@, ms@[q]),
        decreases ms@.len() - j,
    {
        let ghost pre = ms@.subrange(0, j + 1);
        assert(pre.drop_last() =~= ms@.subrange(0, j as int));
        let (mut lines, f) = major_part(infos, c, ms[j]);
        let ghost o = views(out@);
        let ghost l = views(lines@);
        out.append(&mut lines);
        assert(views(out@) =~= o + l);
        if f {
            over = true;
        }
        j = j + 1;
    }
    assert(ms@.subrange(0, ms@.len() as int) =~= ms@);
    if total > MAX_SHOWN || over {
        let ghost o = views(out@);
        out.push("... displaying top 4 versions, all other versions truncated".to_owned());
        assert(views(out@) =~= o.push(notice()));
    }
    let ghost o = views(out@);
    out.push(String::new());
    assert(views(out@) =~= o.push(Seq::<char>::empty()));
    out
}

/// Groups releases by channel for display: priority channels first (Stable,
/// LTS, Beta, RC, Alpha, Nightly), then any other in ascending order; in each,
/// the four greatest majors, in each their four greatest `major.minor` keys,
/// in each the four newest versions. Releases whose major does not read as a
/// number are left out.
pub fn group_versions_by_channel(version_infos: Vec<VersionInfo>) -> (r: Vec<String>)
    ensures
        views(r@) == grouped(infos_view(version_infos@)),
{
    let channels = channels_in_order(&version_infos);
    let ghost cs = views(channels@);
    let mut result: Vec<String> = Vec::new();
    let mut i: usize = 0;
    while i < channels.len()
        invariant
            i <= channels@.len(),
            cs == views(channels@),
            cs == channel_order(infos_view(version_infos@)),
            views(result@) == blocks(infos_view(version_infos@), cs.subrange(0, i as int)),
        decreases channels@.len() - i,
    {
        let ghost pre = cs.subrange(0, i + 1);
        assert(pre.drop_last() =~= cs.subrange(0, i as int));
        assert(pre.last() == channels@[i as int]@);
        let mut block = channel_block_lines(&version_infos, &channels[i]);
        let ghost o = views(result@);
        let ghost b = views(block@);
        result.append(&mut block);
        assert(views(result@) =~= o + b);
        i = i + 1;
    }
    assert(cs.subrange(0, channels@.len() as int) =~= cs);
    let n = result.len();
    if n > 0 && chars_of(&result[n - 1]).len() == 0 {
        let ghost all = views(result@);
        assert(all.last() =~= Seq::<char>::empty());
        result.pop();
        assert(views(result@) =~= all.drop_last());
    }
    result
}

proof fn notice_has_no_colon()
    ensures
        forall|i: int| 0 <= i < notice().len() ==> notice()[i] != ':',
        notice().len() > 0 && notice()[0] == '.',
{
    reveal_strlit("... displaying top 4 versions, all other versions truncated");
}

proof fn minor_line_is_not_notice(infos: Seq<InfoView>, c: Seq<char>, m: u32, mm: Seq<char>)
    ensures
        minor_line(infos, c, m, mm) != notice(),
{
    reveal_strlit(": ");
    notice_has_no_colon();
    let l = minor_line(infos, c, m, mm);
    assert(l[mm.len() as int] == ':');
    if l == notice() {
        assert(notice()[mm.len() as int] == ':');
    }
}

proof fn minor_lines_not_notice(infos: Seq<InfoView>, c: Seq<char>, m: u32, mms: Seq<Seq<char>>)
    ensures
        forall|i: int| 0 <= i < minor_lines(infos, c, m, mms).len() ==> #[trigger] minor_lines(infos, c, m, mms)[i] != notice(),
    decreases mms.len(),
{
    if mms.len() > 0 {
        minor_lines_not_notice(infos, c, m, mms.drop_last());
        minor_line_is_not_notice(infos, c, m, mms.last());
        minor_lines_len(infos, c, m, mms.drop_last());
        let prev = minor_lines(infos, c, m, mms.drop_last());
        assert forall|i: int| 0 <= i < minor_lines(infos, c, m, mms).len() implies #[trigger] minor_lines(infos, c, m, mms)[i] != notice() by {
            if i < prev.len() {
                assert(minor_lines(infos, c, m, mms)[i] == prev[i]);
            }
        }
    }
}

proof fn major_lines_not_notice(infos: Seq<InfoView>, c: Seq<char>, ms: Seq<u32>)
    ensures
        forall|i: int| 0 <= i < major_lines(infos, c, ms).len() ==> #[trigger] major_lines(infos, c, ms)[i] != notice(),
    decreases ms.len(),
{
    if ms.len() > 0 {
        major_lines_not_notice(infos, c, ms.drop_last());
        let prev = major_lines(infos, c, ms.drop_last());
        let last = minor_lines(infos, c, ms.last(), take(minors_of(infos, c, ms.last()), 4));
        minor_lines_not_notice(infos, c, ms.last(), take(minors_of(infos, c, ms.last()), 4));
        assert forall|i: int| 0 <= i < major_lines(infos, c, ms).len() implies #[trigger] major_lines(infos, c, ms)[i] != notice() by {
            if i < prev.len() {
                assert(major_lines(infos, c, ms)[i] == prev[i]);
            } else {
                assert(major_lines(infos, c, ms)[i] == last[i - prev.len()]);
            }
        }
    }
}

/// In a channel's listing the truncation notice appears exactly once when
/// something was cut (as the line before the closing empty line), and not
/// at all otherwise.
pub proof fn one_notice_per_channel(infos: Seq<InfoView>, c: Seq<char>)
    ensures
        forall|i: int|
            0 <= i < channel_block(infos, c).len() && #[trigger] channel_block(infos, c)[i] == notice()
                ==> overflows(infos, c) && i == channel_block(infos, c).len() - 2,
        overflows(infos, c) ==> channel_block(infos, c)[channel_block(infos, c).len() - 2] == notice(),
{
    reveal_strlit("=== ");
    notice_has_no_colon();
    let ms = take(majors_of(infos, c), 4);
    let header = "=== "@ + c + " Versions ==="@;
    let mid = major_lines(infos, c, ms);
    major_lines_not_notice(infos, c, ms);
    assert(header[0] == '=');
    assert(header != notice());
    let blk = channel_block(infos, c);
    let opt = if overflows(infos, c) { seq![notice()] } else { Seq::<Seq<char>>::empty() };
    assert(blk =~= seq![header] + mid + opt + seq![Seq::<char>::empty()]);
    assert forall|i: int| 0 <= i < blk.len() && #[trigger] blk[i] == notice() implies overflows(infos, c) && i == blk.len() - 2 by {
        if i == 0 {
            assert(blk[0] == header);
        } else if i < 1 + mid.len() {
            assert(blk[i] == mid[i - 1]);
        } else if i == blk.len() - 1 {
            assert(blk[i] == Seq::<char>::empty());
        } else {
            assert(opt.len() == 1);
        }
    }
}

proof fn blocks_append(infos: Seq<InfoView>, x: Seq<Seq<char>>, y: Seq<Seq<char>>)
    ensures
        blocks(infos, x + y) == blocks(infos, x) + blocks(infos, y),
    decreases y.len(),
{
    if y.len() == 0 {
        assert(x + y =~= x);
        assert(blocks(infos, x) + Seq::<Seq<char>>::empty() =~= blocks(infos, x));
    } else {
        assert((x + y).drop_last() =~= x + y.drop_last());
        assert((x + y).last() == y.last());
        blocks_append(infos, x, y.drop_last());
        assert(blocks(infos, x) + blocks(infos, y.drop_last()) + channel_block(infos, y.last())
            =~= blocks(infos, x) + (blocks(infos, y.drop_last()) + channel_block(infos, y.last())));
    }
}

/// Each listed channel has its own section of the whole listing: the lines
/// of its block but the closing empty line, right after the blocks of the
/// channels listed before it. So what a channel's block holds (its majors,
/// its keys, its one truncation notice) is what its section holds.
pub proof fn listing_sections(infos: Seq<InfoView>, k: int)
    requires
        0 <= k < channel_order(infos).len(),
    ensures
        ({
            let cs = channel_order(infos);
            let start = blocks(infos, cs.subrange(0, k)).len();
            let blk = channel_block(infos, cs[k]);
            start + blk.len() - 1 <= grouped(infos).len() && grouped(infos).subrange(
                start as int,
                start + blk.len() - 1,
            ) == blk.subrange(0, blk.len() - 1)
        }),
{
    let cs = channel_order(infos);
    let pre = cs.subrange(0, k);
    let post = cs.subrange(k + 1, cs.len() as int);
    assert(cs =~= pre + seq![cs[k]] + post);
    blocks_append(infos, pre + seq![cs[k]], post);
    blocks_append(infos, pre, seq![cs[k]]);
    let one = seq![cs[k]];
    assert(one.drop_last() =~= Seq::<Seq<char>>::empty());
    assert(one.last() == cs[k]);
    assert(blocks(infos, one.drop_last()) == Seq::<Seq<char>>::empty());
    assert(blocks(infos, one) == blocks(infos, one.drop_last()) + channel_block(infos, one.last()));
    assert(blocks(infos, one) =~= channel_block(infos, cs[k]));
    let all = blocks(infos, cs);
    let b0 = blocks(infos, pre);
    let blk = channel_block(infos, cs[k]);
    let b2 = blocks(infos, post);
    assert(all == b0 + blk + b2);
    assert(cs.drop_last() =~= cs.subrange(0, cs.len() - 1));
    assert(all == blocks(infos, cs.drop_last()) + channel_block(infos, cs.last()));
    let lastb = channel_block(infos, cs.last());
    assert(lastb.last() == Seq::<char>::empty());
    assert(all.last() == lastb.last());
    assert(grouped(infos) == all.drop_last());
    assert forall|i: int| 0 <= i < blk.len() - 1 implies grouped(infos)[b0.len() + i] == blk[i] by {
        assert(all[b0.len() + i] == blk[i]);
    }
    assert(grouped(infos).subrange(b0.len() as int, b0.len() + blk.len() - 1) =~= blk.subrange(0, blk.len() - 1));
}

proof fn minor_lines_len(infos: Seq<InfoView>, c: Seq<char>, m: u32, mms: Seq<Seq<char>>)
    ensures
        minor_lines(infos, c, m, mms).len() == mms.len(),
    decreases mms.len(),
{
    if mms.len() > 0 {
        minor_lines_len(infos, c, m, mms.drop_last());
    }
}

/// The listing of a channel is capped at every level: at most four majors,
/// one line for each of at most four keys per major, at most four versions
/// per line; and when a cap cuts anything (more than four majors, keys or
/// versions), the listing closes with the one truncation notice before its
/// empty line.
pub proof fn listing_is_capped(infos: Seq<InfoView>, c: Seq<char>, m: u32, mm: Seq<char>)
    ensures
        take(majors_of(infos, c), 4).len() <= 4,
        minor_lines(infos, c, m, take(minors_of(infos, c, m), 4)).len() <= 4,
        take(sort_by(bucket_of(infos, c, m, mm), version_desc()), 4).len() <= 4,
        majors_of(infos, c).len() > 4 ==> overflows(infos, c),
        take(majors_of(infos, c), 4).contains(m) && minors_of(infos, c, m).len() > 4 ==> overflows(
            infos,
            c,
        ),
        take(majors_of(infos, c), 4).contains(m) && take(minors_of(infos, c, m), 4).contains(mm)
            && bucket_of(infos, c, m, mm).len() > 4 ==> overflows(infos, c),
        overflows(infos, c) ==> channel_block(infos, c).len() >= 3 && channel_block(infos, c)[
            channel_block(infos, c).len() - 2] == notice(),
        !overflows(infos, c) ==> channel_block(infos, c) == seq!["=== "@ + c + " Versions ==="@]
            + major_lines(infos, c, take(majors_of(infos, c), 4)) + seq![Seq::<char>::empty()],
{
    minor_lines_len(infos, c, m, take(minors_of(infos, c, m), 4));
    let ms = take(majors_of(infos, c), 4);
    if ms.contains(m) {
        let j = choose|j: int| 0 <= j < ms.len() && ms[j] == m;
        let mms = take(minors_of(infos, c, m), 4);
        if minors_of(infos, c, m).len() > 4 {
            assert(minor_overflow(infos, c, ms[j]));
        }
        if mms.contains(mm) && bucket_of(infos, c, m, mm).len() > 4 {
            let k = choose|k: int| 0 <= k < mms.len() && mms[k] == mm;
            assert(bucket_of(infos, c, m, mms[k]).len() > 4);
            assert(minor_overflow(infos, c, ms[j]));
        }
    }
    let head = seq!["=== "@ + c + " Versions ==="@] + major_lines(infos, c, ms);
    if overflows(infos, c) {
        assert(channel_block(infos, c) =~= head + seq![notice()] + seq![Seq::<char>::empty()]);
    } else {
        assert(channel_block(infos, c) =~= head + seq![Seq::<char>::empty()]);
    }
}

} // verus!
