//! The shell profile editor. The profile is handled as its sequence of lines;
//! each operation maps the lines read from the file to the lines to write
//! back, so that every edit is one read-modify-write of the whole file.
use vstd::prelude::*;
use crate::text::{concat, contains, has_infix, occurs_at};

verus! {

/// The comment that opens every block this tool writes for `runtime`.
pub open spec fn tag_prefix(runtime: Seq<char>) -> Seq<char> {
    "# Added by rvm for "@ + runtime
}

/// The comment that opens the block for `runtime` at `version`.
pub open spec fn tag(runtime: Seq<char>, version: Seq<char>) -> Seq<char> {
    tag_prefix(runtime) + " "@ + version
}

/// The home directory of a runtime: `<home>/.<runtime>`.
pub open spec fn home_of(home: Seq<char>, runtime: Seq<char>) -> Seq<char> {
    home + "/."@ + runtime
}

/// The `bin` directory of an installed version: `<home>/.<runtime>/<version>/bin`.
pub open spec fn bin_of(home: Seq<char>, runtime: Seq<char>, version: Seq<char>) -> Seq<char> {
    home_of(home, runtime) + "/"@ + version + "/bin"@
}

/// The line that puts `bin` in front of `PATH`.
pub open spec fn export_line(bin: Seq<char>) -> Seq<char> {
    "export PATH=\""@ + bin + ":$PATH\""@
}

/// The two-line block for `runtime` at `version`.
pub open spec fn block(home: Seq<char>, runtime: Seq<char>, version: Seq<char>) -> Seq<Seq<char>> {
    seq![tag(runtime, version), export_line(bin_of(home, runtime, version))]
}

/// Some line mentions `path`.
pub open spec fn mentions(lines: Seq<Seq<char>>, path: Seq<char>) -> bool {
    exists|i: int| 0 <= i < lines.len() && has_infix(lines[i], path)
}

/// The lines after adding the block for `runtime` at `version`, unless a line
/// already mentions that version's `bin` directory.
pub open spec fn added(lines: Seq<Seq<char>>, home: Seq<char>, runtime: Seq<char>, version: Seq<char>) -> Seq<Seq<char>> {
    if mentions(lines, bin_of(home, runtime, version)) {
        lines
    } else {
        lines + block(home, runtime, version)
    }
}

/// One pass that drops each line holding `t`, and the line right after one,
/// when that line mentions `path`; `armed` says that the line before held `t`.
pub open spec fn drop_tagged(lines: Seq<Seq<char>>, t: Seq<char>, path: Seq<char>, armed: bool) -> Seq<Seq<char>>
    decreases lines.len(),
{
    if lines.len() == 0 {
        lines
    } else if has_infix(lines[0], t) {
        drop_tagged(lines.drop_first(), t, path, true)
    } else if armed && has_infix(lines[0], path) {
        drop_tagged(lines.drop_first(), t, path, false)
    } else {
        seq![lines[0]] + drop_tagged(lines.drop_first(), t, path, false)
    }
}

/// The lines after removing the block for `runtime` at `version`.
pub open spec fn removed(lines: Seq<Seq<char>>, home: Seq<char>, runtime: Seq<char>, version: Seq<char>) -> Seq<Seq<char>> {
    drop_tagged(lines, tag(runtime, version), bin_of(home, runtime, version), false)
}

/// A line that a full removal for `runtime` drops: a block comment of the
/// runtime, or any line that mentions the runtime's home directory.
pub open spec fn of_runtime(line: Seq<char>, home: Seq<char>, runtime: Seq<char>) -> bool {
    has_infix(line, tag_prefix(runtime)) || has_infix(line, home_of(home, runtime))
}

/// The lines after removing everything of `runtime`.
pub open spec fn all_removed(lines: Seq<Seq<char>>, home: Seq<char>, runtime: Seq<char>) -> Seq<Seq<char>>
    decreases lines.len(),
{
    if lines.len() == 0 {
        lines
    } else if of_runtime(lines[0], home, runtime) {
        all_removed(lines.drop_first(), home, runtime)
    } else {
        seq![lines[0]] + all_removed(lines.drop_first(), home, runtime)
    }
}

/// The lines after making `version` the default of `runtime`.
pub open spec fn defaulted(lines: Seq<Seq<char>>, home: Seq<char>, runtime: Seq<char>, version: Seq<char>) -> Seq<Seq<char>> {
    added(all_removed(lines, home, runtime), home, runtime, version)
}

/// The lines as text.
pub open spec fn texts(lines: Seq<String>) -> Seq<Seq<char>> {
    lines.map_values(|s: String| s@)
}

/// `<home>/.<runtime>`.
pub fn get_runtime_home(home: &str, runtime_name: &str) -> (r: String)
    ensures
        r@ == home_of(home@, runtime_name@),
{
    let h = concat(home, "/.");
    concat(&h, runtime_name)
}

/// `<home>/.<runtime>/<version>/bin`.
pub fn bin_path(home: &str, runtime_name: &str, version: &str) -> (r: String)
    ensures
        r@ == bin_of(home@, runtime_name@, version@),
{
    let rh = get_runtime_home(home, runtime_name);
    let a = concat(&rh, "/");
    let b = concat(&a, version);
    concat(&b, "/bin")
}

fn any_mentions(lines: &Vec<String>, path: &str) -> (r: bool)
    ensures
        r == mentions(texts(lines@), path@),
{
    let mut i: usize = 0;
    while i < lines.len()
        invariant
            i <= lines.len(),
            forall|j: int| 0 <= j < i ==> !has_infix(#[trigger] lines@[j]@, path@),
        decreases lines.len() - i,
    {
        if contains(&lines[i], path) {
            assert(texts(lines@)[i as int] == lines@[i as int]@);
            return true;
        }
        i = i + 1;
    }
    assert forall|j: int| 0 <= j < texts(lines@).len() implies !has_infix(texts(lines@)[j], path@) by {
        assert(texts(lines@)[j] == lines@[j]@);
    }
    false
}

/// Whether some line of the profile mentions the `bin` directory of
/// `runtime_name` at `version`.
pub fn is_runtime_in_path(lines: &Vec<String>, home: &str, runtime_name: &str, version: &str) -> (r: bool)
    ensures
        r == mentions(texts(lines@), bin_of(home@, runtime_name@, version@)),
{
    let bin = bin_path(home, runtime_name, version);
    any_mentions(lines, &bin)
}

/// Adds the block for `runtime_name` at `version` at the end of the profile,
/// unless a line already mentions that version's `bin` directory.
pub fn add_runtime_to_path(lines: &mut Vec<String>, home: &str, runtime_name: &str, version: &str)
    ensures
        texts(final(lines)@) == added(texts(old(lines)@), home@, runtime_name@, version@),
{
    let bin = bin_path(home, runtime_name, version);
    if any_mentions(lines, &bin) {
        return;
    }
    proof {
        reveal_strlit("# Added by rvm for ");
        reveal_strlit(" ");
        reveal_strlit("export PATH=\"");
        reveal_strlit(":$PATH\"");
    }
    let t0 = concat("# Added by rvm for ", runtime_name);
    let t1 = concat(&t0, " ");
    let comment = concat(&t1, version);
    let e0 = concat("export PATH=\"", &bin);
    let export = concat(&e0, ":$PATH\"");
    let ghost before = lines@;
    lines.push(comment);
    lines.push(export);
    assert(texts(lines@) =~= texts(before) + block(home@, runtime_name@, version@));
}

/// Removes the block for `runtime_name` at `version`: each line that holds its
/// comment goes, and so does the line after it when that line still mentions
/// the version's `bin` directory.
pub fn remove_runtime_from_path(lines: &Vec<String>, home: &str, runtime_name: &str, version: &str) -> (r: Vec<String>)
    ensures
        texts(r@) == removed(texts(lines@), home@, runtime_name@, version@),
{
    proof {
        reveal_strlit("# Added by rvm for ");
        reveal_strlit(" ");
    }
    let bin = bin_path(home, runtime_name, version);
    let t0 = concat("# Added by rvm for ", runtime_name);
    let t1 = concat(&t0, " ");
    let t = concat(&t1, version);
    let mut out: Vec<String> = Vec::new();
    let mut armed = false;
    let mut i: usize = 0;
    let ghost all = texts(lines@);
    assert(all.subrange(0, all.len() as int) =~= all);
    while i < lines.len()
        invariant
            i <= lines.len(),
            all == texts(lines@),
            t@ == tag(runtime_name@, version@),
            bin@ == bin_of(home@, runtime_name@, version@),
            drop_tagged(all, t@, bin@, false) == texts(out@) + drop_tagged(
                all.subrange(i as int, all.len() as int),
                t@,
                bin@,
                armed,
            ),
        decreases lines.len() - i,
    {
        let ghost rest = all.subrange(i as int, all.len() as int);
        assert(rest[0] == lines@[i as int]@);
        assert(rest.drop_first() =~= all.subrange(i + 1, all.len() as int));
        let line = &lines[i];
        if contains(line, &t) {
            armed = true;
        } else if armed && contains(line, &bin) {
            armed = false;
        } else {
            let ghost o = texts(out@);
            out.push(line.clone());
            assert(texts(out@) =~= o + seq![lines@[i as int]@]);
            armed = false;
        }
        i = i + 1;
    }
    assert(all.subrange(i as int, all.len() as int).len() == 0);
    assert(texts(out@) + Seq::<Seq<char>>::empty() =~= texts(out@));
    out
}

/// Removes every line of `runtime_name`: its block comments and any line
/// that mentions its home directory.
pub fn remove_all_runtime_paths(lines: &Vec<String>, home: &str, runtime_name: &str) -> (r: Vec<String>)
    ensures
        texts(r@) == all_removed(texts(lines@), home@, runtime_name@),
{
    proof {
        reveal_strlit("# Added by rvm for ");
    }
    let rh = get_runtime_home(home, runtime_name);
    let tp = concat("# Added by rvm for ", runtime_name);
    let mut out: Vec<String> = Vec::new();
    let mut i: usize = 0;
    let ghost all = texts(lines@);
    assert(all.subrange(0, all.len() as int) =~= all);
    while i < lines.len()
        invariant
            i <= lines.len(),
            all == texts(lines@),
            tp@ == tag_prefix(runtime_name@),
            rh@ == home_of(home@, runtime_name@),
            all_removed(all, home@, runtime_name@) == texts(out@) + all_removed(
                all.subrange(i as int, all.len() as int),
                home@,
                runtime_name@,
            ),
        decreases lines.len() - i,
    {
        let ghost rest = all.subrange(i as int, all.len() as int);
        assert(rest[0] == lines@[i as int]@);
        assert(rest.drop_first() =~= all.subrange(i + 1, all.len() as int));
        let line = &lines[i];
        if !contains(line, &tp) && !contains(line, &rh) {
            let ghost o = texts(out@);
            out.push(line.clone());
            assert(texts(out@) =~= o + seq![lines@[i as int]@]);
        }
        i = i + 1;
    }
    assert(all.subrange(i as int, all.len() as int).len() == 0);
    assert(texts(out@) + Seq::<Seq<char>>::empty() =~= texts(out@));
    out
}

/// Makes `version` the default of `runtime_name`: every line of the runtime
/// goes, then the version's block is added.
pub fn set_default_runtime(lines: &Vec<String>, home: &str, runtime_name: &str, version: &str) -> (r: Vec<String>)
    ensures
        texts(r@) == defaulted(texts(lines@), home@, runtime_name@, version@),
{
    let mut out = remove_all_runtime_paths(lines, home, runtime_name);
    add_runtime_to_path(&mut out, home, runtime_name, version);
    out
}

proof fn infix_trans(a: Seq<char>, b: Seq<char>, c: Seq<char>)
    requires
        has_infix(a, b),
        has_infix(b, c),
    ensures
        has_infix(a, c),
{
    let i = choose|i: int| occurs_at(a, b, i);
    let j = choose|j: int| occurs_at(b, c, j);
    assert(a.subrange(i + j, i + j + c.len()) =~= b.subrange(j, j + c.len()));
    assert(occurs_at(a, c, i + j));
}

proof fn infix_middle(x: Seq<char>, y: Seq<char>, z: Seq<char>)
    ensures
        has_infix(x + y + z, y),
{
    assert((x + y + z).subrange(x.len() as int, (x.len() + y.len()) as int) =~= y);
    assert(occurs_at(x + y + z, y, x.len() as int));
}

proof fn tag_marks(runtime: Seq<char>, version: Seq<char>)
    ensures
        has_infix(tag(runtime, version), tag(runtime, version)),
        has_infix(tag(runtime, version), tag_prefix(runtime)),
{
    let t = tag(runtime, version);
    assert(t.subrange(0, t.len() as int) =~= t);
    assert(occurs_at(t, t, 0));
    assert(t.subrange(0, tag_prefix(runtime).len() as int) =~= tag_prefix(runtime));
    assert(occurs_at(t, tag_prefix(runtime), 0));
}

proof fn bin_marks(home: Seq<char>, runtime: Seq<char>, version: Seq<char>)
    ensures
        has_infix(bin_of(home, runtime, version), home_of(home, runtime)),
{
    let b = bin_of(home, runtime, version);
    let h = home_of(home, runtime);
    assert(b.subrange(0, h.len() as int) =~= h);
    assert(occurs_at(b, h, 0));
}

proof fn export_marks(home: Seq<char>, runtime: Seq<char>, version: Seq<char>)
    ensures
        has_infix(export_line(bin_of(home, runtime, version)), bin_of(home, runtime, version)),
        has_infix(export_line(bin_of(home, runtime, version)), home_of(home, runtime)),
{
    let b = bin_of(home, runtime, version);
    infix_middle("export PATH=\""@, b, ":$PATH\""@);
    bin_marks(home, runtime, version);
    infix_trans(export_line(b), b, home_of(home, runtime));
}

proof fn block_lines_are_marked(home: Seq<char>, runtime: Seq<char>, version: Seq<char>)
    ensures
        has_infix(tag(runtime, version), tag(runtime, version)),
        has_infix(tag(runtime, version), tag_prefix(runtime)),
        has_infix(export_line(bin_of(home, runtime, version)), bin_of(home, runtime, version)),
        has_infix(export_line(bin_of(home, runtime, version)), home_of(home, runtime)),
        has_infix(bin_of(home, runtime, version), home_of(home, runtime)),
{
    tag_marks(runtime, version);
    bin_marks(home, runtime, version);
    export_marks(home, runtime, version);
}

proof fn block_mentions_bin(lines: Seq<Seq<char>>, home: Seq<char>, runtime: Seq<char>, version: Seq<char>)
    ensures
        mentions(lines + block(home, runtime, version), bin_of(home, runtime, version)),
{
    block_lines_are_marked(home, runtime, version);
    let all = lines + block(home, runtime, version);
    assert(all[(lines.len() + 1) as int] == export_line(bin_of(home, runtime, version)));
}

/// Adding the same block twice leaves the profile as adding it once.
pub proof fn add_is_idempotent(lines: Seq<Seq<char>>, home: Seq<char>, runtime: Seq<char>, version: Seq<char>)
    ensures
        added(added(lines, home, runtime, version), home, runtime, version) == added(
            lines,
            home,
            runtime,
            version,
        ),
{
    if !mentions(lines, bin_of(home, runtime, version)) {
        block_mentions_bin(lines, home, runtime, version);
    }
}

proof fn untagged_lines_kept(lines: Seq<Seq<char>>, tail: Seq<Seq<char>>, t: Seq<char>, path: Seq<char>)
    requires
        forall|i: int| 0 <= i < lines.len() ==> !has_infix(#[trigger] lines[i], t),
    ensures
        drop_tagged(lines + tail, t, path, false) == lines + drop_tagged(tail, t, path, false),
    decreases lines.len(),
{
    if lines.len() > 0 {
        assert((lines + tail).drop_first() =~= lines.drop_first() + tail);
        assert((lines + tail)[0] == lines[0]);
        untagged_lines_kept(lines.drop_first(), tail, t, path);
        assert(lines =~= seq![lines[0]] + lines.drop_first());
    } else {
        assert(lines + tail =~= tail);
    }
}

/// Adding the block of a version and then removing it gives back the profile
/// as it was, for any profile in which no line holds that version's comment.
pub proof fn add_then_remove_restores(lines: Seq<Seq<char>>, home: Seq<char>, runtime: Seq<char>, version: Seq<char>)
    requires
        forall|i: int| 0 <= i < lines.len() ==> !has_infix(#[trigger] lines[i], tag(runtime, version)),
    ensures
        removed(added(lines, home, runtime, version), home, runtime, version) == lines,
{
    let t = tag(runtime, version);
    let b = bin_of(home, runtime, version);
    let blk = block(home, runtime, version);
    block_lines_are_marked(home, runtime, version);
    if mentions(lines, b) {
        untagged_lines_kept(lines, Seq::empty(), t, b);
        assert(lines + Seq::<Seq<char>>::empty() =~= lines);
    } else {
        untagged_lines_kept(lines, blk, t, b);
        let e = blk.drop_first();
        assert(e.len() == 1 && e[0] == export_line(b));
        assert(e.drop_first().len() == 0);
        assert(drop_tagged(e.drop_first(), t, b, true) == e.drop_first());
        assert(drop_tagged(e.drop_first(), t, b, false) == e.drop_first());
        assert(drop_tagged(e, t, b, true) =~= Seq::<Seq<char>>::empty());
        assert(drop_tagged(blk, t, b, false) == drop_tagged(e, t, b, true));
        assert(lines + Seq::<Seq<char>>::empty() =~= lines);
    }
}

proof fn all_removed_clean(lines: Seq<Seq<char>>, home: Seq<char>, runtime: Seq<char>)
    ensures
        forall|i: int|
            0 <= i < all_removed(lines, home, runtime).len() ==> !of_runtime(
                #[trigger] all_removed(lines, home, runtime)[i],
                home,
                runtime,
            ),
    decreases lines.len(),
{
    if lines.len() > 0 {
        all_removed_clean(lines.drop_first(), home, runtime);
        let rest = all_removed(lines.drop_first(), home, runtime);
        if !of_runtime(lines[0], home, runtime) {
            assert forall|i: int| 0 <= i < (seq![lines[0]] + rest).len() implies !of_runtime(
                #[trigger] (seq![lines[0]] + rest)[i],
                home,
                runtime,
            ) by {
                if i > 0 {
                    assert((seq![lines[0]] + rest)[i] == rest[i - 1]);
                }
            }
        }
    }
}

proof fn all_removed_append(x: Seq<Seq<char>>, y: Seq<Seq<char>>, home: Seq<char>, runtime: Seq<char>)
    ensures
        all_removed(x + y, home, runtime) == all_removed(x, home, runtime) + all_removed(y, home, runtime),
    decreases x.len(),
{
    if x.len() == 0 {
        assert(x + y =~= y);
        assert(Seq::<Seq<char>>::empty() + all_removed(y, home, runtime) =~= all_removed(y, home, runtime));
    } else {
        assert((x + y).drop_first() =~= x.drop_first() + y);
        assert((x + y)[0] == x[0]);
        all_removed_append(x.drop_first(), y, home, runtime);
        assert(seq![x[0]] + (all_removed(x.drop_first(), home, runtime) + all_removed(y, home, runtime))
            =~= (seq![x[0]] + all_removed(x.drop_first(), home, runtime)) + all_removed(y, home, runtime));
    }
}

proof fn all_removed_keeps_clean(lines: Seq<Seq<char>>, home: Seq<char>, runtime: Seq<char>)
    requires
        forall|i: int| 0 <= i < lines.len() ==> !of_runtime(#[trigger] lines[i], home, runtime),
    ensures
        all_removed(lines, home, runtime) == lines,
    decreases lines.len(),
{
    if lines.len() > 0 {
        assert(lines[0] == lines[0]);
        assert forall|i: int| 0 <= i < lines.drop_first().len() implies !of_runtime(
            #[trigger] lines.drop_first()[i],
            home,
            runtime,
        ) by {
            assert(lines.drop_first()[i] == lines[i + 1]);
        }
        all_removed_keeps_clean(lines.drop_first(), home, runtime);
        assert(lines =~= seq![lines[0]] + lines.drop_first());
    }
}

/// After `version` is made the default of `runtime`, the profile holds exactly
/// one block of the runtime: it is its lines with nothing of the runtime left,
/// followed by that version's block; and doing it again changes nothing.
pub proof fn set_default_leaves_one_block(lines: Seq<Seq<char>>, home: Seq<char>, runtime: Seq<char>, version: Seq<char>)
    ensures
        defaulted(lines, home, runtime, version) == all_removed(lines, home, runtime) + block(
            home,
            runtime,
            version,
        ),
        forall|i: int|
            0 <= i < all_removed(lines, home, runtime).len() ==> !of_runtime(
                #[trigger] all_removed(lines, home, runtime)[i],
                home,
                runtime,
            ),
        defaulted(defaulted(lines, home, runtime, version), home, runtime, version) == defaulted(
            lines,
            home,
            runtime,
            version,
        ),
        ({
            let d = defaulted(lines, home, runtime, version);
            &&& d[d.len() - 2] == tag(runtime, version)
            &&& d[d.len() - 1] == export_line(bin_of(home, runtime, version))
            &&& forall|i: int| 0 <= i < d.len() - 2 ==> !of_runtime(#[trigger] d[i], home, runtime)
            &&& !has_infix(export_line(bin_of(home, runtime, version)), tag_prefix(runtime)) ==> forall|i: int|
                0 <= i < d.len() ==> (has_infix(#[trigger] d[i], tag_prefix(runtime)) <==> i == d.len() - 2)
        }),
{
    let rest = all_removed(lines, home, runtime);
    let b = bin_of(home, runtime, version);
    let blk = block(home, runtime, version);
    all_removed_clean(lines, home, runtime);
    block_lines_are_marked(home, runtime, version);
    if mentions(rest, b) {
        let i = choose|i: int| 0 <= i < rest.len() && has_infix(rest[i], b);
        infix_trans(rest[i], b, home_of(home, runtime));
        assert(!of_runtime(rest[i], home, runtime));
    }
    assert(defaulted(lines, home, runtime, version) == rest + blk);
    all_removed_append(rest, blk, home, runtime);
    all_removed_keeps_clean(rest, home, runtime);
    assert(of_runtime(blk[0], home, runtime));
    assert(of_runtime(blk[1], home, runtime));
    let e = blk.drop_first();
    assert(e.len() == 1 && e[0] == blk[1]);
    assert(e.drop_first().len() == 0);
    assert(all_removed(e.drop_first(), home, runtime) == e.drop_first());
    assert(all_removed(e, home, runtime) =~= Seq::<Seq<char>>::empty());
    assert(all_removed(blk, home, runtime) == all_removed(e, home, runtime));
    assert(all_removed(rest + blk, home, runtime) =~= rest);
    let d = rest + blk;
    assert forall|i: int| 0 <= i < d.len() - 2 implies !of_runtime(#[trigger] d[i], home, runtime) by {
        assert(d[i] == rest[i]);
    }
}

} // verus!
