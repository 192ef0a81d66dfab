//! The decisions of the install, remove, update and prune pipeline. Each
//! plan is the list of steps to perform, in order, from what the caller has
//! read of the installed versions; the caller performs them and stops at the
//! first that fails.
use vstd::prelude::*;
use crate::error::RvmError;
use crate::runtime::{pruned, versions_to_prune};
use crate::text::views;

verus! {

/// One step of a lifecycle operation.
#[derive(Debug, Clone, PartialEq, Eq)]
pub enum Step {
    /// Fetch the release `resolved` and install it under the name `stored`.
    Install { resolved: String, stored: String },
    /// Drop the version's block from the profile.
    RemoveEntry(String),
    /// Delete the version's directory.
    DeleteVersion(String),
    /// Delete the runtime's home directory if nothing is left in it.
    DeleteHomeIfEmpty,
    /// Make the version the runtime's default in the profile.
    SetDefault(String),
    /// Source the profile in a child shell.
    ReloadProfile,
    /// Add the latest release.
    AddLatest,
}

/// A step as text.
pub enum StepView {
    Install(Seq<char>, Seq<char>),
    RemoveEntry(Seq<char>),
    DeleteVersion(Seq<char>),
    DeleteHomeIfEmpty,
    SetDefault(Seq<char>),
    ReloadProfile,
    AddLatest,
}

/// The text of a step.
pub open spec fn step_view(s: Step) -> StepView {
    match s {
        Step::Install { resolved, stored } => StepView::Install(resolved@, stored@),
        Step::RemoveEntry(v) => StepView::RemoveEntry(v@),
        Step::DeleteVersion(v) => StepView::DeleteVersion(v@),
        Step::DeleteHomeIfEmpty => StepView::DeleteHomeIfEmpty,
        Step::SetDefault(v) => StepView::SetDefault(v@),
        Step::ReloadProfile => StepView::ReloadProfile,
        Step::AddLatest => StepView::AddLatest,
    }
}

/// The text of each step.
pub open spec fn plan_view(p: Seq<Step>) -> Seq<StepView> {
    p.map_values(|s: Step| step_view(s))
}

/// For each version in turn: drop its profile block, then its directory.
pub open spec fn removal_steps(vs: Seq<Seq<char>>) -> Seq<StepView>
    decreases vs.len(),
{
    if vs.len() == 0 {
        Seq::empty()
    } else {
        removal_steps(vs.drop_last()) + seq![
            StepView::RemoveEntry(vs.last()),
            StepView::DeleteVersion(vs.last()),
        ]
    }
}

fn push_removals(vs: &Vec<String>, out: &mut Vec<Step>)
    ensures
        plan_view(final(out)@) == plan_view(old(out)@) + removal_steps(views(vs@)),
{
    let ghost start = plan_view(out@);
    let mut i: usize = 0;
    while i < vs.len()
        invariant
            i <= vs@.len(),
            plan_view(out@) == start + removal_steps(views(vs@).subrange(0, i as int)),
        decreases vs@.len() - i,
    {
        let ghost pre = views(vs@).subrange(0, i + 1);
        assert(pre.drop_last() =~= views(vs@).subrange(0, i as int));
        assert(pre.last() == vs@[i as int]@);
        let ghost o = plan_view(out@);
        out.push(Step::RemoveEntry(vs[i].clone()));
        out.push(Step::DeleteVersion(vs[i].clone()));
        assert(plan_view(out@) =~= o + seq![
            StepView::RemoveEntry(vs@[i as int]@),
            StepView::DeleteVersion(vs@[i as int]@),
        ]);
        i = i + 1;
    }
    assert(views(vs@).subrange(0, vs@.len() as int) =~= views(vs@));
}

/// Adding a resolved release stored as `stored`: fails with
/// `VersionAlreadyInstalled` when that version is installed; else install it,
/// make it the default, reload the profile.
pub fn plan_add(resolved: &str, stored: &str, already_installed: bool) -> (r: Result<Vec<Step>, RvmError>)
    ensures
        already_installed ==> r is Err && r->Err_0 is VersionAlreadyInstalled
            && r->Err_0->VersionAlreadyInstalled_0@ == stored@,
        !already_installed ==> r is Ok && plan_view(r->Ok_0@) == seq![
            StepView::Install(resolved@, stored@),
            StepView::SetDefault(stored@),
            StepView::ReloadProfile,
        ],
{
    if already_installed {
        return Err(RvmError::VersionAlreadyInstalled(stored.to_owned()));
    }
    let v = vec![
        Step::Install { resolved: resolved.to_owned(), stored: stored.to_owned() },
        Step::SetDefault(stored.to_owned()),
        Step::ReloadProfile,
    ];
    assert(plan_view(v@) =~= seq![
        StepView::Install(resolved@, stored@),
        StepView::SetDefault(stored@),
        StepView::ReloadProfile,
    ]);
    Ok(v)
}

/// Removing one version (`version` is `Some`; `exists` says whether its
/// directory does): fails with `VersionNotFound` when it does not; else drop
/// its block and directory, reload the profile. Removing every version
/// (`None`): nothing when none is installed; else each installed version's
/// block and directory, then the empty home directory, then reload.
pub fn plan_remove(version: Option<&str>, exists: bool, installed: &Vec<String>) -> (r: Result<Vec<Step>, RvmError>)
    ensures
        version is Some && !exists ==> r is Err && r->Err_0 is VersionNotFound
            && r->Err_0->VersionNotFound_0@ == version->Some_0@,
        version is Some && exists ==> r is Ok && plan_view(r->Ok_0@) == seq![
            StepView::RemoveEntry(version->Some_0@),
            StepView::DeleteVersion(version->Some_0@),
            StepView::ReloadProfile,
        ],
        version is None && installed@.len() == 0 ==> r is Ok && r->Ok_0@.len() == 0,
        version is None && installed@.len() > 0 ==> r is Ok && plan_view(r->Ok_0@) == removal_steps(
            views(installed@),
        ) + seq![StepView::DeleteHomeIfEmpty, StepView::ReloadProfile],
{
    match version {
        Some(v) => {
            if !exists {
                return Err(RvmError::VersionNotFound(v.to_owned()));
            }
            let p = vec![Step::RemoveEntry(v.to_owned()), Step::DeleteVersion(v.to_owned()), Step::ReloadProfile];
            assert(plan_view(p@) =~= seq![
                StepView::RemoveEntry(v@),
                StepView::DeleteVersion(v@),
                StepView::ReloadProfile,
            ]);
            Ok(p)
        },
        None => {
            let mut p: Vec<Step> = Vec::new();
            if installed.len() == 0 {
                return Ok(p);
            }
            assert(plan_view(p@) =~= Seq::<StepView>::empty());
            push_removals(installed, &mut p);
            let ghost o = plan_view(p@);
            p.push(Step::DeleteHomeIfEmpty);
            p.push(Step::ReloadProfile);
            assert(plan_view(p@) =~= o + seq![StepView::DeleteHomeIfEmpty, StepView::ReloadProfile]);
            assert(Seq::<StepView>::empty() + removal_steps(views(installed@)) =~= removal_steps(views(installed@)));
            Ok(p)
        },
    }
}

/// Updating to the latest release stored as `stored`: when it is installed,
/// make it the default and reload the profile; else add the latest release.
pub fn plan_update(stored: &str, installed: bool) -> (r: Vec<Step>)
    ensures
        installed ==> plan_view(r@) == seq![StepView::SetDefault(stored@), StepView::ReloadProfile],
        !installed ==> plan_view(r@) == seq![StepView::AddLatest],
{
    if installed {
        let p = vec![Step::SetDefault(stored.to_owned()), Step::ReloadProfile];
        assert(plan_view(p@) =~= seq![StepView::SetDefault(stored@), StepView::ReloadProfile]);
        p
    } else {
        let p = vec![Step::AddLatest];
        assert(plan_view(p@) =~= seq![StepView::AddLatest]);
        p
    }
}

/// Pruning to the installed version `keep`: each other installed version's
/// block and directory, in order, then `keep` made the default, then reload.
pub fn plan_prune(installed: &Vec<String>, keep: &str) -> (r: Vec<Step>)
    ensures
        plan_view(r@) == removal_steps(pruned(views(installed@), keep@)) + seq![
            StepView::SetDefault(keep@),
            StepView::ReloadProfile,
        ],
{
    let doomed = versions_to_prune(installed, keep);
    let mut p: Vec<Step> = Vec::new();
    assert(plan_view(p@) =~= Seq::<StepView>::empty());
    push_removals(&doomed, &mut p);
    let ghost o = plan_view(p@);
    p.push(Step::SetDefault(keep.to_owned()));
    p.push(Step::ReloadProfile);
    assert(plan_view(p@) =~= o + seq![StepView::SetDefault(keep@), StepView::ReloadProfile]);
    assert(Seq::<StepView>::empty() + removal_steps(views(doomed@)) =~= removal_steps(views(doomed@)));
    p
}

} // verus!
