//! The filters that narrow the list of merged branches down to those whose
//! worktrees may be removed.
use vstd::prelude::*;

use crate::text::{list_contains, str_eq, views};

verus! {

/// What the repository answered about one merged branch. A query that
/// failed counts as the unsafe answer: no unique commits, no commit id.
pub struct BranchFacts {
    pub name: String,
    pub has_unique_commits: bool,
    pub commit_id: Option<String>,
}

/// Why a merged branch is kept out of cleanup.
#[derive(PartialEq, Eq, Structural, Clone, Copy, Debug)]
pub enum RejectReason {
    /// The branch has no commit that the target lacks: it was never worked on.
    NoUniqueCommits,
    /// The branch never reached the remote, so it was never merged through it.
    NotOnRemote,
    /// The branch points at the target's own commit.
    SameAsTarget,
    /// The commit of the branch or of the target could not be resolved.
    CommitUnresolved,
}

#[derive(PartialEq, Eq, Structural, Clone, Copy, Debug)]
pub enum Verdict {
    Eligible,
    /// The branch being set up right now; dropped without a word.
    Excluded,
    Rejected(RejectReason),
}

/// The branches that passed, and each one rejected with its reason.
pub struct FilterReport {
    pub eligible: Vec<String>,
    pub rejected: Vec<(String, RejectReason)>,
}

pub open spec fn opt_view(o: Option<&str>) -> Option<Seq<char>> {
    match o {
        Some(s) => Some(s@),
        None => None,
    }
}

pub open spec fn commit_view(o: Option<String>) -> Option<Seq<char>> {
    match o {
        Some(s) => Some(s@),
        None => None,
    }
}

/// The stages in order: the excluded branch; no unique commits; absent
/// from the remote, unless forced; same commit as the target, or either
/// commit unresolved.
pub open spec fn verdict(
    b: BranchFacts,
    exclude: Option<Seq<char>>,
    remote: Seq<Seq<char>>,
    target: Option<Seq<char>>,
    force: bool,
) -> Verdict {
    if exclude == Some(b.name@) {
        Verdict::Excluded
    } else if !b.has_unique_commits {
        Verdict::Rejected(RejectReason::NoUniqueCommits)
    } else if !force && !remote.contains(b.name@) {
        Verdict::Rejected(RejectReason::NotOnRemote)
    } else {
        match (commit_view(b.commit_id), target) {
            (Some(c), Some(t)) => if c == t {
                Verdict::Rejected(RejectReason::SameAsTarget)
            } else {
                Verdict::Eligible
            },
            _ => Verdict::Rejected(RejectReason::CommitUnresolved),
        }
    }
}

/// The names of the branches that pass, in order.
pub open spec fn eligible_names(
    bs: Seq<BranchFacts>,
    exclude: Option<Seq<char>>,
    remote: Seq<Seq<char>>,
    target: Option<Seq<char>>,
    force: bool,
) -> Seq<Seq<char>>
    decreases bs.len(),
{
    if bs.len() == 0 {
        seq![]
    } else {
        let rest = eligible_names(bs.drop_last(), exclude, remote, target, force);
        if verdict(bs.last(), exclude, remote, target, force) is Eligible {
            rest.push(bs.last().name@)
        } else {
            rest
        }
    }
}

/// The rejected branches with their reasons, in order.
pub open spec fn rejections(
    bs: Seq<BranchFacts>,
    exclude: Option<Seq<char>>,
    remote: Seq<Seq<char>>,
    target: Option<Seq<char>>,
    force: bool,
) -> Seq<(Seq<char>, RejectReason)>
    decreases bs.len(),
{
    if bs.len() == 0 {
        seq![]
    } else {
        let rest = rejections(bs.drop_last(), exclude, remote, target, force);
        match verdict(bs.last(), exclude, remote, target, force) {
            Verdict::Rejected(why) => rest.push((bs.last().name@, why)),
            _ => rest,
        }
    }
}

pub open spec fn rejection_views(v: Seq<(String, RejectReason)>) -> Seq<(Seq<char>, RejectReason)> {
    v.map_values(|x: (String, RejectReason)| (x.0@, x.1))
}

/// The verdict on one branch.
pub fn branch_verdict(
    branch: &BranchFacts,
    exclude: Option<&str>,
    remote: &Vec<String>,
    target_commit: Option<&str>,
    force: bool,
) -> (r: Verdict)
    ensures
        r == verdict(*branch, opt_view(exclude), views(remote@), opt_view(target_commit), force),
{
    if let Some(e) = exclude {
        if str_eq(e, branch.name.as_str()) {
            return Verdict::Excluded;
        }
    }
    if !branch.has_unique_commits {
        return Verdict::Rejected(RejectReason::NoUniqueCommits);
    }
    if !force && !list_contains(remote, &branch.name) {
        return Verdict::Rejected(RejectReason::NotOnRemote);
    }
    match (&branch.commit_id, target_commit) {
        (Some(c), Some(t)) => if str_eq(c.as_str(), t) {
            Verdict::Rejected(RejectReason::SameAsTarget)
        } else {
            Verdict::Eligible
        },
        _ => Verdict::Rejected(RejectReason::CommitUnresolved),
    }
}

/// Runs the merged branches through the filters. `remote` holds the
/// branch names on the remote, fetched once for the run; `target_commit`
/// is the commit of the target branch, when it could be resolved.
pub fn apply_safety_filters(
    branches: &Vec<BranchFacts>,
    exclude: Option<&str>,
    remote: &Vec<String>,
    target_commit: Option<&str>,
    force: bool,
) -> (r: FilterReport)
    ensures
        views(r.eligible@) == eligible_names(
            branches@,
            opt_view(exclude),
            views(remote@),
            opt_view(target_commit),
            force,
        ),
        rejection_views(r.rejected@) == rejections(
            branches@,
            opt_view(exclude),
            views(remote@),
            opt_view(target_commit),
            force,
        ),
{
    let ghost ex = opt_view(exclude);
    let ghost rm = views(remote@);
    let ghost tg = opt_view(target_commit);
    let mut eligible: Vec<String> = Vec::new();
    let mut rejected: Vec<(String, RejectReason)> = Vec::new();
    let mut i: usize = 0;
    while i < branches.len()
        invariant
            ex == opt_view(exclude),
            rm == views(remote@),
            tg == opt_view(target_commit),
            i <= branches.len(),
            views(eligible@) == eligible_names(branches@.take(i as int), ex, rm, tg, force),
            rejection_views(rejected@) == rejections(branches@.take(i as int), ex, rm, tg, force),
        decreases branches.len() - i,
    {
        let b = &branches[i];
        let v = branch_verdict(b, exclude, remote, target_commit, force);
        assert(branches@.take(i + 1).drop_last() =~= branches@.take(i as int));
        assert(branches@.take(i + 1).last() == *b);
        match v {
            Verdict::Eligible => {
                let ghost before = eligible@;
                eligible.push(b.name.clone());
                assert(views(eligible@) =~= views(before).push(b.name@));
            },
            Verdict::Rejected(why) => {
                let ghost before = rejected@;
                rejected.push((b.name.clone(), why));
                assert(rejection_views(rejected@) =~= rejection_views(before).push((b.name@, why)));
            },
            Verdict::Excluded => {},
        }
        i = i + 1;
    }
    assert(branches@.take(i as int) =~= branches@);
    FilterReport { eligible, rejected }
}

/// Entries that share a name carry the same answers, as they do for one
/// branch asked about twice.
pub open spec fn same_name_same_facts(bs: Seq<BranchFacts>) -> bool {
    forall|i: int, j: int|
        0 <= i < bs.len() && 0 <= j < bs.len() && #[trigger] bs[i].name@ == #[trigger] bs[j].name@
            ==> bs[i].has_unique_commits == bs[j].has_unique_commits && commit_view(
            bs[i].commit_id,
        ) == commit_view(bs[j].commit_id)
}

/// Every eligible name is that of a branch that passed every filter.
pub proof fn lemma_eligible_has_source(
    bs: Seq<BranchFacts>,
    exclude: Option<Seq<char>>,
    remote: Seq<Seq<char>>,
    target: Option<Seq<char>>,
    force: bool,
    n: Seq<char>,
)
    requires
        eligible_names(bs, exclude, remote, target, force).contains(n),
    ensures
        exists|j: int|
            0 <= j < bs.len() && #[trigger] bs[j].name@ == n && verdict(
                bs[j],
                exclude,
                remote,
                target,
                force,
            ) is Eligible,
    decreases bs.len(),
{
    let rest = eligible_names(bs.drop_last(), exclude, remote, target, force);
    if rest.contains(n) {
        lemma_eligible_has_source(bs.drop_last(), exclude, remote, target, force, n);
        let j = choose|j: int|
            0 <= j < bs.drop_last().len() && #[trigger] bs.drop_last()[j].name@ == n && verdict(
                bs.drop_last()[j],
                exclude,
                remote,
                target,
                force,
            ) is Eligible;
        assert(bs[j] == bs.drop_last()[j]);
    } else {
        let k = bs.len() - 1;
        assert(bs[k] == bs.last());
    }
}

/// Every branch that passes every filter is in the eligible list.
pub proof fn lemma_eligible_includes(
    bs: Seq<BranchFacts>,
    exclude: Option<Seq<char>>,
    remote: Seq<Seq<char>>,
    target: Option<Seq<char>>,
    force: bool,
    i: int,
)
    requires
        0 <= i < bs.len(),
        verdict(bs[i], exclude, remote, target, force) is Eligible,
    ensures
        eligible_names(bs, exclude, remote, target, force).contains(bs[i].name@),
    decreases bs.len(),
{
    let rest = eligible_names(bs.drop_last(), exclude, remote, target, force);
    if i < bs.len() - 1 {
        assert(bs.drop_last()[i] == bs[i]);
        lemma_eligible_includes(bs.drop_last(), exclude, remote, target, force, i);
        let k = choose|k: int| 0 <= k < rest.len() && rest[k] == bs[i].name@;
        let all = eligible_names(bs, exclude, remote, target, force);
        assert(all[k] == rest[k]);
    } else {
        let all = eligible_names(bs, exclude, remote, target, force);
        assert(all[all.len() - 1] == bs[i].name@);
    }
}

/// A branch that points at the target's commit is never eligible, forced
/// or not.
pub proof fn lemma_same_commit_never_eligible(
    bs: Seq<BranchFacts>,
    exclude: Option<Seq<char>>,
    remote: Seq<Seq<char>>,
    target: Option<Seq<char>>,
    force: bool,
)
    requires
        same_name_same_facts(bs),
    ensures
        forall|i: int|
            0 <= i < bs.len() && commit_view(#[trigger] bs[i].commit_id) == target
                ==> !eligible_names(bs, exclude, remote, target, force).contains(bs[i].name@),
{
    assert forall|i: int|
        0 <= i < bs.len() && commit_view(#[trigger] bs[i].commit_id) == target implies !eligible_names(
        bs,
        exclude,
        remote,
        target,
        force,
    ).contains(bs[i].name@) by {
        if eligible_names(bs, exclude, remote, target, force).contains(bs[i].name@) {
            lemma_eligible_has_source(bs, exclude, remote, target, force, bs[i].name@);
            let j = choose|j: int|
                0 <= j < bs.len() && #[trigger] bs[j].name@ == bs[i].name@ && verdict(
                    bs[j],
                    exclude,
                    remote,
                    target,
                    force,
                ) is Eligible;
            assert(verdict(bs[j], exclude, remote, target, force) == verdict(
                bs[i],
                exclude,
                remote,
                target,
                force,
            ));
        }
    }
}

/// A branch with no commit of its own is never eligible, forced or not.
pub proof fn lemma_no_unique_commits_never_eligible(
    bs: Seq<BranchFacts>,
    exclude: Option<Seq<char>>,
    remote: Seq<Seq<char>>,
    target: Option<Seq<char>>,
    force: bool,
)
    requires
        same_name_same_facts(bs),
    ensures
        forall|i: int|
            0 <= i < bs.len() && !(#[trigger] bs[i].has_unique_commits) ==> !eligible_names(
                bs,
                exclude,
                remote,
                target,
                force,
            ).contains(bs[i].name@),
{
    assert forall|i: int|
        0 <= i < bs.len() && !(#[trigger] bs[i].has_unique_commits) implies !eligible_names(
        bs,
        exclude,
        remote,
        target,
        force,
    ).contains(bs[i].name@) by {
        if eligible_names(bs, exclude, remote, target, force).contains(bs[i].name@) {
            lemma_eligible_has_source(bs, exclude, remote, target, force, bs[i].name@);
            let j = choose|j: int|
                0 <= j < bs.len() && #[trigger] bs[j].name@ == bs[i].name@ && verdict(
                    bs[j],
                    exclude,
                    remote,
                    target,
                    force,
                ) is Eligible;
            assert(verdict(bs[j], exclude, remote, target, force) == verdict(
                bs[i],
                exclude,
                remote,
                target,
                force,
            ));
        }
    }
}

/// Filtering fewer branches, with the same answers about each, makes no
/// branch newly eligible.
pub proof fn lemma_fewer_branches_fewer_eligible(
    bs1: Seq<BranchFacts>,
    bs2: Seq<BranchFacts>,
    exclude: Option<Seq<char>>,
    remote: Seq<Seq<char>>,
    target: Option<Seq<char>>,
    force: bool,
)
    requires
        forall|j: int| 0 <= j < bs2.len() ==> bs1.contains(#[trigger] bs2[j]),
    ensures
        forall|n: Seq<char>|
            #[trigger] eligible_names(bs2, exclude, remote, target, force).contains(n)
                ==> eligible_names(bs1, exclude, remote, target, force).contains(n),
{
    assert forall|n: Seq<char>|
        #[trigger] eligible_names(bs2, exclude, remote, target, force).contains(
            n,
        ) implies eligible_names(bs1, exclude, remote, target, force).contains(n) by {
        lemma_eligible_has_source(bs2, exclude, remote, target, force, n);
        let j = choose|j: int|
            0 <= j < bs2.len() && #[trigger] bs2[j].name@ == n && verdict(
                bs2[j],
                exclude,
                remote,
                target,
                force,
            ) is Eligible;
        assert(bs1.contains(bs2[j]));
        let i = choose|i: int| 0 <= i < bs1.len() && bs1[i] == bs2[j];
        lemma_eligible_includes(bs1, exclude, remote, target, force, i);
    }
}

} // verus!
