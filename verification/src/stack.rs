//! Dependencies between the pull-request overlays of a tracked stack.
use vstd::prelude::*;
use crate::errors::{AppError, AppResult};
use crate::git::{canonical_remote, canonicalize_remote};
use crate::models::{TrackedPrOverlay, TrackedRepoState};
use crate::text::{
    chars_of, decimal, eq_ignore_ascii_case, eq_ignore_ascii_case_chars, push_str, str_eq, u64_decimal,
};

verus! {

/// Both texts are GitHub remotes whose canonical forms agree but for ASCII
/// case (GitHub owner and repository names are case-insensitive).
pub open spec fn remotes_match_spec(left: Seq<char>, right: Seq<char>) -> bool {
    &&& canonical_remote(left) matches Some(l)
    &&& canonical_remote(right) matches Some(r)
    &&& eq_ignore_ascii_case(l, r)
}

/// The canonical head repository of an overlay's pull request.
pub open spec fn head_repo(o: TrackedPrOverlay) -> Option<Seq<char>> {
    match o.pr_head_repo_url {
        Some(u) => canonical_remote(u@),
        None => None,
    }
}

/// `parent`'s head branch, in `parent`'s head repository, is the branch that
/// `child` declares as its base.
pub open spec fn provides_base(parent: TrackedPrOverlay, child: TrackedPrOverlay) -> bool {
    &&& parent.pr_head_ref matches Some(h) && h@ == child.pr_base_ref@
    &&& head_repo(parent) matches Some(repo) && remotes_match_spec(repo, child.pr_base_repo_url@)
}

/// `parent`'s head branch is `branch`, and its head repository is `repo`.
pub open spec fn provides_branch(parent: TrackedPrOverlay, branch: Seq<char>, repo: Seq<char>) -> bool {
    &&& parent.pr_head_ref matches Some(h) && h@ == branch
    &&& head_repo(parent) matches Some(r) && remotes_match_spec(r, repo)
}

/// Overlay `j` provides the base of overlay `i`.
pub open spec fn is_provider(ov: Seq<TrackedPrOverlay>, i: int, j: int) -> bool {
    0 <= j < ov.len() && j != i && provides_base(ov[j], ov[i])
}

pub open spec fn enabled_pred(ov: Seq<TrackedPrOverlay>, i: int, j: int) -> bool {
    j < i && is_provider(ov, i, j) && ov[j].enabled
}

pub open spec fn disabled_pred(ov: Seq<TrackedPrOverlay>, i: int, j: int) -> bool {
    j < i && is_provider(ov, i, j) && !ov[j].enabled
}

pub open spec fn later_provider(ov: Seq<TrackedPrOverlay>, i: int, j: int) -> bool {
    j > i && is_provider(ov, i, j)
}

/// The earlier enabled overlays, among the first `n`, that provide the base of `i`.
pub open spec fn enabled_preds(ov: Seq<TrackedPrOverlay>, i: int, n: int) -> Seq<int>
    decreases n,
{
    if n <= 0 {
        Seq::empty()
    } else if enabled_pred(ov, i, n - 1) {
        enabled_preds(ov, i, n - 1).push(n - 1)
    } else {
        enabled_preds(ov, i, n - 1)
    }
}

/// The first index below `n` that is a disabled earlier provider of `i`.
pub open spec fn first_disabled_pred(ov: Seq<TrackedPrOverlay>, i: int, n: int) -> Option<int>
    decreases n,
{
    if n <= 0 {
        None
    } else if let Some(j) = first_disabled_pred(ov, i, n - 1) {
        Some(j)
    } else if disabled_pred(ov, i, n - 1) {
        Some(n - 1)
    } else {
        None
    }
}

/// The first index below `n` that is a later provider of `i`.
pub open spec fn first_later_provider(ov: Seq<TrackedPrOverlay>, i: int, n: int) -> Option<int>
    decreases n,
{
    if n <= 0 {
        None
    } else if let Some(j) = first_later_provider(ov, i, n - 1) {
        Some(j)
    } else if later_provider(ov, i, n - 1) {
        Some(n - 1)
    } else {
        None
    }
}

/// How the base branch of overlay `i` is provided.
pub enum DependencyVerdict {
    OutOfRange,
    /// Disabled, or based directly on the stack base.
    Independent,
    /// Based on the head branch of exactly one earlier enabled overlay.
    Parent(int),
    BaseRepoMismatch,
    MultipleParents,
    DisabledParent(int),
    ParentLater(int),
    Unresolved,
}

pub open spec fn dependency_verdict(ts: TrackedRepoState, i: int) -> DependencyVerdict {
    let ov = ts.overlays@;
    if i < 0 || i >= ov.len() {
        DependencyVerdict::OutOfRange
    } else if !ov[i].enabled {
        DependencyVerdict::Independent
    } else if ov[i].pr_base_ref@ == ts.base.checkout_ref@ {
        if remotes_match_spec(ov[i].pr_base_repo_url@, ts.base.canonical_repo_url@) {
            DependencyVerdict::Independent
        } else {
            DependencyVerdict::BaseRepoMismatch
        }
    } else {
        let ep = enabled_preds(ov, i, ov.len() as int);
        if ep.len() == 1 {
            DependencyVerdict::Parent(ep[0])
        } else if ep.len() > 1 {
            DependencyVerdict::MultipleParents
        } else if let Some(j) = first_disabled_pred(ov, i, ov.len() as int) {
            DependencyVerdict::DisabledParent(j)
        } else if let Some(j) = first_later_provider(ov, i, ov.len() as int) {
            DependencyVerdict::ParentLater(j)
        } else {
            DependencyVerdict::Unresolved
        }
    }
}

/// The verdict accepts the overlay.
pub open spec fn verdict_ok(v: DependencyVerdict) -> bool {
    v is Independent || v is Parent
}

/// `#<n>` for each listed overlay, joined by `, `.
pub open spec fn pr_list(ov: Seq<TrackedPrOverlay>, js: Seq<int>) -> Seq<char>
    decreases js.len(),
{
    if js.len() == 0 {
        Seq::empty()
    } else if js.len() == 1 {
        "#"@ + decimal(ov[js[0]].pr_number as nat)
    } else {
        pr_list(ov, js.drop_last()) + ", #"@ + decimal(ov[js.last()].pr_number as nat)
    }
}

/// The message of a conflicting verdict.
pub open spec fn verdict_message(ts: TrackedRepoState, i: int) -> Seq<char> {
    let ov = ts.overlays@;
    let o = ov[i];
    let pr = decimal(o.pr_number as nat);
    let base_ref = o.pr_base_ref@;
    match dependency_verdict(ts, i) {
        DependencyVerdict::BaseRepoMismatch => "PR #"@ + pr + " targets branch '"@ + base_ref
            + "' in a different repository than the tracked stack base"@,
        DependencyVerdict::MultipleParents => "PR #"@ + pr + " targets branch '"@ + base_ref
            + "', but multiple earlier enabled overlays provide that branch: "@ + pr_list(
            ov,
            enabled_preds(ov, i, ov.len() as int),
        ),
        DependencyVerdict::DisabledParent(j) => {
            let parent = decimal(ov[j].pr_number as nat);
            "PR #"@ + pr + " depends on PR #"@ + parent + " via base branch '"@ + base_ref
                + "', but PR #"@ + parent + " is disabled"@
        },
        DependencyVerdict::ParentLater(j) => "PR #"@ + pr + " depends on PR #"@ + decimal(
            ov[j].pr_number as nat,
        ) + " via base branch '"@ + base_ref + "' and must be ordered after it"@,
        _ => "PR #"@ + pr + " targets base branch '"@ + base_ref
            + "', which is neither the tracked stack base '"@ + ts.base.checkout_ref@
            + "' nor the head branch of an earlier enabled overlay"@,
    }
}

/// The result `overlay_dependency_index` owes for `verdict`.
pub open spec fn dependency_result_matches(
    ts: TrackedRepoState,
    i: int,
    r: AppResult<Option<usize>>,
) -> bool {
    match dependency_verdict(ts, i) {
        DependencyVerdict::OutOfRange => r matches Err(AppError::InvalidInput(m)) && m@
            == "overlay index "@ + decimal(i as nat) + " is out of range"@,
        DependencyVerdict::Independent => r == Ok::<Option<usize>, AppError>(None),
        DependencyVerdict::Parent(j) => r == Ok::<Option<usize>, AppError>(Some(j as usize)),
        _ => r matches Err(AppError::Conflict(m)) && m@ == verdict_message(ts, i),
    }
}

fn remotes_match(left: &str, right: &str) -> (r: bool)
    ensures
        r == remotes_match_spec(left@, right@),
{
    match (canonicalize_remote(left), canonicalize_remote(right)) {
        (Some(l), Some(r)) => eq_ignore_ascii_case_chars(&chars_of(l.as_str()), &chars_of(r.as_str())),
        _ => false,
    }
}

fn overlay_head_repo(overlay: &TrackedPrOverlay) -> (r: Option<String>)
    ensures
        r is None <==> head_repo(*overlay) is None,
        r matches Some(s) ==> head_repo(*overlay) == Some(s@),
{
    match &overlay.pr_head_repo_url {
        Some(u) => canonicalize_remote(u.as_str()),
        None => None,
    }
}

fn overlay_provides_declared_base(parent: &TrackedPrOverlay, child: &TrackedPrOverlay) -> (r: bool)
    ensures
        r == provides_base(*parent, *child),
{
    match &parent.pr_head_ref {
        Some(h) => {
            if !str_eq(h.as_str(), child.pr_base_ref.as_str()) {
                return false;
            }
        },
        None => return false,
    }
    match overlay_head_repo(parent) {
        Some(repo) => remotes_match(repo.as_str(), child.pr_base_repo_url.as_str()),
        None => false,
    }
}

/// Whether `parent`'s head branch is `branch` in the repository `repo`.
pub(crate) fn overlay_provides_branch(parent: &TrackedPrOverlay, branch: &str, repo: &str) -> (r: bool)
    ensures
        r == provides_branch(*parent, branch@, repo@),
{
    match &parent.pr_head_ref {
        Some(h) => {
            if !str_eq(h.as_str(), branch) {
                return false;
            }
        },
        None => return false,
    }
    match overlay_head_repo(parent) {
        Some(r) => remotes_match(r.as_str(), repo),
        None => false,
    }
}

fn pr_tag(prefix: &str, n: u64) -> (r: String)
    ensures
        r@ == prefix@ + decimal(n as nat),
{
    let mut r = String::from_str(prefix);
    let d = u64_decimal(n);
    push_str(&mut r, d.as_str());
    r
}

/// Which earlier overlay, if any, the enabled overlay at `overlay_index`
/// stacks on; an error where its base branch cannot be provided.
pub fn overlay_dependency_index(tracked_state: &TrackedRepoState, overlay_index: usize) -> (r:
    AppResult<Option<usize>>)
    ensures
        dependency_result_matches(*tracked_state, overlay_index as int, r),
{
    let ov = &tracked_state.overlays;
    let ghost ovs = ov@;
    let i = overlay_index;
    if i >= ov.len() {
        let mut m = pr_tag("overlay index ", i as u64);
        push_str(&mut m, " is out of range");
        return Err(AppError::InvalidInput(m));
    }
    let overlay = &ov[i];
    if !overlay.enabled {
        return Ok(None);
    }
    let base_ref = overlay.pr_base_ref.as_str();
    if str_eq(base_ref, tracked_state.base.checkout_ref.as_str()) {
        if remotes_match(
            overlay.pr_base_repo_url.as_str(),
            tracked_state.base.canonical_repo_url.as_str(),
        ) {
            return Ok(None);
        }
        let mut m = pr_tag("PR #", overlay.pr_number);
        push_str(&mut m, " targets branch '");
        push_str(&mut m, base_ref);
        push_str(&mut m, "' in a different repository than the tracked stack base");
        return Err(AppError::Conflict(m));
    }
    let mut enabled: Vec<usize> = Vec::new();
    let mut first_disabled: Option<usize> = None;
    let mut first_later: Option<usize> = None;
    let mut j: usize = 0;
    while j < ov.len()
        invariant
            ov@ == ovs,
            ovs == tracked_state.overlays@,
            i < ovs.len(),
            j <= ovs.len(),
            enabled@.len() == enabled_preds(ovs, i as int, j as int).len(),
            forall|k: int|
                0 <= k < enabled@.len() ==> enabled@[k] as int == enabled_preds(
                    ovs,
                    i as int,
                    j as int,
                )[k],
            forall|k: int| 0 <= k < enabled@.len() ==> enabled@[k] < ovs.len(),
            first_disabled is None <==> first_disabled_pred(ovs, i as int, j as int) is None,
            first_disabled matches Some(x) ==> first_disabled_pred(ovs, i as int, j as int) == Some(
                x as int,
            ),
            first_later is None <==> first_later_provider(ovs, i as int, j as int) is None,
            first_later matches Some(x) ==> first_later_provider(ovs, i as int, j as int) == Some(
                x as int,
            ),
            first_disabled matches Some(x) ==> x < ovs.len(),
            first_later matches Some(x) ==> x < ovs.len(),
        decreases ovs.len() - j,
    {
        let provides = j != i && overlay_provides_declared_base(&ov[j], &ov[i]);
        if provides && j < i && ov[j].enabled {
            enabled.push(j);
        }
        if provides && j < i && !ov[j].enabled && first_disabled.is_none() {
            first_disabled = Some(j);
        }
        if provides && j > i && first_later.is_none() {
            first_later = Some(j);
        }
        j = j + 1;
    }
    if enabled.len() == 1 {
        return Ok(Some(enabled[0]));
    }
    let mut m = pr_tag("PR #", overlay.pr_number);
    if enabled.len() > 1 {
        push_str(&mut m, " targets branch '");
        push_str(&mut m, base_ref);
        push_str(&mut m, "', but multiple earlier enabled overlays provide that branch: ");
        let ghost start = m@;
        let mut k: usize = 0;
        while k < enabled.len()
            invariant
                ov@ == ovs,
                k <= enabled@.len(),
                enabled@.len() == enabled_preds(ovs, i as int, ovs.len() as int).len(),
                forall|q: int|
                    0 <= q < enabled@.len() ==> enabled@[q] as int == enabled_preds(
                        ovs,
                        i as int,
                        ovs.len() as int,
                    )[q],
                forall|q: int| 0 <= q < enabled@.len() ==> enabled@[q] < ovs.len(),
                m@ == start + pr_list(
                    ovs,
                    enabled_preds(ovs, i as int, ovs.len() as int).subrange(0, k as int),
                ),
            decreases enabled@.len() - k,
        {
            let ghost js = enabled_preds(ovs, i as int, ovs.len() as int);
            assert(js.subrange(0, k + 1).drop_last() == js.subrange(0, k as int));
            let tag = if k == 0 {
                pr_tag("#", ov[enabled[k]].pr_number)
            } else {
                pr_tag(", #", ov[enabled[k]].pr_number)
            };
            push_str(&mut m, tag.as_str());
            k = k + 1;
        }
        assert(enabled_preds(ovs, i as int, ovs.len() as int).subrange(0, enabled@.len() as int)
            == enabled_preds(ovs, i as int, ovs.len() as int));
        return Err(AppError::Conflict(m));
    }
    if let Some(p) = first_disabled {
        let parent = u64_decimal(ov[p].pr_number);
        push_str(&mut m, " depends on PR #");
        push_str(&mut m, parent.as_str());
        push_str(&mut m, " via base branch '");
        push_str(&mut m, base_ref);
        push_str(&mut m, "', but PR #");
        push_str(&mut m, parent.as_str());
        push_str(&mut m, " is disabled");
        return Err(AppError::Conflict(m));
    }
    if let Some(p) = first_later {
        let parent = u64_decimal(ov[p].pr_number);
        push_str(&mut m, " depends on PR #");
        push_str(&mut m, parent.as_str());
        push_str(&mut m, " via base branch '");
        push_str(&mut m, base_ref);
        push_str(&mut m, "' and must be ordered after it");
        return Err(AppError::Conflict(m));
    }
    push_str(&mut m, " targets base branch '");
    push_str(&mut m, base_ref);
    push_str(&mut m, "', which is neither the tracked stack base '");
    push_str(&mut m, tracked_state.base.checkout_ref.as_str());
    push_str(&mut m, "' nor the head branch of an earlier enabled overlay");
    Err(AppError::Conflict(m))
}


/// Every enabled overlay has its base branch provided.
pub open spec fn stack_valid(ts: TrackedRepoState) -> bool {
    forall|i: int|
        0 <= i < ts.overlays@.len() && (#[trigger] ts.overlays@[i]).enabled ==> verdict_ok(
            dependency_verdict(ts, i),
        )
}

/// Checks every enabled overlay of the stack in order and reports the first
/// one whose base branch cannot be provided.
pub fn validate_overlay_stack(tracked_state: &TrackedRepoState) -> (r: AppResult<()>)
    ensures
        r is Ok <==> stack_valid(*tracked_state),
        r matches Err(e) ==> exists|i: int|
            0 <= i < tracked_state.overlays@.len() && tracked_state.overlays@[i].enabled
                && !verdict_ok(dependency_verdict(*tracked_state, i)) && (forall|k: int|
                0 <= k < i && (#[trigger] tracked_state.overlays@[k]).enabled ==> verdict_ok(
                    dependency_verdict(*tracked_state, k),
                )) && dependency_result_matches(
                *tracked_state,
                i,
                Err::<Option<usize>, AppError>(e),
            ),
{
    let mut i: usize = 0;
    while i < tracked_state.overlays.len()
        invariant
            i <= tracked_state.overlays@.len(),
            forall|k: int|
                0 <= k < i && (#[trigger] tracked_state.overlays@[k]).enabled ==> verdict_ok(
                    dependency_verdict(*tracked_state, k),
                ),
        decreases tracked_state.overlays@.len() - i,
    {
        if tracked_state.overlays[i].enabled {
            match overlay_dependency_index(tracked_state, i) {
                Ok(_) => {},
                Err(e) => {
                    assert(!verdict_ok(dependency_verdict(*tracked_state, i as int)));
                    return Err(e);
                },
            }
        }
        i = i + 1;
    }
    Ok(())
}

/// A stack is accepted exactly when each enabled overlay's dependency lookup
/// succeeds; a disabled overlay never blocks it.
pub proof fn law_stack_valid_iff_each_enabled_overlay_resolves(ts: TrackedRepoState, i: int)
    requires
        0 <= i < ts.overlays@.len(),
    ensures
        !ts.overlays@[i].enabled ==> dependency_verdict(ts, i) is Independent,
        stack_valid(ts) && ts.overlays@[i].enabled ==> verdict_ok(dependency_verdict(ts, i)),
{
}

/// A resolved parent is an earlier, enabled overlay whose head branch is the
/// child's base branch.
pub proof fn law_parent_is_earlier_enabled_provider(ts: TrackedRepoState, i: int, j: int)
    requires
        dependency_verdict(ts, i) == DependencyVerdict::Parent(j),
    ensures
        0 <= j < i,
        ts.overlays@[j].enabled,
        provides_base(ts.overlays@[j], ts.overlays@[i]),
{
    lemma_enabled_preds_members(ts.overlays@, i, ts.overlays@.len() as int);
}

/// In an accepted stack, every enabled overlay that is not based on the
/// stack's base branch stacks on an overlay that provides its base branch,
/// is enabled, and comes before it: a dependent PR is never ahead of, nor
/// enabled without, nor left behind by the PR whose head branch it targets.
pub proof fn law_valid_stack_orders_dependencies(ts: TrackedRepoState, i: int)
    requires
        stack_valid(ts),
        0 <= i < ts.overlays@.len(),
        ts.overlays@[i].enabled,
        ts.overlays@[i].pr_base_ref@ != ts.base.checkout_ref@,
    ensures
        exists|j: int|
            0 <= j < i && (#[trigger] ts.overlays@[j]).enabled && provides_base(ts.overlays@[j], ts.overlays@[i]),
{
    assert(verdict_ok(dependency_verdict(ts, i)));
    let v = dependency_verdict(ts, i);
    if let DependencyVerdict::Parent(j) = v {
        law_parent_is_earlier_enabled_provider(ts, i, j);
        assert(ts.overlays@[j].enabled);
    }
}

pub proof fn lemma_enabled_preds_members(ov: Seq<TrackedPrOverlay>, i: int, n: int)
    ensures
        forall|k: int|
            0 <= k < enabled_preds(ov, i, n).len() ==> enabled_pred(
                ov,
                i,
                #[trigger] enabled_preds(ov, i, n)[k],
            ) && 0 <= enabled_preds(ov, i, n)[k] < n,
    decreases n,
{
    if n > 0 {
        lemma_enabled_preds_members(ov, i, n - 1);
        let prev = enabled_preds(ov, i, n - 1);
        let cur = enabled_preds(ov, i, n);
        assert forall|k: int| 0 <= k < cur.len() implies enabled_pred(ov, i, #[trigger] cur[k])
            && 0 <= cur[k] < n by {
            if k < prev.len() {
                assert(cur[k] == prev[k]);
            }
        }
    }
}

} // verus!
