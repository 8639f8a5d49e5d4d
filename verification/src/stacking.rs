//! Tracked repository state: a base target with an ordered stack of PR
//! overlays, and the rules that build, check and materialize it.
use vstd::prelude::*;
use crate::errors::{error_text, AppError, AppResult};
use crate::git::{canonical_remote, canonicalize_remote, RepoStatus};
use crate::models::{
    OverlayMoveDirection, ManagedRepo, OperationKind, OperationRecord, OverlayApplyStatus, RepoKind,
    RepoStackPreviewItem, ResolvedTarget, TargetKind, TrackedBaseTarget, TrackedPrOverlay,
    TrackedRepoState,
};
use crate::stack::{
    dependency_verdict, law_parent_is_earlier_enabled_provider, overlay_provides_branch, provides_branch,
    stack_valid, verdict_ok,
};
use crate::text::{
    chars_of, clone_opt, decimal, eq_ignore_ascii_case, eq_ignore_ascii_case_chars, ov, owned, push_char, push_str,
    str_eq, u64_decimal,
};

use crate::text::oqv;

verus! {

/// The format version that tracked state is written in.
pub const STACK_TRACKING_VERSION: u32 = 1;

/// The local branch an overlay stack is materialized on.
pub const STACK_BRANCH_NAME: &'static str = "patcher/stack";

/// `pr-<number>`, the id of the overlay of a pull request.
pub open spec fn overlay_id_spec(pr_number: u64) -> Seq<char> {
    "pr-"@ + decimal(pr_number as nat)
}

pub fn make_overlay_id(pr_number: u64) -> (r: String)
    ensures
        r@ == overlay_id_spec(pr_number),
{
    let mut s = String::from_str("pr-");
    push_str(&mut s, u64_decimal(pr_number).as_str());
    s
}

/// The canonical remote of a resolved target, or the conflict that it has
/// none.
pub fn canonical_target_remote(resolved: &ResolvedTarget) -> (r: AppResult<String>)
    ensures
        r matches Ok(s) ==> canonical_remote(resolved.canonical_repo_url@) == Some(s@),
        r matches Err(e) ==> canonical_remote(resolved.canonical_repo_url@) is None && e
            == AppError::Conflict(e->Conflict_0) && e->Conflict_0@ == "resolved target repo '"@
            + resolved.canonical_repo_url@ + "' could not be canonicalized"@,
{
    match canonicalize_remote(resolved.canonical_repo_url.as_str()) {
        Some(c) => Ok(c),
        None => {
            let mut m = String::from_str("resolved target repo '");
            push_str(&mut m, resolved.canonical_repo_url.as_str());
            push_str(&mut m, "' could not be canonicalized");
            Err(AppError::Conflict(m))
        },
    }
}

/// Whether a resolved target belongs to the repository whose remote is
/// `current`: both must canonicalize, to the same remote but for ASCII case.
pub open spec fn remote_match_error(current: Option<Seq<char>>, target_url: Seq<char>) -> Option<Seq<char>> {
    match current {
        None => Some("managed repository has no canonical remote; cannot validate resolved target repo"@),
        Some(c) => match canonical_remote(c) {
            None => Some("managed repository remote '"@ + c + "' could not be canonicalized for validation"@),
            Some(cc) => match canonical_remote(target_url) {
                None => Some("resolved target repo '"@ + target_url + "' could not be canonicalized for validation"@),
                Some(tc) => if !eq_ignore_ascii_case(cc, tc) {
                    Some("resolved target repo "@ + tc + " does not match managed repo remote "@ + cc)
                } else {
                    None
                },
            },
        },
    }
}


/// Checks that `target` resolves to the repository whose remote is
/// `current`; the conflict says which side failed.
pub fn ensure_remote_matches(current: Option<&str>, target: &ResolvedTarget) -> (r: AppResult<()>)
    ensures
        r is Ok <==> remote_match_error(oqv(current), target.canonical_repo_url@) is None,
        r matches Err(e) ==> (e matches AppError::Conflict(m) && Some(m@) == remote_match_error(
            oqv(current),
            target.canonical_repo_url@,
        )),
{
    let current = match current {
        Some(c) => c,
        None => {
            return Err(
                AppError::Conflict(
                    owned("managed repository has no canonical remote; cannot validate resolved target repo"),
                ),
            )
        },
    };
    let cc = match canonicalize_remote(current) {
        Some(c) => c,
        None => {
            let mut m = String::from_str("managed repository remote '");
            push_str(&mut m, current);
            push_str(&mut m, "' could not be canonicalized for validation");
            return Err(AppError::Conflict(m));
        },
    };
    let tc = match canonicalize_remote(target.canonical_repo_url.as_str()) {
        Some(c) => c,
        None => {
            let mut m = String::from_str("resolved target repo '");
            push_str(&mut m, target.canonical_repo_url.as_str());
            push_str(&mut m, "' could not be canonicalized for validation");
            return Err(AppError::Conflict(m));
        },
    };
    if !eq_ignore_ascii_case_chars(&chars_of(cc.as_str()), &chars_of(tc.as_str())) {
        let mut m = String::from_str("resolved target repo ");
        push_str(&mut m, tc.as_str());
        push_str(&mut m, " does not match managed repo remote ");
        push_str(&mut m, cc.as_str());
        return Err(AppError::Conflict(m));
    }
    Ok(())
}

/// The base target stored for a resolved target: everything but PRs, with
/// the repository in canonical form.
pub fn make_tracked_base_target(resolved: &ResolvedTarget) -> (r: AppResult<TrackedBaseTarget>)
    ensures
        resolved.target_kind == TargetKind::Pr ==> (r matches Err(AppError::Conflict(m)) && m@
            == "pull requests cannot be stored as a repo base target"@),
        resolved.target_kind != TargetKind::Pr && canonical_remote(resolved.canonical_repo_url@)
            is None ==> r is Err,
        r matches Ok(b) ==> {
            &&& resolved.target_kind != TargetKind::Pr
            &&& b.source_input@ == resolved.source_input@
            &&& b.target_kind == resolved.target_kind
            &&& canonical_remote(resolved.canonical_repo_url@) == Some(b.canonical_repo_url@)
            &&& b.checkout_ref@ == resolved.checkout_ref@
            &&& ov(b.resolved_sha) == ov(resolved.resolved_sha)
            &&& b.summary_label@ == resolved.summary_label@
        },
        resolved.target_kind != TargetKind::Pr && canonical_remote(resolved.canonical_repo_url@)
            is Some ==> r is Ok,
{
    if resolved.target_kind == TargetKind::Pr {
        return Err(AppError::Conflict(owned("pull requests cannot be stored as a repo base target")));
    }
    let canonical = canonical_target_remote(resolved)?;
    Ok(TrackedBaseTarget {
        source_input: owned(resolved.source_input.as_str()),
        target_kind: resolved.target_kind,
        canonical_repo_url: canonical,
        checkout_ref: owned(resolved.checkout_ref.as_str()),
        resolved_sha: clone_opt(&resolved.resolved_sha),
        summary_label: owned(resolved.summary_label.as_str()),
    })
}

/// The canonical form of an optional remote.
pub open spec fn canonical_opt(o: Option<Seq<char>>) -> Option<Seq<char>> {
    match o {
        Some(u) => canonical_remote(u),
        None => None,
    }
}

fn canonicalize_opt(o: &Option<String>) -> (r: Option<String>)
    ensures
        ov(r) == canonical_opt(ov(*o)),
{
    match o {
        Some(u) => canonicalize_remote(u.as_str()),
        None => None,
    }
}

/// The first fact an overlay needs from a resolved PR that is missing, as
/// the error message it is reported with.
pub open spec fn overlay_missing(resolved: ResolvedTarget) -> Option<Seq<char>> {
    if resolved.pr_number is None {
        Some("missing PR number"@)
    } else if canonical_opt(ov(resolved.pr_base_repo_url)) is None {
        Some("missing PR base repository"@)
    } else if resolved.pr_base_ref is None {
        Some("missing PR base ref"@)
    } else {
        None
    }
}

/// The overlay `o` carries what the resolved PR says, at `position`.
pub open spec fn overlay_from_resolved(o: TrackedPrOverlay, resolved: ResolvedTarget, position: usize) -> bool {
    &&& o.id@ == overlay_id_spec(resolved.pr_number->0)
    &&& o.source_input@ == resolved.source_input@
    &&& canonical_remote(resolved.canonical_repo_url@) == Some(o.canonical_repo_url@)
    &&& o.pr_number == resolved.pr_number->0
    &&& canonical_opt(ov(resolved.pr_base_repo_url)) == Some(o.pr_base_repo_url@)
    &&& ov(resolved.pr_base_ref) == Some(o.pr_base_ref@)
    &&& ov(o.pr_head_repo_url) == canonical_opt(ov(resolved.pr_head_repo_url))
    &&& ov(o.pr_head_ref) == ov(resolved.pr_head_ref)
    &&& ov(o.resolved_sha) == ov(resolved.resolved_sha)
    &&& o.summary_label@ == resolved.summary_label@
    &&& o.position == position
}

/// A new, enabled overlay for a resolved PR at `position`.
pub fn make_tracked_overlay(resolved: &ResolvedTarget, position: usize) -> (r: AppResult<TrackedPrOverlay>)
    ensures
        overlay_missing(*resolved) matches Some(m) ==> (r matches Err(AppError::Github(x)) && x@ == m),
        overlay_missing(*resolved) is None && canonical_remote(resolved.canonical_repo_url@) is None ==> r is Err,
        overlay_missing(*resolved) is None && canonical_remote(resolved.canonical_repo_url@) is Some ==> r is Ok,
        r matches Ok(o) ==> overlay_from_resolved(o, *resolved, position) && o.enabled
            && o.last_apply_status is None && o.last_error is None,
{
    let pr_number = match resolved.pr_number {
        Some(n) => n,
        None => return Err(AppError::Github(owned("missing PR number"))),
    };
    let pr_base_repo_url = match canonicalize_opt(&resolved.pr_base_repo_url) {
        Some(u) => u,
        None => return Err(AppError::Github(owned("missing PR base repository"))),
    };
    let pr_base_ref = match &resolved.pr_base_ref {
        Some(b) => owned(b.as_str()),
        None => return Err(AppError::Github(owned("missing PR base ref"))),
    };
    let canonical = canonical_target_remote(resolved)?;
    Ok(TrackedPrOverlay {
        id: make_overlay_id(pr_number),
        source_input: owned(resolved.source_input.as_str()),
        canonical_repo_url: canonical,
        pr_number,
        pr_base_repo_url,
        pr_base_ref,
        pr_head_repo_url: canonicalize_opt(&resolved.pr_head_repo_url),
        pr_head_ref: clone_opt(&resolved.pr_head_ref),
        resolved_sha: clone_opt(&resolved.resolved_sha),
        summary_label: owned(resolved.summary_label.as_str()),
        position,
        enabled: true,
        last_apply_status: None,
        last_error: None,
    })
}

/// Refreshes an overlay from its resolved PR and records its apply status;
/// on an error the overlay is left unchanged.
pub fn update_overlay_from_resolved(
    overlay: &mut TrackedPrOverlay,
    resolved: &ResolvedTarget,
    position: usize,
    status: OverlayApplyStatus,
    last_error: Option<String>,
) -> (r: AppResult<()>)
    ensures
        overlay_missing(*resolved) matches Some(m) ==> (r matches Err(AppError::Github(x)) && x@ == m),
        overlay_missing(*resolved) is None && canonical_remote(resolved.canonical_repo_url@) is None ==> r is Err,
        overlay_missing(*resolved) is None && canonical_remote(resolved.canonical_repo_url@) is Some ==> r is Ok,
        r is Err ==> *final(overlay) == *old(overlay),
        r is Ok ==> overlay_from_resolved(*final(overlay), *resolved, position)
            && final(overlay).enabled == old(overlay).enabled
            && final(overlay).last_apply_status == Some(status)
            && ov(final(overlay).last_error) == ov(last_error),
{
    let fresh = make_tracked_overlay(resolved, position)?;
    let enabled = overlay.enabled;
    *overlay = TrackedPrOverlay {
        enabled,
        last_apply_status: Some(status),
        last_error,
        ..fresh
    };
    Ok(())
}

/// Whether a base target can carry an overlay stack: a branch, the default
/// branch or a named ref.
pub open spec fn branch_like(kind: TargetKind) -> bool {
    kind == TargetKind::Branch || kind == TargetKind::DefaultBranch || kind == TargetKind::NamedRef
}

pub fn branch_like_target_kind(kind: &TargetKind) -> (r: bool)
    ensures
        r == branch_like(*kind),
{
    match kind {
        TargetKind::Branch | TargetKind::DefaultBranch | TargetKind::NamedRef => true,
        _ => false,
    }
}

/// Every overlay's position is its index in the stack.
pub open spec fn positions_normalized(overlays: Seq<TrackedPrOverlay>) -> bool {
    forall|i: int| 0 <= i < overlays.len() ==> (#[trigger] overlays[i]).position == i
}

/// `b` is `a` with other positions.
pub open spec fn same_but_position(a: TrackedPrOverlay, b: TrackedPrOverlay) -> bool {
    b == TrackedPrOverlay { position: b.position, ..a }
}

/// The overlays with each position set to its index.
pub open spec fn renumber(s: Seq<TrackedPrOverlay>) -> Seq<TrackedPrOverlay> {
    Seq::new(s.len(), |k: int| TrackedPrOverlay { position: k as usize, ..s[k] })
}

/// Sets every overlay's position to its index; nothing else changes.
pub fn normalize_overlay_positions(tracked_state: &mut TrackedRepoState)
    ensures
        final(tracked_state).overlays.len() == old(tracked_state).overlays.len(),
        positions_normalized(final(tracked_state).overlays@),
        forall|i: int| 0 <= i < old(tracked_state).overlays.len() ==> same_but_position(
            #[trigger] old(tracked_state).overlays@[i],
            final(tracked_state).overlays@[i],
        ),
        final(tracked_state).version == old(tracked_state).version,
        final(tracked_state).base == old(tracked_state).base,
        final(tracked_state).materialized_branch == old(tracked_state).materialized_branch,
        final(tracked_state).overlays@ == renumber(old(tracked_state).overlays@),
{
    let ghost orig = tracked_state.overlays@;
    let mut overlays: Vec<TrackedPrOverlay> = Vec::new();
    std::mem::swap(&mut overlays, &mut tracked_state.overlays);
    let n = overlays.len();
    let mut out: Vec<TrackedPrOverlay> = Vec::new();
    let mut i: usize = 0;
    while i < n
        invariant
            n == orig.len(),
            i <= n,
            overlays@ == orig.subrange(i as int, n as int),
            out.len() == i,
            positions_normalized(out@),
            forall|k: int| 0 <= k < i ==> same_but_position(#[trigger] orig[k], out@[k]),
        decreases n - i,
    {
        let mut o = overlays.remove(0);
        assert(o == orig[i as int]);
        assert(overlays@ == orig.subrange(i + 1, n as int));
        o.position = i;
        out.push(o);
        i = i + 1;
    }
    assert(out@ =~= renumber(orig));
    tracked_state.overlays = out;
}

/// The index of the overlay with `overlay_id`.
pub fn overlay_index(tracked_state: &TrackedRepoState, overlay_id: &str) -> (r: AppResult<usize>)
    ensures
        r matches Ok(i) ==> i < tracked_state.overlays.len() && tracked_state.overlays@[i as int].id@
            == overlay_id@ && forall|k: int|
            0 <= k < i ==> (#[trigger] tracked_state.overlays@[k]).id@ != overlay_id@,
        r is Err ==> (forall|k: int|
            0 <= k < tracked_state.overlays.len() ==> (#[trigger] tracked_state.overlays@[k]).id@
                != overlay_id@) && (r matches Err(AppError::NotFound(m)) && m@ == "overlay '"@
            + overlay_id@ + "' not found"@),
{
    let mut i: usize = 0;
    while i < tracked_state.overlays.len()
        invariant
            i <= tracked_state.overlays.len(),
            forall|k: int| 0 <= k < i ==> (#[trigger] tracked_state.overlays@[k]).id@ != overlay_id@,
        decreases tracked_state.overlays.len() - i,
    {
        if str_eq(tracked_state.overlays[i].id.as_str(), overlay_id) {
            return Ok(i);
        }
        i = i + 1;
    }
    let mut m = String::from_str("overlay '");
    push_str(&mut m, overlay_id);
    push_str(&mut m, "' not found");
    Err(AppError::NotFound(m))
}

/// `<action> for <repo display name>`.
pub fn stack_operation_summary(action: &str, repo: &ManagedRepo) -> (r: String)
    ensures
        r@ == action@ + " for "@ + repo.display_name@,
{
    let mut s = owned(action);
    push_str(&mut s, " for ");
    push_str(&mut s, repo.display_name.as_str());
    s
}

/// The name an apply status is written under (`snake_case`).
pub open spec fn status_name(s: OverlayApplyStatus) -> Seq<char> {
    match s {
        OverlayApplyStatus::Pending => "pending"@,
        OverlayApplyStatus::Applied => "applied"@,
        OverlayApplyStatus::Disabled => "disabled"@,
        OverlayApplyStatus::Conflict => "conflict"@,
        OverlayApplyStatus::Error => "error"@,
    }
}

pub fn status_name_exec(s: OverlayApplyStatus) -> (r: String)
    ensures
        r@ == status_name(s),
{
    match s {
        OverlayApplyStatus::Pending => owned("pending"),
        OverlayApplyStatus::Applied => owned("applied"),
        OverlayApplyStatus::Disabled => owned("disabled"),
        OverlayApplyStatus::Conflict => owned("conflict"),
        OverlayApplyStatus::Error => owned("error"),
    }
}

/// The preview of a stack: the base, then each overlay with whether it is
/// enabled and the name of its last apply status.
pub open spec fn preview_item_ok(item: RepoStackPreviewItem, st: TrackedRepoState, k: int) -> bool {
    if k == 0 {
        item.kind@ == "base"@ && item.label@ == st.base.summary_label@ && item.enabled
            && item.status is None
    } else {
        let o = st.overlays@[k - 1];
        &&& item.kind@ == "overlay"@
        &&& item.label@ == o.summary_label@
        &&& item.enabled == o.enabled
        &&& ov(item.status) == (match o.last_apply_status {
            Some(s) => Some(status_name(s)),
            None => None,
        })
    }
}

pub fn stack_preview_items(tracked_state: &TrackedRepoState) -> (r: Vec<RepoStackPreviewItem>)
    ensures
        r.len() == tracked_state.overlays.len() + 1,
        forall|k: int| 0 <= k < r.len() ==> preview_item_ok(#[trigger] r@[k], *tracked_state, k),
{
    let mut items: Vec<RepoStackPreviewItem> = Vec::new();
    items.push(
        RepoStackPreviewItem {
            kind: owned("base"),
            label: owned(tracked_state.base.summary_label.as_str()),
            enabled: true,
            status: None,
        },
    );
    let mut i: usize = 0;
    while i < tracked_state.overlays.len()
        invariant
            i <= tracked_state.overlays.len(),
            items.len() == i + 1,
            forall|k: int| 0 <= k < items.len() ==> preview_item_ok(#[trigger] items@[k], *tracked_state, k),
        decreases tracked_state.overlays.len() - i,
    {
        let o = &tracked_state.overlays[i];
        let status = match o.last_apply_status {
            Some(s) => Some(status_name_exec(s)),
            None => None,
        };
        items.push(
            RepoStackPreviewItem {
                kind: owned("overlay"),
                label: owned(o.summary_label.as_str()),
                enabled: o.enabled,
                status,
            },
        );
        i = i + 1;
    }
    items
}

/// Before a stack is materialized: the current version, positions equal to
/// indices, no errors, enabled overlays pending and the others disabled.
pub open spec fn prepared_overlay(before: TrackedPrOverlay, after: TrackedPrOverlay, i: int) -> bool {
    after == TrackedPrOverlay {
        position: i as usize,
        last_error: None,
        last_apply_status: Some(
            if before.enabled {
                OverlayApplyStatus::Pending
            } else {
                OverlayApplyStatus::Disabled
            },
        ),
        ..before
    }
}

pub fn prepare_materialization(tracked_state: TrackedRepoState) -> (r: TrackedRepoState)
    ensures
        r.version == STACK_TRACKING_VERSION,
        r.base == tracked_state.base,
        r.materialized_branch == tracked_state.materialized_branch,
        r.overlays.len() == tracked_state.overlays.len(),
        forall|i: int| 0 <= i < r.overlays.len() ==> prepared_overlay(
            #[trigger] tracked_state.overlays@[i],
            r.overlays@[i],
            i,
        ),
{
    let ghost orig = tracked_state.overlays@;
    let TrackedRepoState { version: _, base, overlays, materialized_branch } = tracked_state;
    let n = overlays.len();
    let mut rest = overlays;
    let mut out: Vec<TrackedPrOverlay> = Vec::new();
    let mut i: usize = 0;
    while i < n
        invariant
            n == orig.len(),
            i <= n,
            rest@ == orig.subrange(i as int, n as int),
            out.len() == i,
            forall|k: int| 0 <= k < i ==> prepared_overlay(#[trigger] orig[k], out@[k], k),
        decreases n - i,
    {
        let mut o = rest.remove(0);
        assert(o == orig[i as int]);
        assert(rest@ == orig.subrange(i + 1, n as int));
        o.position = i;
        o.last_error = None;
        o.last_apply_status = Some(
            if o.enabled {
                OverlayApplyStatus::Pending
            } else {
                OverlayApplyStatus::Disabled
            },
        );
        out.push(o);
        i = i + 1;
    }
    TrackedRepoState { version: STACK_TRACKING_VERSION, base, overlays: out, materialized_branch }
}

/// A stack with overlays needs a base that a branch can follow.
pub fn require_branch_like_base(base_kind: &TargetKind, has_overlays: bool) -> (r: AppResult<()>)
    ensures
        r is Ok <==> (!has_overlays || branch_like(*base_kind)),
        r matches Err(e) ==> (e matches AppError::Conflict(m) && m@
            == "PR overlay stacks require a branch-like base target"@),
{
    if has_overlays && !branch_like_target_kind(base_kind) {
        return Err(AppError::Conflict(owned("PR overlay stacks require a branch-like base target")));
    }
    Ok(())
}

/// Some enabled overlay among `earlier` has `branch` as its head branch in
/// the repository `repo`.
pub open spec fn earlier_overlay_provides(
    earlier: Seq<TrackedPrOverlay>,
    branch: Seq<char>,
    repo: Seq<char>,
) -> bool {
    exists|j: int| 0 <= j < earlier.len() && #[trigger] earlier[j].enabled && provides_branch(earlier[j], branch, repo)
}

/// Why an overlay's resolved target cannot join a stack based on
/// `base_ref` whose earlier overlays are `earlier`, as the status the
/// overlay is then given and the detail of the conflict: it must still be a
/// PR of the stack's repository, targeting the stack's base branch or the
/// head branch of an earlier enabled overlay in that repository.
pub open spec fn overlay_stack_problem(
    source_input: Seq<char>,
    resolved: ResolvedTarget,
    repo_remote: Option<Seq<char>>,
    base_ref: Seq<char>,
    earlier: Seq<TrackedPrOverlay>,
) -> Option<(OverlayApplyStatus, Seq<char>)> {
    let base = match ov(resolved.pr_base_ref) {
        Some(b) => b,
        None => Seq::empty(),
    };
    let number: u64 = match resolved.pr_number {
        Some(n) => n,
        None => 0,
    };
    if resolved.target_kind != TargetKind::Pr {
        Some((OverlayApplyStatus::Error, "overlay '"@ + source_input + "' no longer resolves to a pull request"@))
    } else if remote_match_error(repo_remote, resolved.canonical_repo_url@) is Some {
        Some((OverlayApplyStatus::Error, remote_match_error(repo_remote, resolved.canonical_repo_url@)->0))
    } else if base != base_ref && !earlier_overlay_provides(earlier, base, resolved.canonical_repo_url@) {
        Some(
            (
                OverlayApplyStatus::Conflict,
                "PR #"@ + decimal(number as nat) + " targets base branch '"@ + base
                    + "' but this stack is based on '"@ + base_ref + "'"@,
            ),
        )
    } else {
        None
    }
}

/// Checks that an overlay's resolved target can join the stack based on
/// `base_ref`, after the overlays `earlier`; the error carries the status the
/// overlay is given.
pub fn check_overlay_for_stack(
    source_input: &str,
    resolved: &ResolvedTarget,
    repo_remote: Option<&str>,
    base_ref: &str,
    earlier: &[TrackedPrOverlay],
) -> (r: Result<(), (OverlayApplyStatus, AppError)>)
    ensures
        r is Ok <==> overlay_stack_problem(source_input@, *resolved, oqv(repo_remote), base_ref@, earlier@) is None,
        r matches Err((st, e)) ==> (e matches AppError::Conflict(m) && overlay_stack_problem(
            source_input@,
            *resolved,
            oqv(repo_remote),
            base_ref@,
            earlier@,
        ) == Some((st, m@))),
{
    if resolved.target_kind != TargetKind::Pr {
        let mut m = String::from_str("overlay '");
        push_str(&mut m, source_input);
        push_str(&mut m, "' no longer resolves to a pull request");
        return Err((OverlayApplyStatus::Error, AppError::Conflict(m)));
    }
    if let Err(e) = ensure_remote_matches(repo_remote, resolved) {
        return Err((OverlayApplyStatus::Error, e));
    }
    let base = match &resolved.pr_base_ref {
        Some(b) => owned(b.as_str()),
        None => String::new(),
    };
    assert(base@ == match ov(resolved.pr_base_ref) {
        Some(b) => b,
        None => Seq::<char>::empty(),
    });
    if str_eq(base.as_str(), base_ref) {
        return Ok(());
    }
    let mut j: usize = 0;
    while j < earlier.len()
        invariant
            j <= earlier@.len(),
            resolved.target_kind == TargetKind::Pr,
            remote_match_error(oqv(repo_remote), resolved.canonical_repo_url@) is None,
            base@ == match ov(resolved.pr_base_ref) {
                Some(b) => b,
                None => Seq::<char>::empty(),
            },
            base@ != base_ref@,
            forall|k: int|
                0 <= k < j ==> !(#[trigger] earlier@[k].enabled && provides_branch(
                    earlier@[k],
                    base@,
                    resolved.canonical_repo_url@,
                )),
        decreases earlier@.len() - j,
    {
        if earlier[j].enabled && overlay_provides_branch(
            &earlier[j],
            base.as_str(),
            resolved.canonical_repo_url.as_str(),
        ) {
            assert(earlier_overlay_provides(earlier@, base@, resolved.canonical_repo_url@));
            return Ok(());
        }
        j = j + 1;
    }
    let number: u64 = match resolved.pr_number {
        Some(n) => n,
        None => 0,
    };
    let mut m = String::from_str("PR #");
    push_str(&mut m, u64_decimal(number).as_str());
    push_str(&mut m, " targets base branch '");
    push_str(&mut m, base.as_str());
    push_str(&mut m, "' but this stack is based on '");
    push_str(&mut m, base_ref);
    push_str(&mut m, "'");
    Err((OverlayApplyStatus::Conflict, AppError::Conflict(m)))
}

/// In a stack that `validate_overlay_stack` accepts, an enabled overlay
/// whose fresh resolution is still a PR of the repository, with the base
/// branch and base repository it was recorded with, fits the stack when it is
/// materialized after the overlays before it: its base is the stack base or
/// the head branch of an earlier enabled overlay.
pub proof fn law_valid_stack_overlay_fits(
    ts: TrackedRepoState,
    i: int,
    source_input: Seq<char>,
    resolved: ResolvedTarget,
    repo_remote: Option<Seq<char>>,
)
    requires
        stack_valid(ts),
        0 <= i < ts.overlays@.len(),
        ts.overlays@[i].enabled,
        resolved.target_kind == TargetKind::Pr,
        remote_match_error(repo_remote, resolved.canonical_repo_url@) is None,
        ov(resolved.pr_base_ref) == Some(ts.overlays@[i].pr_base_ref@),
        canonical_remote(ts.overlays@[i].pr_base_repo_url@) == canonical_remote(resolved.canonical_repo_url@),
    ensures
        overlay_stack_problem(
            source_input,
            resolved,
            repo_remote,
            ts.base.checkout_ref@,
            ts.overlays@.subrange(0, i),
        ) is None,
{
    let ovs = ts.overlays@;
    assert(verdict_ok(dependency_verdict(ts, i)));
    if ovs[i].pr_base_ref@ != ts.base.checkout_ref@ {
        let j = dependency_verdict(ts, i)->Parent_0;
        law_parent_is_earlier_enabled_provider(ts, i, j);
        let earlier = ovs.subrange(0, i);
        assert(earlier[j] == ovs[j]);
        assert(provides_branch(earlier[j], ovs[i].pr_base_ref@, resolved.canonical_repo_url@));
        assert(earlier_overlay_provides(earlier, ovs[i].pr_base_ref@, resolved.canonical_repo_url@));
    }
}

/// Records that applying an overlay failed: its status and the error's text.
pub fn record_overlay_failure(overlay: &mut TrackedPrOverlay, status: OverlayApplyStatus, err: &AppError)
    ensures
        *final(overlay) == (TrackedPrOverlay {
            last_apply_status: Some(status),
            last_error: final(overlay).last_error,
            ..*old(overlay)
        }),
        ov(final(overlay).last_error) == Some(error_text(*err)),
{
    overlay.last_apply_status = Some(status);
    overlay.last_error = Some(err.message());
}

/// The local ref a PR overlay is fetched into, the refspec that fetches it
/// and the message of the merge that applies it.
pub fn overlay_merge_refs(pr_number: u64) -> (r: (String, String, String))
    ensures
        r.0@ == "patcher/pr-"@ + decimal(pr_number as nat),
        r.1@ == "pull/"@ + decimal(pr_number as nat) + "/head:"@ + r.0@,
        r.2@ == "patcher stack: merge PR #"@ + decimal(pr_number as nat),
{
    let n = u64_decimal(pr_number);
    let mut local = String::from_str("patcher/pr-");
    push_str(&mut local, n.as_str());
    let mut refspec = String::from_str("pull/");
    push_str(&mut refspec, n.as_str());
    push_str(&mut refspec, "/head:");
    push_str(&mut refspec, local.as_str());
    let mut message = String::from_str("patcher stack: merge PR #");
    push_str(&mut message, n.as_str());
    (local, refspec, message)
}

/// The error for a failed step whose undo failed too: both texts, as a git
/// error.
pub fn restore_checkpoint_error(primary: &AppError, restore_error: &AppError) -> (r: AppError)
    ensures
        r matches AppError::Git(m) && m@ == error_text(*primary)
            + "; additionally failed to restore the previous checkout: "@ + error_text(*restore_error),
{
    let mut m = primary.message();
    push_str(&mut m, "; additionally failed to restore the previous checkout: ");
    push_str(&mut m, restore_error.message().as_str());
    AppError::Git(m)
}

/// What to do after a merge failed and git was asked whether a merge is in
/// progress: abort it, or report.
pub enum MergeFailureStep {
    Abort(AppError),
    Report(AppError),
}

pub fn merge_failure_after_probe(err: AppError, probe: AppResult<bool>) -> (r: MergeFailureStep)
    ensures
        probe matches Ok(true) ==> r == MergeFailureStep::Abort(err),
        probe matches Ok(false) ==> r == MergeFailureStep::Report(err),
        probe matches Err(p) ==> (r matches MergeFailureStep::Report(e) && e matches AppError::Git(m)
            && m@ == error_text(err) + "; additionally failed to restore the previous checkout: "@
            + error_text(p)),
{
    match probe {
        Ok(true) => MergeFailureStep::Abort(err),
        Ok(false) => MergeFailureStep::Report(err),
        Err(p) => MergeFailureStep::Report(restore_checkpoint_error(&err, &p)),
    }
}

pub fn merge_failure_after_abort(err: AppError, abort: AppResult<()>) -> (r: AppError)
    ensures
        abort is Ok ==> r == err,
        abort matches Err(a) ==> (r matches AppError::Git(m) && m@ == error_text(err)
            + "; additionally failed to restore the previous checkout: "@ + error_text(a)),
{
    match abort {
        Ok(()) => err,
        Err(a) => restore_checkpoint_error(&err, &a),
    }
}

/// Lifecycle actions do not apply to the primary ComfyUI checkout.
pub fn ensure_repo_lifecycle_supported(repo: &ManagedRepo, action: &str) -> (r: AppResult<()>)
    ensures
        r is Ok <==> repo.kind != RepoKind::Core,
        r matches Err(e) ==> (e matches AppError::Conflict(m) && m@ == action@
            + " is not supported for the primary ComfyUI checkout"@),
{
    if repo.kind == RepoKind::Core {
        let mut m = owned(action);
        push_str(&mut m, " is not supported for the primary ComfyUI checkout");
        return Err(AppError::Conflict(m));
    }
    Ok(())
}

/// The reason recorded with the checkpoint taken before an operation: the
/// operation's requested input, else the repository's name.
pub open spec fn checkpoint_reason_of(requested_input: Option<Seq<char>>, display_name: Seq<char>) -> Seq<char> {
    match requested_input {
        Some(i) => i,
        None => display_name,
    }
}

/// The label of the checkpoint taken before an operation of `kind`.
pub open spec fn checkpoint_label_of(
    kind: OperationKind,
    requested_input: Option<Seq<char>>,
    display_name: Seq<char>,
) -> Seq<char> {
    let reason = checkpoint_reason_of(requested_input, display_name);
    let name = display_name;
    match kind {
        OperationKind::PatchCore | OperationKind::PatchFrontend | OperationKind::PatchCustomNode
        | OperationKind::ManageRepoStack
        | OperationKind::RematerializeTrackedRepos => "Before applying "@ + reason,
        OperationKind::InstallFrontend | OperationKind::InstallCustomNode => "Before installing "@ + reason,
        OperationKind::UpdateRepo | OperationKind::UpdateAll => "Before updating "@ + name,
        OperationKind::RollbackRepo | OperationKind::RestoreCheckpoint => "Before restoring "@ + name,
        OperationKind::DisableRepo => "Before disabling "@ + name,
        OperationKind::UninstallRepo => "Before uninstalling "@ + name,
        OperationKind::UntrackRepo => "Before untracking "@ + name,
        OperationKind::StartInstallation | OperationKind::StopInstallation
        | OperationKind::RestartInstallation => "Before lifecycle action on "@ + name,
    }
}

/// The label and reason of the checkpoint taken before an operation of
/// `kind`, asked for with `requested_input`, on the repository `display_name`.
pub fn checkpoint_label_for_kind(kind: OperationKind, requested_input: Option<&str>, display_name: &str) -> (r: (
    String,
    String,
))
    ensures
        r.0@ == checkpoint_label_of(kind, oqv(requested_input), display_name@),
        r.1@ == checkpoint_reason_of(oqv(requested_input), display_name@),
{
    let reason = match requested_input {
        Some(i) => owned(i),
        None => owned(display_name),
    };
    let name = display_name;
    let (prefix, subject) = match kind {
        OperationKind::PatchCore | OperationKind::PatchFrontend | OperationKind::PatchCustomNode
        | OperationKind::ManageRepoStack
        | OperationKind::RematerializeTrackedRepos => ("Before applying ", reason.as_str()),
        OperationKind::InstallFrontend | OperationKind::InstallCustomNode => ("Before installing ", reason.as_str()),
        OperationKind::UpdateRepo | OperationKind::UpdateAll => ("Before updating ", name),
        OperationKind::RollbackRepo | OperationKind::RestoreCheckpoint => ("Before restoring ", name),
        OperationKind::DisableRepo => ("Before disabling ", name),
        OperationKind::UninstallRepo => ("Before uninstalling ", name),
        OperationKind::UntrackRepo => ("Before untracking ", name),
        OperationKind::StartInstallation | OperationKind::StopInstallation
        | OperationKind::RestartInstallation => ("Before lifecycle action on ", name),
    };
    let mut label = owned(prefix);
    push_str(&mut label, subject);
    (label, reason)
}

/// The label and reason of the checkpoint taken before `operation` on `repo`.
pub fn checkpoint_label_and_reason(operation: &OperationRecord, repo: &ManagedRepo) -> (r: (String, String))
    ensures
        r.0@ == checkpoint_label_of(operation.kind, ov(operation.requested_input), repo.display_name@),
        r.1@ == checkpoint_reason_of(ov(operation.requested_input), repo.display_name@),
{
    let requested = match &operation.requested_input {
        Some(i) => Some(i.as_str()),
        None => None,
    };
    checkpoint_label_for_kind(operation.kind, requested, repo.display_name.as_str())
}

/// Whether git reports changes to tracked files.
pub fn repo_has_tracked_local_changes(status: &RepoStatus) -> (r: bool)
    ensures
        r == (status.tracked_changed_files.len() > 0),
{
    status.tracked_changed_files.len() > 0
}

/// A character kept in a preview ref name: ASCII letters and digits, `-`,
/// `_` and `.`.
pub open spec fn ref_name_char(c: char) -> bool {
    ('a' <= c && c <= 'z') || ('A' <= c && c <= 'Z') || ('0' <= c && c <= '9') || c == '-'
        || c == '_' || c == '.'
}

pub open spec fn sanitize_ref_part(s: Seq<char>) -> Seq<char> {
    s.map_values(|c: char| if ref_name_char(c) {
        c
    } else {
        '-'
    })
}

/// `refs/patcher/previews/<prefix>-<suffix>`, with every other character of
/// the suffix replaced by `-`.
pub fn preview_ref_name(prefix: &str, suffix: &str) -> (r: String)
    ensures
        r@ == "refs/patcher/previews/"@ + prefix@ + "-"@ + sanitize_ref_part(suffix@),
{
    let cs = chars_of(suffix);
    let mut r = String::from_str("refs/patcher/previews/");
    push_str(&mut r, prefix);
    push_str(&mut r, "-");
    let ghost start = r@;
    let mut i: usize = 0;
    while i < cs.len()
        invariant
            i <= cs.len(),
            r@ == start + sanitize_ref_part(cs@.subrange(0, i as int)),
        decreases cs.len() - i,
    {
        let c = cs[i];
        let keep = ('a' <= c && c <= 'z') || ('A' <= c && c <= 'Z') || ('0' <= c && c <= '9')
            || c == '-' || c == '_' || c == '.';
        push_char(&mut r, if keep { c } else { '-' });
        assert(sanitize_ref_part(cs@.subrange(0, i + 1)) == sanitize_ref_part(cs@.subrange(0, i as int)).push(
            if keep { c } else { '-' },
        ));
        i = i + 1;
    }
    assert(cs@.subrange(0, cs.len() as int) == cs@);
    r
}


/// The index of the first overlay with id `id`, or -1.
pub open spec fn find_overlay(s: Seq<TrackedPrOverlay>, id: Seq<char>) -> int
    decreases s.len(),
{
    if s.len() == 0 {
        -1
    } else if find_overlay(s.drop_last(), id) >= 0 {
        find_overlay(s.drop_last(), id)
    } else if s.last().id@ == id {
        s.len() - 1
    } else {
        -1
    }
}

pub proof fn lemma_find_overlay(s: Seq<TrackedPrOverlay>, id: Seq<char>)
    ensures
        -1 <= find_overlay(s, id) < s.len(),
        find_overlay(s, id) >= 0 ==> s[find_overlay(s, id)].id@ == id,
        forall|k: int| 0 <= k < s.len() && (find_overlay(s, id) < 0 || k < find_overlay(s, id)) ==> (#[trigger] s[k]).id@ != id,
    decreases s.len(),
{
    if s.len() > 0 {
        lemma_find_overlay(s.drop_last(), id);
        assert forall|k: int| 0 <= k < s.len() && (find_overlay(s, id) < 0 || k < find_overlay(s, id)) implies (#[trigger] s[k]).id@ != id by {
            if k < s.len() - 1 {
                assert(s[k] == s.drop_last()[k]);
            }
        }
    }
}

/// The overlay's id occurs once in the stack at most.
pub open spec fn ids_distinct(s: Seq<TrackedPrOverlay>) -> bool {
    forall|i: int, j: int| 0 <= i < j < s.len() ==> (#[trigger] s[i]).id@ != (#[trigger] s[j]).id@
}

/// The index an overlay at `index` moves to: one up or down, where the
/// stack goes on in that direction.
pub open spec fn move_target(index: int, len: int, direction: OverlayMoveDirection) -> int {
    match direction {
        OverlayMoveDirection::Up => if index > 0 {
            index - 1
        } else {
            index
        },
        OverlayMoveDirection::Down => if index + 1 < len {
            index + 1
        } else {
            index
        },
    }
}

pub open spec fn swap_at(s: Seq<TrackedPrOverlay>, i: int, j: int) -> Seq<TrackedPrOverlay> {
    s.update(i, s[j]).update(j, s[i])
}

/// The stack after moving the overlay `id` one step: swapped with its
/// neighbour and renumbered, or unchanged at the end of the stack.
pub open spec fn moved_overlays(s: Seq<TrackedPrOverlay>, id: Seq<char>, direction: OverlayMoveDirection) -> Seq<TrackedPrOverlay> {
    let i = find_overlay(s, id);
    let t = move_target(i, s.len() as int, direction);
    if t == i {
        s
    } else {
        renumber(swap_at(s, i, t))
    }
}

/// The error for a stack operation on an overlay that is not there.
pub open spec fn overlay_not_found(id: Seq<char>) -> Seq<char> {
    "overlay '"@ + id + "' not found"@
}

proof fn lemma_overlay_index_is_find(s: Seq<TrackedPrOverlay>, id: Seq<char>, i: int)
    requires
        0 <= i < s.len(),
        s[i].id@ == id,
        forall|k: int| 0 <= k < i ==> (#[trigger] s[k]).id@ != id,
    ensures
        find_overlay(s, id) == i,
{
    lemma_find_overlay(s, id);
}

/// Moves the overlay `overlay_id` one step up or down the stack.
pub fn move_overlay(tracked_state: &mut TrackedRepoState, overlay_id: &str, direction: OverlayMoveDirection) -> (r: AppResult<()>)
    ensures
        r is Err <==> find_overlay(old(tracked_state).overlays@, overlay_id@) < 0,
        r matches Err(e) ==> (e matches AppError::NotFound(m) && m@ == overlay_not_found(overlay_id@)),
        r is Err ==> *final(tracked_state) == *old(tracked_state),
        r is Ok ==> final(tracked_state).overlays@ == moved_overlays(old(tracked_state).overlays@, overlay_id@, direction),
        final(tracked_state).version == old(tracked_state).version,
        final(tracked_state).base == old(tracked_state).base,
        final(tracked_state).materialized_branch == old(tracked_state).materialized_branch,
{
    let ghost s0 = tracked_state.overlays@;
    proof {
        lemma_find_overlay(s0, overlay_id@);
    }
    let index = match overlay_index(tracked_state, overlay_id) {
        Ok(i) => i,
        Err(e) => return Err(e),
    };
    proof {
        lemma_overlay_index_is_find(s0, overlay_id@, index as int);
    }
    let len = tracked_state.overlays.len();
    let target: usize = match direction {
        OverlayMoveDirection::Up => if index > 0 {
            index - 1
        } else {
            index
        },
        OverlayMoveDirection::Down => if index + 1 < len {
            index + 1
        } else {
            index
        },
    };
    if target != index {
        let a = tracked_state.overlays.remove(index);
        tracked_state.overlays.insert(target, a);
        assert(tracked_state.overlays@ =~= swap_at(s0, index as int, target as int));
        normalize_overlay_positions(tracked_state);
    }
    Ok(())
}

/// Moving an overlay up and then back down gives the stack it started from,
/// renumbered; with ids that occur once and positions that are indices,
/// exactly the stack it started from.
pub proof fn law_move_up_then_down(s: Seq<TrackedPrOverlay>, id: Seq<char>)
    requires
        ids_distinct(s),
        find_overlay(s, id) > 0,
    ensures
        moved_overlays(moved_overlays(s, id, OverlayMoveDirection::Up), id, OverlayMoveDirection::Down) == renumber(s),
        positions_normalized(s) ==> moved_overlays(moved_overlays(s, id, OverlayMoveDirection::Up), id, OverlayMoveDirection::Down) == s,
{
    lemma_find_overlay(s, id);
    let i = find_overlay(s, id);
    let s1 = moved_overlays(s, id, OverlayMoveDirection::Up);
    assert(s1 == renumber(swap_at(s, i, i - 1)));
    assert(s1[i - 1].id@ == id);
    assert forall|k: int| 0 <= k < i - 1 implies (#[trigger] s1[k]).id@ != id by {
        assert(s1[k].id == s[k].id);
        assert(s[k].id@ != s[i].id@);
    }
    lemma_overlay_index_is_find(s1, id, i - 1);
    let s2 = moved_overlays(s1, id, OverlayMoveDirection::Down);
    assert(s2 == renumber(swap_at(s1, i - 1, i)));
    assert(s2 =~= renumber(s));
    if positions_normalized(s) {
        assert forall|k: int| 0 <= k < s.len() implies renumber(s)[k] == s[k] by {
            assert(s[k].position == k);
        }
        assert(renumber(s) =~= s);
    }
}

/// Sets whether the overlay `overlay_id` is applied.
pub fn set_overlay_enabled(tracked_state: &mut TrackedRepoState, overlay_id: &str, enabled: bool) -> (r: AppResult<()>)
    ensures
        r is Err <==> find_overlay(old(tracked_state).overlays@, overlay_id@) < 0,
        r matches Err(e) ==> (e matches AppError::NotFound(m) && m@ == overlay_not_found(overlay_id@)),
        r is Err ==> *final(tracked_state) == *old(tracked_state),
        r is Ok ==> final(tracked_state).overlays@ == old(tracked_state).overlays@.update(
            find_overlay(old(tracked_state).overlays@, overlay_id@),
            TrackedPrOverlay {
                enabled,
                ..old(tracked_state).overlays@[find_overlay(old(tracked_state).overlays@, overlay_id@)]
            },
        ),
        final(tracked_state).version == old(tracked_state).version,
        final(tracked_state).base == old(tracked_state).base,
        final(tracked_state).materialized_branch == old(tracked_state).materialized_branch,
{
    let ghost s0 = tracked_state.overlays@;
    proof {
        lemma_find_overlay(s0, overlay_id@);
    }
    let index = match overlay_index(tracked_state, overlay_id) {
        Ok(i) => i,
        Err(e) => return Err(e),
    };
    proof {
        lemma_overlay_index_is_find(s0, overlay_id@, index as int);
    }
    let mut o = tracked_state.overlays.remove(index);
    o.enabled = enabled;
    tracked_state.overlays.insert(index, o);
    assert(tracked_state.overlays@ =~= s0.update(index as int, TrackedPrOverlay { enabled, ..s0[index as int] }));
    Ok(())
}

/// The stack branch while overlays remain, none once the stack is empty.
pub open spec fn stack_branch_for(n: nat) -> Option<Seq<char>> {
    if n > 0 {
        Some("patcher/stack"@)
    } else {
        None
    }
}

/// Removes the overlay `overlay_id` from the stack and renumbers the rest.
pub fn remove_overlay(tracked_state: &mut TrackedRepoState, overlay_id: &str) -> (r: AppResult<()>)
    ensures
        r is Err <==> find_overlay(old(tracked_state).overlays@, overlay_id@) < 0,
        r matches Err(e) ==> (e matches AppError::NotFound(m) && m@ == overlay_not_found(overlay_id@)),
        r is Err ==> *final(tracked_state) == *old(tracked_state),
        r is Ok ==> final(tracked_state).overlays@ == renumber(
            old(tracked_state).overlays@.remove(find_overlay(old(tracked_state).overlays@, overlay_id@)),
        ) && ov(final(tracked_state).materialized_branch) == stack_branch_for(final(tracked_state).overlays.len() as nat),
        final(tracked_state).version == old(tracked_state).version,
        final(tracked_state).base == old(tracked_state).base,
{
    let ghost s0 = tracked_state.overlays@;
    proof {
        lemma_find_overlay(s0, overlay_id@);
    }
    let index = match overlay_index(tracked_state, overlay_id) {
        Ok(i) => i,
        Err(e) => return Err(e),
    };
    proof {
        lemma_overlay_index_is_find(s0, overlay_id@, index as int);
    }
    tracked_state.overlays.remove(index);
    normalize_overlay_positions(tracked_state);
    tracked_state.materialized_branch = if tracked_state.overlays.len() > 0 {
        Some(owned(STACK_BRANCH_NAME))
    } else {
        None
    };
    proof {
        reveal_strlit("patcher/stack");
    }
    Ok(())
}

/// PR numbers occur once in the stack at most.
pub open spec fn prs_distinct(s: Seq<TrackedPrOverlay>) -> bool {
    forall|i: int, j: int| 0 <= i < j < s.len() ==> (#[trigger] s[i]).pr_number != (#[trigger] s[j]).pr_number
}

pub open spec fn has_pr(s: Seq<TrackedPrOverlay>, pr: u64) -> bool {
    exists|k: int| 0 <= k < s.len() && (#[trigger] s[k]).pr_number == pr
}

/// Adds an overlay for a PR at the end of the stack, unless the stack
/// already holds that PR; a stack that grows is renumbered and materialized
/// on the stack branch.
pub fn push_overlay(tracked_state: &mut TrackedRepoState, overlay: TrackedPrOverlay)
    ensures
        has_pr(old(tracked_state).overlays@, overlay.pr_number) ==> *final(tracked_state) == *old(tracked_state),
        final(tracked_state).overlays@ == pushed_overlays(old(tracked_state).overlays@, overlay),
        !has_pr(old(tracked_state).overlays@, overlay.pr_number) ==> ov(final(tracked_state).materialized_branch)
            == Some("patcher/stack"@),
        final(tracked_state).version == old(tracked_state).version,
        final(tracked_state).base == old(tracked_state).base,
        prs_distinct(old(tracked_state).overlays@) ==> prs_distinct(final(tracked_state).overlays@),
{
    let ghost s0 = tracked_state.overlays@;
    let mut i: usize = 0;
    while i < tracked_state.overlays.len()
        invariant
            s0 == tracked_state.overlays@,
            i <= tracked_state.overlays.len(),
            forall|k: int| 0 <= k < i ==> (#[trigger] s0[k]).pr_number != overlay.pr_number,
        decreases tracked_state.overlays.len() - i,
    {
        if tracked_state.overlays[i].pr_number == overlay.pr_number {
            assert(has_pr(s0, overlay.pr_number));
            return;
        }
        i = i + 1;
    }
    assert(!has_pr(s0, overlay.pr_number));
    tracked_state.overlays.push(overlay);
    normalize_overlay_positions(tracked_state);
    tracked_state.materialized_branch = Some(owned(STACK_BRANCH_NAME));
    proof {
        reveal_strlit("patcher/stack");
        let s1 = tracked_state.overlays@;
        if prs_distinct(s0) {
            assert forall|a: int, b: int| 0 <= a < b < s1.len() implies (#[trigger] s1[a]).pr_number != (#[trigger] s1[b]).pr_number by {
                assert(s1[a].pr_number == s0.push(overlay)[a].pr_number);
                assert(s1[b].pr_number == s0.push(overlay)[b].pr_number);
            }
        }
    }
}

/// The stack after adding an overlay: unchanged where it holds the PR,
/// else with the overlay appended and renumbered.
pub open spec fn pushed_overlays(s: Seq<TrackedPrOverlay>, o: TrackedPrOverlay) -> Seq<TrackedPrOverlay> {
    if has_pr(s, o.pr_number) {
        s
    } else {
        renumber(s.push(o))
    }
}

/// Adding the same PR twice adds it once.
pub proof fn law_push_overlay_idempotent(s: Seq<TrackedPrOverlay>, o: TrackedPrOverlay)
    ensures
        pushed_overlays(pushed_overlays(s, o), o) == pushed_overlays(s, o),
{
    if !has_pr(s, o.pr_number) {
        let n = renumber(s.push(o));
        assert(n[s.len() as int].pr_number == o.pr_number);
        assert(has_pr(n, o.pr_number));
    }
}

/// A stack operation needs a tracked stack.
pub fn require_tracked_stack(tracked_state: Option<TrackedRepoState>) -> (r: AppResult<TrackedRepoState>)
    ensures
        tracked_state matches Some(t) ==> r == Ok::<TrackedRepoState, AppError>(t),
        tracked_state is None ==> (r matches Err(AppError::InvalidInput(m)) && m@ == "repo has no tracked stack"@),
{
    match tracked_state {
        Some(t) => Ok(t),
        None => Err(AppError::InvalidInput(owned("repo has no tracked stack"))),
    }
}

/// The state tracked after a new base target: the base alone, unless the
/// repository tracks overlays that the caller did not agree to clear.
pub fn base_tracked_state(resolved: &ResolvedTarget, existing_has_overlays: bool, clear_overlays: bool) -> (r: AppResult<TrackedRepoState>)
    ensures
        resolved.target_kind == TargetKind::Pr ==> (r matches Err(AppError::Conflict(m)) && m@
            == "pull requests cannot be applied through the base-target flow"@),
        resolved.target_kind != TargetKind::Pr && existing_has_overlays && !clear_overlays ==> (r matches Err(AppError::Conflict(m)) && m@
            == "repo already tracks PR overlays; use the explicit base replacement flow to clear them before changing the base target"@),
        r matches Ok(t) ==> t.version == STACK_TRACKING_VERSION && t.overlays.len() == 0 && t.materialized_branch is None
            && canonical_remote(resolved.canonical_repo_url@) == Some(t.base.canonical_repo_url@)
            && t.base.source_input@ == resolved.source_input@ && t.base.target_kind == resolved.target_kind
            && t.base.checkout_ref@ == resolved.checkout_ref@ && ov(t.base.resolved_sha) == ov(resolved.resolved_sha)
            && t.base.summary_label@ == resolved.summary_label@,
        resolved.target_kind != TargetKind::Pr && !(existing_has_overlays && !clear_overlays) ==> (r is Ok
            <==> canonical_remote(resolved.canonical_repo_url@) is Some),
{
    if resolved.target_kind == TargetKind::Pr {
        return Err(AppError::Conflict(owned("pull requests cannot be applied through the base-target flow")));
    }
    if existing_has_overlays && !clear_overlays {
        return Err(
            AppError::Conflict(
                owned(
                    "repo already tracks PR overlays; use the explicit base replacement flow to clear them before changing the base target",
                ),
            ),
        );
    }
    let base = make_tracked_base_target(resolved)?;
    Ok(TrackedRepoState { version: STACK_TRACKING_VERSION, base, overlays: Vec::new(), materialized_branch: None })
}

/// What adding a PR overlay needs of the resolved PR: its base branch and
/// the canonical remote of its base repository (else of the PR's own).
pub fn pr_base_facts(resolved: &ResolvedTarget) -> (r: AppResult<(String, String)>)
    ensures
        resolved.pr_base_ref is None ==> (r matches Err(AppError::Github(m)) && m@ == "resolved PR is missing a base ref"@),
        resolved.pr_base_ref matches Some(b) ==> match (match canonical_opt(ov(resolved.pr_base_repo_url)) {
            Some(c) => Some(c),
            None => canonical_remote(resolved.canonical_repo_url@),
        }) {
            Some(c) => r matches Ok(x) && x.0@ == b@ && x.1@ == c,
            None => r matches Err(AppError::Github(m)) && m@ == "resolved PR base repo could not be canonicalized"@,
        },
{
    let base_ref = match &resolved.pr_base_ref {
        Some(b) => owned(b.as_str()),
        None => return Err(AppError::Github(owned("resolved PR is missing a base ref"))),
    };
    let canonical = match canonicalize_opt(&resolved.pr_base_repo_url) {
        Some(c) => c,
        None => match canonicalize_remote(resolved.canonical_repo_url.as_str()) {
            Some(c) => c,
            None => return Err(AppError::Github(owned("resolved PR base repo could not be canonicalized"))),
        },
    };
    Ok((base_ref, canonical))
}

/// The stack a PR joins: the tracked one, with its base refreshed from
/// `existing_base`, where it has a branch-like base on the PR's base branch;
/// else a new stack on that branch.
pub fn stack_for_pr(
    existing: Option<TrackedRepoState>,
    existing_base: &ResolvedTarget,
    base_ref: &str,
    canonical_repo_url: String,
) -> (r: AppResult<TrackedRepoState>)
    ensures
        existing is None ==> (r matches Ok(t) && t.version == STACK_TRACKING_VERSION && t.overlays.len() == 0
            && ov(t.materialized_branch) == Some("patcher/stack"@) && t.base.source_input@ == base_ref@
            && t.base.target_kind == TargetKind::Branch && t.base.canonical_repo_url@ == canonical_repo_url@
            && t.base.checkout_ref@ == base_ref@ && t.base.resolved_sha is None
            && t.base.summary_label@ == "branch "@ + base_ref@),
        existing matches Some(e) ==> (r matches Ok(t) ==> t.overlays == e.overlays && t.version == e.version
            && t.materialized_branch == e.materialized_branch && branch_like(t.base.target_kind)
            && t.base.checkout_ref@ == base_ref@ && t.base.target_kind == existing_base.target_kind
            && t.base.checkout_ref@ == existing_base.checkout_ref@),
        existing is Some && existing_base.target_kind != TargetKind::Pr && canonical_remote(existing_base.canonical_repo_url@) is Some
            ==> (r is Ok <==> (branch_like(existing_base.target_kind) && existing_base.checkout_ref@ == base_ref@)),
        existing is Some && existing_base.target_kind != TargetKind::Pr && canonical_remote(existing_base.canonical_repo_url@) is Some
            && !branch_like(existing_base.target_kind) ==> (r matches Err(AppError::Conflict(m)) && m@
            == "PR overlays require a branch-like base target"@),
        existing is Some && branch_like(existing_base.target_kind) && canonical_remote(existing_base.canonical_repo_url@) is Some
            && existing_base.checkout_ref@ != base_ref@ ==> (r matches Err(AppError::Conflict(m)) && m@
            == "PR overlays for this repo must target base branch '"@ + existing_base.checkout_ref@
            + "', but this PR targets '"@ + base_ref@ + "'"@),
{
    match existing {
        Some(mut e) => {
            e.base = make_tracked_base_target(existing_base)?;
            if !branch_like_target_kind(&e.base.target_kind) {
                return Err(AppError::Conflict(owned("PR overlays require a branch-like base target")));
            }
            if !str_eq(e.base.checkout_ref.as_str(), base_ref) {
                let mut m = String::from_str("PR overlays for this repo must target base branch '");
                push_str(&mut m, e.base.checkout_ref.as_str());
                push_str(&mut m, "', but this PR targets '");
                push_str(&mut m, base_ref);
                push_str(&mut m, "'");
                return Err(AppError::Conflict(m));
            }
            Ok(e)
        },
        None => {
            let mut label = String::from_str("branch ");
            push_str(&mut label, base_ref);
            proof {
                reveal_strlit("patcher/stack");
            }
            Ok(
                TrackedRepoState {
                    version: STACK_TRACKING_VERSION,
                    base: TrackedBaseTarget {
                        source_input: owned(base_ref),
                        target_kind: TargetKind::Branch,
                        canonical_repo_url,
                        checkout_ref: owned(base_ref),
                        resolved_sha: None,
                        summary_label: label,
                    },
                    overlays: Vec::new(),
                    materialized_branch: Some(owned(STACK_BRANCH_NAME)),
                },
            )
        },
    }
}


/// How stored tracked-target text is read: absent or blank text tracks
/// nothing; text that starts with `{` must be a stored stack; other text is
/// a stored stack where it parses as one, else a legacy base target.
#[derive(Debug, Clone, PartialEq, Eq)]
pub enum TrackedInputForm {
    Absent,
    StackOnly(String),
    StackOrLegacy(String),
}

pub fn tracked_input_form(tracked_input: Option<&str>) -> (r: TrackedInputForm)
    ensures
        match oqv(tracked_input) {
            None => r == TrackedInputForm::Absent,
            Some(t) => if crate::text::trim(t).len() == 0 {
                r == TrackedInputForm::Absent
            } else if crate::text::trim(t)[0] == '{' {
                r matches TrackedInputForm::StackOnly(x) && x@ == crate::text::trim(t)
            } else {
                r matches TrackedInputForm::StackOrLegacy(x) && x@ == crate::text::trim(t)
            },
        },
{
    let t = match tracked_input {
        Some(t) => crate::text::trim_str(t),
        None => return TrackedInputForm::Absent,
    };
    let c = chars_of(t.as_str());
    if c.len() == 0 {
        return TrackedInputForm::Absent;
    }
    if c[0] == '{' {
        TrackedInputForm::StackOnly(t)
    } else {
        TrackedInputForm::StackOrLegacy(t)
    }
}

/// The stack that legacy tracked-target columns describe: a base target
/// named by its input, where its kind is known and not a PR and the
/// repository has a remote.
pub fn legacy_tracked_repo_state(
    tracked_kind: Option<TargetKind>,
    tracked_input: &str,
    tracked_resolved_sha: Option<&str>,
    canonical_remote: Option<&str>,
) -> (r: Option<TrackedRepoState>)
    ensures
        r is Some <==> (tracked_kind is Some && tracked_kind != Some(TargetKind::Pr) && canonical_remote is Some),
        r matches Some(t) ==> t.version == STACK_TRACKING_VERSION && t.base.source_input@ == tracked_input@
            && Some(t.base.target_kind) == tracked_kind && Some(t.base.canonical_repo_url@) == oqv(canonical_remote)
            && t.base.checkout_ref@ == tracked_input@ && ov(t.base.resolved_sha) == oqv(tracked_resolved_sha)
            && t.base.summary_label@ == tracked_input@ && t.overlays.len() == 0 && t.materialized_branch is None,
{
    let kind = match tracked_kind {
        Some(k) => k,
        None => return None,
    };
    if kind == TargetKind::Pr {
        return None;
    }
    let remote = match canonical_remote {
        Some(c) => owned(c),
        None => return None,
    };
    Some(TrackedRepoState {
        version: STACK_TRACKING_VERSION,
        base: TrackedBaseTarget {
            source_input: owned(tracked_input),
            target_kind: kind,
            canonical_repo_url: remote,
            checkout_ref: owned(tracked_input),
            resolved_sha: match tracked_resolved_sha {
                Some(s) => Some(owned(s)),
                None => None,
            },
            summary_label: owned(tracked_input),
        },
        overlays: Vec::new(),
        materialized_branch: None,
    })
}


/// How a checkout moves to a resolved target.
pub enum CheckoutPlan {
    /// Fetch `refspec` from origin, then point `branch` at what was fetched.
    PullRequest { refspec: String, branch: String },
    /// Fetch origin, then point `branch` at `remote_ref`.
    Branch { branch: String, remote_ref: String },
    /// Fetch origin, then detach at `target`.
    Detached { target: String },
}

/// The checkout steps for `resolved`: a PR is fetched by number into its
/// checkout ref; branches (and named refs) follow their origin counterpart;
/// tags and commits are checked out detached.
pub fn checkout_plan(resolved: &ResolvedTarget) -> (r: AppResult<CheckoutPlan>)
    ensures
        resolved.target_kind == TargetKind::Pr && resolved.pr_number is None ==> (r matches Err(
            AppError::Github(m),
        ) && m@ == "missing PR number"@),
        resolved.target_kind == TargetKind::Pr && resolved.pr_number is Some ==> (r matches Ok(
            CheckoutPlan::PullRequest { refspec, branch },
        ) && refspec@ == "pull/"@ + decimal(resolved.pr_number.unwrap() as nat) + "/head:"@
            + resolved.checkout_ref@ && branch@ == resolved.checkout_ref@),
        resolved.target_kind == TargetKind::Branch || resolved.target_kind == TargetKind::DefaultBranch
            || resolved.target_kind == TargetKind::NamedRef ==> (r matches Ok(
            CheckoutPlan::Branch { branch, remote_ref },
        ) && branch@ == resolved.checkout_ref@ && remote_ref@ == "origin/"@ + resolved.checkout_ref@),
        resolved.target_kind == TargetKind::Tag || resolved.target_kind == TargetKind::Commit ==> (r matches Ok(
            CheckoutPlan::Detached { target },
        ) && target@ == resolved.checkout_ref@),
{
    match resolved.target_kind {
        TargetKind::Pr => match resolved.pr_number {
            Some(n) => {
                let mut refspec = String::from_str("pull/");
                push_str(&mut refspec, u64_decimal(n).as_str());
                push_str(&mut refspec, "/head:");
                push_str(&mut refspec, resolved.checkout_ref.as_str());
                Ok(CheckoutPlan::PullRequest { refspec, branch: owned(resolved.checkout_ref.as_str()) })
            },
            None => Err(AppError::Github(owned("missing PR number"))),
        },
        TargetKind::Branch | TargetKind::DefaultBranch | TargetKind::NamedRef => {
            let mut remote_ref = String::from_str("origin/");
            push_str(&mut remote_ref, resolved.checkout_ref.as_str());
            Ok(CheckoutPlan::Branch { branch: owned(resolved.checkout_ref.as_str()), remote_ref })
        },
        TargetKind::Tag | TargetKind::Commit => Ok(
            CheckoutPlan::Detached { target: owned(resolved.checkout_ref.as_str()) },
        ),
    }
}

} // verus!
