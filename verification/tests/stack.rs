use comfy_patcher::models::{
    OverlayApplyStatus, TargetKind, TrackedBaseTarget, TrackedPrOverlay, TrackedRepoState,
};
use comfy_patcher::models::OverlayMoveDirection;
use comfy_patcher::stack::{overlay_dependency_index, validate_overlay_stack};
use comfy_patcher::stacking::{move_overlay, remove_overlay, set_overlay_enabled};

const REPO: &str = "https://github.com/example/repo";

fn overlay(pr_number: u64, base_ref: &str, head_ref: Option<&str>, enabled: bool) -> TrackedPrOverlay {
    TrackedPrOverlay {
        id: format!("pr-{pr_number}"),
        source_input: format!("{REPO}/pull/{pr_number}"),
        canonical_repo_url: REPO.to_string(),
        pr_number,
        pr_base_repo_url: REPO.to_string(),
        pr_base_ref: base_ref.to_string(),
        pr_head_repo_url: Some(REPO.to_string()),
        pr_head_ref: head_ref.map(ToOwned::to_owned),
        resolved_sha: Some(format!("{pr_number:040x}")),
        summary_label: format!("PR #{pr_number}"),
        position: 0,
        enabled,
        last_apply_status: Some(if enabled {
            OverlayApplyStatus::Pending
        } else {
            OverlayApplyStatus::Disabled
        }),
        last_error: None,
    }
}

fn state(mut overlays: Vec<TrackedPrOverlay>) -> TrackedRepoState {
    for (index, overlay) in overlays.iter_mut().enumerate() {
        overlay.position = index;
    }
    TrackedRepoState {
        version: 1,
        base: TrackedBaseTarget {
            source_input: "main".to_string(),
            target_kind: TargetKind::Branch,
            canonical_repo_url: REPO.to_string(),
            checkout_ref: "main".to_string(),
            resolved_sha: None,
            summary_label: "branch main".to_string(),
        },
        overlays,
        materialized_branch: Some("patcher/stack".to_string()),
    }
}

#[test]
fn accepts_independent_prs_targeting_stack_base() {
    let stack_state = state(vec![
        overlay(10, "main", Some("feature/a"), true),
        overlay(11, "main", Some("feature/b"), true),
    ]);
    assert!(validate_overlay_stack(&stack_state).is_ok());
    assert_eq!(overlay_dependency_index(&stack_state, 0).unwrap(), None);
    assert_eq!(overlay_dependency_index(&stack_state, 1).unwrap(), None);
}

#[test]
fn accepts_linear_stacked_pr_chain() {
    let stack_state = state(vec![
        overlay(86, "main", Some("feature/seeds-2-3-support"), true),
        overlay(87, "feature/seeds-2-3-support", Some("feature/sa-solver-support"), true),
        overlay(88, "feature/sa-solver-support", Some("feature/next-change"), true),
    ]);
    assert!(validate_overlay_stack(&stack_state).is_ok());
    assert_eq!(overlay_dependency_index(&stack_state, 1).unwrap(), Some(0));
    assert_eq!(overlay_dependency_index(&stack_state, 2).unwrap(), Some(1));
}

#[test]
fn rejects_dependent_pr_before_its_parent() {
    let stack_state = state(vec![
        overlay(87, "feature/seeds-2-3-support", Some("feature/sa-solver-support"), true),
        overlay(86, "main", Some("feature/seeds-2-3-support"), true),
    ]);
    let error = validate_overlay_stack(&stack_state).unwrap_err().message();
    assert!(error.contains("must be ordered after"));
    assert!(error.contains("PR #86"));
}

#[test]
fn rejects_enabled_child_when_parent_is_disabled() {
    let stack_state = state(vec![
        overlay(86, "main", Some("feature/seeds-2-3-support"), false),
        overlay(87, "feature/seeds-2-3-support", Some("feature/sa-solver-support"), true),
    ]);
    let error = validate_overlay_stack(&stack_state).unwrap_err().message();
    assert!(error.contains("PR #86 is disabled"));
}

#[test]
fn permits_disabled_dependency_chain() {
    let stack_state = state(vec![
        overlay(86, "main", Some("feature/seeds-2-3-support"), false),
        overlay(87, "feature/seeds-2-3-support", Some("feature/sa-solver-support"), false),
    ]);
    assert!(validate_overlay_stack(&stack_state).is_ok());
}

#[test]
fn rejects_unrepresented_intermediate_base() {
    let stack_state = state(vec![
        overlay(86, "main", Some("feature/seeds-2-3-support"), true),
        overlay(87, "feature/other", Some("feature/sa-solver-support"), true),
    ]);
    let error = validate_overlay_stack(&stack_state).unwrap_err().message();
    assert!(error.contains("neither the tracked stack base"));
}

#[test]
fn missing_head_repo_metadata_fails_closed_for_dependency_matching() {
    let mut parent = overlay(86, "main", Some("feature/seeds-2-3-support"), true);
    parent.pr_head_repo_url = None;
    let stack_state = state(vec![
        parent,
        overlay(87, "feature/seeds-2-3-support", Some("feature/sa-solver-support"), true),
    ]);
    assert!(validate_overlay_stack(&stack_state).is_err());
}

#[test]
fn does_not_match_same_branch_name_from_different_head_repo() {
    let mut parent = overlay(86, "main", Some("feature/seeds-2-3-support"), true);
    parent.pr_head_repo_url = Some("https://github.com/other/fork".to_string());
    let stack_state = state(vec![
        parent,
        overlay(87, "feature/seeds-2-3-support", Some("feature/sa-solver-support"), true),
    ]);
    assert!(validate_overlay_stack(&stack_state).is_err());
}

#[test]
fn out_of_range_overlay_index_is_invalid_input() {
    let stack_state = state(vec![overlay(10, "main", Some("feature/a"), true)]);
    let error = overlay_dependency_index(&stack_state, 3).unwrap_err().message();
    assert_eq!(error, "invalid input: overlay index 3 is out of range");
}

#[test]
fn base_branch_in_other_repository_conflicts() {
    let mut child = overlay(12, "main", Some("feature/a"), true);
    child.pr_base_repo_url = "https://github.com/other/repo".to_string();
    let stack_state = state(vec![child]);
    let error = overlay_dependency_index(&stack_state, 0).unwrap_err().message();
    assert_eq!(
        error,
        "conflict: PR #12 targets branch 'main' in a different repository than the tracked stack base"
    );
}

#[test]
fn two_enabled_parents_are_listed() {
    let stack_state = state(vec![
        overlay(1, "main", Some("feature/x"), true),
        overlay(2, "main", Some("feature/x"), true),
        overlay(3, "feature/x", Some("feature/y"), true),
    ]);
    let error = overlay_dependency_index(&stack_state, 2).unwrap_err().message();
    assert_eq!(
        error,
        "conflict: PR #3 targets branch 'feature/x', but multiple earlier enabled overlays provide that branch: #1, #2"
    );
}

#[test]
fn disabled_overlay_never_needs_a_parent() {
    let stack_state = state(vec![overlay(5, "feature/missing", Some("feature/z"), false)]);
    assert_eq!(overlay_dependency_index(&stack_state, 0).unwrap(), None);
    assert!(validate_overlay_stack(&stack_state).is_ok());
}

#[test]
fn stack_edits_that_break_dependency_order_are_refused() {
    let chain = || {
        state(vec![
            overlay(86, "main", Some("feature/seeds-2-3-support"), true),
            overlay(87, "feature/seeds-2-3-support", Some("feature/sa-solver-support"), true),
        ])
    };
    let mut moved = chain();
    move_overlay(&mut moved, "pr-87", OverlayMoveDirection::Up).unwrap();
    assert_eq!(moved.overlays[0].pr_number, 87);
    assert!(validate_overlay_stack(&moved).is_err());

    let mut disabled = chain();
    set_overlay_enabled(&mut disabled, "pr-86", false).unwrap();
    assert!(validate_overlay_stack(&disabled).is_err());

    let mut removed = chain();
    remove_overlay(&mut removed, "pr-86").unwrap();
    assert_eq!(removed.overlays.len(), 1);
    assert!(validate_overlay_stack(&removed).is_err());

    let mut both_off = chain();
    set_overlay_enabled(&mut both_off, "pr-87", false).unwrap();
    set_overlay_enabled(&mut both_off, "pr-86", false).unwrap();
    assert!(validate_overlay_stack(&both_off).is_ok());
}
