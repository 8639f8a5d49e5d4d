use comfy_patcher::errors::AppError;
use comfy_patcher::models::{RepoCheckpoint, TargetKind};
use comfy_patcher::restore::{restore_checkout, restore_outcome, stash_restore_step, RestoreCheckout, StashRestore};

fn checkpoint(branch: Option<&str>, detached: bool, stash: Option<Option<&str>>, snapshot: bool) -> RepoCheckpoint {
    RepoCheckpoint {
        id: "cp".to_string(),
        repo_id: "r".to_string(),
        operation_id: "op".to_string(),
        old_head_sha: "abc123".to_string(),
        old_branch: branch.map(str::to_string),
        old_is_detached: detached,
        has_tracked_target_snapshot: snapshot,
        old_tracked_target_kind: Some(TargetKind::Branch),
        old_tracked_target_input: Some("main".to_string()),
        old_tracked_target_resolved_sha: None,
        stash_created: stash.is_some(),
        stash_ref: stash.flatten().map(str::to_string),
        label: None,
        reason: None,
        dependency_state: None,
        created_at: "now".to_string(),
    }
}

#[test]
fn restore_returns_to_the_recorded_branch_or_detaches() {
    assert!(matches!(restore_checkout(&checkpoint(Some("main"), false, None, false)), RestoreCheckout::Branch(b) if b == "main"));
    assert!(matches!(restore_checkout(&checkpoint(Some("main"), true, None, false)), RestoreCheckout::Detached));
    assert!(matches!(restore_checkout(&checkpoint(None, false, None, false)), RestoreCheckout::Detached));
}

#[test]
fn stash_is_restored_only_when_asked_and_recorded() {
    let with_stash = checkpoint(Some("main"), false, Some(Some("stash@{0}")), false);
    assert!(matches!(stash_restore_step(&with_stash, true), StashRestore::Apply(s) if s == "stash@{0}"));
    assert!(matches!(stash_restore_step(&with_stash, false), StashRestore::Skip));
    let lost = checkpoint(Some("main"), false, Some(None), false);
    assert!(matches!(stash_restore_step(&lost, true), StashRestore::MissingRef));
}

#[test]
fn restore_failures_are_joined_in_step_order() {
    let cp = checkpoint(Some("main"), false, Some(Some("stash@{0}")), true);
    assert!(restore_outcome(&cp, true, None, None, None, None).is_ok());
    let out = restore_outcome(
        &cp,
        true,
        Some(AppError::Git("no branch".to_string())),
        None,
        Some(AppError::Git("conflict".to_string())),
        None,
    );
    assert!(matches!(out, Err(AppError::Git(m)) if m == "failed to restore branch 'main': git command failed: no branch; failed to restore stash: git command failed: conflict"));
}

#[test]
fn missing_stash_reference_is_reported() {
    let cp = checkpoint(None, true, Some(None), false);
    let out = restore_outcome(&cp, true, None, Some(AppError::Git("bad".to_string())), None, None);
    assert!(matches!(out, Err(AppError::Git(m)) if m == "failed to reset HEAD abc123: git command failed: bad; checkpoint indicates a stash was created but no stash reference was stored"));
    let snap = checkpoint(None, true, Some(None), true);
    let db = restore_outcome(&snap, true, None, None, None, Some(AppError::Db("locked".to_string())));
    assert!(matches!(db, Err(AppError::Db(m)) if m == "locked"));
}
