use comfy_patcher::errors::AppError;
use comfy_patcher::health::{
    assemble_installation_detail, assess_repo_live_state, check_checkpoint_for_repo, mark_repo_missing,
    repos_in_update_order, update_all_outcome, update_failure_line,
};
use comfy_patcher::git::RepoStatus;
use comfy_patcher::models::{
    Installation, ManagedRepo, OperationKind, OperationRecord, OperationStatus, OverlayApplyStatus,
    OverlayMoveDirection, RepoKind, RepoLiveStatus, ResolvedTarget, TargetKind, TrackedPrOverlay,
    TrackedRepoState,
};
use comfy_patcher::preview::{
    colliding_untracked_paths, collision_outcome, dependency_manifest_candidates, file_change_writes_path,
    normalize_repo_relative_path, preflight_dirty_check, preview_target_summary, relevant_dependency_changes,
    repo_relative_paths_collide,
};
use comfy_patcher::stacking::{
    base_tracked_state, check_overlay_for_stack, checkpoint_label_and_reason, checkpoint_label_for_kind, ensure_remote_matches,
    legacy_tracked_repo_state, make_overlay_id, make_tracked_base_target, make_tracked_overlay,
    merge_failure_after_abort, merge_failure_after_probe, move_overlay, overlay_merge_refs,
    prepare_materialization, preview_ref_name, push_overlay, remove_overlay, restore_checkpoint_error,
    set_overlay_enabled, stack_for_pr, stack_preview_items, tracked_input_form, MergeFailureStep,
    TrackedInputForm,
};

use comfy_patcher::stack::validate_overlay_stack;

const REPO: &str = "https://github.com/example/repo";

fn resolved(kind: TargetKind, pr: Option<u64>) -> ResolvedTarget {
    ResolvedTarget {
        source_input: "input".to_string(),
        target_kind: kind,
        canonical_repo_url: "https://github.com/example/repo.git".to_string(),
        fetch_url: format!("{REPO}.git"),
        checkout_ref: "main".to_string(),
        resolved_sha: Some("abc".to_string()),
        pr_number: pr,
        pr_base_repo_url: Some(REPO.to_string()),
        pr_base_ref: Some("main".to_string()),
        pr_head_repo_url: Some("https://github.com/fork/repo".to_string()),
        pr_head_ref: Some("feature".to_string()),
        summary_label: "label".to_string(),
        suggested_local_dir_name: "repo".to_string(),
    }
}

fn overlay(pr: u64, enabled: bool) -> TrackedPrOverlay {
    let mut o = make_tracked_overlay(&resolved(TargetKind::Pr, Some(pr)), 0).unwrap();
    o.enabled = enabled;
    o
}

fn stack(overlays: Vec<TrackedPrOverlay>) -> TrackedRepoState {
    let mut s = base_tracked_state(&resolved(TargetKind::Branch, None), false, false).unwrap();
    for o in overlays {
        push_overlay(&mut s, o);
    }
    s
}

#[test]
fn overlays_carry_canonical_pr_facts() {
    let o = make_tracked_overlay(&resolved(TargetKind::Pr, Some(42)), 3).unwrap();
    assert_eq!(o.id, "pr-42");
    assert_eq!(o.canonical_repo_url, REPO);
    assert_eq!(o.pr_base_repo_url, REPO);
    assert_eq!(o.pr_head_repo_url.as_deref(), Some("https://github.com/fork/repo"));
    assert_eq!(o.position, 3);
    assert!(o.enabled);
    assert_eq!(make_overlay_id(7), "pr-7");
    let mut missing = resolved(TargetKind::Pr, None);
    assert!(matches!(make_tracked_overlay(&missing, 0), Err(AppError::Github(m)) if m == "missing PR number"));
    missing.pr_number = Some(1);
    missing.pr_base_ref = None;
    assert!(matches!(make_tracked_overlay(&missing, 0), Err(AppError::Github(m)) if m == "missing PR base ref"));
}

#[test]
fn base_targets_refuse_prs_and_keep_overlays_unless_cleared() {
    assert!(matches!(make_tracked_base_target(&resolved(TargetKind::Pr, Some(1))), Err(AppError::Conflict(_))));
    let base = make_tracked_base_target(&resolved(TargetKind::Tag, None)).unwrap();
    assert_eq!(base.canonical_repo_url, REPO);
    assert!(matches!(base_tracked_state(&resolved(TargetKind::Branch, None), true, false), Err(AppError::Conflict(_))));
    let cleared = base_tracked_state(&resolved(TargetKind::Branch, None), true, true).unwrap();
    assert!(cleared.overlays.is_empty());
    assert_eq!(cleared.materialized_branch, None);
}

#[test]
fn stack_operations_keep_positions_and_branch() {
    let mut s = stack(vec![overlay(1, true), overlay(2, true), overlay(3, false)]);
    assert_eq!(s.materialized_branch.as_deref(), Some("patcher/stack"));
    push_overlay(&mut s, overlay(2, false));
    assert_eq!(s.overlays.len(), 3);
    move_overlay(&mut s, "pr-3", OverlayMoveDirection::Up).unwrap();
    let ids: Vec<&str> = s.overlays.iter().map(|o| o.id.as_str()).collect();
    assert_eq!(ids, vec!["pr-1", "pr-3", "pr-2"]);
    assert!(s.overlays.iter().enumerate().all(|(i, o)| o.position == i));
    move_overlay(&mut s, "pr-3", OverlayMoveDirection::Down).unwrap();
    let ids: Vec<&str> = s.overlays.iter().map(|o| o.id.as_str()).collect();
    assert_eq!(ids, vec!["pr-1", "pr-2", "pr-3"]);
    move_overlay(&mut s, "pr-1", OverlayMoveDirection::Up).unwrap();
    assert_eq!(s.overlays[0].id, "pr-1");
    set_overlay_enabled(&mut s, "pr-3", true).unwrap();
    assert!(s.overlays[2].enabled);
    assert!(matches!(set_overlay_enabled(&mut s, "pr-9", true), Err(AppError::NotFound(m)) if m == "overlay 'pr-9' not found"));
    remove_overlay(&mut s, "pr-2").unwrap();
    assert_eq!(s.overlays[1].id, "pr-3");
    assert_eq!(s.overlays[1].position, 1);
    remove_overlay(&mut s, "pr-1").unwrap();
    remove_overlay(&mut s, "pr-3").unwrap();
    assert_eq!(s.materialized_branch, None);
}

#[test]
fn materialization_resets_statuses() {
    let mut s = stack(vec![overlay(1, true), overlay(2, false)]);
    s.overlays[0].last_error = Some("old".to_string());
    s.version = 0;
    let p = prepare_materialization(s);
    assert_eq!(p.version, 1);
    assert_eq!(p.overlays[0].last_apply_status, Some(OverlayApplyStatus::Pending));
    assert_eq!(p.overlays[1].last_apply_status, Some(OverlayApplyStatus::Disabled));
    assert_eq!(p.overlays[0].last_error, None);
    let items = stack_preview_items(&p);
    assert_eq!(items.len(), 3);
    assert_eq!(items[0].kind, "base");
    assert_eq!(items[1].status.as_deref(), Some("pending"));
    assert_eq!(items[2].status.as_deref(), Some("disabled"));
}

#[test]
fn overlays_may_stack_on_an_earlier_overlay_head() {
    let mut first = resolved(TargetKind::Pr, Some(86));
    first.pr_head_repo_url = Some(REPO.to_string());
    first.pr_head_ref = Some("feature/x".to_string());
    let parent = make_tracked_overlay(&first, 0).unwrap();
    let mut second = resolved(TargetKind::Pr, Some(87));
    second.pr_base_ref = Some("feature/x".to_string());
    second.pr_head_repo_url = Some(REPO.to_string());
    second.pr_head_ref = Some("feature/y".to_string());
    assert!(check_overlay_for_stack("in", &first, Some(REPO), "main", &[]).is_ok());
    assert!(check_overlay_for_stack("in", &second, Some(REPO), "main", &[parent.clone()]).is_ok());
    let mut disabled = parent.clone();
    disabled.enabled = false;
    match check_overlay_for_stack("in", &second, Some(REPO), "main", &[disabled]) {
        Err((OverlayApplyStatus::Conflict, AppError::Conflict(m))) => {
            assert_eq!(m, "PR #87 targets base branch 'feature/x' but this stack is based on 'main'")
        }
        other => panic!("unexpected {other:?}"),
    }
    let mut forked = parent.clone();
    forked.pr_head_repo_url = Some("https://github.com/fork/repo".to_string());
    assert!(check_overlay_for_stack("in", &second, Some(REPO), "main", &[forked]).is_err());
    assert!(check_overlay_for_stack("in", &second, Some(REPO), "main", &[]).is_err());
    let child = make_tracked_overlay(&second, 1).unwrap();
    let s = stack(vec![parent, child]);
    assert!(validate_overlay_stack(&s).is_ok());
    assert!(check_overlay_for_stack("in", &second, Some(REPO), "main", &s.overlays[..1]).is_ok());
}

#[test]
fn overlays_must_fit_the_stack() {
    let pr = resolved(TargetKind::Pr, Some(5));
    assert!(check_overlay_for_stack("in", &pr, Some(REPO), "main", &[]).is_ok());
    match check_overlay_for_stack("in", &pr, Some(REPO), "dev", &[]) {
        Err((OverlayApplyStatus::Conflict, AppError::Conflict(m))) => {
            assert_eq!(m, "PR #5 targets base branch 'main' but this stack is based on 'dev'")
        }
        other => panic!("unexpected {other:?}"),
    }
    let branch = resolved(TargetKind::Branch, None);
    assert!(matches!(check_overlay_for_stack("in", &branch, Some(REPO), "main", &[]), Err((OverlayApplyStatus::Error, _))));
    assert!(matches!(check_overlay_for_stack("in", &pr, None, "main", &[]), Err((OverlayApplyStatus::Error, _))));
    match ensure_remote_matches(Some("https://github.com/other/repo"), &pr) {
        Err(AppError::Conflict(m)) => assert_eq!(
            m,
            "resolved target repo https://github.com/example/repo does not match managed repo remote https://github.com/other/repo"
        ),
        other => panic!("unexpected {other:?}"),
    }
}

#[test]
fn pr_stacks_start_on_the_pr_base_branch() {
    let s = stack_for_pr(None, &resolved(TargetKind::Branch, None), "main", REPO.to_string()).unwrap();
    assert_eq!(s.base.summary_label, "branch main");
    assert_eq!(s.materialized_branch.as_deref(), Some("patcher/stack"));
    let existing = stack(vec![]);
    assert!(stack_for_pr(Some(existing.clone()), &resolved(TargetKind::Branch, None), "dev", REPO.to_string()).is_err());
    assert!(matches!(
        stack_for_pr(Some(existing), &resolved(TargetKind::Tag, None), "main", REPO.to_string()),
        Err(AppError::Conflict(m)) if m == "PR overlays require a branch-like base target"
    ));
}

#[test]
fn merge_failures_are_reported_with_cleanup_errors() {
    let err = AppError::Git("merge".to_string());
    assert!(matches!(merge_failure_after_probe(err.clone(), Ok(true)), MergeFailureStep::Abort(_)));
    match merge_failure_after_probe(err.clone(), Err(AppError::Git("probe".to_string()))) {
        MergeFailureStep::Report(AppError::Git(m)) => assert_eq!(
            m,
            "git command failed: merge; additionally failed to restore the previous checkout: git command failed: probe"
        ),
        _ => panic!("unexpected"),
    }
    assert!(matches!(merge_failure_after_abort(err.clone(), Ok(())), AppError::Git(m) if m == "merge"));
    assert!(matches!(restore_checkpoint_error(&err, &AppError::Io("x".to_string())), AppError::Git(_)));
    let (local, refspec, message) = overlay_merge_refs(12);
    assert_eq!(local, "patcher/pr-12");
    assert_eq!(refspec, "pull/12/head:patcher/pr-12");
    assert_eq!(message, "patcher stack: merge PR #12");
}

#[test]
fn legacy_tracked_targets_become_base_stacks() {
    assert_eq!(tracked_input_form(None), TrackedInputForm::Absent);
    assert_eq!(tracked_input_form(Some("  ")), TrackedInputForm::Absent);
    assert_eq!(tracked_input_form(Some(" {\"a\":1} ")), TrackedInputForm::StackOnly("{\"a\":1}".to_string()));
    assert_eq!(tracked_input_form(Some(" main ")), TrackedInputForm::StackOrLegacy("main".to_string()));
    let s = legacy_tracked_repo_state(Some(TargetKind::Branch), "main", Some("abc"), Some(REPO)).unwrap();
    assert_eq!(s.base.checkout_ref, "main");
    assert_eq!(s.base.resolved_sha.as_deref(), Some("abc"));
    assert!(legacy_tracked_repo_state(Some(TargetKind::Pr), "1", None, Some(REPO)).is_none());
    assert!(legacy_tracked_repo_state(Some(TargetKind::Tag), "v1", None, None).is_none());
}

fn managed(kind: RepoKind, name: &str) -> ManagedRepo {
    ManagedRepo {
        id: name.to_string(),
        installation_id: "i".to_string(),
        kind,
        display_name: name.to_string(),
        local_path: format!("/n/{name}"),
        canonical_remote: Some(REPO.to_string()),
        current_head_sha: None,
        current_branch: None,
        is_detached: false,
        is_dirty: false,
        tracked_target_kind: None,
        tracked_target_input: None,
        tracked_target_resolved_sha: Some("abc".to_string()),
        tracked_state: Some(stack(vec![])),
        live_status: RepoLiveStatus::Clean,
        live_warnings: vec!["old".to_string()],
        changed_files: vec![],
        dependency_state: None,
        materialization_state: None,
        last_scanned_at: None,
        created_at: "now".to_string(),
        updated_at: "now".to_string(),
    }
}

fn status(head: &str, branch: Option<&str>, modified: Vec<&str>, untracked: Vec<&str>) -> RepoStatus {
    RepoStatus {
        head_sha: Some(head.to_string()),
        branch: branch.map(str::to_string),
        is_detached: branch.is_none(),
        is_dirty: !modified.is_empty() || !untracked.is_empty(),
        changed_files: modified.iter().map(|s| s.to_string()).collect(),
        tracked_changed_files: modified.iter().map(|s| s.to_string()).collect(),
        untracked_files: untracked.iter().map(|s| s.to_string()).collect(),
        origin_url: Some(REPO.to_string()),
    }
}

#[test]
fn live_state_compares_disk_with_tracking() {
    let repo = managed(RepoKind::CustomNode, "n");
    let clean = assess_repo_live_state(repo.clone(), &status("abc", Some("main"), vec![], vec![]), None, "t".to_string());
    assert_eq!(clean.live_status, RepoLiveStatus::Clean);
    assert!(clean.live_warnings.is_empty());
    assert_eq!(clean.last_scanned_at.as_deref(), Some("t"));
    let drifted = assess_repo_live_state(repo.clone(), &status("def", None, vec!["a.py"], vec![]), None, "t".to_string());
    assert_eq!(drifted.live_status, RepoLiveStatus::Drifted);
    assert_eq!(
        drifted.live_warnings,
        vec![
            "Worktree has local tracked changes outside ComfyUI Patcher.",
            "Tracked state no longer matches disk: expected HEAD abc, found def.",
            "Tracked base expects branch main, but disk is on detached HEAD.",
        ]
    );
    assert!(drifted.is_dirty);
    let missing = mark_repo_missing(repo, "t".to_string());
    assert_eq!(missing.live_status, RepoLiveStatus::Missing);
    assert_eq!(missing.live_warnings, vec!["Repository path no longer exists on disk."]);
}

#[test]
fn preflight_and_collisions() {
    assert_eq!(preflight_dirty_check(&status("h", Some("main"), vec![], vec![])).unwrap(), None);
    match preflight_dirty_check(&status("h", Some("main"), vec!["a", "b"], vec![])) {
        Err(AppError::Conflict(m)) => assert_eq!(m, "repository has tracked local changes: a, b"),
        other => panic!("unexpected {other:?}"),
    }
    assert_eq!(preflight_dirty_check(&status("h", Some("main"), vec![], vec!["x"])).unwrap().as_deref(), Some("h"));
    assert_eq!(normalize_repo_relative_path(r".\./a\b/"), "a/b");
    assert!(repo_relative_paths_collide("./models", "models/x.bin"));
    assert!(repo_relative_paths_collide("models/x.bin", "./models"));
    assert!(!repo_relative_paths_collide("model", "models/x"));
    assert!(!repo_relative_paths_collide("/", "a"));
    assert!(file_change_writes_path("M") && !file_change_writes_path("D"));
    let hits = colliding_untracked_paths(
        &vec!["b/x".to_string(), "./a".to_string(), "c".to_string(), "a/".to_string()],
        &vec!["a/y".to_string(), "b".to_string()],
    );
    assert_eq!(hits, vec!["a", "b/x"]);
    match collision_outcome(&hits) {
        Err(AppError::Conflict(m)) => assert_eq!(
            m,
            "repository has untracked local paths that would be overwritten by the incoming update: a, b/x"
        ),
        other => panic!("unexpected {other:?}"),
    }
    assert!(collision_outcome(&vec![]).is_ok());
}

#[test]
fn previews_and_manifests() {
    assert_eq!(preview_target_summary("branch main", 0), "branch main");
    assert_eq!(preview_target_summary("branch main", 1), "branch main + 1 overlay");
    assert_eq!(preview_target_summary("branch main", 3), "branch main + 3 overlays");
    assert_eq!(preview_ref_name("pr", "12/x y"), "refs/patcher/previews/pr-12-x-y");
    assert_eq!(dependency_manifest_candidates(&RepoKind::Frontend).len(), 4);
    let changed = vec!["./Requirements.TXT".to_string(), "src/a.py".to_string(), r"pyproject.toml".to_string()];
    assert_eq!(
        relevant_dependency_changes(&RepoKind::CustomNode, &changed),
        vec!["./Requirements.TXT".to_string(), "pyproject.toml".to_string()]
    );
}

fn installation() -> Installation {
    Installation {
        id: "i".to_string(),
        name: "n".to_string(),
        comfy_root: "/c".to_string(),
        python_exe: "python".to_string(),
        custom_nodes_dir: "/c/custom_nodes".to_string(),
        launch_profile: None,
        frontend_settings: None,
        detected_env_kind: "system".to_string(),
        is_git_repo: true,
        last_reconciled_at: None,
        created_at: "now".to_string(),
        updated_at: "now".to_string(),
    }
}

#[test]
fn installation_detail_sorts_repositories_by_kind() {
    let repos = vec![
        managed(RepoKind::CustomNode, "n1"),
        managed(RepoKind::Core, "core"),
        managed(RepoKind::Kitchen, "kitchen"),
        managed(RepoKind::CustomNode, "n2"),
        managed(RepoKind::Frontend, "fe"),
    ];
    assert!(matches!(assemble_installation_detail(None, repos.clone()), Err(AppError::NotFound(_))));
    let detail = assemble_installation_detail(Some(installation()), repos).unwrap();
    assert_eq!(detail.core_repo.as_ref().unwrap().id, "core");
    assert_eq!(detail.kitchen_repo.as_ref().unwrap().id, "kitchen");
    let order: Vec<String> = repos_in_update_order(detail).into_iter().map(|r| r.id).collect();
    assert_eq!(order, vec!["core", "fe", "n1", "n2", "kitchen"]);
}

#[test]
fn bulk_update_reporting_and_checkpoint_ownership() {
    let line = update_failure_line("Node", &AppError::Conflict("dirty".to_string()));
    assert_eq!(line, "Node: conflict: dirty");
    assert!(update_all_outcome(&vec![]).is_ok());
    assert!(matches!(update_all_outcome(&vec!["a".to_string(), "b".to_string()]), Err(AppError::Git(m)) if m == "a\nb"));
    assert!(matches!(check_checkpoint_for_repo(None, "r"), Err(AppError::NotFound(_))));
}

#[test]
fn checkpoint_labels_name_the_operation() {
    let repo = managed(RepoKind::CustomNode, "Node");
    let mut op = OperationRecord {
        id: "o".to_string(),
        installation_id: "i".to_string(),
        repo_id: None,
        kind: OperationKind::PatchCustomNode,
        status: OperationStatus::Running,
        requested_input: Some("https://github.com/o/r/pull/1".to_string()),
        log_file: "log".to_string(),
        error_message: None,
        checkpoint_id: None,
        created_at: "now".to_string(),
        started_at: None,
        finished_at: None,
    };
    let (label, reason) = checkpoint_label_and_reason(&op, &repo);
    assert_eq!(label, "Before applying https://github.com/o/r/pull/1");
    assert_eq!(reason, "https://github.com/o/r/pull/1");
    op.kind = OperationKind::UpdateAll;
    op.requested_input = None;
    let (label, reason) = checkpoint_label_and_reason(&op, &repo);
    assert_eq!(label, "Before updating Node");
    assert_eq!(reason, "Node");
}


#[test]
fn checkpoint_labels_for_each_operation_kind() {
    let cases = [
        (OperationKind::InstallCustomNode, Some("owner/repo"), "Before installing owner/repo", "owner/repo"),
        (OperationKind::ManageRepoStack, None, "Before applying Node", "Node"),
        (OperationKind::RollbackRepo, Some("x"), "Before restoring Node", "x"),
        (OperationKind::DisableRepo, None, "Before disabling Node", "Node"),
        (OperationKind::UninstallRepo, None, "Before uninstalling Node", "Node"),
        (OperationKind::UntrackRepo, None, "Before untracking Node", "Node"),
        (OperationKind::RestartInstallation, None, "Before lifecycle action on Node", "Node"),
    ];
    for (kind, requested, label, reason) in cases {
        let (l, r) = checkpoint_label_for_kind(kind, requested, "Node");
        assert_eq!(l, label);
        assert_eq!(r, reason);
    }
}

#[test]
fn remotes_that_differ_only_in_case_match() {
    let mut pr = resolved(TargetKind::Pr, Some(5));
    pr.canonical_repo_url = "https://github.com/Example/Repo".to_string();
    assert!(ensure_remote_matches(Some("git@github.com:example/repo.git"), &pr).is_ok());
    assert!(comfy_patcher::git::same_canonical_remote("https://github.com/A/b", "https://github.com/a/B"));
    assert!(!comfy_patcher::git::same_canonical_remote("https://github.com/a/b", "https://github.com/a/c"));
}
