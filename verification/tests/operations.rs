use comfy_patcher::deps::{dependency_step_failed, pnpm_retry_args, should_retry_pnpm_without_frozen_lockfile};
use comfy_patcher::errors::AppError;
use comfy_patcher::health::repo_warning_lines;
use comfy_patcher::kitchen::{
    comfy_kitchen_requirement, default_kitchen_path, kitchen_build_dir_arg, kitchen_command_failure, kitchen_head,
    kitchen_wheel_arg, probe_payload_line, record_installed_kitchen, require_kitchen_repo, select_built_wheel,
    validate_wheel_digest, verify_restored_kitchen,
};
use comfy_patcher::models::{
    DependencyStep, Installation, KitchenRuntimeProbe, ManagedRepo, MaterializationStatus, OverlayApplyStatus,
    RepoActionPreviewFile, RepoKind, RepoLiveStatus, TargetKind, TrackedBaseTarget, TrackedPrOverlay,
    TrackedRepoState,
};
use comfy_patcher::preview::{add_write_paths, enabled_overlay_count};
use comfy_patcher::stacking::{ensure_repo_lifecycle_supported, stack_operation_summary};

fn repo(kind: RepoKind, warnings: &[&str]) -> ManagedRepo {
    ManagedRepo {
        id: "r".to_string(),
        installation_id: "i".to_string(),
        kind,
        display_name: "Node".to_string(),
        local_path: "/c/custom_nodes/node".to_string(),
        canonical_remote: None,
        current_head_sha: None,
        current_branch: None,
        is_detached: false,
        is_dirty: false,
        tracked_target_kind: None,
        tracked_target_input: None,
        tracked_target_resolved_sha: None,
        tracked_state: None,
        live_status: RepoLiveStatus::Clean,
        live_warnings: warnings.iter().map(|w| w.to_string()).collect(),
        changed_files: vec![],
        dependency_state: None,
        materialization_state: None,
        last_scanned_at: None,
        created_at: "now".to_string(),
        updated_at: "now".to_string(),
    }
}

fn probe(present: bool, import_ok: bool, digest: Option<&str>) -> KitchenRuntimeProbe {
    KitchenRuntimeProbe {
        distribution_present: present,
        installed_version: Some("0.2.33".to_string()),
        distribution_location: Some("/site-packages".to_string()),
        direct_url: None,
        direct_url_sha256: digest.map(str::to_string),
        record_sha256: Some("record".to_string()),
        import_ok,
        import_error: if import_ok { None } else { Some("no module".to_string()) },
        module_location: None,
        probed_at: None,
    }
}

fn overlay(pr: u64, enabled: bool) -> TrackedPrOverlay {
    TrackedPrOverlay {
        id: format!("pr-{pr}"),
        source_input: format!("https://github.com/o/r/pull/{pr}"),
        canonical_repo_url: "https://github.com/o/r".to_string(),
        pr_number: pr,
        pr_base_repo_url: "https://github.com/o/r".to_string(),
        pr_base_ref: "main".to_string(),
        pr_head_repo_url: None,
        pr_head_ref: None,
        resolved_sha: None,
        summary_label: format!("PR #{pr}"),
        position: 0,
        enabled,
        last_apply_status: Some(OverlayApplyStatus::Pending),
        last_error: None,
    }
}

#[test]
fn warning_lines_name_the_repository() {
    let lines = repo_warning_lines(&repo(RepoKind::CustomNode, &["dirty", "drifted"]));
    assert_eq!(lines, vec!["Node: dirty".to_string(), "Node: drifted".to_string()]);
}

#[test]
fn pnpm_retries_only_frozen_lockfile_failures() {
    let step = DependencyStep {
        phase: "install".to_string(),
        strategy: "pnpm".to_string(),
        command: "pnpm".to_string(),
        args: vec!["install".to_string(), "--frozen-lockfile".to_string()],
        cwd: "/fe".to_string(),
        reason: "lockfile".to_string(),
    };
    assert!(should_retry_pnpm_without_frozen_lockfile(&step, false, "ERR_PNPM_OUTDATED_LOCKFILE", ""));
    assert!(should_retry_pnpm_without_frozen_lockfile(
        &step,
        false,
        "",
        "Cannot install with \"frozen-lockfile\" because pnpm-lock.yaml is not up to date"
    ));
    assert!(!should_retry_pnpm_without_frozen_lockfile(&step, true, "ERR_PNPM_OUTDATED_LOCKFILE", ""));
    assert!(!should_retry_pnpm_without_frozen_lockfile(&step, false, "network error", ""));
}

#[test]
fn incoming_write_paths_skip_deletions_and_repeats() {
    let mut out = vec!["a.py".to_string()];
    let changes = vec![
        RepoActionPreviewFile { path: "./a.py".to_string(), status: "M".to_string() },
        RepoActionPreviewFile { path: "gone.py".to_string(), status: "D".to_string() },
        RepoActionPreviewFile { path: "new\\file.py".to_string(), status: "A".to_string() },
    ];
    add_write_paths(&mut out, &changes);
    assert_eq!(out.len(), 2);
    assert_eq!(out[0], "a.py");
    assert!(!out.contains(&"gone.py".to_string()));
}

#[test]
fn counts_enabled_overlays() {
    let state = TrackedRepoState {
        version: 1,
        base: TrackedBaseTarget {
            source_input: "main".to_string(),
            target_kind: TargetKind::Branch,
            canonical_repo_url: "https://github.com/o/r".to_string(),
            checkout_ref: "main".to_string(),
            resolved_sha: None,
            summary_label: "branch main".to_string(),
        },
        overlays: vec![overlay(1, true), overlay(2, false), overlay(3, true)],
        materialized_branch: None,
    };
    assert_eq!(enabled_overlay_count(&state), 2);
}

#[test]
fn lifecycle_actions_skip_the_core_checkout() {
    assert_eq!(stack_operation_summary("reordering repo overlay", &repo(RepoKind::CustomNode, &[])), "reordering repo overlay for Node");
    assert!(ensure_repo_lifecycle_supported(&repo(RepoKind::CustomNode, &[]), "uninstall").is_ok());
    let err = ensure_repo_lifecycle_supported(&repo(RepoKind::Core, &[]), "uninstall").unwrap_err();
    assert!(matches!(err, AppError::Conflict(m) if m == "uninstall is not supported for the primary ComfyUI checkout"));
}

#[test]
fn kitchen_checkout_sits_beside_the_root() {
    let installation = Installation {
        id: "i".to_string(),
        name: "n".to_string(),
        comfy_root: "/opt/ComfyUI".to_string(),
        python_exe: "python".to_string(),
        custom_nodes_dir: "/opt/ComfyUI/custom_nodes".to_string(),
        launch_profile: None,
        frontend_settings: None,
        detected_env_kind: "system".to_string(),
        is_git_repo: true,
        last_reconciled_at: None,
        created_at: "now".to_string(),
        updated_at: "now".to_string(),
    };
    assert_eq!(default_kitchen_path(&installation), "/opt/comfy-kitchen");
}

#[test]
fn probe_payload_is_the_last_nonblank_line() {
    assert_eq!(probe_payload_line("warming up\n{\"ok\": true}\n  \n").unwrap(), "{\"ok\": true}");
    assert!(matches!(probe_payload_line("  \n\n"), Err(AppError::Dependency(m)) if m == "Kitchen runtime probe returned no JSON"));
}

#[test]
fn wheel_digest_is_checked_and_lowered() {
    let digest = "AB".repeat(32);
    assert_eq!(validate_wheel_digest(&format!("  {digest}\n")).unwrap(), "ab".repeat(32));
    assert!(matches!(
        validate_wheel_digest("xyz"),
        Err(AppError::Dependency(m)) if m == "managed Python returned an invalid Kitchen wheel SHA-256: xyz"
    ));
}

#[test]
fn installed_wheel_must_match_the_built_one() {
    let built = "a".repeat(64);
    let ok = record_installed_kitchen(&probe(true, true, Some(&"A".repeat(64))), &built, "abc", "now").unwrap();
    assert_eq!(ok.status, MaterializationStatus::Current);
    assert_eq!(ok.materialized_head_sha.as_deref(), Some("abc"));
    assert_eq!(ok.installed_origin.as_deref(), Some("/site-packages"));
    let mismatch = record_installed_kitchen(&probe(true, true, Some(&"b".repeat(64))), &built, "abc", "now");
    assert!(matches!(mismatch, Err(AppError::Dependency(m)) if m.starts_with("installed Comfy Kitchen wheel provenance does not match")));
    let missing = record_installed_kitchen(&probe(false, false, None), &built, "abc", "now");
    assert!(matches!(missing, Err(AppError::Dependency(m)) if m.ends_with("has no comfy-kitchen distribution")));
}

#[test]
fn restored_kitchen_must_import() {
    assert!(verify_restored_kitchen("comfy-kitchen==0.2.33", &probe(true, true, None)).is_ok());
    let err = verify_restored_kitchen("comfy-kitchen==0.2.33", &probe(true, false, None)).unwrap_err();
    assert!(matches!(err, AppError::Dependency(m) if m == "restored ComfyUI Kitchen requirement `comfy-kitchen==0.2.33`, but runtime verification failed: no module"));
}

#[test]
fn exactly_one_wheel_is_expected() {
    let one = vec!["build.log".to_string(), "comfy_kitchen-0.2-py3-none-any.WHL".to_string()];
    assert_eq!(select_built_wheel(&one, "/b").unwrap(), "comfy_kitchen-0.2-py3-none-any.WHL");
    assert!(matches!(
        select_built_wheel(&vec!["x.txt".to_string()], "/b"),
        Err(AppError::Dependency(m)) if m == "Kitchen wheel build succeeded but produced no wheel in /b"
    ));
    let two = vec!["a.whl".to_string(), "b.whl".to_string()];
    assert!(matches!(
        select_built_wheel(&two, "/b"),
        Err(AppError::Dependency(m)) if m == "Kitchen wheel build produced 2 wheels in /b; expected exactly one"
    ));
}

#[test]
fn failed_dependency_steps_name_phase_and_strategy() {
    let step = DependencyStep {
        phase: "install".to_string(),
        strategy: "pip-requirements".to_string(),
        command: "python".to_string(),
        args: vec![],
        cwd: "/c".to_string(),
        reason: "requirements.txt".to_string(),
    };
    let err = dependency_step_failed(&step, "exit status: 1", "no such package");
    assert!(matches!(err, AppError::Dependency(m) if m == "install step failed (pip-requirements): exit status: 1\nno such package"));
    assert_eq!(pnpm_retry_args(), vec!["install".to_string(), "--no-frozen-lockfile".to_string()]);
}

#[test]
fn kitchen_build_steps() {
    assert!(require_kitchen_repo(&repo(RepoKind::Kitchen, &[])).is_ok());
    assert!(matches!(
        require_kitchen_repo(&repo(RepoKind::CustomNode, &[])),
        Err(AppError::InvalidInput(m)) if m == "Kitchen project materialization requires a kitchen repository"
    ));
    assert_eq!(kitchen_head(Some("abc".to_string())).unwrap(), "abc");
    assert!(matches!(kitchen_head(None), Err(AppError::Git(m)) if m.starts_with("cannot materialize Comfy Kitchen source")));
    let dir = kitchen_build_dir_arg("b1");
    assert_eq!(dir, ".patcher-build/b1");
    assert_eq!(kitchen_wheel_arg(&dir, "k.whl"), ".patcher-build/b1/k.whl");
    assert!(matches!(
        kitchen_command_failure("hashing built Kitchen wheel", "exit status: 2", "out", "err"),
        AppError::Dependency(m) if m == "hashing built Kitchen wheel failed (exit status: 2):\nout\nerr"
    ));
}

#[test]
fn kitchen_requirement_comes_from_requirements_txt() {
    let content = "torch\ncomfy_kitchen>=0.2.33 # pinned\n";
    assert_eq!(comfy_kitchen_requirement(content, "/c/requirements.txt").unwrap(), "comfy_kitchen>=0.2.33");
    assert!(matches!(
        comfy_kitchen_requirement("torch\n", "/c/requirements.txt"),
        Err(AppError::Dependency(m)) if m == "current ComfyUI checkout does not declare a comfy-kitchen requirement in /c/requirements.txt"
    ));
}
