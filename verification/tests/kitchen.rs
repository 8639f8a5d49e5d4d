use comfy_patcher::kitchen::{
    evaluate_materialization, failed_materialization_state, materialization_warning,
    parse_comfy_kitchen_requirement, plan_kitchen_wheel_build, plan_kitchen_wheel_install,
    runtime_identity_matches, DEFAULT_KITCHEN_REPO_URL,
};
use comfy_patcher::models::{
    Installation, KitchenRuntimeProbe, ManagedRepo, MaterializationStatus, RepoKind,
    RepoLiveStatus, RepoMaterializationState, TargetKind,
};

fn installation() -> Installation {
    Installation {
        id: "i".to_string(),
        name: "test".to_string(),
        comfy_root: "/opt/Comfy UI".to_string(),
        python_exe: "/opt/venv with spaces/bin/python".to_string(),
        custom_nodes_dir: "/opt/Comfy UI/custom_nodes".to_string(),
        launch_profile: None,
        frontend_settings: None,
        detected_env_kind: "venv".to_string(),
        is_git_repo: true,
        last_reconciled_at: None,
        created_at: "now".to_string(),
        updated_at: "now".to_string(),
    }
}

fn repo() -> ManagedRepo {
    ManagedRepo {
        id: "r".to_string(),
        installation_id: "i".to_string(),
        kind: RepoKind::Kitchen,
        display_name: "Comfy Kitchen".to_string(),
        local_path: "/opt/comfy-kitchen".to_string(),
        canonical_remote: Some(DEFAULT_KITCHEN_REPO_URL.to_string()),
        current_head_sha: Some("abc".to_string()),
        current_branch: Some("main".to_string()),
        is_detached: false,
        is_dirty: false,
        tracked_target_kind: Some(TargetKind::DefaultBranch),
        tracked_target_input: None,
        tracked_target_resolved_sha: Some("abc".to_string()),
        tracked_state: None,
        live_status: RepoLiveStatus::Clean,
        live_warnings: vec![],
        changed_files: vec![],
        dependency_state: None,
        materialization_state: Some(RepoMaterializationState {
            materialized_head_sha: Some("abc".to_string()),
            installed_version: Some("0.2.33".to_string()),
            installed_origin: Some("file:///wheel.whl".to_string()),
            artifact_sha256: Some("a".repeat(64)),
            installed_record_sha256: Some("record-a".to_string()),
            status: MaterializationStatus::Current,
            last_materialized_at: Some("now".to_string()),
            last_error: None,
        }),
        last_scanned_at: None,
        created_at: "now".to_string(),
        updated_at: "now".to_string(),
    }
}

#[test]
fn build_plan_uses_exact_installation_python_and_builds_before_install() {
    let installation = installation();
    let build = plan_kitchen_wheel_build(&installation, "/opt/comfy-kitchen", ".patcher-build/test");
    assert_eq!(build.python_exe, installation.python_exe);
    assert_eq!(
        build.build_args,
        vec!["-m", "pip", "wheel", "--no-deps", "--wheel-dir", ".patcher-build/test", "."]
    );
    let install = plan_kitchen_wheel_install(
        &installation,
        "/opt/comfy-kitchen",
        ".patcher-build/test/comfy_kitchen.whl",
    );
    assert_eq!(install.python_exe, installation.python_exe);
    assert_eq!(
        install.install_args,
        vec![
            "-m",
            "pip",
            "install",
            "--no-deps",
            "--force-reinstall",
            ".patcher-build/test/comfy_kitchen.whl"
        ]
    );
}

#[test]
fn requirement_parser_reads_current_core_pin_without_hard_coding_version() {
    assert_eq!(
        parse_comfy_kitchen_requirement("torch\ncomfy-kitchen==9.8.7  # core-owned pin\nother-package\n")
            .as_deref(),
        Some("comfy-kitchen==9.8.7")
    );
    assert_eq!(
        parse_comfy_kitchen_requirement("comfy_kitchen @ https://example.test/kitchen.whl\n").as_deref(),
        Some("comfy_kitchen @ https://example.test/kitchen.whl")
    );
}

#[test]
fn runtime_identity_ignores_probe_time_but_detects_distribution_changes() {
    let baseline = KitchenRuntimeProbe {
        distribution_present: true,
        installed_version: Some("0.2.33".to_string()),
        distribution_location: Some("/venv/site-packages".to_string()),
        direct_url: Some("file:///old.whl".to_string()),
        direct_url_sha256: Some("a".repeat(64)),
        record_sha256: Some("record-a".to_string()),
        import_ok: true,
        module_location: Some("/venv/site-packages/comfy_kitchen/__init__.py".to_string()),
        probed_at: Some("before".to_string()),
        ..Default::default()
    };
    let reprobe = KitchenRuntimeProbe { probed_at: Some("after".to_string()), ..baseline.clone() };
    assert!(runtime_identity_matches(&baseline, &reprobe));

    let replaced = KitchenRuntimeProbe {
        direct_url: Some("file:///new.whl".to_string()),
        direct_url_sha256: Some("b".repeat(64)),
        record_sha256: Some("record-b".to_string()),
        ..reprobe
    };
    assert!(!runtime_identity_matches(&baseline, &replaced));

    let missing_before = KitchenRuntimeProbe { probed_at: Some("before".to_string()), ..Default::default() };
    let missing_after = KitchenRuntimeProbe { probed_at: Some("after".to_string()), ..Default::default() };
    assert!(runtime_identity_matches(&missing_before, &missing_after));
}

#[test]
fn reconciliation_distinguishes_checkout_staleness_and_external_replacement() {
    let mut repo = repo();
    let probe = KitchenRuntimeProbe {
        distribution_present: true,
        installed_version: Some("0.2.33".to_string()),
        direct_url: Some("file:///wheel.whl".to_string()),
        direct_url_sha256: Some("a".repeat(64)),
        record_sha256: Some("record-a".to_string()),
        import_ok: true,
        ..Default::default()
    };
    assert_eq!(evaluate_materialization(&repo, &probe).status, MaterializationStatus::Current);

    repo.current_head_sha = Some("def".to_string());
    assert_eq!(evaluate_materialization(&repo, &probe).status, MaterializationStatus::Stale);

    repo.current_head_sha = Some("abc".to_string());
    let replaced_record = KitchenRuntimeProbe { record_sha256: Some("record-b".to_string()), ..probe.clone() };
    assert_eq!(evaluate_materialization(&repo, &replaced_record).status, MaterializationStatus::Replaced);

    let replaced_artifact = KitchenRuntimeProbe { direct_url_sha256: Some("b".repeat(64)), ..probe.clone() };
    assert_eq!(evaluate_materialization(&repo, &replaced_artifact).status, MaterializationStatus::Replaced);

    let replaced_origin = KitchenRuntimeProbe { direct_url: None, direct_url_sha256: None, ..probe.clone() };
    assert_eq!(evaluate_materialization(&repo, &replaced_origin).status, MaterializationStatus::Replaced);

    let mut fallback_repo = repo.clone();
    fallback_repo.materialization_state.as_mut().unwrap().installed_origin =
        Some("/venv/site-packages".to_string());
    let fallback_probe = KitchenRuntimeProbe { direct_url: None, direct_url_sha256: None, ..probe };
    assert_eq!(
        evaluate_materialization(&fallback_repo, &fallback_probe).status,
        MaterializationStatus::Current
    );
}

#[test]
fn reconciliation_distinguishes_missing_and_import_failure() {
    let repo = repo();
    let missing = KitchenRuntimeProbe::default();
    assert_eq!(evaluate_materialization(&repo, &missing).status, MaterializationStatus::Missing);
    let broken = KitchenRuntimeProbe {
        distribution_present: true,
        installed_version: Some("0.2.33".to_string()),
        import_ok: false,
        import_error: Some("boom".to_string()),
        ..Default::default()
    };
    assert_eq!(evaluate_materialization(&repo, &broken).status, MaterializationStatus::ImportFailed);
}

#[test]
fn current_materialization_has_no_warning_and_failures_do() {
    let repo = repo();
    let state = repo.materialization_state.clone().unwrap();
    assert!(materialization_warning(&state).is_none());
    let failed = failed_materialization_state(Some(&state), "build broke");
    assert_eq!(failed.status, MaterializationStatus::Failed);
    assert_eq!(failed.last_error.as_deref(), Some("build broke"));
    assert!(materialization_warning(&failed).is_some());
}
