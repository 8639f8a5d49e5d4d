use comfy_patcher::errors::AppError;
use comfy_patcher::health::{checkpoint_comparison_warnings, comparison_reads_history_exec};
use comfy_patcher::models::{FrontendPackageManager, FrontendSettings, Installation, ManagedRepo, RepoKind, RepoLiveStatus, ResolvedTarget, TargetKind};
use comfy_patcher::pathnorm::{
    check_frontend_repo_root, default_frontend_repo_root, default_frontend_settings_draft, frontend_dist_path,
    normalize_path_components,
};
use comfy_patcher::stacking::{checkout_plan, CheckoutPlan};
use comfy_patcher::updates::{
    finished_event, install_update_precheck, unsupported_update_check, update_check_result, updater_pubkey,
    DownloadProgress,
};
use comfy_patcher::util::{python_exe_form, python_not_a_file, PythonExeForm};

fn live_repo(status: RepoLiveStatus, head: Option<&str>, warnings: &[&str]) -> ManagedRepo {
    ManagedRepo {
        id: "r".to_string(),
        installation_id: "i".to_string(),
        kind: RepoKind::CustomNode,
        display_name: "node".to_string(),
        local_path: "/c/custom_nodes/node".to_string(),
        canonical_remote: None,
        current_head_sha: head.map(str::to_string),
        current_branch: None,
        is_detached: false,
        is_dirty: false,
        tracked_target_kind: None,
        tracked_target_input: None,
        tracked_target_resolved_sha: None,
        tracked_state: None,
        live_status: status,
        live_warnings: warnings.iter().map(|w| w.to_string()).collect(),
        changed_files: vec![],
        dependency_state: None,
        materialization_state: None,
        last_scanned_at: None,
        created_at: "now".to_string(),
        updated_at: "now".to_string(),
    }
}

fn resolved(kind: TargetKind, checkout_ref: &str, pr: Option<u64>) -> ResolvedTarget {
    ResolvedTarget {
        source_input: "x".to_string(),
        target_kind: kind,
        canonical_repo_url: "https://github.com/o/r".to_string(),
        fetch_url: "https://github.com/o/r.git".to_string(),
        checkout_ref: checkout_ref.to_string(),
        resolved_sha: None,
        pr_number: pr,
        pr_base_repo_url: None,
        pr_base_ref: None,
        pr_head_repo_url: None,
        pr_head_ref: None,
        summary_label: "label".to_string(),
        suggested_local_dir_name: "r".to_string(),
    }
}

#[test]
fn normalizes_dots_and_parents() {
    assert_eq!(normalize_path_components("/a/./b/../c//d/"), "/a/c/d");
    assert_eq!(normalize_path_components("a/../../b"), "../b");
    assert_eq!(normalize_path_components("/../x"), "/x");
    assert_eq!(normalize_path_components("../../x/.."), "../..");
    assert_eq!(normalize_path_components("./"), "");
    assert_eq!(normalize_path_components("/"), "/");
}

#[test]
fn normalizing_twice_changes_nothing() {
    for p in ["/a/./b/../c//d/", "a/../../b", "../../x/..", "/..", "x/y/../../..", ""] {
        let once = normalize_path_components(p);
        assert_eq!(normalize_path_components(&once), once);
    }
}

#[test]
fn frontend_root_may_not_be_the_comfy_root() {
    let r = check_frontend_repo_root("/srv/comfy/./", "/srv/comfy", "/srv/comfy/custom_nodes");
    assert!(matches!(r, Err(AppError::InvalidInput(m)) if m == "managed frontend repo root cannot be the ComfyUI root"));
}

#[test]
fn frontend_root_may_not_be_inside_custom_nodes() {
    let r = check_frontend_repo_root("/srv/comfy/custom_nodes/fe", "/srv/comfy", "/srv/comfy/custom_nodes");
    assert!(matches!(r, Err(AppError::InvalidInput(m)) if m == "managed frontend repo root cannot be inside custom_nodes"));
    let ok = check_frontend_repo_root("/srv/comfy/custom_nodes_fe/../fe", "/srv/comfy", "/srv/comfy/custom_nodes");
    assert_eq!(ok.unwrap(), "/srv/comfy/fe");
}

#[test]
fn frontend_dist_defaults_under_the_repo_root() {
    assert_eq!(frontend_dist_path("/srv/fe", None), "/srv/fe/dist");
    assert_eq!(frontend_dist_path("/srv/fe", Some("/srv/fe/./build/../out")), "/srv/fe/out");
}

#[test]
fn python_exe_forms() {
    assert!(matches!(python_exe_form(None), PythonExeForm::Infer));
    assert!(matches!(python_exe_form(Some("   ")), PythonExeForm::Infer));
    assert!(matches!(python_exe_form(Some(" /usr/bin/python3 ")), PythonExeForm::Absolute(p) if p == "/usr/bin/python3"));
    assert!(matches!(python_exe_form(Some("venv/bin/python")), PythonExeForm::RootRelative(p) if p == "venv/bin/python"));
    assert!(matches!(python_exe_form(Some("python3")), PythonExeForm::Command(p) if p == "python3"));
    assert!(matches!(python_not_a_file("/x"), AppError::InvalidInput(m) if m == "python executable is not a file: /x"));
}

#[test]
fn checkout_plans_by_target_kind() {
    match checkout_plan(&resolved(TargetKind::Pr, "patcher/pr-12", Some(12))).unwrap() {
        CheckoutPlan::PullRequest { refspec, branch } => {
            assert_eq!(refspec, "pull/12/head:patcher/pr-12");
            assert_eq!(branch, "patcher/pr-12");
        }
        _ => panic!("expected a pull request plan"),
    }
    assert!(matches!(checkout_plan(&resolved(TargetKind::Pr, "p", None)), Err(AppError::Github(m)) if m == "missing PR number"));
    match checkout_plan(&resolved(TargetKind::DefaultBranch, "main", None)).unwrap() {
        CheckoutPlan::Branch { branch, remote_ref } => {
            assert_eq!(branch, "main");
            assert_eq!(remote_ref, "origin/main");
        }
        _ => panic!("expected a branch plan"),
    }
    assert!(matches!(checkout_plan(&resolved(TargetKind::Tag, "v1", None)).unwrap(), CheckoutPlan::Detached { target } if target == "v1"));
}

#[test]
fn comparison_warnings_follow_the_live_state() {
    let gone = live_repo(RepoLiveStatus::Missing, None, &["missing"]);
    assert!(!comparison_reads_history_exec(&gone));
    assert_eq!(
        checkpoint_comparison_warnings(&gone, "abc", None, None),
        vec![
            "missing".to_string(),
            "Checkpoint comparison is unavailable because this repo is not currently a valid git worktree.".to_string()
        ]
    );
    let here = live_repo(RepoLiveStatus::Clean, Some("abc"), &[]);
    assert!(comparison_reads_history_exec(&here));
    let err = AppError::Git("bad object".to_string());
    assert_eq!(
        checkpoint_comparison_warnings(&here, "abc", Some(&err), None),
        vec![
            "Unable to inspect commits from this checkpoint; the saved commit may no longer exist locally: git command failed: bad object".to_string(),
            "Current disk state already matches this checkpoint.".to_string()
        ]
    );
}

#[test]
fn download_announces_itself_once() {
    let mut progress = DownloadProgress::new();
    let first = progress.on_chunk(10, Some(30));
    let second = progress.on_chunk(20, Some(30));
    assert_eq!(first.len(), 2);
    assert_eq!(first[0].kind, "started");
    assert_eq!(first[0].content_length, Some(30));
    assert_eq!(first[1].kind, "progress");
    assert_eq!(first[1].chunk_length, Some(10));
    assert_eq!(second.len(), 1);
    assert_eq!(second[0].kind, "progress");
    assert_eq!(second[0].chunk_length, Some(20));
    assert_eq!(finished_event().kind, "finished");
}

#[test]
fn update_checks_and_install_gate() {
    let found = update_check_result(Some("1.2.0".to_string()), "1.1.0");
    assert!(found.enabled);
    let meta = found.update.unwrap();
    assert_eq!(meta.version, "1.2.0");
    assert_eq!(meta.current_version, "1.1.0");
    assert!(update_check_result(None, "1.1.0").update.is_none());
    let off = unsupported_update_check();
    assert!(!off.enabled);
    assert_eq!(off.disabled_reason.as_deref(), Some("Updater is only supported on desktop builds."));
    assert_eq!(updater_pubkey(Some("  key ")), Ok("key".to_string()));
    assert_eq!(
        updater_pubkey(Some("  ")),
        Err("updater configuration is missing plugins.updater.pubkey".to_string())
    );
    assert_eq!(
        install_update_precheck(false, true, false, true),
        Err("cannot install update while operations are running".to_string())
    );
    assert_eq!(
        install_update_precheck(false, false, false, false),
        Err("there is no pending update; check for updates first".to_string())
    );
    assert_eq!(install_update_precheck(false, false, false, true), Ok(()));
}

fn comfy_installation(settings: Option<FrontendSettings>) -> Installation {
    Installation {
        id: "i".to_string(),
        name: "test".to_string(),
        comfy_root: "/opt/ComfyUI".to_string(),
        python_exe: "/opt/ComfyUI/venv/bin/python".to_string(),
        custom_nodes_dir: "/opt/ComfyUI/custom_nodes".to_string(),
        launch_profile: None,
        frontend_settings: settings,
        detected_env_kind: "venv".to_string(),
        is_git_repo: true,
        last_reconciled_at: None,
        created_at: "now".to_string(),
        updated_at: "now".to_string(),
    }
}

#[test]
fn default_frontend_root_sits_beside_the_comfy_root() {
    let plain = comfy_installation(None);
    assert_eq!(default_frontend_repo_root(&plain), "/opt/ComfyUI_frontend");
    let draft = default_frontend_settings_draft(&plain, None);
    assert_eq!(draft.repo_root, "/opt/ComfyUI_frontend");
    assert_eq!(draft.dist_path, "");
    assert_eq!(draft.package_manager, FrontendPackageManager::Auto);
    let configured = comfy_installation(Some(FrontendSettings {
        repo_root: "/x".to_string(),
        dist_path: "  /x/out ".to_string(),
        package_manager: FrontendPackageManager::Pnpm,
    }));
    let draft = default_frontend_settings_draft(&configured, Some("/elsewhere/fe"));
    assert_eq!(draft.repo_root, "/elsewhere/fe");
    assert_eq!(draft.dist_path, "/x/out");
    assert_eq!(draft.package_manager, FrontendPackageManager::Pnpm);
}
