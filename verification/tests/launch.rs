use comfy_patcher::errors::AppError;
use comfy_patcher::install::{
    check_requested_dir_name, existing_custom_node_dir_action, explicit_dir_name, frontend_target_action,
    first_free_suffix, installation_retained_backup_root, suffixed_custom_node_path, tracking_backup_path_candidate,
    tracking_backup_path_fallback, ExistingDirAction, FrontendTargetAction,
};
use comfy_patcher::launch::{
    apply_managed_frontend_root, effective_launch_profile, is_default_register_launcher,
    merge_launch_profile_overrides, strip_frontend_root_args, validate_frontend_restart_preconditions,
};
use comfy_patcher::models::{
    ExistingRepoConflictStrategy, FrontendPackageManager, FrontendSettings, Installation, LaunchProfile,
};
use comfy_patcher::processes::{
    command_failed, command_is_wsl_backed, restart_command, rewrite_frontend_root_args_for_context,
    start_command, validate_command_env_support,
};
use comfy_patcher::util::{detect_env_kind, infer_python, slugify};
use std::collections::HashMap;

fn strings(v: &[&str]) -> Vec<String> {
    v.iter().map(|s| s.to_string()).collect()
}

fn profile(args: &[&str]) -> LaunchProfile {
    LaunchProfile {
        mode: "managed".to_string(),
        command: "python".to_string(),
        args: strings(args),
        extra_args: None,
        cwd: None,
        env: None,
        stop_command: None,
        stop_args: None,
        restart_command: None,
        restart_args: None,
    }
}

#[test]
fn frontend_root_arguments_are_stripped_and_replaced_once() {
    let args = strings(&["main.py", "--front-end-root", "/old", "--port", "1", "--front-end-root=/x", "--front-end-root"]);
    assert_eq!(strip_frontend_root_args(&args), strings(&["main.py", "--port", "1"]));
    let mut p = profile(&["main.py", "--front-end-root=/old"]);
    p.extra_args = Some(strings(&["--listen", "--front-end-root", "/older"]));
    p.restart_args = Some(strings(&["--front-end-root", "/r"]));
    apply_managed_frontend_root(&mut p, "/dist");
    assert_eq!(p.args, strings(&["main.py"]));
    assert_eq!(p.extra_args, Some(strings(&["--listen", "--front-end-root", "/dist"])));
    assert_eq!(p.restart_args, Some(vec![]));
    let once = p.clone();
    apply_managed_frontend_root(&mut p, "/dist");
    assert_eq!(p.extra_args, once.extra_args);
    assert_eq!(p.args, once.args);
}

fn installation(profile: Option<LaunchProfile>, frontend: bool) -> Installation {
    Installation {
        id: "i".to_string(),
        name: "n".to_string(),
        comfy_root: "/opt/comfy".to_string(),
        python_exe: "/opt/venv/bin/python".to_string(),
        custom_nodes_dir: "/opt/comfy/custom_nodes".to_string(),
        launch_profile: profile,
        frontend_settings: if frontend {
            Some(FrontendSettings {
                repo_root: "/opt/fe".to_string(),
                dist_path: "/opt/fe/dist".to_string(),
                package_manager: FrontendPackageManager::Auto,
            })
        } else {
            None
        },
        detected_env_kind: "venv".to_string(),
        is_git_repo: true,
        last_reconciled_at: None,
        created_at: "now".to_string(),
        updated_at: "now".to_string(),
    }
}

#[test]
fn effective_profile_points_at_existing_dist() {
    assert!(matches!(effective_launch_profile(&installation(None, true), false, true), Err(AppError::Process(m)) if m == "installation has no launch profile"));
    let p = effective_launch_profile(&installation(Some(profile(&["main.py"])), true), false, true).unwrap();
    assert_eq!(p.extra_args, Some(strings(&["--front-end-root", "/opt/fe/dist"])));
    let p = effective_launch_profile(&installation(Some(profile(&["main.py"])), true), false, false).unwrap();
    assert_eq!(p.extra_args, None);
    assert!(matches!(
        effective_launch_profile(&installation(Some(profile(&["main.py"])), true), true, false),
        Err(AppError::Process(m)) if m == "managed frontend dist does not exist: /opt/fe/dist"
    ));
    assert!(validate_frontend_restart_preconditions(false, true, false, true).is_err());
    assert!(validate_frontend_restart_preconditions(false, true, true, true).is_ok());
}

#[test]
fn registration_keeps_stored_launcher_for_default_profiles() {
    let mut default = profile(&["main.py"]);
    default.cwd = Some("/opt/comfy/".to_string());
    assert!(is_default_register_launcher("/opt/comfy", &default));
    let mut existing = profile(&["custom.py", "--x"]);
    existing.command = "/usr/bin/python3".to_string();
    existing.mode = "external".to_string();
    existing.stop_command = Some("stop".to_string());
    let mut env = HashMap::new();
    env.insert("A".to_string(), "1".to_string());
    existing.env = Some(env);
    let merged = merge_launch_profile_overrides("/opt/comfy", Some(&existing), Some(default)).unwrap();
    assert_eq!(merged.command, "/usr/bin/python3");
    assert_eq!(merged.args, strings(&["custom.py", "--x"]));
    assert_eq!(merged.mode, "external");
    assert_eq!(merged.stop_command.as_deref(), Some("stop"));
    assert_eq!(merged.env.as_ref().map(|e| e.len()), Some(1));
    let custom = profile(&["other.py"]);
    let merged = merge_launch_profile_overrides("/opt/comfy", Some(&existing), Some(custom)).unwrap();
    assert_eq!(merged.args, strings(&["other.py"]));
    assert!(merge_launch_profile_overrides("/opt/comfy", Some(&existing), None).is_none());
}

#[test]
fn commands_rewrite_frontend_roots_for_wsl() {
    let args = strings(&["main.py", "--front-end-root", r"\\wsl.localhost\Ubuntu\home\u\dist", r"--front-end-root=\\wsl$\Ubuntu\x"]);
    let rewritten = rewrite_frontend_root_args_for_context("wsl.exe", &args, None);
    assert_eq!(rewritten, strings(&["main.py", "--front-end-root", "/home/u/dist", "--front-end-root=/x"]));
    assert_eq!(rewrite_frontend_root_args_for_context("python", &args, Some("/opt")), args);
    assert!(command_is_wsl_backed("C:/Windows/WSL.EXE", None));
    assert!(!command_is_wsl_backed("python", Some("/opt")));
    let mut p = profile(&["main.py"]);
    p.extra_args = Some(strings(&["--port", "8"]));
    p.restart_command = Some("restart.sh".to_string());
    assert_eq!(start_command(&p), ("python".to_string(), strings(&["main.py", "--port", "8"])));
    assert_eq!(restart_command(&p), ("restart.sh".to_string(), strings(&["main.py", "--port", "8"])));
    let mut env = HashMap::new();
    env.insert("A".to_string(), "1".to_string());
    assert!(validate_command_env_support(r"\\wsl$\Ubuntu\bin\python", None, Some(&env)).is_err());
    assert!(validate_command_env_support("python", None, Some(&env)).is_ok());
    assert!(validate_command_env_support(r"\\wsl$\Ubuntu\bin\python", None, Some(&HashMap::new())).is_ok());
    assert!(matches!(command_failed("git", "  boom \n", "out", "1"), AppError::Process(m) if m == "command 'git' failed: boom"));
    assert!(matches!(command_failed("git", "", "", "exit status: 2"), AppError::Process(m) if m == "command 'git' failed: exit status exit status: 2"));
}

#[test]
fn custom_node_directories_and_existing_targets() {
    assert!(check_requested_dir_name(&Some(" foo ".to_string()), Some("/n/foo")).is_ok());
    match check_requested_dir_name(&Some("bar".to_string()), Some("/n/foo")) {
        Err(AppError::Conflict(m)) => assert_eq!(m, "matching repo already exists at /n/foo; refusing to ignore requested directory bar"),
        other => panic!("unexpected {other:?}"),
    }
    assert_eq!(explicit_dir_name(&Some(" x ".to_string()), Some("/n/foo"), "s").as_deref(), Some(" x "));
    assert_eq!(explicit_dir_name(&Some("  ".to_string()), Some("/n/foo"), "s").as_deref(), Some("foo"));
    assert_eq!(explicit_dir_name(&None, None, "s"), None);
    assert_eq!(
        existing_custom_node_dir_action(false, true, true, ExistingRepoConflictStrategy::Abort).unwrap(),
        ExistingDirAction::AdoptTrackingInstall
    );
    assert!(existing_custom_node_dir_action(false, false, false, ExistingRepoConflictStrategy::Abort).is_err());
    assert_eq!(
        existing_custom_node_dir_action(true, false, false, ExistingRepoConflictStrategy::Abort).unwrap(),
        ExistingDirAction::PatchExistingRepo
    );
    assert_eq!(suffixed_custom_node_path("/n", "foo", 2), "/n/foo-2");
    assert_eq!(
        frontend_target_action(true, true, Some("git@github.com:Comfy-Org/ComfyUI_frontend.git"), "https://github.com/Comfy-Org/ComfyUI_frontend", ExistingRepoConflictStrategy::Abort).unwrap(),
        FrontendTargetAction::ReuseExisting
    );
    match frontend_target_action(true, true, Some("https://github.com/x/y"), "https://github.com/a/b", ExistingRepoConflictStrategy::Abort) {
        Err(AppError::Conflict(m)) => assert_eq!(m, "managed frontend repo root already contains a different git repository"),
        other => panic!("unexpected {other:?}"),
    }
    assert_eq!(frontend_target_action(false, false, None, "r", ExistingRepoConflictStrategy::Abort).unwrap(), FrontendTargetAction::CloneFresh);
    assert_eq!(frontend_target_action(true, false, None, "r", ExistingRepoConflictStrategy::Replace).unwrap(), FrontendTargetAction::ReplaceThenClone);
}

#[test]
fn backups_live_beside_the_installation() {
    assert_eq!(installation_retained_backup_root("/opt/ComfyUI", "frontend"), "/opt/.comfyui-patcher-backups/ComfyUI/frontend");
    assert_eq!(tracking_backup_path_candidate("/n/foo", "/b", 100, 0), "/b/foo.tracking-backup-100");
    assert_eq!(tracking_backup_path_candidate("/n/foo", "/b", 100, 3), "/b/foo.tracking-backup-100-3");
    assert_eq!(tracking_backup_path_fallback("/", "/b"), "/b/custom-node.tracking-backup");
}

#[test]
fn slugs_and_environments() {
    assert_eq!(slugify("  ABC Tools!  "), "abc-tools");
    assert_eq!(slugify("Ärger"), "rger");
    assert_eq!(slugify("---"), "");
    assert_eq!(detect_env_kind("/home/u/miniconda3/envs/x/bin/python"), "conda");
    assert_eq!(infer_python("/opt/c", &vec![false, false, false, false, false, false]), None);
}

#[test]
fn first_free_suffix_skips_taken_candidates() {
    assert_eq!(first_free_suffix(2, &vec![true, true, false, false]), Some(4));
    assert_eq!(first_free_suffix(2, &vec![false]), Some(2));
    assert_eq!(first_free_suffix(18, &vec![true, true]), None);
    assert_eq!(first_free_suffix(2, &Vec::new()), None);
}
