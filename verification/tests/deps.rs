use comfy_patcher::deps::{
    package_json_facts, plan_dependency_sync, pyproject_dependency_list, pyproject_facts, ManifestFacts, PackageJsonFacts,
};
use comfy_patcher::errors::AppError;
use comfy_patcher::models::{Installation, ManagedRepo, RepoKind, RepoLiveStatus, TargetKind};

fn installation() -> Installation {
    Installation {
        id: "i".to_string(),
        name: "test".to_string(),
        comfy_root: "/comfy".to_string(),
        python_exe: "/venv/bin/python".to_string(),
        custom_nodes_dir: "/comfy/custom_nodes".to_string(),
        launch_profile: None,
        frontend_settings: None,
        detected_env_kind: "venv".to_string(),
        is_git_repo: true,
        last_reconciled_at: None,
        created_at: "now".to_string(),
        updated_at: "now".to_string(),
    }
}

fn repo(kind: RepoKind, local_path: &str) -> ManagedRepo {
    ManagedRepo {
        id: "r".to_string(),
        installation_id: "i".to_string(),
        kind,
        display_name: "Comfy Kitchen".to_string(),
        local_path: local_path.to_string(),
        canonical_remote: None,
        current_head_sha: Some("abc".to_string()),
        current_branch: Some("main".to_string()),
        is_detached: false,
        is_dirty: false,
        tracked_target_kind: Some(TargetKind::DefaultBranch),
        tracked_target_input: None,
        tracked_target_resolved_sha: Some("abc".to_string()),
        tracked_state: None,
        live_status: RepoLiveStatus::Clean,
        live_warnings: vec![],
        changed_files: vec![],
        dependency_state: None,
        materialization_state: None,
        last_scanned_at: None,
        created_at: "now".to_string(),
        updated_at: "now".to_string(),
    }
}

fn facts(requirements_txt: bool) -> ManifestFacts {
    ManifestFacts {
        requirements_txt,
        pyproject: None,
        package_json: Ok(PackageJsonFacts { has_build_script: false, package_manager: None }),
        pnpm_lock: false,
        yarn_lock: false,
    }
}

#[test]
fn kitchen_is_not_routed_through_generic_pyproject_dependency_sync() {
    let installation = installation();
    let repo = repo(RepoKind::Kitchen, "/comfy-kitchen");
    let plan = plan_dependency_sync(&installation, &repo, &repo.local_path, facts(true)).unwrap();
    assert_eq!(plan.strategy, "project_materialization");
    assert!(plan.steps.is_empty());
}

#[test]
fn requirements_file_plans_a_pip_install_with_the_installation_python() {
    let installation = installation();
    let repo = repo(RepoKind::CustomNode, "/comfy/custom_nodes/foo");
    let plan = plan_dependency_sync(&installation, &repo, &repo.local_path, facts(true)).unwrap();
    assert_eq!(plan.steps.len(), 1);
    assert_eq!(plan.steps[0].command, "/venv/bin/python");
    assert!(plan.steps[0].args.contains(&"requirements.txt".to_string()));
    assert_eq!(plan.steps[0].cwd, "/comfy/custom_nodes/foo");
}

#[test]
fn package_json_text_gives_build_script_and_manager() {
    let facts = package_json_facts(r#"{"scripts": {"build": "vite build"}, "packageManager": "pnpm@9.1.0"}"#, "p.json").unwrap();
    assert!(facts.has_build_script);
    assert_eq!(facts.package_manager.as_deref(), Some("pnpm@9.1.0"));
    let facts = package_json_facts(r#"{"scripts": {"build": 1}, "packageManager": 3}"#, "p.json").unwrap();
    assert!(!facts.has_build_script);
    assert_eq!(facts.package_manager, None);
    let facts = package_json_facts(r#"{"scripts": ["build"]}"#, "p.json").unwrap();
    assert!(!facts.has_build_script);
    match package_json_facts("{not json", "/repo/package.json") {
        Err(AppError::Dependency(m)) => assert!(m.starts_with("failed to parse /repo/package.json: ")),
        other => panic!("unexpected {:?}", other.map(|f| f.has_build_script)),
    }
}

#[test]
fn pyproject_lists_keep_only_non_empty() {
    assert_eq!(pyproject_dependency_list(None), None);
    assert_eq!(pyproject_dependency_list(Some(Vec::new())), None);
    assert_eq!(pyproject_dependency_list(Some(vec!["torch".to_string()])), Some(vec!["torch".to_string()]));
}

#[test]
fn pyproject_text_gives_its_dependency_list() {
    let text = "[project]\nname = \"x\"\ndependencies = [\"torch\", \"numpy>=1\"]\n";
    assert_eq!(
        pyproject_facts(text, "p.toml").unwrap(),
        Some(vec!["torch".to_string(), "numpy>=1".to_string()])
    );
    assert_eq!(pyproject_facts("[project]\ndependencies = []\n", "p.toml").unwrap(), None);
    assert_eq!(pyproject_facts("[project]\nname = \"x\"\n", "p.toml").unwrap(), None);
    assert_eq!(pyproject_facts("[tool.black]\nline-length = 100\n", "p.toml").unwrap(), None);
    for bad in ["[project\n", "project = 3\n", "[project]\ndependencies = [1]\n", "[project]\ndependencies = \"x\"\n"] {
        match pyproject_facts(bad, "/r/pyproject.toml") {
            Err(AppError::Dependency(m)) => assert!(m.starts_with("failed to parse /r/pyproject.toml: ")),
            other => panic!("unexpected {:?}", other),
        }
    }
}
