use comfy_patcher::errors::AppError;
use comfy_patcher::models::{FrontendPackageManager, FrontendSettings, Installation};
use comfy_patcher::registration::{registration_record, RegistrationFields};

fn fields(python: Option<&str>, env: Option<&str>, frontend: Option<&str>) -> RegistrationFields {
    RegistrationFields {
        name: "Renamed".to_string(),
        comfy_root: "/opt/ComfyUI".to_string(),
        python_exe: python.map(str::to_string),
        custom_nodes_dir: "/opt/ComfyUI/custom_nodes".to_string(),
        launch_profile: None,
        frontend_settings: frontend.map(|root| FrontendSettings {
            repo_root: root.to_string(),
            dist_path: format!("{root}/dist"),
            package_manager: FrontendPackageManager::Auto,
        }),
        detected_env_kind: env.map(str::to_string),
        is_git_repo: true,
    }
}

fn stored() -> Installation {
    Installation {
        id: "existing-id".to_string(),
        name: "ComfyUI".to_string(),
        comfy_root: "/opt/ComfyUI".to_string(),
        python_exe: "/opt/venv/bin/python".to_string(),
        custom_nodes_dir: "/opt/ComfyUI/custom_nodes".to_string(),
        launch_profile: None,
        frontend_settings: Some(FrontendSettings {
            repo_root: "/opt/fe".to_string(),
            dist_path: "/opt/fe/dist".to_string(),
            package_manager: FrontendPackageManager::Pnpm,
        }),
        detected_env_kind: "venv".to_string(),
        is_git_repo: false,
        last_reconciled_at: None,
        created_at: "then".to_string(),
        updated_at: "then".to_string(),
    }
}

#[test]
fn reregistering_a_root_keeps_its_entry_and_unset_settings() {
    let record = registration_record(Some(stored()), fields(None, None, None), "new-id".to_string(), "now".to_string()).unwrap();
    assert_eq!(record.id, "existing-id");
    assert_eq!(record.name, "Renamed");
    assert_eq!(record.python_exe, "/opt/venv/bin/python");
    assert_eq!(record.detected_env_kind, "venv");
    assert_eq!(record.frontend_settings.unwrap().repo_root, "/opt/fe");
    assert!(record.is_git_repo);
    assert_eq!(record.created_at, "then");
    assert_eq!(record.updated_at, "now");
}

#[test]
fn given_settings_replace_stored_ones() {
    let record = registration_record(
        Some(stored()),
        fields(Some("/usr/bin/python3"), Some("system"), Some("/srv/fe")),
        "new-id".to_string(),
        "now".to_string(),
    )
    .unwrap();
    assert_eq!(record.python_exe, "/usr/bin/python3");
    assert_eq!(record.detected_env_kind, "system");
    assert_eq!(record.frontend_settings.unwrap().repo_root, "/srv/fe");
}

#[test]
fn new_entries_need_python_and_environment() {
    let missing = registration_record(None, fields(None, None, None), "new-id".to_string(), "now".to_string());
    assert!(matches!(missing, Err(AppError::InvalidInput(m)) if m == "python executable must be provided for new installations"));
    let no_env = registration_record(None, fields(Some("python"), None, None), "new-id".to_string(), "now".to_string());
    assert!(matches!(no_env, Err(AppError::InvalidInput(m)) if m == "detected environment kind must be provided for new installations"));
    let fresh = registration_record(None, fields(Some("python"), Some("system"), None), "new-id".to_string(), "now".to_string()).unwrap();
    assert_eq!(fresh.id, "new-id");
    assert_eq!(fresh.created_at, "now");
    assert_eq!(fresh.updated_at, "now");
    assert_eq!(fresh.comfy_root, "/opt/ComfyUI");
}
