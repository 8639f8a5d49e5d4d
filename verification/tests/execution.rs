use comfy_patcher::errors::AppError;
use comfy_patcher::execution::{parse_wsl_unc_path, plan_command};

#[test]
fn parses_extended_wsl_unc_paths() {
    let parsed =
        parse_wsl_unc_path(r"\\?\UNC\wsl.localhost\Ubuntu-22.04\home\toor\ComfyUI\custom_nodes").unwrap();
    assert_eq!(parsed.distro, "Ubuntu-22.04");
    assert_eq!(parsed.linux_path, "/home/toor/ComfyUI/custom_nodes");
}

#[test]
fn parses_plain_wsl_unc_paths() {
    let parsed = parse_wsl_unc_path(r"\\wsl.localhost\Ubuntu-22.04\home\toor\ComfyUI").unwrap();
    assert_eq!(parsed.distro, "Ubuntu-22.04");
    assert_eq!(parsed.linux_path, "/home/toor/ComfyUI");
}

#[test]
fn parses_uppercase_wsl_hostnames() {
    let parsed = parse_wsl_unc_path(r"\\WSL.LOCALHOST\Ubuntu-22.04\home\toor\ComfyUI").unwrap();
    assert_eq!(parsed.distro, "Ubuntu-22.04");
    assert_eq!(parsed.linux_path, "/home/toor/ComfyUI");
}

#[test]
fn ignores_non_wsl_paths() {
    assert!(parse_wsl_unc_path(r"C:\ComfyUI").is_none());
    assert!(parse_wsl_unc_path("/home/toor/ComfyUI").is_none());
}

#[test]
fn build_command_translates_wsl_unc_programs() {
    let cwd = r"\\wsl.localhost\Ubuntu-22.04\home\toor\ComfyUI";
    let program = r"\\wsl.localhost\Ubuntu-22.04\home\toor\miniconda3\envs\comfy\bin\python";
    let command = plan_command(program, &vec!["-m".to_string(), "pip".to_string()], Some(cwd)).unwrap();
    let program_dbg = format!("{:?}", command.program);
    let args_dbg = format!("{:?}", command.args);
    assert!(program_dbg.contains("wsl.exe"));
    assert!(args_dbg.contains("/home/toor/miniconda3/envs/comfy/bin/python"));
    assert!(!args_dbg.contains(r"\\wsl.localhost\Ubuntu-22.04\home\toor\miniconda3\envs\comfy\bin\python"));
}

#[test]
fn build_command_rejects_mixed_wsl_distros() {
    let cwd = r"\\wsl.localhost\Ubuntu-22.04\home\toor\ComfyUI";
    let program = r"\\wsl.localhost\Debian\home\toor\bin\python";
    let err = plan_command(program, &vec![], Some(cwd)).unwrap_err();
    assert!(matches!(err, AppError::InvalidInput(_)));
}

#[test]
fn plain_commands_run_as_given() {
    let command = plan_command("python", &vec!["main.py".to_string()], Some("/opt/comfy")).unwrap();
    assert_eq!(command.program, "python");
    assert_eq!(command.args, vec!["main.py".to_string()]);
    assert_eq!(command.cwd.as_deref(), Some("/opt/comfy"));
}

#[test]
fn wsl_path_without_rest_is_the_root() {
    let parsed = parse_wsl_unc_path(r"\\wsl$\Debian").unwrap();
    assert_eq!(parsed.distro, "Debian");
    assert_eq!(parsed.linux_path, "/");
}

#[test]
fn wsl_host_matches_without_regard_to_case() {
    let parsed = parse_wsl_unc_path("\\\\W\u{17F}L$\\Debian\\srv").unwrap();
    assert_eq!(parsed.distro, "Debian");
    assert_eq!(parsed.linux_path, "/srv");
    assert!(parse_wsl_unc_path(r"\\wsl$\").is_none());
    assert!(parse_wsl_unc_path("\\\\wsl$\\Debian\\a\nb").is_none());
    assert!(parse_wsl_unc_path(r"\\server\share\x").is_none());
    let parsed = parse_wsl_unc_path("//wsl.localhost/Ubuntu/home").unwrap();
    assert_eq!(parsed.linux_path, "/home");
}
