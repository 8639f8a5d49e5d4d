use comfy_patcher::errors::AppError;
use comfy_patcher::git::{
    canonicalize_remote, join_custom_node_path, normalize_linux_path, normalize_native_path,
    parse_commit_log, parse_ls_remote_default_branch, parse_name_status,
    parse_status_changed_files, stash_ref_from_list, validate_custom_node_dir_name,
};

#[test]
fn accepts_single_directory_name() {
    assert_eq!(validate_custom_node_dir_name("foo-bar").unwrap(), "foo-bar");
    assert_eq!(validate_custom_node_dir_name(" foo ").unwrap(), "foo");
    assert_eq!(validate_custom_node_dir_name("foo/").unwrap(), "foo");
}

#[test]
fn rejects_empty_directory_name() {
    assert!(matches!(validate_custom_node_dir_name("   "), Err(AppError::InvalidInput(_))));
}

#[test]
fn rejects_non_local_directory_name() {
    for invalid in ["../foo", "a/b", "."] {
        assert!(matches!(validate_custom_node_dir_name(invalid), Err(AppError::InvalidInput(_))));
    }
}

#[test]
fn rejects_windows_absolute_directory_name() {
    assert!(matches!(
        validate_custom_node_dir_name(r"C:\temp\foo"),
        Err(AppError::InvalidInput(_))
    ));
}

#[test]
fn rejects_unix_absolute_directory_name() {
    assert!(matches!(validate_custom_node_dir_name("/tmp/foo"), Err(AppError::InvalidInput(_))));
}

#[test]
fn resolves_stash_ref_from_saved_sha() {
    let stash_list = "abc123\tstash@{0}\ndef456\tstash@{1}";
    assert_eq!(stash_ref_from_list(stash_list, "def456"), Some("stash@{1}".to_string()));
}

#[test]
fn preserves_legacy_stash_refs() {
    assert_eq!(stash_ref_from_list("", "stash@{2}"), Some("stash@{2}".to_string()));
}

#[test]
fn parses_ls_remote_default_branch() {
    let output = "ref: refs/heads/main\tHEAD\n0123456789abcdef\tHEAD";
    assert_eq!(parse_ls_remote_default_branch(output), Some("main".to_string()));
}

#[test]
fn ignores_missing_ls_remote_default_branch() {
    let output = "0123456789abcdef\tHEAD";
    assert_eq!(parse_ls_remote_default_branch(output), None);
}

#[test]
fn canonicalizes_ssh_and_https_remotes() {
    assert_eq!(
        canonicalize_remote("git@github.com:Comfy-Org/ComfyUI.git").as_deref(),
        Some("https://github.com/Comfy-Org/ComfyUI")
    );
    assert_eq!(
        canonicalize_remote("  https://github.com/Comfy-Org/ComfyUI.git/tree/main ").as_deref(),
        Some("https://github.com/Comfy-Org/ComfyUI")
    );
    assert_eq!(
        canonicalize_remote("https://GitHub.com/a/b.git.git").as_deref(),
        Some("https://github.com/a/b")
    );
    assert_eq!(canonicalize_remote("https://gitlab.com/a/b"), None);
    assert_eq!(canonicalize_remote("https://github.com/only-owner"), None);
    assert_eq!(canonicalize_remote("   "), None);
    assert_eq!(canonicalize_remote("git@github.com:a/b/c"), None);
}

#[test]
fn canonical_remote_is_stable() {
    let once = canonicalize_remote("git@github.com:Owner/Repo.git").unwrap();
    assert_eq!(canonicalize_remote(&once).as_deref(), Some(once.as_str()));
}

#[test]
fn status_lists_both_sides_of_renames() {
    let output = " M src/a.rs\nR  old.txt -> new.txt\n?? notes.md\nab\n";
    assert_eq!(
        parse_status_changed_files(output),
        vec!["src/a.rs", "old.txt", "new.txt", "notes.md"]
    );
}

#[test]
fn stash_lookup_without_match_is_none() {
    assert_eq!(stash_ref_from_list("abc\tstash@{0}", "zzz"), None);
    assert_eq!(stash_ref_from_list("zzz", "zzz"), None);
}

#[test]
fn default_branch_line_without_tab_stops_search() {
    let output = "ref: refs/heads/main\nref: refs/heads/dev\tHEAD";
    assert_eq!(parse_ls_remote_default_branch(output), None);
}

#[test]
fn linux_and_native_paths_drop_trailing_slashes() {
    assert_eq!(normalize_linux_path(r"\home\me\\"), "/home/me");
    assert_eq!(normalize_linux_path("///"), "/");
    assert_eq!(normalize_native_path("/opt/comfy//"), "/opt/comfy");
}

#[test]
fn directory_names_accept_trailing_dot_segments() {
    assert_eq!(validate_custom_node_dir_name("foo/./").unwrap(), "foo");
    assert!(validate_custom_node_dir_name("..").is_err());
    assert!(validate_custom_node_dir_name("./foo").is_err());
    assert_eq!(
        validate_custom_node_dir_name("   ").unwrap_err().message(),
        "invalid input: custom node directory name cannot be empty"
    );
}

#[test]
fn joins_custom_node_paths() {
    assert_eq!(join_custom_node_path("/comfy/custom_nodes", "foo"), "/comfy/custom_nodes/foo");
    assert_eq!(join_custom_node_path("/comfy/custom_nodes/", "foo"), "/comfy/custom_nodes/foo");
    assert_eq!(join_custom_node_path("/comfy", "/abs"), "/abs");
    assert_eq!(join_custom_node_path("", "foo"), "foo");
}

#[test]
fn parses_commit_log_and_name_status() {
    let commits = parse_commit_log("abc\tFirst subject\nno-tab\ndef\tSecond\twith tab");
    assert_eq!(commits.len(), 2);
    assert_eq!(commits[0].sha, "abc");
    assert_eq!(commits[0].subject, "First subject");
    assert_eq!(commits[1].subject, "Second\twith tab");
    let files = parse_name_status("M\tsrc/a.rs\nR100\told.rs\tnew.rs\nbogus");
    assert_eq!(files.len(), 2);
    assert_eq!(files[0].status, "M");
    assert_eq!(files[0].path, "src/a.rs");
    assert_eq!(files[1].status, "R100");
    assert_eq!(files[1].path, "new.rs");
}
