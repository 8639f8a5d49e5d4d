use comfy_patcher::models::{ResolvedTarget, TargetKind};
use comfy_patcher::registry::{
    expected_dir_names_for_entry, filter_entries, owner_repo_from_canonical_url, parse_pyproject_name,
    preferred_dir_name, pyproject_dir_name, pyproject_toml_url, remote_alias_list, repo_name_from_url,
    select_search_entries, sort_entries_by_key, ManagerCustomNodeEntry,
};

fn entry(id: Option<&str>, title: Option<&str>, reference: Option<&str>, install_type: Option<&str>) -> ManagerCustomNodeEntry {
    ManagerCustomNodeEntry {
        id: id.map(str::to_string),
        title: title.map(str::to_string),
        author: None,
        description: None,
        reference: reference.map(str::to_string),
        files: None,
        install_type: install_type.map(str::to_string),
    }
}

#[test]
fn extracts_name_from_project_section() {
    let text = r#"
[build-system]
requires = ["setuptools"]

[project]
name = "wan22fmlf"
version = "1.0.0"
"#;
    assert_eq!(parse_pyproject_name(text).as_deref(), Some("wan22fmlf"));
}

#[test]
fn prefers_project_section_name_only() {
    let text = "\r\n[tool.other]\r\nname = \"wrong\"\r\n\r\n[project]\r\nname = \"right-name\"\r\n";
    assert_eq!(parse_pyproject_name(text).as_deref(), Some("right-name"));
}

#[test]
fn returns_first_git_clone_remote_only_for_git_clone_entries() {
    let entry = ManagerCustomNodeEntry {
        id: Some("wan22fmlf".to_string()),
        title: Some("WAN 2.2".to_string()),
        author: None,
        description: None,
        reference: Some("https://github.com/wallen0322/ComfyUI-Wan22FMLF".to_string()),
        files: None,
        install_type: Some("git-clone".to_string()),
    };
    assert_eq!(
        entry.canonical_git_remote().as_deref(),
        Some("https://github.com/wallen0322/ComfyUI-Wan22FMLF")
    );

    let copy_entry = ManagerCustomNodeEntry { install_type: Some("copy".to_string()), ..entry };
    assert_eq!(copy_entry.canonical_git_remote(), None);
}

#[test]
fn pyproject_names_outside_project_or_unquoted_are_ignored() {
    assert_eq!(parse_pyproject_name("name = \"top\"\n[project]\nversion = \"1\"\n"), None);
    assert_eq!(parse_pyproject_name("[project]\nname = unquoted\n"), None);
    assert_eq!(parse_pyproject_name("  [ project ]\nname='x'\n"), None);
    assert_eq!(parse_pyproject_name("[project]\n  name  =  'My Node'  \n").as_deref(), Some("My Node"));
    assert_eq!(pyproject_dir_name("[project]\nname = 'My Node'\n").as_deref(), Some("my-node"));
}

#[test]
fn registry_identity_falls_back_from_id_to_title_to_remote() {
    let e = entry(Some("  my-id "), Some("Title"), None, None);
    assert_eq!(e.registry_id(), "my-id");
    let e = entry(None, Some("Fancy Title!"), None, None);
    assert_eq!(e.registry_id(), "fancy-title");
    let e = entry(None, None, Some("https://github.com/Owner/ComfyUI-Thing.git"), Some("git-clone"));
    assert_eq!(e.registry_id(), "comfyui-thing");
    let e = entry(None, None, None, None);
    assert_eq!(e.registry_id(), "custom-node");
    assert_eq!(e.title(), "custom-node");
    assert_eq!(e.install_type_label(), "unknown");
}

#[test]
fn source_input_prefers_reference_then_first_file() {
    let mut e = entry(None, None, Some("   "), None);
    e.files = Some(vec![" ".to_string(), " https://x/y.py ".to_string()]);
    assert_eq!(e.source_input().as_deref(), Some("https://x/y.py"));
    assert_eq!(entry(None, None, None, None).source_input(), None);
}

#[test]
fn remote_of_clone_entry_comes_from_files_when_reference_is_not_github() {
    let mut e = entry(None, None, Some("https://example.com/x"), Some("git-clone"));
    e.files = Some(vec!["git@github.com:Owner/Repo.git".to_string()]);
    assert_eq!(e.canonical_git_remote().as_deref(), Some("https://github.com/Owner/Repo"));
    assert!(e.matches_remote("https://github.com/Owner/Repo"));
    assert!(e.matches_remote("https://github.com/owner/repo"));
    assert!(!e.matches_remote("https://github.com/owner/other"));
}

#[test]
fn owner_and_repo_come_from_the_canonical_remote() {
    let (owner, repo) = owner_repo_from_canonical_url("https://github.com/Comfy-Org/ComfyUI.git").unwrap();
    assert_eq!(owner, "Comfy-Org");
    assert_eq!(repo, "ComfyUI");
    assert_eq!(repo_name_from_url("git@github.com:a/b").as_deref(), Some("b"));
    assert_eq!(repo_name_from_url("https://gitlab.com/a/b"), None);
}

#[test]
fn search_matches_lowercased_query_in_any_field() {
    let mut e = entry(Some("x"), Some("Image Tools"), None, None);
    e.author = Some("Alice".to_string());
    assert_eq!(e.search_haystack(), "x\nimage tools\nalice");
    assert!(e.matches_query("alice"));
    assert!(!e.matches_query("Alice"));
}

#[test]
fn search_filters_sorts_and_limits() {
    let entries = vec![
        entry(Some("c"), Some("Charlie"), None, None),
        entry(Some("a"), Some("alpha"), None, None),
        entry(Some("b"), Some("Bravo"), None, None),
        entry(Some("z"), Some("zulu tools"), None, None),
    ];
    let picked = select_search_entries(entries.clone(), None, 2);
    let titles: Vec<String> = picked.iter().map(|e| e.title()).collect();
    assert_eq!(titles, vec!["alpha", "Bravo"]);
    let picked = select_search_entries(entries.clone(), Some("  TOOLS "), 10);
    assert_eq!(picked.len(), 1);
    assert_eq!(picked[0].title(), "zulu tools");
    assert_eq!(filter_entries(entries.clone(), Some("   ")).len(), 4);
    let sorted = sort_entries_by_key(entries);
    let keys: Vec<String> = sorted.iter().map(|e| e.sort_key()).collect();
    assert_eq!(keys, vec!["alpha", "Bravo", "Charlie", "zulu tools"]);
}

#[test]
fn expected_dir_names_strip_comfyui_prefixes_once() {
    let e = entry(Some("ComfyUI-Foo"), Some("comfyui_foo"), Some("https://github.com/o/ComfyUI--Foo"), Some("git-clone"));
    let names = expected_dir_names_for_entry(&e);
    assert_eq!(names, vec!["comfyui-foo", "foo", "comfyui_foo", "comfyui--foo"]);
}

#[test]
fn preferred_dir_name_order() {
    let e = entry(Some("My Node"), None, None, None);
    assert_eq!(preferred_dir_name(&e, Some("py-name".to_string()), "https://github.com/o/r").as_deref(), Some("py-name"));
    assert_eq!(preferred_dir_name(&e, None, "https://github.com/o/r").as_deref(), Some("my-node"));
    let e = entry(Some("!!!"), None, None, None);
    assert_eq!(preferred_dir_name(&e, None, "https://github.com/o/Repo").as_deref(), Some("repo"));
}

fn target(kind: TargetKind) -> ResolvedTarget {
    ResolvedTarget {
        source_input: "x".to_string(),
        target_kind: kind,
        canonical_repo_url: "https://github.com/base/repo".to_string(),
        fetch_url: "https://github.com/base/repo.git".to_string(),
        checkout_ref: "main".to_string(),
        resolved_sha: Some("abc123".to_string()),
        pr_number: Some(7),
        pr_base_repo_url: Some("https://github.com/base/repo".to_string()),
        pr_base_ref: Some("main".to_string()),
        pr_head_repo_url: Some("https://github.com/fork/repo".to_string()),
        pr_head_ref: Some("feature".to_string()),
        summary_label: "x".to_string(),
        suggested_local_dir_name: "repo".to_string(),
    }
}

#[test]
fn pyproject_url_follows_pr_head_or_resolved_commit() {
    assert_eq!(
        pyproject_toml_url(&target(TargetKind::Pr)).as_deref(),
        Some("https://raw.githubusercontent.com/fork/repo/feature/pyproject.toml")
    );
    assert_eq!(
        pyproject_toml_url(&target(TargetKind::Branch)).as_deref(),
        Some("https://raw.githubusercontent.com/base/repo/abc123/pyproject.toml")
    );
}

#[test]
fn aliases_add_a_distinct_redirect_target() {
    assert_eq!(
        remote_alias_list("https://github.com/a/b", Some("https://github.com/A/C")),
        vec!["https://github.com/a/b", "https://github.com/A/C"]
    );
    assert_eq!(remote_alias_list("https://github.com/a/b", Some("https://github.com/a/b")), vec!["https://github.com/a/b"]);
    assert_eq!(remote_alias_list("https://github.com/a/b", None), vec!["https://github.com/a/b"]);
}

#[test]
fn search_keeps_registry_order_among_equal_titles() {
    let entries = vec![
        entry(Some("second-id"), Some("Same Title"), None, None),
        entry(Some("a"), Some("alpha"), None, None),
        entry(Some("first-id"), Some("same title"), None, None),
    ];
    let sorted = sort_entries_by_key(entries.clone());
    let ids: Vec<String> = sorted.iter().map(|e| e.registry_id()).collect();
    assert_eq!(ids, vec!["a", "second-id", "first-id"]);
    let picked = select_search_entries(entries, Some("title"), 1);
    assert_eq!(picked.len(), 1);
    assert_eq!(picked[0].registry_id(), "second-id");
}
