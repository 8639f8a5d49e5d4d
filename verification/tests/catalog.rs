use comfy_patcher::catalog::{
    adoption_empty_outcome, adoption_patch_input, adoption_summary, build_registry_items,
    classify_local_dir, collect_local_dir_matches, installed_state_for_remote, local_dirs_of_class,
    order_registry_items, plan_adoption, LocalDir, LocalDirClass, LocalDirFacts,
};
use comfy_patcher::errors::AppError;
use comfy_patcher::models::{
    ExistingRepoConflictStrategy, ManagedRepo, ManagerRegistryCustomNode, RepoKind, RepoLiveStatus,
};
use comfy_patcher::registry::ManagerCustomNodeEntry;

fn repo(id: &str, path: &str) -> ManagedRepo {
    ManagedRepo {
        id: id.to_string(),
        installation_id: "i".to_string(),
        kind: RepoKind::CustomNode,
        display_name: format!("name-{id}"),
        local_path: path.to_string(),
        canonical_remote: None,
        current_head_sha: None,
        current_branch: None,
        is_detached: false,
        is_dirty: false,
        tracked_target_kind: None,
        tracked_target_input: None,
        tracked_target_resolved_sha: None,
        tracked_state: None,
        live_status: RepoLiveStatus::Clean,
        live_warnings: vec![],
        changed_files: vec![],
        dependency_state: None,
        materialization_state: None,
        last_scanned_at: None,
        created_at: "now".to_string(),
        updated_at: "now".to_string(),
    }
}

fn facts(path: &str, name: &str, tracking: bool, git: bool, is_repo: bool) -> LocalDirFacts {
    LocalDirFacts {
        path: path.to_string(),
        dir_name: name.to_string(),
        has_tracking: tracking,
        has_git: git,
        is_git_repo: is_repo,
    }
}

fn dir(key: &str, path: &str) -> LocalDir {
    LocalDir { key: key.to_string(), path: path.to_string() }
}

#[test]
fn local_directories_are_classified_by_markers() {
    assert_eq!(classify_local_dir(&facts("/a", "a", true, true, true)), LocalDirClass::GitRepo);
    assert_eq!(classify_local_dir(&facts("/a", "a", true, true, false)), LocalDirClass::TrackingManaged);
    assert_eq!(classify_local_dir(&facts("/a", "a", false, false, false)), LocalDirClass::PresentNonGit);
    assert_eq!(classify_local_dir(&facts("/a", "a", false, true, false)), LocalDirClass::Unrecognized);
    let all = vec![facts("/x/Foo", "Foo", true, false, false), facts("/x/bar", "bar", false, false, false)];
    let tracking = local_dirs_of_class(&all, LocalDirClass::TrackingManaged);
    assert_eq!(tracking.len(), 1);
    assert_eq!(tracking[0].key, "foo");
    assert_eq!(tracking[0].path, "/x/Foo");
}

#[test]
fn local_matches_follow_expected_names_and_skip_repeats() {
    let dirs = vec![dir("foo", "/n/Foo"), dir("bar", "/n/bar"), dir("foo", "/n/foo"), dir("bar", "/n/bar")];
    let m = collect_local_dir_matches(&vec!["BAR".to_string(), "foo".to_string(), "bar".to_string()], &dirs);
    assert_eq!(m, vec!["/n/bar", "/n/Foo", "/n/foo"]);
    assert!(collect_local_dir_matches(&vec!["baz".to_string()], &dirs).is_empty());
}

#[test]
fn remote_claims_become_ambiguous_across_repositories() {
    let repos = vec![repo("1", "/n/a"), repo("2", "/n/b"), repo("1", "/n/a2")];
    let aliases = vec![
        vec!["https://github.com/o/a".to_string()],
        vec!["https://github.com/o/b".to_string(), "https://github.com/o/c".to_string()],
        vec!["https://github.com/o/a".to_string(), "https://github.com/o/c".to_string()],
    ];
    assert_eq!(installed_state_for_remote(&repos, &aliases, "https://github.com/o/a"), Some(Some(0)));
    assert_eq!(installed_state_for_remote(&repos, &aliases, "https://github.com/o/c"), Some(None));
    assert_eq!(installed_state_for_remote(&repos, &aliases, "https://github.com/o/z"), None);
}

fn clone_entry(id: &str, title: &str, remote: &str) -> ManagerCustomNodeEntry {
    ManagerCustomNodeEntry {
        id: Some(id.to_string()),
        title: Some(title.to_string()),
        author: None,
        description: None,
        reference: Some(remote.to_string()),
        files: None,
        install_type: Some("git-clone".to_string()),
    }
}

#[test]
fn registry_items_report_installs_and_local_matches() {
    let entries = vec![
        clone_entry("alpha", "Alpha", "https://github.com/o/alpha"),
        clone_entry("beta", "Beta", "https://github.com/o/beta"),
        clone_entry("gamma", "gamma", "https://github.com/o/gamma"),
    ];
    let repos = vec![repo("r1", "/n/alpha")];
    let aliases = vec![vec!["https://github.com/o/alpha".to_string()]];
    let tracking = vec![dir("beta", "/n/beta")];
    let present = vec![dir("gamma", "/n/gamma"), dir("gamma", "/n/Gamma")];
    let items = build_registry_items(&entries, &repos, &aliases, &tracking, &present);
    assert_eq!(items.len(), 3);
    assert!(items[0].is_installed);
    assert_eq!(items[0].installed_repo_id.as_deref(), Some("r1"));
    assert_eq!(items[0].installed_local_path.as_deref(), Some("/n/alpha"));
    assert!(items[0].is_installable);
    assert_eq!(items[0].source_input.as_deref(), Some("https://github.com/o/alpha"));
    assert!(items[1].is_installed && items[1].is_tracking_managed);
    assert_eq!(items[1].tracking_local_path.as_deref(), Some("/n/beta"));
    assert!(!items[2].is_installed);
    assert!(items[2].has_ambiguous_installation);
    assert_eq!(items[2].present_local_path, None);

    let ordered = order_registry_items(items, 0);
    assert_eq!(ordered.len(), 1);
    assert_eq!(ordered[0].title, "Alpha");
}

fn item(title: &str, id: &str, installed: bool) -> ManagerRegistryCustomNode {
    ManagerRegistryCustomNode {
        registry_id: id.to_string(),
        title: title.to_string(),
        author: None,
        description: None,
        install_type: "git-clone".to_string(),
        source_input: Some(format!("https://github.com/o/{id}")),
        canonical_repo_url: Some(format!("https://github.com/o/{id}")),
        is_installable: true,
        is_installed: installed,
        is_tracking_managed: installed,
        tracking_local_path: if installed { Some(format!("/n/{title}")) } else { None },
        is_present_non_git: false,
        present_local_path: None,
        has_ambiguous_installation: false,
        installed_repo_id: None,
        installed_display_name: None,
        installed_local_path: None,
    }
}

#[test]
fn listing_puts_installed_items_first_then_titles() {
    let items = vec![item("b", "2", false), item("C", "3", true), item("a", "1", false), item("a", "0", false)];
    let ordered = order_registry_items(items, 50);
    let ids: Vec<&str> = ordered.iter().map(|i| i.registry_id.as_str()).collect();
    assert_eq!(ids, vec!["3", "0", "1", "2"]);
}

#[test]
fn adoption_skips_shared_paths_and_orders_by_title() {
    let mut shared_a = item("Zed", "z", true);
    shared_a.tracking_local_path = Some("/n/Shared".to_string());
    let mut shared_b = item("Yak", "y", true);
    shared_b.tracking_local_path = Some(" /n/shared ".to_string());
    let items = vec![item("beta", "b", true), shared_a, item("Alpha", "a", true), shared_b, item("gone", "g", false)];
    let plan = plan_adoption(items);
    assert_eq!(plan.ambiguous_path_count, 1);
    let titles: Vec<&str> = plan.candidates.iter().map(|i| i.title.as_str()).collect();
    assert_eq!(titles, vec!["Alpha", "beta"]);
    let input = adoption_patch_input("inst", &plan.candidates[0]).unwrap();
    assert_eq!(input.installation_id, "inst");
    assert_eq!(input.input, "https://github.com/o/a");
    assert_eq!(input.target_local_dir_name.as_deref(), Some("Alpha"));
    assert_eq!(input.existing_repo_conflict_strategy, ExistingRepoConflictStrategy::InstallWithSuffix);
    assert!(input.adopt_tracking_install && input.set_tracked_target && !input.restart_after_success);
}

#[test]
fn adoption_outcomes() {
    assert_eq!(adoption_empty_outcome(0).unwrap(), "no adoptable tracked installs found");
    match adoption_empty_outcome(2) {
        Err(AppError::Conflict(m)) => assert_eq!(
            m,
            "found no uniquely mappable tracked installs to adopt; skipped 2 ambiguous path(s)"
        ),
        other => panic!("unexpected {other:?}"),
    }
    assert_eq!(adoption_summary(3, 3, 0, 0).unwrap(), "adopted 3 of 3 tracked install(s)");
    match adoption_summary(1, 3, 2, 2) {
        Err(AppError::Conflict(m)) => {
            assert_eq!(m, "adopted 1 of 3 tracked install(s); skipped 2 ambiguous path(s); 2 failed")
        }
        other => panic!("unexpected {other:?}"),
    }
}
