use comfy_patcher::errors::AppError;
use comfy_patcher::models::{
    ManagedRepo, OverlayApplyStatus, RepoActionPreviewCommit, RepoKind, RepoLiveStatus, ResolvedTarget, TargetKind,
    TrackedBaseTarget, TrackedPrOverlay, TrackedRepoState,
};
use comfy_patcher::previewing::{
    assemble_preview, preview_fetch_plan, preview_probes_conflicts_exec, preview_reads_history_exec, ConflictProbe,
    HistoryRead, OverlayProbe, OverlayProbeReport, PreviewFetch,
};

fn live(status: RepoLiveStatus, head: Option<&str>) -> ManagedRepo {
    ManagedRepo {
        id: "r".to_string(),
        installation_id: "i".to_string(),
        kind: RepoKind::Core,
        display_name: "ComfyUI".to_string(),
        local_path: "/c".to_string(),
        canonical_remote: Some("https://github.com/o/r".to_string()),
        current_head_sha: head.map(str::to_string),
        current_branch: Some("main".to_string()),
        is_detached: false,
        is_dirty: false,
        tracked_target_kind: None,
        tracked_target_input: None,
        tracked_target_resolved_sha: None,
        tracked_state: None,
        live_status: status,
        live_warnings: vec!["drifted".to_string()],
        changed_files: vec![],
        dependency_state: None,
        materialization_state: None,
        last_scanned_at: None,
        created_at: "now".to_string(),
        updated_at: "now".to_string(),
    }
}

fn target(kind: TargetKind, checkout_ref: &str, sha: Option<&str>, pr: Option<u64>) -> ResolvedTarget {
    ResolvedTarget {
        source_input: "main".to_string(),
        target_kind: kind,
        canonical_repo_url: "https://github.com/o/r".to_string(),
        fetch_url: "https://github.com/o/r.git".to_string(),
        checkout_ref: checkout_ref.to_string(),
        resolved_sha: sha.map(str::to_string),
        pr_number: pr,
        pr_base_repo_url: None,
        pr_base_ref: None,
        pr_head_repo_url: None,
        pr_head_ref: None,
        summary_label: "branch main".to_string(),
        suggested_local_dir_name: "r".to_string(),
    }
}

fn overlay(pr: u64, enabled: bool) -> TrackedPrOverlay {
    TrackedPrOverlay {
        id: format!("pr-{pr}"),
        source_input: format!("https://github.com/o/r/pull/{pr}"),
        canonical_repo_url: "https://github.com/o/r".to_string(),
        pr_number: pr,
        pr_base_repo_url: "https://github.com/o/r".to_string(),
        pr_base_ref: "main".to_string(),
        pr_head_repo_url: None,
        pr_head_ref: None,
        resolved_sha: None,
        summary_label: format!("PR #{pr}"),
        position: 0,
        enabled,
        last_apply_status: Some(OverlayApplyStatus::Pending),
        last_error: None,
    }
}

fn stack(overlays: Vec<TrackedPrOverlay>) -> TrackedRepoState {
    let materialized_branch = if overlays.is_empty() { None } else { Some("patcher/stack".to_string()) };
    TrackedRepoState {
        version: 1,
        base: TrackedBaseTarget {
            source_input: "main".to_string(),
            target_kind: TargetKind::Branch,
            canonical_repo_url: "https://github.com/o/r".to_string(),
            checkout_ref: "main".to_string(),
            resolved_sha: None,
            summary_label: "branch main".to_string(),
        },
        overlays,
        materialized_branch,
    }
}

#[test]
fn preview_fetch_plans() {
    match preview_fetch_plan(&target(TargetKind::Pr, "patcher/pr-7", None, Some(7))).unwrap() {
        PreviewFetch::Refspec { refspec, local_ref } => {
            assert_eq!(local_ref, "refs/patcher/previews/pr-7");
            assert_eq!(refspec, "pull/7/head:refs/patcher/previews/pr-7");
        }
        _ => panic!("expected a refspec"),
    }
    assert!(matches!(preview_fetch_plan(&target(TargetKind::Branch, "main", None, None)).unwrap(), PreviewFetch::Origin { target } if target == "origin/main"));
    assert!(matches!(preview_fetch_plan(&target(TargetKind::Tag, "v1.0", None, None)).unwrap(), PreviewFetch::Origin { target } if target == "v1.0"));
    match preview_fetch_plan(&target(TargetKind::Commit, "abc", Some("abc1234"), None)).unwrap() {
        PreviewFetch::Commit { sha, refspec, local_ref } => {
            assert_eq!(sha, "abc1234");
            assert_eq!(local_ref, "refs/patcher/previews/commit-abc1234");
            assert_eq!(refspec, "abc1234:refs/patcher/previews/commit-abc1234");
        }
        _ => panic!("expected a commit plan"),
    }
    assert!(matches!(preview_fetch_plan(&target(TargetKind::Pr, "p", None, None)), Err(AppError::Github(m)) if m == "missing PR number"));
}

#[test]
fn preview_of_a_plain_base_reads_history() {
    let ts = stack(vec![]);
    let base = target(TargetKind::Branch, "main", Some("def"), None);
    let repo = live(RepoLiveStatus::Clean, Some("abc"));
    assert!(preview_reads_history_exec(&repo, &ts, &base));
    assert!(!preview_probes_conflicts_exec(&repo, &ts));
    let commits = vec![RepoActionPreviewCommit { sha: "def".to_string(), subject: "fix".to_string() }];
    let history = HistoryRead::Read {
        commits: Ok(commits),
        file_changes: Err(AppError::Git("bad range".to_string())),
    };
    let preview = assemble_preview("update", &repo, repo.clone(), &ts, &base, history, ConflictProbe::NotProbed);
    assert_eq!(preview.target_head_sha.as_deref(), Some("def"));
    assert_eq!(preview.target_summary, "branch main");
    assert_eq!(preview.target_ref.as_deref(), Some("main"));
    assert_eq!(preview.commits.len(), 1);
    assert!(preview.file_changes.is_empty());
    assert_eq!(
        preview.warnings,
        vec![
            "drifted".to_string(),
            "Unable to inspect changed files for this preview target: git command failed: bad range".to_string()
        ]
    );
    assert_eq!(preview.stack_preview.len(), 1);
}

#[test]
fn preview_of_a_stack_probes_each_overlay() {
    let ts = stack(vec![overlay(1, true), overlay(2, true), overlay(3, false)]);
    let base = target(TargetKind::Branch, "main", Some("def"), None);
    let repo = live(RepoLiveStatus::Clean, Some("abc"));
    assert!(!preview_reads_history_exec(&repo, &ts, &base));
    assert!(preview_probes_conflicts_exec(&repo, &ts));
    let probe = ConflictProbe::Probed(vec![
        OverlayProbeReport {
            label: "PR #1".to_string(),
            probe: OverlayProbe::Conflicts(vec!["b.py".to_string(), "a.py".to_string()]),
        },
        OverlayProbeReport {
            label: "PR #2".to_string(),
            probe: OverlayProbe::ProbeFailed(AppError::Git("boom".to_string())),
        },
    ]);
    let preview = assemble_preview("update", &repo, repo.clone(), &ts, &base, HistoryRead::NotRead, probe);
    assert_eq!(preview.target_head_sha, None);
    assert_eq!(preview.target_summary, "branch main + 2 overlays");
    assert_eq!(preview.target_ref.as_deref(), Some("patcher/stack"));
    assert_eq!(preview.conflict_files, vec!["a.py".to_string(), "b.py".to_string()]);
    assert_eq!(
        preview.warnings,
        vec![
            "drifted".to_string(),
            "Full commit/file preview is unavailable for overlay stacks because the final merged stack state is not synthesized during preview.".to_string(),
            "Unable to probe conflicts for PR #2: git command failed: boom".to_string(),
            "Conflict probing is computed per overlay against the resolved base before any stack mutation.".to_string(),
        ]
    );
    assert_eq!(preview.stack_preview.len(), 4);
}

#[test]
fn preview_of_a_missing_checkout_has_no_history() {
    let ts = stack(vec![]);
    let base = target(TargetKind::Branch, "main", Some("abc"), None);
    let repo = live(RepoLiveStatus::Missing, Some("abc"));
    let preview = assemble_preview("update", &repo, repo.clone(), &ts, &base, HistoryRead::NotRead, ConflictProbe::NotProbed);
    assert_eq!(preview.current_head_sha, None);
    assert_eq!(preview.warnings, vec!["drifted".to_string()]);
    let here = live(RepoLiveStatus::Clean, Some("abc"));
    let same = assemble_preview("update", &here, here.clone(), &ts, &base, HistoryRead::NotRead, ConflictProbe::NotProbed);
    assert_eq!(
        same.warnings,
        vec!["drifted".to_string(), "Current HEAD already matches this preview target.".to_string()]
    );
}
