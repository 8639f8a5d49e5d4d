//! How a managed repository on disk compares with what the application
//! tracks for it, and how bulk updates report.
use vstd::prelude::*;
use crate::errors::{error_text, AppError, AppResult};
use crate::git::{canonical_remote, canonicalize_remote, RepoStatus};
use crate::models::{
    Installation, RepoKind, InstallationDetail, ManagedRepo, RepoCheckpoint, RepoDependencyState, RepoLiveStatus, TargetKind,
    TrackedRepoState,
};
use crate::preview::{join_comma, join_comma_exec};
use crate::text::{clone_opt, clone_strings, ov, owned, push_owned, push_str, str_eq, sv};

verus! {

/// A repository whose path is gone: no checkout facts, one warning.
pub fn mark_repo_missing(repo: ManagedRepo, scanned_at: String) -> (r: ManagedRepo)
    ensures
        r == (ManagedRepo {
            current_head_sha: None,
            current_branch: None,
            changed_files: r.changed_files,
            dependency_state: None,
            live_status: RepoLiveStatus::Missing,
            live_warnings: r.live_warnings,
            last_scanned_at: Some(scanned_at),
            ..repo
        }),
        r.changed_files.len() == 0,
        sv(r.live_warnings@) == seq!["Repository path no longer exists on disk."@],
{
    let mut repo = repo;
    repo.current_head_sha = None;
    repo.current_branch = None;
    repo.changed_files = Vec::new();
    repo.dependency_state = None;
    repo.live_status = RepoLiveStatus::Missing;
    let mut w: Vec<String> = Vec::new();
    push_owned(&mut w, "Repository path no longer exists on disk.");
    repo.live_warnings = w;
    repo.last_scanned_at = Some(scanned_at);
    repo
}

/// A repository whose path is no longer a git checkout.
pub fn mark_repo_not_git(repo: ManagedRepo, scanned_at: String) -> (r: ManagedRepo)
    ensures
        r == (ManagedRepo {
            current_head_sha: None,
            current_branch: None,
            changed_files: r.changed_files,
            dependency_state: None,
            live_status: RepoLiveStatus::NotGit,
            live_warnings: r.live_warnings,
            last_scanned_at: Some(scanned_at),
            ..repo
        }),
        r.changed_files.len() == 0,
        sv(r.live_warnings@) == seq!["Tracked path is no longer a git repository."@],
{
    let mut repo = repo;
    repo.current_head_sha = None;
    repo.current_branch = None;
    repo.changed_files = Vec::new();
    repo.dependency_state = None;
    repo.live_status = RepoLiveStatus::NotGit;
    let mut w: Vec<String> = Vec::new();
    push_owned(&mut w, "Tracked path is no longer a git repository.");
    repo.live_warnings = w;
    repo.last_scanned_at = Some(scanned_at);
    repo
}

pub open spec fn opt_or(o: Option<Seq<char>>, d: Seq<char>) -> Seq<char> {
    match o {
        Some(x) => x,
        None => d,
    }
}

/// The warning about tracked changes made outside the application.
pub open spec fn dirty_warning(dirty: bool) -> Seq<Seq<char>> {
    if dirty {
        seq!["Worktree has local tracked changes outside ComfyUI Patcher."@]
    } else {
        Seq::empty()
    }
}

/// The warning that HEAD is not the commit the tracked target resolved to.
pub open spec fn head_warning(expected: Option<Seq<char>>, head: Option<Seq<char>>) -> Seq<Seq<char>> {
    match expected {
        Some(e) => if head != Some(e) {
            seq!["Tracked state no longer matches disk: expected HEAD "@ + e + ", found "@ + opt_or(head, "unknown"@) + "."@]
        } else {
            Seq::empty()
        },
        None => Seq::empty(),
    }
}

/// The warning that the remote on disk is not the tracked base's remote.
pub open spec fn remote_warning(ts: Option<TrackedRepoState>, origin: Option<Seq<char>>) -> Seq<Seq<char>> {
    match ts {
        Some(t) => match canonical_remote(t.base.canonical_repo_url@) {
            Some(r) => if origin != Some(r) {
                seq!["Tracked remote "@ + r + " no longer matches the repo remote on disk."@]
            } else {
                Seq::empty()
            },
            None => Seq::empty(),
        },
        None => Seq::empty(),
    }
}

/// The warning that the checkout is not where the tracked state puts it: on
/// the stack branch, on the base branch, or detached at a tag or commit.
pub open spec fn checkout_warning(ts: Option<TrackedRepoState>, branch: Option<Seq<char>>, detached: bool) -> Seq<Seq<char>> {
    match ts {
        Some(t) => match ov(t.materialized_branch) {
            Some(b) => if branch != Some(b) {
                seq!["Overlay stack expects branch "@ + b + ", but disk is on "@ + opt_or(branch, "detached HEAD"@) + "."@]
            } else {
                Seq::empty()
            },
            None => match t.base.target_kind {
                TargetKind::Branch | TargetKind::DefaultBranch | TargetKind::NamedRef => if branch != Some(
                    t.base.checkout_ref@,
                ) {
                    seq![
                        "Tracked base expects branch "@ + t.base.checkout_ref@ + ", but disk is on "@ + opt_or(
                            branch,
                            "detached HEAD"@,
                        ) + "."@,
                    ]
                } else {
                    Seq::empty()
                },
                TargetKind::Tag | TargetKind::Commit => if !detached {
                    seq!["Tracked base expects a detached checkout, but disk is on a branch."@]
                } else {
                    Seq::empty()
                },
                TargetKind::Pr => Seq::empty(),
            },
        },
        None => Seq::empty(),
    }
}

/// The warning that dependency manifests changed outside the application.
pub open spec fn dependency_warning(dep: Option<RepoDependencyState>) -> Seq<Seq<char>> {
    match dep {
        Some(d) => if d.relevant_changed_files.len() > 0 {
            seq!["Dependency manifests changed outside the app: "@ + join_comma(sv(d.relevant_changed_files@)) + "."@]
        } else {
            Seq::empty()
        },
        None => Seq::empty(),
    }
}

/// The warnings of a repository compared with its status on disk, in order.
pub open spec fn live_warnings_spec(repo: ManagedRepo, status: RepoStatus, dep: Option<RepoDependencyState>) -> Seq<Seq<char>> {
    dirty_warning(status.tracked_changed_files.len() > 0) + head_warning(
        ov(repo.tracked_target_resolved_sha),
        ov(status.head_sha),
    ) + remote_warning(repo.tracked_state, ov(status.origin_url)) + checkout_warning(
        repo.tracked_state,
        ov(status.branch),
        status.is_detached,
    ) + dependency_warning(dep)
}

/// Drifted where any drift warning applies, else dirty or clean.
pub open spec fn live_status_spec(repo: ManagedRepo, status: RepoStatus, dep: Option<RepoDependencyState>) -> RepoLiveStatus {
    if head_warning(ov(repo.tracked_target_resolved_sha), ov(status.head_sha)).len() > 0
        || remote_warning(repo.tracked_state, ov(status.origin_url)).len() > 0
        || checkout_warning(repo.tracked_state, ov(status.branch), status.is_detached).len() > 0
        || dependency_warning(dep).len() > 0 {
        RepoLiveStatus::Drifted
    } else if status.tracked_changed_files.len() > 0 {
        RepoLiveStatus::Dirty
    } else {
        RepoLiveStatus::Clean
    }
}

fn push_all(out: &mut Vec<String>, more: Vec<String>)
    ensures
        sv(final(out)@) == sv(old(out)@) + sv(more@),
{
    let ghost start = sv(out@);
    let mut i: usize = 0;
    while i < more.len()
        invariant
            i <= more.len(),
            sv(out@) == start + sv(more@).subrange(0, i as int),
        decreases more.len() - i,
    {
        let ghost b = sv(out@);
        push_owned(out, more[i].as_str());
        assert(sv(more@).subrange(0, i + 1) == sv(more@).subrange(0, i as int).push(more@[i as int]@));
        i = i + 1;
    }
    assert(sv(more@).subrange(0, more.len() as int) == sv(more@));
}

fn head_warning_exec(expected: &Option<String>, head: &Option<String>) -> (r: Vec<String>)
    ensures
        sv(r@) == head_warning(ov(*expected), ov(*head)),
{
    let mut w: Vec<String> = Vec::new();
    if let Some(e) = expected {
        let matches = match head {
            Some(h) => str_eq(h.as_str(), e.as_str()),
            None => false,
        };
        if !matches {
            let mut m = String::from_str("Tracked state no longer matches disk: expected HEAD ");
            push_str(&mut m, e.as_str());
            push_str(&mut m, ", found ");
            match head {
                Some(h) => push_str(&mut m, h.as_str()),
                None => push_str(&mut m, "unknown"),
            }
            push_str(&mut m, ".");
            push_owned(&mut w, m.as_str());
        }
    }
    w
}

fn remote_warning_exec(ts: &Option<TrackedRepoState>, origin: &Option<String>) -> (r: Vec<String>)
    ensures
        sv(r@) == remote_warning(*ts, ov(*origin)),
{
    let mut w: Vec<String> = Vec::new();
    if let Some(t) = ts {
        if let Some(r) = canonicalize_remote(t.base.canonical_repo_url.as_str()) {
            let matches = match origin {
                Some(o) => str_eq(o.as_str(), r.as_str()),
                None => false,
            };
            if !matches {
                let mut m = String::from_str("Tracked remote ");
                push_str(&mut m, r.as_str());
                push_str(&mut m, " no longer matches the repo remote on disk.");
                push_owned(&mut w, m.as_str());
            }
        }
    }
    w
}

fn on_branch(branch: &Option<String>, name: &str) -> (r: bool)
    ensures
        r == (ov(*branch) == Some(name@)),
{
    match branch {
        Some(b) => str_eq(b.as_str(), name),
        None => false,
    }
}

fn checkout_warning_exec(ts: &Option<TrackedRepoState>, branch: &Option<String>, detached: bool) -> (r: Vec<String>)
    ensures
        sv(r@) == checkout_warning(*ts, ov(*branch), detached),
{
    let mut w: Vec<String> = Vec::new();
    if let Some(t) = ts {
        let disk = match branch {
            Some(b) => owned(b.as_str()),
            None => owned("detached HEAD"),
        };
        match &t.materialized_branch {
            Some(b) => {
                if !on_branch(branch, b.as_str()) {
                    let mut m = String::from_str("Overlay stack expects branch ");
                    push_str(&mut m, b.as_str());
                    push_str(&mut m, ", but disk is on ");
                    push_str(&mut m, disk.as_str());
                    push_str(&mut m, ".");
                    push_owned(&mut w, m.as_str());
                }
            },
            None => match t.base.target_kind {
                TargetKind::Branch | TargetKind::DefaultBranch | TargetKind::NamedRef => {
                    if !on_branch(branch, t.base.checkout_ref.as_str()) {
                        let mut m = String::from_str("Tracked base expects branch ");
                        push_str(&mut m, t.base.checkout_ref.as_str());
                        push_str(&mut m, ", but disk is on ");
                        push_str(&mut m, disk.as_str());
                        push_str(&mut m, ".");
                        push_owned(&mut w, m.as_str());
                    }
                },
                TargetKind::Tag | TargetKind::Commit => {
                    if !detached {
                        push_owned(&mut w, "Tracked base expects a detached checkout, but disk is on a branch.");
                    }
                },
                TargetKind::Pr => {},
            },
        }
    }
    w
}

fn dependency_warning_exec(dep: &Option<RepoDependencyState>) -> (r: Vec<String>)
    ensures
        sv(r@) == dependency_warning(*dep),
{
    let mut w: Vec<String> = Vec::new();
    if let Some(d) = dep {
        if d.relevant_changed_files.len() > 0 {
            let mut m = String::from_str("Dependency manifests changed outside the app: ");
            push_str(&mut m, join_comma_exec(&d.relevant_changed_files).as_str());
            push_str(&mut m, ".");
            push_owned(&mut w, m.as_str());
        }
    }
    w
}

/// The repository refreshed from its status on disk: checkout facts from
/// `status`, the given dependency state, and the warnings and live status
/// that comparing disk with the tracked state gives.
pub fn assess_repo_live_state(
    repo: ManagedRepo,
    status: &RepoStatus,
    dependency_state: Option<RepoDependencyState>,
    scanned_at: String,
) -> (r: ManagedRepo)
    ensures
        r == (ManagedRepo {
            canonical_remote: r.canonical_remote,
            current_head_sha: r.current_head_sha,
            current_branch: r.current_branch,
            is_detached: status.is_detached,
            is_dirty: status.tracked_changed_files.len() > 0,
            changed_files: r.changed_files,
            dependency_state,
            live_status: live_status_spec(repo, *status, dependency_state),
            live_warnings: r.live_warnings,
            last_scanned_at: Some(scanned_at),
            ..repo
        }),
        ov(r.canonical_remote) == ov(status.origin_url),
        ov(r.current_head_sha) == ov(status.head_sha),
        ov(r.current_branch) == ov(status.branch),
        sv(r.changed_files@) == sv(status.changed_files@),
        sv(r.live_warnings@) == live_warnings_spec(repo, *status, dependency_state),
{
    let ghost orig = repo;
    let tracked_dirty = status.tracked_changed_files.len() > 0;
    let mut warnings: Vec<String> = Vec::new();
    if tracked_dirty {
        push_owned(&mut warnings, "Worktree has local tracked changes outside ComfyUI Patcher.");
    }
    let hw = head_warning_exec(&repo.tracked_target_resolved_sha, &status.head_sha);
    let rw = remote_warning_exec(&repo.tracked_state, &status.origin_url);
    let cw = checkout_warning_exec(&repo.tracked_state, &status.branch, status.is_detached);
    let dw = dependency_warning_exec(&dependency_state);
    let drifted = hw.len() > 0 || rw.len() > 0 || cw.len() > 0 || dw.len() > 0;
    push_all(&mut warnings, hw);
    push_all(&mut warnings, rw);
    push_all(&mut warnings, cw);
    push_all(&mut warnings, dw);
    let live_status = if drifted {
        RepoLiveStatus::Drifted
    } else if tracked_dirty {
        RepoLiveStatus::Dirty
    } else {
        RepoLiveStatus::Clean
    };
    let mut repo = repo;
    repo.canonical_remote = clone_opt(&status.origin_url);
    repo.current_head_sha = clone_opt(&status.head_sha);
    repo.current_branch = clone_opt(&status.branch);
    repo.is_detached = status.is_detached;
    repo.is_dirty = tracked_dirty;
    repo.changed_files = clone_strings(&status.changed_files);
    repo.dependency_state = dependency_state;
    repo.live_status = live_status;
    repo.live_warnings = warnings;
    repo.last_scanned_at = Some(scanned_at);
    repo
}

/// `<repository name>: <warning>` for each of its warnings, as the
/// installation detail lists them.
pub fn repo_warning_lines(repo: &ManagedRepo) -> (r: Vec<String>)
    ensures
        r.len() == repo.live_warnings.len(),
        forall|i: int| 0 <= i < r.len() ==> (#[trigger] r@[i])@ == repo.display_name@ + ": "@ + repo.live_warnings@[i]@,
{
    let mut r: Vec<String> = Vec::new();
    let mut i: usize = 0;
    while i < repo.live_warnings.len()
        invariant
            i <= repo.live_warnings.len(),
            r.len() == i,
            forall|k: int| 0 <= k < i ==> (#[trigger] r@[k])@ == repo.display_name@ + ": "@ + repo.live_warnings@[k]@,
        decreases repo.live_warnings.len() - i,
    {
        let mut line = owned(repo.display_name.as_str());
        push_str(&mut line, ": ");
        push_str(&mut line, repo.live_warnings[i].as_str());
        r.push(line);
        i = i + 1;
    }
    r
}

pub open spec fn opt_seq(o: Option<ManagedRepo>) -> Seq<ManagedRepo> {
    match o {
        Some(x) => seq![x],
        None => Seq::empty(),
    }
}

/// The repositories of an installation in the order bulk work visits them:
/// the core checkout, the frontend, the custom nodes, and Comfy Kitchen last,
/// so that Kitchen is finalized once after every other repository's
/// dependency work.
pub fn repos_in_update_order(detail: InstallationDetail) -> (r: Vec<ManagedRepo>)
    ensures
        r@ == opt_seq(detail.core_repo) + opt_seq(detail.frontend_repo) + detail.custom_node_repos@
            + opt_seq(detail.kitchen_repo),
{
    let ghost d = detail;
    let InstallationDetail {
        installation: _,
        core_repo,
        frontend_repo,
        kitchen_repo,
        custom_node_repos,
        warnings: _,
        last_reconciled_at: _,
        is_running: _,
    } = detail;
    let mut r: Vec<ManagedRepo> = Vec::new();
    if let Some(c) = core_repo {
        r.push(c);
    }
    if let Some(f) = frontend_repo {
        r.push(f);
    }
    assert(r@ == opt_seq(d.core_repo) + opt_seq(d.frontend_repo));
    let ghost head = r@;
    let mut rest = custom_node_repos;
    let ghost all = rest@;
    let n = rest.len();
    let mut i: usize = 0;
    while i < n
        invariant
            n == all.len(),
            i <= n,
            rest@ == all.subrange(i as int, n as int),
            r@ == head + all.subrange(0, i as int),
        decreases n - i,
    {
        let x = rest.remove(0);
        assert(x == all[i as int]);
        assert(rest@ == all.subrange(i + 1, n as int));
        r.push(x);
        assert(all.subrange(0, i + 1) == all.subrange(0, i as int).push(x));
        i = i + 1;
    }
    assert(all.subrange(0, n as int) == all);
    if let Some(k) = kitchen_repo {
        r.push(k);
    }
    r
}

/// `<repository name>: <error>`, one line of a bulk update's failure report.
pub fn update_failure_line(display_name: &str, err: &AppError) -> (r: String)
    ensures
        r@ == display_name@ + ": "@ + error_text(*err),
{
    let mut s = owned(display_name);
    push_str(&mut s, ": ");
    push_str(&mut s, err.message().as_str());
    s
}

/// `parts` joined with line breaks between them.
pub open spec fn join_newlines(parts: Seq<Seq<char>>) -> Seq<char>
    decreases parts.len(),
{
    if parts.len() == 0 {
        Seq::<char>::empty()
    } else if parts.len() == 1 {
        parts[0]
    } else {
        join_newlines(parts.drop_last()) + "\n"@ + parts.last()
    }
}

/// A bulk update fails, as a git error listing every failure one per line,
/// where any repository failed.
pub fn update_all_outcome(failures: &Vec<String>) -> (r: AppResult<()>)
    ensures
        r is Ok <==> failures.len() == 0,
        r matches Err(e) ==> (e matches AppError::Git(m) && m@ == join_newlines(sv(failures@))),
{
    if failures.len() == 0 {
        return Ok(());
    }
    let mut m = String::new();
    let mut i: usize = 0;
    while i < failures.len()
        invariant
            i <= failures.len(),
            m@ == join_newlines(sv(failures@).subrange(0, i as int)),
        decreases failures.len() - i,
    {
        let ghost next = sv(failures@).subrange(0, i + 1);
        assert(next.drop_last() == sv(failures@).subrange(0, i as int));
        assert(next.last() == failures@[i as int]@);
        if i > 0 {
            push_str(&mut m, "\n");
        }
        push_str(&mut m, failures[i].as_str());
        i = i + 1;
    }
    assert(sv(failures@).subrange(0, failures.len() as int) == sv(failures@));
    Err(AppError::Git(m))
}

/// A checkpoint can only be restored onto the repository it was taken of.
pub fn check_checkpoint_for_repo(checkpoint: Option<&RepoCheckpoint>, repo_id: &str) -> (r: AppResult<()>)
    ensures
        checkpoint is None ==> (r matches Err(AppError::NotFound(m)) && m@ == "checkpoint not found"@),
        checkpoint matches Some(c) ==> (c.repo_id@ == repo_id@ <==> r is Ok),
        checkpoint matches Some(c) ==> (c.repo_id@ != repo_id@ ==> (r matches Err(AppError::Conflict(m))
            && m@ == "checkpoint does not belong to the selected repo"@)),
{
    match checkpoint {
        None => Err(AppError::NotFound(owned("checkpoint not found"))),
        Some(c) => if str_eq(c.repo_id.as_str(), repo_id) {
            Ok(())
        } else {
            Err(AppError::Conflict(owned("checkpoint does not belong to the selected repo")))
        },
    }
}


/// The last repository of kind `k` among the first `n`.
pub open spec fn last_of_kind(repos: Seq<ManagedRepo>, k: RepoKind, n: int) -> Option<ManagedRepo>
    decreases n,
{
    if n <= 0 {
        None
    } else if repos[n - 1].kind == k {
        Some(repos[n - 1])
    } else {
        last_of_kind(repos, k, n - 1)
    }
}

/// The custom-node repositories among the first `n`, in order.
pub open spec fn custom_nodes_of(repos: Seq<ManagedRepo>, n: int) -> Seq<ManagedRepo>
    decreases n,
{
    if n <= 0 {
        Seq::empty()
    } else if repos[n - 1].kind == RepoKind::CustomNode {
        custom_nodes_of(repos, n - 1).push(repos[n - 1])
    } else {
        custom_nodes_of(repos, n - 1)
    }
}

/// An installation with its repositories sorted by kind: the last core,
/// frontend and Kitchen repository each, and the custom nodes in order.
pub fn assemble_installation_detail(installation: Option<Installation>, repos: Vec<ManagedRepo>) -> (r: AppResult<InstallationDetail>)
    ensures
        installation is None ==> (r matches Err(AppError::NotFound(m)) && m@ == "installation not found"@),
        installation matches Some(i) ==> (r matches Ok(d) && d.installation == i
            && d.core_repo == last_of_kind(repos@, RepoKind::Core, repos.len() as int)
            && d.frontend_repo == last_of_kind(repos@, RepoKind::Frontend, repos.len() as int)
            && d.kitchen_repo == last_of_kind(repos@, RepoKind::Kitchen, repos.len() as int)
            && d.custom_node_repos@ == custom_nodes_of(repos@, repos.len() as int)
            && d.warnings.len() == 0 && d.last_reconciled_at is None && !d.is_running),
{
    let installation = match installation {
        Some(i) => i,
        None => return Err(AppError::NotFound(owned("installation not found"))),
    };
    let ghost all = repos@;
    let n = repos.len();
    let mut rest = repos;
    let mut core_repo: Option<ManagedRepo> = None;
    let mut frontend_repo: Option<ManagedRepo> = None;
    let mut kitchen_repo: Option<ManagedRepo> = None;
    let mut custom_node_repos: Vec<ManagedRepo> = Vec::new();
    let mut i: usize = 0;
    while i < n
        invariant
            n == all.len(),
            i <= n,
            rest@ == all.subrange(i as int, n as int),
            core_repo == last_of_kind(all, RepoKind::Core, i as int),
            frontend_repo == last_of_kind(all, RepoKind::Frontend, i as int),
            kitchen_repo == last_of_kind(all, RepoKind::Kitchen, i as int),
            custom_node_repos@ == custom_nodes_of(all, i as int),
        decreases n - i,
    {
        let repo = rest.remove(0);
        assert(repo == all[i as int]);
        assert(rest@ == all.subrange(i + 1, n as int));
        match repo.kind {
            RepoKind::Core => core_repo = Some(repo),
            RepoKind::Frontend => frontend_repo = Some(repo),
            RepoKind::Kitchen => kitchen_repo = Some(repo),
            RepoKind::CustomNode => custom_node_repos.push(repo),
        }
        i = i + 1;
    }
    Ok(InstallationDetail {
        installation,
        core_repo,
        frontend_repo,
        kitchen_repo,
        custom_node_repos,
        warnings: Vec::new(),
        last_reconciled_at: None,
        is_running: false,
    })
}


/// Whether comparing with a checkpoint can read history: the repository is
/// a git worktree with a known head.
pub open spec fn comparison_reads_history(repo: ManagedRepo) -> bool {
    repo.live_status != RepoLiveStatus::Missing && repo.live_status != RepoLiveStatus::NotGit
        && repo.current_head_sha is Some
}

/// Whether comparing `repo` with a checkpoint reads its history.
pub fn comparison_reads_history_exec(repo: &ManagedRepo) -> (r: bool)
    ensures
        r == comparison_reads_history(*repo),
{
    repo.live_status != RepoLiveStatus::Missing && repo.live_status != RepoLiveStatus::NotGit
        && repo.current_head_sha.is_some()
}

pub open spec fn history_warning(prefix: Seq<char>, e: Option<AppError>) -> Seq<Seq<char>> {
    match e {
        Some(x) => seq![prefix + error_text(x)],
        None => Seq::empty(),
    }
}

pub open spec fn comparison_warnings_spec(
    repo: ManagedRepo,
    old_head_sha: Seq<char>,
    commits_error: Option<AppError>,
    diff_error: Option<AppError>,
) -> Seq<Seq<char>> {
    let middle = if repo.live_status == RepoLiveStatus::Missing || repo.live_status == RepoLiveStatus::NotGit {
        seq!["Checkpoint comparison is unavailable because this repo is not currently a valid git worktree."@]
    } else if repo.current_head_sha is Some {
        history_warning(
            "Unable to inspect commits from this checkpoint; the saved commit may no longer exist locally: "@,
            commits_error,
        ) + history_warning(
            "Unable to inspect changed files from this checkpoint; the saved commit may no longer exist locally: "@,
            diff_error,
        )
    } else {
        Seq::empty()
    };
    let tail = if ov(repo.current_head_sha) == Some(old_head_sha) {
        seq!["Current disk state already matches this checkpoint."@]
    } else {
        Seq::empty()
    };
    sv(repo.live_warnings@) + middle + tail
}

fn push_history_warning(out: &mut Vec<String>, prefix: &str, e: Option<&AppError>)
    ensures
        sv(final(out)@) == sv(old(out)@) + history_warning(prefix@, match e {
            Some(x) => Some(*x),
            None => None,
        }),
{
    match e {
        Some(x) => {
            let mut m = owned(prefix);
            push_str(&mut m, x.message().as_str());
            let ghost before = sv(out@);
            out.push(m);
            assert(sv(out@) == before.push(m@));
        },
        None => {
            assert(sv(out@) == sv(out@) + Seq::<Seq<char>>::empty());
        },
    }
}

/// The warnings of a comparison with a checkpoint taken at `old_head_sha`:
/// the repository's live warnings; then, where it is no worktree, that the
/// comparison is unavailable, else one warning per history read that failed;
/// then a note where the checkout already sits at the checkpoint.
pub fn checkpoint_comparison_warnings(
    live: &ManagedRepo,
    old_head_sha: &str,
    commits_error: Option<&AppError>,
    diff_error: Option<&AppError>,
) -> (r: Vec<String>)
    ensures
        sv(r@) == comparison_warnings_spec(*live, old_head_sha@, match commits_error {
            Some(x) => Some(*x),
            None => None,
        }, match diff_error {
            Some(x) => Some(*x),
            None => None,
        }),
{
    let mut out = clone_strings(&live.live_warnings);
    let ghost base = sv(out@);
    if live.live_status == RepoLiveStatus::Missing || live.live_status == RepoLiveStatus::NotGit {
        push_owned(
            &mut out,
            "Checkpoint comparison is unavailable because this repo is not currently a valid git worktree.",
        );
    } else if live.current_head_sha.is_some() {
        push_history_warning(
            &mut out,
            "Unable to inspect commits from this checkpoint; the saved commit may no longer exist locally: ",
            commits_error,
        );
        push_history_warning(
            &mut out,
            "Unable to inspect changed files from this checkpoint; the saved commit may no longer exist locally: ",
            diff_error,
        );
    }
    let ghost mid = sv(out@);
    let at_checkpoint = match &live.current_head_sha {
        Some(h) => str_eq(h.as_str(), old_head_sha),
        None => false,
    };
    if at_checkpoint {
        push_owned(&mut out, "Current disk state already matches this checkpoint.");
    }
    proof {
        let cm = match commits_error {
            Some(x) => Some(*x),
            None => None,
        };
        let dm = match diff_error {
            Some(x) => Some(*x),
            None => None,
        };
        let spec = comparison_warnings_spec(*live, old_head_sha@, cm, dm);
        assert(sv(out@) =~= spec);
    }
    out
}

} // verus!
