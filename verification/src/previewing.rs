//! Previewing a tracked state before it is applied: which refs a preview
//! fetches, whether it reads history or probes overlays for conflicts, and
//! the preview that the readings add up to.
use vstd::prelude::*;
use crate::errors::{error_text, AppError, AppResult};
use crate::models::{
    ManagedRepo, RepoActionPreview, RepoActionPreviewCommit, RepoActionPreviewFile, RepoLiveStatus,
    ResolvedTarget, TargetKind, TrackedRepoState,
};
use crate::ordering::{sorted_unique, strictly_sorted};
use crate::preview::{enabled_count, enabled_overlay_count, preview_summary_spec, preview_target_summary};
use crate::stacking::{preview_item_ok, preview_ref_name, sanitize_ref_part, stack_preview_items};
use crate::text::{clone_opt, clone_strings, decimal, ov, owned, push_owned, push_str, sv, u64_decimal};

verus! {

/// How a preview makes a target available locally.
pub enum PreviewFetch {
    /// Fetch `refspec` from origin; the target is then `local_ref`.
    Refspec { refspec: String, local_ref: String },
    /// Fetch origin; the target is then `target`.
    Origin { target: String },
    /// Fetch origin; the target is `sha` where the repository has that
    /// commit, else what fetching `refspec` puts at `local_ref`.
    Commit { sha: String, refspec: String, local_ref: String },
}

/// The ref a preview fetches for `resolved`: a PR's head into a preview
/// ref, a branch's origin counterpart, a tag itself, and a commit by its
/// hash (fetched into a preview ref where it is missing).
pub fn preview_fetch_plan(resolved: &ResolvedTarget) -> (r: AppResult<PreviewFetch>)
    ensures
        resolved.target_kind == TargetKind::Pr && resolved.pr_number is None ==> (r matches Err(
            AppError::Github(m),
        ) && m@ == "missing PR number"@),
        resolved.target_kind == TargetKind::Pr && resolved.pr_number is Some ==> (r matches Ok(
            PreviewFetch::Refspec { refspec, local_ref },
        ) && local_ref@ == "refs/patcher/previews/pr-"@ + sanitize_ref_part(
            decimal(resolved.pr_number.unwrap() as nat),
        ) && refspec@ == "pull/"@ + decimal(resolved.pr_number.unwrap() as nat) + "/head:"@ + local_ref@),
        resolved.target_kind == TargetKind::Branch || resolved.target_kind == TargetKind::DefaultBranch
            || resolved.target_kind == TargetKind::NamedRef ==> (r matches Ok(PreviewFetch::Origin { target })
            && target@ == "origin/"@ + resolved.checkout_ref@),
        resolved.target_kind == TargetKind::Tag ==> (r matches Ok(PreviewFetch::Origin { target }) && target@
            == resolved.checkout_ref@),
        resolved.target_kind == TargetKind::Commit ==> (r matches Ok(
            PreviewFetch::Commit { sha, refspec, local_ref },
        ) && sha@ == (match ov(resolved.resolved_sha) {
            Some(s) => s,
            None => resolved.checkout_ref@,
        }) && local_ref@ == "refs/patcher/previews/commit-"@ + sanitize_ref_part(sha@) && refspec@ == sha@
            + ":"@ + local_ref@),
{
    proof {
        reveal_strlit("refs/patcher/previews/");
        reveal_strlit("refs/patcher/previews/pr-");
        reveal_strlit("refs/patcher/previews/commit-");
        reveal_strlit("pr");
        reveal_strlit("commit");
        reveal_strlit("-");
    }
    match resolved.target_kind {
        TargetKind::Pr => match resolved.pr_number {
            Some(n) => {
                let number = u64_decimal(n);
                let local_ref = preview_ref_name("pr", number.as_str());
                let mut refspec = owned("pull/");
                push_str(&mut refspec, number.as_str());
                push_str(&mut refspec, "/head:");
                push_str(&mut refspec, local_ref.as_str());
                Ok(PreviewFetch::Refspec { refspec, local_ref })
            },
            None => Err(AppError::Github(owned("missing PR number"))),
        },
        TargetKind::Branch | TargetKind::DefaultBranch | TargetKind::NamedRef => {
            let mut target = owned("origin/");
            push_str(&mut target, resolved.checkout_ref.as_str());
            Ok(PreviewFetch::Origin { target })
        },
        TargetKind::Tag => Ok(PreviewFetch::Origin { target: owned(resolved.checkout_ref.as_str()) }),
        TargetKind::Commit => {
            let sha = match &resolved.resolved_sha {
                Some(s) => owned(s.as_str()),
                None => owned(resolved.checkout_ref.as_str()),
            };
            let local_ref = preview_ref_name("commit", sha.as_str());
            let mut refspec = owned(sha.as_str());
            push_str(&mut refspec, ":");
            push_str(&mut refspec, local_ref.as_str());
            Ok(PreviewFetch::Commit { sha, refspec, local_ref })
        },
    }
}

/// A repository that is gone or no git worktree gets a preview without
/// history.
pub open spec fn preview_unavailable(live: ManagedRepo) -> bool {
    live.live_status == RepoLiveStatus::Missing || live.live_status == RepoLiveStatus::NotGit
}

pub open spec fn stack_has_overlays(ts: TrackedRepoState) -> bool {
    enabled_count(ts.overlays@, ts.overlays.len() as int) > 0
}

/// The commit a preview moves to: the base's resolved commit, unknown for a
/// stack with enabled overlays.
pub open spec fn preview_target_head(ts: TrackedRepoState, base: ResolvedTarget) -> Option<Seq<char>> {
    if stack_has_overlays(ts) {
        None
    } else {
        ov(base.resolved_sha)
    }
}

/// The ref a preview moves to: the stack branch, else the base's ref.
pub open spec fn preview_target_ref(ts: TrackedRepoState, base: ResolvedTarget) -> Option<Seq<char>> {
    match ov(ts.materialized_branch) {
        Some(b) => Some(b),
        None => Some(base.checkout_ref@),
    }
}

/// Whether a preview reads commits and changed files: a worktree at a known
/// head, moving without overlays to a known commit.
pub open spec fn preview_reads_history(live: ManagedRepo, ts: TrackedRepoState, base: ResolvedTarget) -> bool {
    !preview_unavailable(live) && !stack_has_overlays(ts) && live.current_head_sha is Some
        && base.resolved_sha is Some
}

/// Whether a preview probes its enabled overlays for merge conflicts.
pub open spec fn preview_probes_conflicts(live: ManagedRepo, ts: TrackedRepoState) -> bool {
    !preview_unavailable(live) && stack_has_overlays(ts)
}

pub fn preview_reads_history_exec(live: &ManagedRepo, ts: &TrackedRepoState, base: &ResolvedTarget) -> (r: bool)
    ensures
        r == preview_reads_history(*live, *ts, *base),
{
    live.live_status != RepoLiveStatus::Missing && live.live_status != RepoLiveStatus::NotGit
        && enabled_overlay_count(ts) == 0 && live.current_head_sha.is_some() && base.resolved_sha.is_some()
}

pub fn preview_probes_conflicts_exec(live: &ManagedRepo, ts: &TrackedRepoState) -> (r: bool)
    ensures
        r == preview_probes_conflicts(*live, *ts),
{
    live.live_status != RepoLiveStatus::Missing && live.live_status != RepoLiveStatus::NotGit
        && enabled_overlay_count(ts) > 0
}

/// What reading the history between the current head and the target gave.
pub enum HistoryRead {
    NotRead,
    BaseFetchFailed(AppError),
    Read {
        commits: AppResult<Vec<RepoActionPreviewCommit>>,
        file_changes: AppResult<Vec<RepoActionPreviewFile>>,
    },
}

/// What probing one enabled overlay gave.
pub enum OverlayProbe {
    FetchFailed(AppError),
    ProbeFailed(AppError),
    Conflicts(Vec<String>),
}

/// One enabled overlay's probe, under the overlay's label.
pub struct OverlayProbeReport {
    pub label: String,
    pub probe: OverlayProbe,
}

/// What probing the enabled overlays against the base gave.
pub enum ConflictProbe {
    NotProbed,
    BaseFetchFailed(AppError),
    Probed(Vec<OverlayProbeReport>),
}

/// The commits a history read found; none where it failed.
pub open spec fn history_commits(h: HistoryRead) -> Seq<RepoActionPreviewCommit> {
    match h {
        HistoryRead::Read { commits: Ok(c), file_changes: _ } => c@,
        _ => Seq::empty(),
    }
}

/// The changed files a history read found; none where it failed.
pub open spec fn history_files(h: HistoryRead) -> Seq<RepoActionPreviewFile> {
    match h {
        HistoryRead::Read { commits: _, file_changes: Ok(f) } => f@,
        _ => Seq::empty(),
    }
}

pub open spec fn error_line(prefix: Seq<char>, e: AppError) -> Seq<Seq<char>> {
    seq![prefix + error_text(e)]
}

pub open spec fn result_warning<T>(prefix: Seq<char>, r: AppResult<T>) -> Seq<Seq<char>> {
    match r {
        Ok(_) => Seq::empty(),
        Err(e) => error_line(prefix, e),
    }
}

pub open spec fn history_warnings(h: HistoryRead) -> Seq<Seq<char>> {
    match h {
        HistoryRead::NotRead => Seq::empty(),
        HistoryRead::BaseFetchFailed(e) => error_line(
            "Unable to fetch the preview base into the local repo; commit and file previews are incomplete: "@,
            e,
        ),
        HistoryRead::Read { commits, file_changes } => result_warning(
            "Unable to inspect commits for this preview target: "@,
            commits,
        ) + result_warning("Unable to inspect changed files for this preview target: "@, file_changes),
    }
}

pub open spec fn report_warning(rep: OverlayProbeReport) -> Seq<Seq<char>> {
    match rep.probe {
        OverlayProbe::FetchFailed(e) => seq![
            "Unable to fetch preview objects for "@ + rep.label@ + " during conflict probing: "@ + error_text(e),
        ],
        OverlayProbe::ProbeFailed(e) => seq!["Unable to probe conflicts for "@ + rep.label@ + ": "@ + error_text(e)],
        OverlayProbe::Conflicts(_) => Seq::empty(),
    }
}

pub open spec fn report_warnings(reps: Seq<OverlayProbeReport>) -> Seq<Seq<char>>
    decreases reps.len(),
{
    if reps.len() == 0 {
        Seq::empty()
    } else {
        report_warnings(reps.drop_last()) + report_warning(reps.last())
    }
}

pub open spec fn probe_warnings(p: ConflictProbe) -> Seq<Seq<char>> {
    match p {
        ConflictProbe::NotProbed => Seq::empty(),
        ConflictProbe::BaseFetchFailed(e) => error_line("Unable to fetch the preview base for conflict probing: "@, e),
        ConflictProbe::Probed(reps) => report_warnings(reps@),
    }
}

/// The conflicting paths the probes found, in probe order.
pub open spec fn report_conflicts(reps: Seq<OverlayProbeReport>) -> Seq<Seq<char>>
    decreases reps.len(),
{
    if reps.len() == 0 {
        Seq::empty()
    } else {
        report_conflicts(reps.drop_last()) + match reps.last().probe {
            OverlayProbe::Conflicts(v) => sv(v@),
            _ => Seq::empty(),
        }
    }
}

pub open spec fn probe_conflicts(p: ConflictProbe) -> Seq<Seq<char>> {
    match p {
        ConflictProbe::Probed(reps) => report_conflicts(reps@),
        _ => Seq::empty(),
    }
}

/// The warnings of a preview: the repository's live warnings; then, for a
/// worktree, a note that a stack is not previewed commit by commit or the
/// failures of the history reads, a note where the head already sits at the
/// target, and the failures of the conflict probes with a note on how a
/// stack of several overlays is probed.
pub open spec fn preview_warnings_spec(
    live: ManagedRepo,
    ts: TrackedRepoState,
    base: ResolvedTarget,
    history: HistoryRead,
    probe: ConflictProbe,
) -> Seq<Seq<char>> {
    let lw = sv(live.live_warnings@);
    if preview_unavailable(live) {
        lw
    } else {
        let n = enabled_count(ts.overlays@, ts.overlays.len() as int);
        let w1 = if stack_has_overlays(ts) {
            seq![
                "Full commit/file preview is unavailable for overlay stacks because the final merged stack state is not synthesized during preview."@,
            ]
        } else if preview_reads_history(live, ts, base) {
            history_warnings(history)
        } else {
            Seq::empty()
        };
        let w2 = if !stack_has_overlays(ts) && ov(live.current_head_sha) == preview_target_head(ts, base) {
            seq!["Current HEAD already matches this preview target."@]
        } else {
            Seq::empty()
        };
        let w3 = if stack_has_overlays(ts) {
            probe_warnings(probe) + if n > 1 {
                seq!["Conflict probing is computed per overlay against the resolved base before any stack mutation."@]
            } else {
                Seq::empty()
            }
        } else {
            Seq::empty()
        };
        lw + w1 + w2 + w3
    }
}

fn push_error_line(out: &mut Vec<String>, prefix: &str, e: &AppError)
    ensures
        sv(final(out)@) == sv(old(out)@) + error_line(prefix@, *e),
{
    let mut m = owned(prefix);
    push_str(&mut m, e.message().as_str());
    let ghost before = sv(out@);
    out.push(m);
    assert(sv(out@) =~= before + error_line(prefix@, *e));
}

fn report_lines(out: &mut Vec<String>, conflicts: &mut Vec<String>, reps: Vec<OverlayProbeReport>)
    ensures
        sv(final(out)@) == sv(old(out)@) + report_warnings(reps@),
        sv(final(conflicts)@) == sv(old(conflicts)@) + report_conflicts(reps@),
{
    let ghost all = reps@;
    let ghost o0 = sv(out@);
    let ghost c0 = sv(conflicts@);
    let mut rest = reps;
    let mut i: usize = 0;
    let n = rest.len();
    assert(all.subrange(0, 0) =~= Seq::<OverlayProbeReport>::empty());
    while rest.len() > 0
        invariant
            n == all.len(),
            i + rest.len() == n,
            rest@ == all.subrange(i as int, n as int),
            sv(out@) == o0 + report_warnings(all.subrange(0, i as int)),
            sv(conflicts@) == c0 + report_conflicts(all.subrange(0, i as int)),
        decreases rest.len(),
    {
        let rep = rest.remove(0);
        assert(rep == all[i as int]);
        assert(all.subrange(0, i + 1).drop_last() == all.subrange(0, i as int));
        assert(all.subrange(0, i + 1).last() == rep);
        let ghost wb = sv(out@);
        let ghost cb = sv(conflicts@);
        match &rep.probe {
            OverlayProbe::FetchFailed(e) => {
                let mut m = owned("Unable to fetch preview objects for ");
                push_str(&mut m, rep.label.as_str());
                push_str(&mut m, " during conflict probing: ");
                push_str(&mut m, e.message().as_str());
                out.push(m);
                assert(sv(out@) =~= wb + report_warning(rep));
                assert(sv(conflicts@) =~= cb + Seq::<Seq<char>>::empty());
            },
            OverlayProbe::ProbeFailed(e) => {
                let mut m = owned("Unable to probe conflicts for ");
                push_str(&mut m, rep.label.as_str());
                push_str(&mut m, ": ");
                push_str(&mut m, e.message().as_str());
                out.push(m);
                assert(sv(out@) =~= wb + report_warning(rep));
                assert(sv(conflicts@) =~= cb + Seq::<Seq<char>>::empty());
            },
            OverlayProbe::Conflicts(v) => {
                let mut k: usize = 0;
                while k < v.len()
                    invariant
                        k <= v.len(),
                        sv(conflicts@) == cb + sv(v@).subrange(0, k as int),
                    decreases v.len() - k,
                {
                    let ghost before = sv(conflicts@);
                    conflicts.push(owned(v[k].as_str()));
                    assert(sv(conflicts@) == before.push(v@[k as int]@));
                    assert(sv(v@).subrange(0, k + 1) == sv(v@).subrange(0, k as int).push(v@[k as int]@));
                    k = k + 1;
                }
                assert(sv(v@).subrange(0, v.len() as int) == sv(v@));
                assert(sv(out@) =~= wb + report_warning(rep));
            },
        }
        i = i + 1;
    }
    assert(all.subrange(0, n as int) == all);
}

/// The preview of applying `ts`, whose base resolves to `base`, to the
/// repository `repo` as `live` finds it on disk, from what reading its
/// history and probing the overlays gave.
pub fn assemble_preview(
    action: &str,
    repo: &ManagedRepo,
    live: ManagedRepo,
    ts: &TrackedRepoState,
    base: &ResolvedTarget,
    history: HistoryRead,
    probe: ConflictProbe,
) -> (r: RepoActionPreview)
    ensures
        r.action@ == action@,
        ov(r.repo_id) == Some(repo.id@),
        r.repo_display_name@ == repo.display_name@,
        ov(r.current_head_sha) == if preview_unavailable(live) {
            None
        } else {
            ov(live.current_head_sha)
        },
        ov(r.target_head_sha) == preview_target_head(*ts, *base),
        r.target_summary@ == preview_summary_spec(
            ts.base.summary_label@,
            enabled_count(ts.overlays@, ts.overlays.len() as int),
        ),
        ov(r.target_ref) == preview_target_ref(*ts, *base),
        r.stack_preview.len() == ts.overlays.len() + 1,
        forall|k: int| 0 <= k < r.stack_preview.len() ==> preview_item_ok(#[trigger] r.stack_preview@[k], *ts, k),
        sv(r.warnings@) == preview_warnings_spec(live, *ts, *base, history, probe),
        r.commits@ == if preview_reads_history(live, *ts, *base) {
            history_commits(history)
        } else {
            Seq::empty()
        },
        r.file_changes@ == if preview_reads_history(live, *ts, *base) {
            history_files(history)
        } else {
            Seq::empty()
        },
        strictly_sorted(sv(r.conflict_files@)),
        forall|x: Seq<char>|
            sv(r.conflict_files@).contains(x) <==> (preview_probes_conflicts(live, *ts) && probe_conflicts(
                probe,
            ).contains(x)),
        r.dependency_state == if preview_unavailable(live) {
            None
        } else {
            live.dependency_state
        },
{
    let n = enabled_overlay_count(ts);
    let has_overlays = n > 0;
    let target_head_sha = if has_overlays {
        None
    } else {
        clone_opt(&base.resolved_sha)
    };
    let target_summary = preview_target_summary(ts.base.summary_label.as_str(), n);
    let target_ref = match &ts.materialized_branch {
        Some(b) => Some(owned(b.as_str())),
        None => Some(owned(base.checkout_ref.as_str())),
    };
    let unavailable = live.live_status == RepoLiveStatus::Missing || live.live_status == RepoLiveStatus::NotGit;
    let reads = preview_reads_history_exec(&live, ts, base);
    let ghost gh = history;
    let ghost gp = probe;
    let mut warnings = clone_strings(&live.live_warnings);
    let mut commits: Vec<RepoActionPreviewCommit> = Vec::new();
    let mut file_changes: Vec<RepoActionPreviewFile> = Vec::new();
    let mut conflicts: Vec<String> = Vec::new();
    let ghost lw = sv(warnings@);
    if !unavailable {
        if has_overlays {
            push_owned(
                &mut warnings,
                "Full commit/file preview is unavailable for overlay stacks because the final merged stack state is not synthesized during preview.",
            );
        } else if reads {
            match history {
                HistoryRead::NotRead => {},
                HistoryRead::BaseFetchFailed(e) => {
                    push_error_line(
                        &mut warnings,
                        "Unable to fetch the preview base into the local repo; commit and file previews are incomplete: ",
                        &e,
                    );
                },
                HistoryRead::Read { commits: c, file_changes: f } => {
                    match c {
                        Ok(v) => {
                            commits = v;
                        },
                        Err(e) => {
                            push_error_line(&mut warnings, "Unable to inspect commits for this preview target: ", &e);
                        },
                    }
                    let ghost mid = sv(warnings@);
                    match f {
                        Ok(v) => {
                            file_changes = v;
                            assert(sv(warnings@) == mid + Seq::<Seq<char>>::empty());
                        },
                        Err(e) => {
                            push_error_line(&mut warnings, "Unable to inspect changed files for this preview target: ", &e);
                        },
                    }
                },
            }
        }
        let ghost after1 = sv(warnings@);
        let head_matches = match (&live.current_head_sha, &target_head_sha) {
            (Some(a), Some(b)) => crate::text::str_eq(a.as_str(), b.as_str()),
            (None, None) => true,
            _ => false,
        };
        if !has_overlays && head_matches {
            push_owned(&mut warnings, "Current HEAD already matches this preview target.");
        }
        let ghost after2 = sv(warnings@);
        if has_overlays {
            match probe {
                ConflictProbe::NotProbed => {},
                ConflictProbe::BaseFetchFailed(e) => {
                    push_error_line(&mut warnings, "Unable to fetch the preview base for conflict probing: ", &e);
                },
                ConflictProbe::Probed(reps) => {
                    report_lines(&mut warnings, &mut conflicts, reps);
                },
            }
            if n > 1 {
                push_owned(
                    &mut warnings,
                    "Conflict probing is computed per overlay against the resolved base before any stack mutation.",
                );
            }
        }
        proof {
            let w1 = if stack_has_overlays(*ts) {
                seq![
                    "Full commit/file preview is unavailable for overlay stacks because the final merged stack state is not synthesized during preview."@,
                ]
            } else if preview_reads_history(live, *ts, *base) {
                history_warnings(gh)
            } else {
                Seq::empty()
            };
            assert(after1 =~= lw + w1);
            assert(ov(live.current_head_sha) == preview_target_head(*ts, *base) <==> head_matches);
        }
    }
    proof {
        assert(sv(warnings@) =~= preview_warnings_spec(live, *ts, *base, gh, gp));
    }
    let conflict_files = sorted_unique(conflicts);
    RepoActionPreview {
        action: owned(action),
        repo_id: Some(owned(repo.id.as_str())),
        repo_display_name: owned(repo.display_name.as_str()),
        current_head_sha: if unavailable {
            None
        } else {
            clone_opt(&live.current_head_sha)
        },
        target_head_sha,
        target_summary,
        target_ref,
        commits,
        file_changes,
        warnings,
        conflict_files,
        stack_preview: stack_preview_items(ts),
        dependency_state: if unavailable {
            None
        } else {
            live.dependency_state
        },
    }
}

} // verus!
