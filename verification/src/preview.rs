//! What an update would do before it runs: repository-relative paths and
//! their collisions, the dirty-tree preflight, the stack summary shown in a
//! preview, and which dependency manifests a change touches.
use vstd::prelude::*;
use crate::deps::{dependency_plan_spec, plan_dependency_sync, plan_view, ManifestFacts, PlanOutcome};
use crate::errors::{error_text, AppError, AppResult};
use crate::git::{join_custom_node_path, join_path_spec, replace_char, replace_char_exec, RepoStatus};
use crate::models::{
    Installation, ManagedRepo, RepoActionPreviewFile, RepoDependencyState, RepoKind,
    TrackedRepoState,
};
use crate::ordering::{sorted_unique, strictly_sorted};
use crate::registry::{push_unique, push_unique_exec};
use crate::text::{
    chars_of, clone_strings, decimal, eq_ignore_ascii_case, eq_ignore_ascii_case_chars, has_prefix,
    ov, owned, push_owned, push_str, slice_chars, starts_with, str_eq, string_of,
    strip_suffix_all, strip_suffix_all_chars, sv, u64_decimal,
};
use crate::util::{trim_start_char, trim_start_char_exec};

verus! {

/// `s` without its leading `./` pairs (`trim_start_matches("./")`).
pub open spec fn strip_dot_slash(s: Seq<char>) -> Seq<char>
    decreases s.len(),
{
    if s.len() >= 2 && s[0] == '.' && s[1] == '/' {
        strip_dot_slash(s.subrange(2, s.len() as int))
    } else {
        s
    }
}

/// `s` without leading or trailing `/` (`trim_matches('/')`).
pub open spec fn trim_slashes(s: Seq<char>) -> Seq<char> {
    strip_suffix_all(trim_start_char(s, '/'), seq!['/'])
}

/// A repository-relative path in the form paths are compared in: `/` as
/// separator, no leading `./`, no leading or trailing `/`.
pub open spec fn rel_path_spec(p: Seq<char>) -> Seq<char> {
    trim_slashes(strip_dot_slash(replace_char(p, '\\', '/')))
}

fn strip_dot_slash_exec(v: &Vec<char>) -> (r: Vec<char>)
    ensures
        r@ == strip_dot_slash(v@),
{
    let mut i: usize = 0;
    assert(v@.subrange(0, v.len() as int) == v@);
    while i < v.len() && v.len() - i >= 2 && v[i] == '.' && v[i + 1] == '/'
        invariant
            i <= v.len(),
            strip_dot_slash(v@) == strip_dot_slash(v@.subrange(i as int, v.len() as int)),
        decreases v.len() - i,
    {
        assert(v@.subrange(i as int, v.len() as int).subrange(2, v.len() - i) == v@.subrange(
            i + 2,
            v.len() as int,
        ));
        i = i + 2;
    }
    slice_chars(v, i, v.len())
}

/// The path in the form repository-relative paths are compared in.
pub fn normalize_repo_relative_path(path: &str) -> (r: String)
    ensures
        r@ == rel_path_spec(path@),
{
    let replaced = replace_char_exec(&chars_of(path), '\\', '/');
    let stripped = strip_dot_slash_exec(&replaced);
    let start = trim_start_char_exec(&stripped, '/');
    let mut slash: Vec<char> = Vec::new();
    slash.push('/');
    assert(slash@ == seq!['/']);
    string_of(&strip_suffix_all_chars(&start, &slash))
}

/// A change that leaves a file in the tree: anything but a deletion.
pub open spec fn writes_path(status: Seq<char>) -> bool {
    !(status.len() > 0 && status[0] == 'D')
}

pub fn file_change_writes_path(status: &str) -> (r: bool)
    ensures
        r == writes_path(status@),
{
    let c = chars_of(status);
    !(c.len() > 0 && c[0] == 'D')
}

/// Two repository-relative paths collide when, normalized and not empty,
/// they are equal or one lies inside the other.
pub open spec fn paths_collide(left: Seq<char>, right: Seq<char>) -> bool {
    let a = rel_path_spec(left);
    let b = rel_path_spec(right);
    a.len() > 0 && b.len() > 0 && (a == b || has_prefix(a, b + seq!['/']) || has_prefix(b, a + seq!['/']))
}

pub fn repo_relative_paths_collide(left: &str, right: &str) -> (r: bool)
    ensures
        r == paths_collide(left@, right@),
{
    let a = chars_of(normalize_repo_relative_path(left).as_str());
    let b = chars_of(normalize_repo_relative_path(right).as_str());
    if a.len() == 0 || b.len() == 0 {
        return false;
    }
    if crate::text::chars_eq(&a, &b) {
        return true;
    }
    let mut b_slash = b.clone();
    b_slash.push('/');
    assert(b_slash@ == b@ + seq!['/']);
    let mut a_slash = a.clone();
    a_slash.push('/');
    assert(a_slash@ == a@ + seq!['/']);
    starts_with(&a, &b_slash) || starts_with(&b, &a_slash)
}

/// Whether two paths collide does not depend on their order.
pub proof fn law_paths_collide_symmetric(left: Seq<char>, right: Seq<char>)
    ensures
        paths_collide(left, right) == paths_collide(right, left),
{
}

pub open spec fn change_view(c: RepoActionPreviewFile) -> (Seq<char>, Seq<char>) {
    (c.path@, c.status@)
}

/// `out` extended by the normalized paths that the changes write, each once.
pub open spec fn add_write_paths_spec(out: Seq<Seq<char>>, changes: Seq<(Seq<char>, Seq<char>)>) -> Seq<Seq<char>>
    decreases changes.len(),
{
    if changes.len() == 0 {
        out
    } else if writes_path(changes[0].1) {
        add_write_paths_spec(push_unique(out, rel_path_spec(changes[0].0)), changes.drop_first())
    } else {
        add_write_paths_spec(out, changes.drop_first())
    }
}

/// Adds the paths an incoming diff writes to the set `out`.
pub fn add_write_paths(out: &mut Vec<String>, changes: &Vec<RepoActionPreviewFile>)
    ensures
        sv(final(out)@) == add_write_paths_spec(sv(old(out)@), changes@.map_values(|c: RepoActionPreviewFile| change_view(c))),
{
    let ghost cv = changes@.map_values(|c: RepoActionPreviewFile| change_view(c));
    let ghost o0 = sv(out@);
    let mut i: usize = 0;
    assert(cv.subrange(0, cv.len() as int) == cv);
    while i < changes.len()
        invariant
            cv == changes@.map_values(|c: RepoActionPreviewFile| change_view(c)),
            i <= changes.len(),
            add_write_paths_spec(o0, cv) == add_write_paths_spec(sv(out@), cv.subrange(i as int, cv.len() as int)),
        decreases changes.len() - i,
    {
        let ghost rest = cv.subrange(i as int, cv.len() as int);
        assert(rest[0] == change_view(changes@[i as int]));
        assert(rest.drop_first() == cv.subrange(i + 1, cv.len() as int));
        if file_change_writes_path(changes[i].status.as_str()) {
            let p = normalize_repo_relative_path(changes[i].path.as_str());
            push_unique_exec(out, p.as_str());
        }
        i = i + 1;
    }
}

/// The untracked path collides with one of the incoming paths.
pub open spec fn collides_with_any(u: Seq<char>, incoming: Seq<Seq<char>>) -> bool {
    exists|k: int| 0 <= k < incoming.len() && paths_collide(u, #[trigger] incoming[k])
}

fn collides_with_any_exec(u: &str, incoming: &Vec<String>) -> (r: bool)
    ensures
        r == collides_with_any(u@, sv(incoming@)),
{
    let mut k: usize = 0;
    while k < incoming.len()
        invariant
            k <= incoming.len(),
            forall|q: int| 0 <= q < k ==> !paths_collide(u@, #[trigger] sv(incoming@)[q]),
        decreases incoming.len() - k,
    {
        if repo_relative_paths_collide(u, incoming[k].as_str()) {
            assert(paths_collide(u@, sv(incoming@)[k as int]));
            return true;
        }
        k = k + 1;
    }
    false
}

/// The untracked paths that the incoming update would overwrite,
/// normalized, sorted and each once.
pub fn colliding_untracked_paths(untracked: &Vec<String>, incoming: &Vec<String>) -> (r: Vec<String>)
    ensures
        strictly_sorted(sv(r@)),
        forall|x: Seq<char>| sv(r@).contains(x) <==> exists|i: int|
            0 <= i < untracked.len() && collides_with_any(#[trigger] sv(untracked@)[i], sv(incoming@))
                && rel_path_spec(sv(untracked@)[i]) == x,
{
    let mut hits: Vec<String> = Vec::new();
    let mut i: usize = 0;
    while i < untracked.len()
        invariant
            i <= untracked.len(),
            forall|x: Seq<char>| sv(hits@).contains(x) <==> exists|q: int|
                0 <= q < i && collides_with_any(#[trigger] sv(untracked@)[q], sv(incoming@))
                    && rel_path_spec(sv(untracked@)[q]) == x,
        decreases untracked.len() - i,
    {
        let ghost h0 = sv(hits@);
        if collides_with_any_exec(untracked[i].as_str(), incoming) {
            let p = normalize_repo_relative_path(untracked[i].as_str());
            push_owned(&mut hits, p.as_str());
            assert forall|x: Seq<char>| sv(hits@).contains(x) <==> exists|q: int|
                0 <= q < i + 1 && collides_with_any(#[trigger] sv(untracked@)[q], sv(incoming@))
                    && rel_path_spec(sv(untracked@)[q]) == x by {
                if sv(hits@).contains(x) {
                    let k = choose|k: int| 0 <= k < sv(hits@).len() && sv(hits@)[k] == x;
                    if k < h0.len() {
                        assert(h0[k] == x);
                        assert(h0.contains(x));
                    } else {
                        assert(sv(untracked@)[i as int] == untracked@[i as int]@);
                    }
                }
                if exists|q: int|
                    0 <= q < i + 1 && collides_with_any(#[trigger] sv(untracked@)[q], sv(incoming@))
                        && rel_path_spec(sv(untracked@)[q]) == x {
                    let q = choose|q: int|
                        0 <= q < i + 1 && collides_with_any(#[trigger] sv(untracked@)[q], sv(incoming@))
                            && rel_path_spec(sv(untracked@)[q]) == x;
                    if q < i {
                        assert(h0.contains(x));
                        let k = choose|k: int| 0 <= k < h0.len() && h0[k] == x;
                        assert(sv(hits@)[k] == x);
                    } else {
                        assert(sv(hits@)[h0.len() as int] == x);
                    }
                }
            }
        } else {
            assert forall|x: Seq<char>| sv(hits@).contains(x) <==> exists|q: int|
                0 <= q < i + 1 && collides_with_any(#[trigger] sv(untracked@)[q], sv(incoming@))
                    && rel_path_spec(sv(untracked@)[q]) == x by {
                if exists|q: int|
                    0 <= q < i + 1 && collides_with_any(#[trigger] sv(untracked@)[q], sv(incoming@))
                        && rel_path_spec(sv(untracked@)[q]) == x {
                    let q = choose|q: int|
                        0 <= q < i + 1 && collides_with_any(#[trigger] sv(untracked@)[q], sv(incoming@))
                            && rel_path_spec(sv(untracked@)[q]) == x;
                    assert(q != i) by {
                        assert(sv(untracked@)[i as int] == untracked@[i as int]@);
                    }
                }
            }
        }
        i = i + 1;
    }
    sorted_unique(hits)
}

/// `parts` joined with `, ` between them.
pub open spec fn join_comma(parts: Seq<Seq<char>>) -> Seq<char>
    decreases parts.len(),
{
    if parts.len() == 0 {
        Seq::<char>::empty()
    } else if parts.len() == 1 {
        parts[0]
    } else {
        join_comma(parts.drop_last()) + ", "@ + parts.last()
    }
}

pub fn join_comma_exec(parts: &Vec<String>) -> (r: String)
    ensures
        r@ == join_comma(sv(parts@)),
{
    let mut r = String::new();
    let mut i: usize = 0;
    while i < parts.len()
        invariant
            i <= parts.len(),
            r@ == join_comma(sv(parts@).subrange(0, i as int)),
        decreases parts.len() - i,
    {
        let ghost next = sv(parts@).subrange(0, i + 1);
        assert(next.drop_last() == sv(parts@).subrange(0, i as int));
        assert(next.last() == parts@[i as int]@);
        if i > 0 {
            push_str(&mut r, ", ");
        }
        push_str(&mut r, parts[i].as_str());
        i = i + 1;
    }
    assert(sv(parts@).subrange(0, parts.len() as int) == sv(parts@));
    r
}

/// The first step of the preflight of a dirty working tree before tracked
/// state is applied: a clean tree passes; tracked changes stop it; with
/// untracked files the incoming paths must be checked against HEAD.
pub fn preflight_dirty_check(status: &RepoStatus) -> (r: AppResult<Option<String>>)
    ensures
        !status.is_dirty ==> r matches Ok(None),
        status.is_dirty && status.tracked_changed_files.len() > 0 ==> (r matches Err(AppError::Conflict(m))
            && m@ == "repository has tracked local changes: "@ + join_comma(sv(status.tracked_changed_files@))),
        status.is_dirty && status.tracked_changed_files.len() == 0 && status.untracked_files.len() == 0
            ==> r matches Ok(None),
        status.is_dirty && status.tracked_changed_files.len() == 0 && status.untracked_files.len() > 0
            ==> match ov(status.head_sha) {
            Some(h) => r matches Ok(Some(x)) && x@ == h,
            None => r matches Err(AppError::Git(m)) && m@ == "repository has no HEAD"@,
        },
{
    if !status.is_dirty {
        return Ok(None);
    }
    if status.tracked_changed_files.len() > 0 {
        let mut m = String::from_str("repository has tracked local changes: ");
        push_str(&mut m, join_comma_exec(&status.tracked_changed_files).as_str());
        return Err(AppError::Conflict(m));
    }
    if status.untracked_files.len() == 0 {
        return Ok(None);
    }
    match &status.head_sha {
        Some(h) => Ok(Some(owned(h.as_str()))),
        None => Err(AppError::Git(owned("repository has no HEAD"))),
    }
}

/// The end of the preflight: untracked paths that would be overwritten stop
/// the update.
pub fn collision_outcome(colliding: &Vec<String>) -> (r: AppResult<()>)
    ensures
        r is Ok <==> colliding.len() == 0,
        r matches Err(e) ==> (e matches AppError::Conflict(m) && m@
            == "repository has untracked local paths that would be overwritten by the incoming update: "@
            + join_comma(sv(colliding@))),
{
    if colliding.len() == 0 {
        return Ok(());
    }
    let mut m = String::from_str(
        "repository has untracked local paths that would be overwritten by the incoming update: ",
    );
    push_str(&mut m, join_comma_exec(colliding).as_str());
    Err(AppError::Conflict(m))
}

/// The number of enabled overlays among the first `n`.
pub open spec fn enabled_count(s: Seq<crate::models::TrackedPrOverlay>, n: int) -> nat
    decreases n,
{
    if n <= 0 {
        0
    } else {
        enabled_count(s, n - 1) + if s[n - 1].enabled {
            1nat
        } else {
            0nat
        }
    }
}

pub fn enabled_overlay_count(tracked_state: &TrackedRepoState) -> (r: usize)
    ensures
        r == enabled_count(tracked_state.overlays@, tracked_state.overlays.len() as int),
{
    let mut c: usize = 0;
    let mut i: usize = 0;
    while i < tracked_state.overlays.len()
        invariant
            i <= tracked_state.overlays.len(),
            c == enabled_count(tracked_state.overlays@, i as int),
            c <= i,
        decreases tracked_state.overlays.len() - i,
    {
        if tracked_state.overlays[i].enabled {
            c = c + 1;
        }
        i = i + 1;
    }
    c
}

/// What a preview says it moves to: the base's label, with the number of
/// enabled overlays where there are any.
pub open spec fn preview_summary_spec(label: Seq<char>, n: nat) -> Seq<char> {
    if n == 0 {
        label
    } else {
        label + " + "@ + decimal(n) + " overlay"@ + if n == 1 {
            Seq::<char>::empty()
        } else {
            "s"@
        }
    }
}

pub fn preview_target_summary(base_label: &str, enabled_overlays: usize) -> (r: String)
    ensures
        r@ == preview_summary_spec(base_label@, enabled_overlays as nat),
{
    let mut s = owned(base_label);
    if enabled_overlays == 0 {
        return s;
    }
    push_str(&mut s, " + ");
    push_str(&mut s, u64_decimal(enabled_overlays as u64).as_str());
    push_str(&mut s, " overlay");
    if enabled_overlays != 1 {
        push_str(&mut s, "s");
    }
    s
}

/// The manifest files whose changes matter for a kind of repository.
pub open spec fn manifest_candidates(kind: RepoKind) -> Seq<Seq<char>> {
    match kind {
        RepoKind::Frontend => seq!["package.json"@, "package-lock.json"@, "pnpm-lock.yaml"@, "yarn.lock"@],
        _ => seq!["requirements.txt"@, "pyproject.toml"@],
    }
}

pub fn dependency_manifest_candidates(kind: &RepoKind) -> (r: Vec<String>)
    ensures
        sv(r@) == manifest_candidates(*kind),
{
    let mut r: Vec<String> = Vec::new();
    match kind {
        RepoKind::Frontend => {
            push_owned(&mut r, "package.json");
            push_owned(&mut r, "package-lock.json");
            push_owned(&mut r, "pnpm-lock.yaml");
            push_owned(&mut r, "yarn.lock");
        },
        _ => {
            push_owned(&mut r, "requirements.txt");
            push_owned(&mut r, "pyproject.toml");
        },
    }
    r
}

/// A changed path names one of the manifests (`/` as separator, without a
/// leading `./`, in any ASCII case).
pub open spec fn is_manifest_change(path: Seq<char>, kind: RepoKind) -> bool {
    exists|k: int|
        0 <= k < manifest_candidates(kind).len() && eq_ignore_ascii_case(
            strip_dot_slash(replace_char(path, '\\', '/')),
            #[trigger] manifest_candidates(kind)[k],
        )
}

/// The changed paths that touch a dependency manifest, in order.
pub open spec fn manifest_changes(files: Seq<Seq<char>>, kind: RepoKind) -> Seq<Seq<char>>
    decreases files.len(),
{
    if files.len() == 0 {
        files
    } else if is_manifest_change(files.last(), kind) {
        manifest_changes(files.drop_last(), kind).push(files.last())
    } else {
        manifest_changes(files.drop_last(), kind)
    }
}

pub fn relevant_dependency_changes(kind: &RepoKind, changed_files: &Vec<String>) -> (r: Vec<String>)
    ensures
        sv(r@) == manifest_changes(sv(changed_files@), *kind),
{
    let cands = dependency_manifest_candidates(kind);
    let mut r: Vec<String> = Vec::new();
    let mut i: usize = 0;
    while i < changed_files.len()
        invariant
            sv(cands@) == manifest_candidates(*kind),
            i <= changed_files.len(),
            sv(r@) == manifest_changes(sv(changed_files@).subrange(0, i as int), *kind),
        decreases changed_files.len() - i,
    {
        let ghost pre = sv(changed_files@).subrange(0, i + 1);
        assert(pre.drop_last() == sv(changed_files@).subrange(0, i as int));
        assert(pre.last() == changed_files@[i as int]@);
        let rel = strip_dot_slash_exec(&replace_char_exec(&chars_of(changed_files[i].as_str()), '\\', '/'));
        let mut hit = false;
        let mut k: usize = 0;
        while k < cands.len()
            invariant
                sv(cands@) == manifest_candidates(*kind),
                k <= cands.len(),
                rel@ == strip_dot_slash(replace_char(changed_files@[i as int]@, '\\', '/')),
                hit == exists|q: int| 0 <= q < k && eq_ignore_ascii_case(rel@, #[trigger] manifest_candidates(*kind)[q]),
            decreases cands.len() - k,
        {
            assert(sv(cands@)[k as int] == cands@[k as int]@);
            if eq_ignore_ascii_case_chars(&rel, &chars_of(cands[k].as_str())) {
                hit = true;
            }
            k = k + 1;
        }
        if hit {
            push_owned(&mut r, changed_files[i].as_str());
        }
        i = i + 1;
    }
    assert(sv(changed_files@).subrange(0, changed_files.len() as int) == sv(changed_files@));
    r
}

/// The manifest files that exist in a checkout: `present[i]` says whether
/// the `i`-th candidate exists.
pub open spec fn present_manifests(repo_path: Seq<char>, cands: Seq<Seq<char>>, present: Seq<bool>, n: int) -> Seq<Seq<char>>
    decreases n,
{
    if n <= 0 {
        Seq::empty()
    } else if present[n - 1] {
        present_manifests(repo_path, cands, present, n - 1).push(join_path_spec(repo_path, cands[n - 1]))
    } else {
        present_manifests(repo_path, cands, present, n - 1)
    }
}

pub fn dependency_manifest_files(kind: &RepoKind, repo_path: &str, present: &Vec<bool>) -> (r: Vec<String>)
    requires
        present.len() == manifest_candidates(*kind).len(),
    ensures
        sv(r@) == present_manifests(repo_path@, manifest_candidates(*kind), present@, present.len() as int),
{
    let cands = dependency_manifest_candidates(kind);
    let mut r: Vec<String> = Vec::new();
    let mut i: usize = 0;
    while i < cands.len()
        invariant
            sv(cands@) == manifest_candidates(*kind),
            present.len() == cands.len(),
            i <= cands.len(),
            sv(r@) == present_manifests(repo_path@, manifest_candidates(*kind), present@, i as int),
        decreases cands.len() - i,
    {
        assert(sv(cands@)[i as int] == cands@[i as int]@);
        if present[i] {
            let p = join_custom_node_path(repo_path, cands[i].as_str());
            push_owned(&mut r, p.as_str());
        }
        i = i + 1;
    }
    r
}

/// The dependency state recorded for a repository: its plan, or the
/// planning error where the repository has manifests or manifest changes.
pub open spec fn dependency_state_ok(
    r: Option<RepoDependencyState>,
    outcome: PlanOutcome,
    manifests: Seq<Seq<char>>,
    relevant: Seq<Seq<char>>,
) -> bool {
    let err = match outcome {
        PlanOutcome::Plan(_) => None,
        PlanOutcome::Fail(m) => Some("dependency sync failed: "@ + m),
        PlanOutcome::ReadError(e) => Some(error_text(e)),
    };
    match outcome {
        PlanOutcome::Plan(v) => r matches Some(st) && st.plan matches Some(p) && plan_view(p) == v
            && st.error is None && sv(st.manifest_files@) == manifests
            && sv(st.relevant_changed_files@) == relevant,
        _ => if manifests.len() == 0 && relevant.len() == 0 {
            r is None
        } else {
            r matches Some(st) && st.plan is None && ov(st.error) == err && sv(st.manifest_files@)
                == manifests && sv(st.relevant_changed_files@) == relevant
        },
    }
}

/// Plans the repository's dependency sync and records it with the manifests
/// that exist and the changes that touch them.
pub fn build_repo_dependency_state(
    installation: &Installation,
    repo: &ManagedRepo,
    repo_path: &str,
    changed_files: &Vec<String>,
    present: &Vec<bool>,
    facts: ManifestFacts,
) -> (r: Option<RepoDependencyState>)
    requires
        present.len() == manifest_candidates(repo.kind).len(),
    ensures
        dependency_state_ok(
            r,
            dependency_plan_spec(*installation, *repo, repo_path@, facts),
            present_manifests(repo_path@, manifest_candidates(repo.kind), present@, present.len() as int),
            manifest_changes(sv(changed_files@), repo.kind),
        ),
{
    let ghost outcome = dependency_plan_spec(*installation, *repo, repo_path@, facts);
    let manifest_files = dependency_manifest_files(&repo.kind, repo_path, present);
    let relevant_changed_files = relevant_dependency_changes(&repo.kind, changed_files);
    match plan_dependency_sync(installation, repo, repo_path, facts) {
        Ok(plan) => Some(RepoDependencyState {
            plan: Some(plan),
            error: None,
            manifest_files,
            relevant_changed_files,
        }),
        Err(error) => {
            if manifest_files.len() == 0 && relevant_changed_files.len() == 0 {
                None
            } else {
                Some(RepoDependencyState {
                    plan: None,
                    error: Some(error.message()),
                    manifest_files,
                    relevant_changed_files,
                })
            }
        },
    }
}

} // verus!
