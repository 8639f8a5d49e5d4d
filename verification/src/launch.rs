//! Launch profiles: the managed frontend's `--front-end-root` argument and
//! how a registration's profile merges with the one already stored.
use vstd::prelude::*;
use crate::errors::{AppError, AppResult};
use crate::models::{Installation, LaunchProfile};
use crate::paths::{same_path, same_path_spec};
use crate::text::{clone_strings, has_prefix, ov, owned, push_owned, push_str, starts_with, chars_of, str_eq, sv};
use std::collections::HashMap;

verus! {

/// The flag that points ComfyUI at a frontend build.
pub open spec fn root_flag() -> Seq<char> {
    "--front-end-root"@
}

/// Whether an argument is a `--front-end-root=<dir>` argument.
pub open spec fn is_root_assignment(a: Seq<char>) -> bool {
    has_prefix(a, "--front-end-root="@)
}

/// `args` without `--front-end-root <dir>` pairs (a trailing lone flag
/// included) and without `--front-end-root=<dir>` arguments.
pub open spec fn strip_root_args(args: Seq<Seq<char>>) -> Seq<Seq<char>>
    decreases args.len(),
{
    if args.len() == 0 {
        args
    } else if args[0] == root_flag() {
        if args.len() >= 2 {
            strip_root_args(args.subrange(2, args.len() as int))
        } else {
            Seq::empty()
        }
    } else if is_root_assignment(args[0]) {
        strip_root_args(args.drop_first())
    } else {
        seq![args[0]] + strip_root_args(args.drop_first())
    }
}

/// No argument names a frontend root.
pub open spec fn no_root_args(args: Seq<Seq<char>>) -> bool {
    forall|i: int| 0 <= i < args.len() ==> #[trigger] args[i] != root_flag() && !is_root_assignment(args[i])
}

/// Removes every frontend-root argument.
pub fn strip_frontend_root_args(args: &Vec<String>) -> (r: Vec<String>)
    ensures
        sv(r@) == strip_root_args(sv(args@)),
        no_root_args(sv(r@)),
{
    let ghost a = sv(args@);
    let flag = chars_of("--front-end-root");
    let assign = chars_of("--front-end-root=");
    let mut out: Vec<String> = Vec::new();
    let mut i: usize = 0;
    assert(a.subrange(0, a.len() as int) == a);
    while i < args.len()
        invariant
            a == sv(args@),
            flag@ == root_flag(),
            assign@ == "--front-end-root="@,
            i <= args.len(),
            strip_root_args(a) == sv(out@) + strip_root_args(a.subrange(i as int, a.len() as int)),
        decreases args.len() - i,
    {
        let ghost rest = a.subrange(i as int, a.len() as int);
        assert(rest[0] == args@[i as int]@);
        let cur = chars_of(args[i].as_str());
        if crate::text::chars_eq(&cur, &flag) {
            if i + 1 < args.len() {
                assert(rest.subrange(2, rest.len() as int) == a.subrange(i + 2, a.len() as int));
                i = i + 2;
            } else {
                assert(strip_root_args(rest) == Seq::<Seq<char>>::empty());
                assert(a.subrange(args.len() as int, a.len() as int) == Seq::<Seq<char>>::empty());
                i = args.len();
            }
        } else if starts_with(&cur, &assign) {
            assert(rest.drop_first() == a.subrange(i + 1, a.len() as int));
            i = i + 1;
        } else {
            assert(rest.drop_first() == a.subrange(i + 1, a.len() as int));
            let ghost before = sv(out@);
            push_owned(&mut out, args[i].as_str());
            assert(sv(out@) + strip_root_args(a.subrange(i + 1, a.len() as int)) == before + (
            seq![a[i as int]] + strip_root_args(a.subrange(i + 1, a.len() as int))));
            i = i + 1;
        }
    }
    assert(strip_root_args(a.subrange(a.len() as int, a.len() as int)) == Seq::<Seq<char>>::empty());
    assert(sv(out@) + Seq::<Seq<char>>::empty() == sv(out@));
    proof {
        lemma_strip_clean(a);
    }
    out
}

/// Nothing that names a frontend root survives stripping.
pub proof fn lemma_strip_clean(args: Seq<Seq<char>>)
    ensures
        no_root_args(strip_root_args(args)),
    decreases args.len(),
{
    if args.len() > 0 {
        if args[0] == root_flag() {
            if args.len() >= 2 {
                lemma_strip_clean(args.subrange(2, args.len() as int));
            }
        } else if is_root_assignment(args[0]) {
            lemma_strip_clean(args.drop_first());
        } else {
            lemma_strip_clean(args.drop_first());
            let r = strip_root_args(args);
            let t = strip_root_args(args.drop_first());
            assert forall|i: int| 0 <= i < r.len() implies #[trigger] r[i] != root_flag() && !is_root_assignment(r[i]) by {
                if i > 0 {
                    assert(r[i] == t[i - 1]);
                }
            }
        }
    }
}

/// Stripping leaves arguments without frontend roots unchanged.
pub proof fn lemma_strip_identity(args: Seq<Seq<char>>)
    requires
        no_root_args(args),
    ensures
        strip_root_args(args) == args,
    decreases args.len(),
{
    if args.len() > 0 {
        assert(args[0] != root_flag() && !is_root_assignment(args[0]));
        let t = args.drop_first();
        assert forall|i: int| 0 <= i < t.len() implies #[trigger] t[i] != root_flag() && !is_root_assignment(t[i]) by {
            assert(t[i] == args[i + 1]);
        }
        lemma_strip_identity(t);
        assert(seq![args[0]] + t == args);
    }
}

/// Stripping twice is stripping once.
pub proof fn law_strip_idempotent(args: Seq<Seq<char>>)
    ensures
        strip_root_args(strip_root_args(args)) == strip_root_args(args),
{
    lemma_strip_clean(args);
    lemma_strip_identity(strip_root_args(args));
}

/// Stripping a clean prefix keeps it and strips what follows.
pub proof fn lemma_strip_append(a: Seq<Seq<char>>, b: Seq<Seq<char>>)
    requires
        no_root_args(a),
    ensures
        strip_root_args(a + b) == a + strip_root_args(b),
    decreases a.len(),
{
    if a.len() > 0 {
        assert(a[0] != root_flag() && !is_root_assignment(a[0]));
        let t = a.drop_first();
        assert forall|i: int| 0 <= i < t.len() implies #[trigger] t[i] != root_flag() && !is_root_assignment(t[i]) by {
            assert(t[i] == a[i + 1]);
        }
        lemma_strip_append(t, b);
        assert((a + b)[0] == a[0]);
        assert((a + b).drop_first() == t + b);
        assert(seq![a[0]] + (t + b) == a + b);
        assert(seq![a[0]] + (t + strip_root_args(b)) == a + strip_root_args(b));
    }
}

/// The views of an optional list of strings.
pub open spec fn osv(o: Option<Vec<String>>) -> Option<Seq<Seq<char>>> {
    match o {
        Some(v) => Some(sv(v@)),
        None => None,
    }
}

pub open spec fn env_view(o: Option<HashMap<String, String>>) -> Option<Map<String, String>> {
    match o {
        Some(m) => Some(m@),
        None => None,
    }
}

/// Two profiles hold the same values.
pub open spec fn same_profile(a: LaunchProfile, b: LaunchProfile) -> bool {
    &&& a.mode@ == b.mode@
    &&& a.command@ == b.command@
    &&& sv(a.args@) == sv(b.args@)
    &&& osv(a.extra_args) == osv(b.extra_args)
    &&& ov(a.cwd) == ov(b.cwd)
    &&& env_view(a.env) == env_view(b.env)
    &&& ov(a.stop_command) == ov(b.stop_command)
    &&& osv(a.stop_args) == osv(b.stop_args)
    &&& ov(a.restart_command) == ov(b.restart_command)
    &&& osv(a.restart_args) == osv(b.restart_args)
}

fn clone_opt_strings(o: &Option<Vec<String>>) -> (r: Option<Vec<String>>)
    ensures
        osv(r) == osv(*o),
{
    match o {
        Some(v) => Some(clone_strings(v)),
        None => None,
    }
}

fn clone_env(o: &Option<HashMap<String, String>>) -> (r: Option<HashMap<String, String>>)
    ensures
        env_view(r) == env_view(*o),
{
    match o {
        Some(m) => Some(m.clone()),
        None => None,
    }
}

/// A copy of a launch profile.
pub fn copy_launch_profile(p: &LaunchProfile) -> (r: LaunchProfile)
    ensures
        same_profile(r, *p),
{
    LaunchProfile {
        mode: owned(p.mode.as_str()),
        command: owned(p.command.as_str()),
        args: clone_strings(&p.args),
        extra_args: clone_opt_strings(&p.extra_args),
        cwd: crate::text::clone_opt(&p.cwd),
        env: clone_env(&p.env),
        stop_command: crate::text::clone_opt(&p.stop_command),
        stop_args: clone_opt_strings(&p.stop_args),
        restart_command: crate::text::clone_opt(&p.restart_command),
        restart_args: clone_opt_strings(&p.restart_args),
    }
}

/// The profile with its frontend-root arguments replaced by one pointing at
/// `dist`: stripped from the arguments and restart arguments, and appended
/// to the stripped extra arguments.
pub open spec fn managed_root_applied(before: LaunchProfile, after: LaunchProfile, dist: Seq<char>) -> bool {
    let extra = match osv(before.extra_args) {
        Some(e) => e,
        None => Seq::empty(),
    };
    &&& after.mode@ == before.mode@
    &&& after.command@ == before.command@
    &&& sv(after.args@) == strip_root_args(sv(before.args@))
    &&& osv(after.extra_args) == Some(strip_root_args(extra) + seq![root_flag(), dist])
    &&& ov(after.cwd) == ov(before.cwd)
    &&& env_view(after.env) == env_view(before.env)
    &&& ov(after.stop_command) == ov(before.stop_command)
    &&& osv(after.stop_args) == osv(before.stop_args)
    &&& ov(after.restart_command) == ov(before.restart_command)
    &&& osv(after.restart_args) == (match osv(before.restart_args) {
        Some(r) => Some(strip_root_args(r)),
        None => None,
    })
}

/// Points the profile at the managed frontend build in `dist_path`.
pub fn apply_managed_frontend_root(profile: &mut LaunchProfile, dist_path: &str)
    ensures
        managed_root_applied(*old(profile), *final(profile), dist_path@),
{
    profile.args = strip_frontend_root_args(&profile.args);
    let mut extra = match &profile.extra_args {
        Some(e) => strip_frontend_root_args(e),
        None => {
            let empty: Vec<String> = Vec::new();
            assert(sv(empty@) == Seq::<Seq<char>>::empty());
            assert(strip_root_args(Seq::<Seq<char>>::empty()) == Seq::<Seq<char>>::empty());
            empty
        },
    };
    let ghost e0 = sv(extra@);
    push_owned(&mut extra, "--front-end-root");
    push_owned(&mut extra, dist_path);
    assert(sv(extra@) == e0 + seq![root_flag(), dist_path@]);
    profile.extra_args = Some(extra);
    let restart = match &profile.restart_args {
        Some(r) => Some(strip_frontend_root_args(r)),
        None => None,
    };
    profile.restart_args = restart;
}

/// Applying the managed frontend root twice is applying it once.
pub proof fn law_managed_root_idempotent(p0: LaunchProfile, p1: LaunchProfile, p2: LaunchProfile, dist: Seq<char>)
    requires
        managed_root_applied(p0, p1, dist),
        managed_root_applied(p1, p2, dist),
    ensures
        same_profile(p1, p2),
{
    law_strip_idempotent(sv(p0.args@));
    let extra0 = match osv(p0.extra_args) {
        Some(e) => e,
        None => Seq::empty(),
    };
    let clean = strip_root_args(extra0);
    lemma_strip_clean(extra0);
    lemma_strip_append(clean, seq![root_flag(), dist]);
    let two = seq![root_flag(), dist];
    assert(two[0] == root_flag());
    assert(two.subrange(2, 2) =~= Seq::<Seq<char>>::empty());
    assert(strip_root_args(Seq::<Seq<char>>::empty()) == Seq::<Seq<char>>::empty());
    assert(strip_root_args(two) == strip_root_args(two.subrange(2, 2)));
    assert(strip_root_args(two) == Seq::<Seq<char>>::empty());
    assert(clean + Seq::<Seq<char>>::empty() == clean);
    if let Some(r) = osv(p0.restart_args) {
        law_strip_idempotent(r);
    }
}

/// The launch profile an installation is started with: its stored profile,
/// pointed at the managed frontend build where that build exists. Where it
/// does not exist the stored profile is used, unless the build is required.
pub fn effective_launch_profile(
    installation: &Installation,
    require_managed_frontend_dist: bool,
    dist_exists: bool,
) -> (r: AppResult<LaunchProfile>)
    ensures
        installation.launch_profile is None ==> (r matches Err(AppError::Process(m)) && m@
            == "installation has no launch profile"@),
        installation.launch_profile matches Some(p) ==> match installation.frontend_settings {
            None => r matches Ok(q) && same_profile(q, p),
            Some(fs) => if !dist_exists {
                if require_managed_frontend_dist {
                    r matches Err(AppError::Process(m)) && m@ == "managed frontend dist does not exist: "@
                        + fs.dist_path@
                } else {
                    r matches Ok(q) && same_profile(q, p)
                }
            } else {
                r matches Ok(q) && managed_root_applied(p, q, fs.dist_path@)
            },
        },
{
    let mut profile = match &installation.launch_profile {
        Some(p) => copy_launch_profile(p),
        None => return Err(AppError::Process(owned("installation has no launch profile"))),
    };
    let fs = match &installation.frontend_settings {
        Some(fs) => fs,
        None => return Ok(profile),
    };
    if !dist_exists {
        if require_managed_frontend_dist {
            let mut m = String::from_str("managed frontend dist does not exist: ");
            push_str(&mut m, fs.dist_path.as_str());
            return Err(AppError::Process(m));
        }
        return Ok(profile);
    }
    apply_managed_frontend_root(&mut profile, fs.dist_path.as_str());
    Ok(profile)
}

/// The launcher a registration fills in by default: `python main.py` in the
/// ComfyUI root.
pub open spec fn default_launcher(root: Seq<char>, p: LaunchProfile) -> bool {
    &&& p.command@ == "python"@
    &&& sv(p.args@) == seq!["main.py"@]
    &&& match ov(p.cwd) {
        None => true,
        Some(c) => same_path_spec(c, root),
    }
}

pub fn is_default_register_launcher(root: &str, launch_profile: &LaunchProfile) -> (r: bool)
    ensures
        r == default_launcher(root@, *launch_profile),
{
    if !str_eq(launch_profile.command.as_str(), "python") {
        return false;
    }
    assert(sv(launch_profile.args@).len() == launch_profile.args.len());
    if launch_profile.args.len() != 1 {
        return false;
    }
    assert(sv(launch_profile.args@)[0] == launch_profile.args@[0]@);
    if !str_eq(launch_profile.args[0].as_str(), "main.py") {
        return false;
    }
    assert(sv(launch_profile.args@) == seq![launch_profile.args@[0]@]);
    match &launch_profile.cwd {
        None => true,
        Some(c) => same_path(c.as_str(), root),
    }
}

/// A re-registration's profile merged with the stored one: a default
/// launcher keeps the stored command, arguments and directory; the mode is
/// always the stored one; environment, extra, stop and restart settings
/// that the new profile leaves out are taken from the stored profile.
pub open spec fn merged_profile(root: Seq<char>, existing: LaunchProfile, new: LaunchProfile, r: LaunchProfile) -> bool {
    let keep_launcher = default_launcher(root, new);
    let from = if keep_launcher { existing } else { new };
    &&& r.mode@ == existing.mode@
    &&& r.command@ == from.command@
    &&& sv(r.args@) == sv(from.args@)
    &&& ov(r.cwd) == ov(from.cwd)
    &&& env_view(r.env) == (match new.env {
        Some(m) => if m@.is_empty() { env_view(existing.env) } else { Some(m@) },
        None => env_view(existing.env),
    })
    &&& osv(r.extra_args) == (if new.extra_args is None { osv(existing.extra_args) } else { osv(new.extra_args) })
    &&& ov(r.stop_command) == (if new.stop_command is None { ov(existing.stop_command) } else { ov(new.stop_command) })
    &&& osv(r.stop_args) == (if new.stop_args is None { osv(existing.stop_args) } else { osv(new.stop_args) })
    &&& ov(r.restart_command) == (if new.restart_command is None { ov(existing.restart_command) } else { ov(new.restart_command) })
    &&& osv(r.restart_args) == (if new.restart_args is None { osv(existing.restart_args) } else { osv(new.restart_args) })
}

pub fn merge_launch_profile_overrides(
    root: &str,
    existing: Option<&LaunchProfile>,
    launch_profile: Option<LaunchProfile>,
) -> (r: Option<LaunchProfile>)
    ensures
        existing is None ==> r == launch_profile,
        launch_profile is None ==> r is None,
        existing matches Some(e) ==> (launch_profile matches Some(n) ==> (r matches Some(m)
            && merged_profile(root@, *e, n, m))),
{
    let existing = match existing {
        Some(e) => e,
        None => return launch_profile,
    };
    let mut p = match launch_profile {
        Some(p) => p,
        None => return None,
    };
    let ghost n = p;
    if is_default_register_launcher(root, &p) {
        p.command = owned(existing.command.as_str());
        p.args = clone_strings(&existing.args);
        p.cwd = crate::text::clone_opt(&existing.cwd);
    }
    p.mode = owned(existing.mode.as_str());
    let env_blank = match &p.env {
        Some(values) => values.is_empty(),
        None => true,
    };
    if env_blank {
        p.env = clone_env(&existing.env);
    }
    if p.extra_args.is_none() {
        p.extra_args = clone_opt_strings(&existing.extra_args);
    }
    if p.stop_command.is_none() {
        p.stop_command = crate::text::clone_opt(&existing.stop_command);
    }
    if p.stop_args.is_none() {
        p.stop_args = clone_opt_strings(&existing.stop_args);
    }
    if p.restart_command.is_none() {
        p.restart_command = crate::text::clone_opt(&existing.restart_command);
    }
    if p.restart_args.is_none() {
        p.restart_args = clone_opt_strings(&existing.restart_args);
    }
    Some(p)
}

/// A restart after success on a running installation needs a frontend
/// build to start with: one that exists, or one that dependency sync makes.
pub fn validate_frontend_restart_preconditions(
    dist_exists: bool,
    is_running: bool,
    sync_dependencies: bool,
    restart_after_success: bool,
) -> (r: AppResult<()>)
    ensures
        r is Err <==> (restart_after_success && is_running && !sync_dependencies && !dist_exists),
        r matches Err(e) ==> (e matches AppError::Conflict(m) && m@
            == "restart_after_success on a running installation requires an existing managed frontend dist; enable dependency sync or build the frontend first"@),
{
    if restart_after_success && is_running && !sync_dependencies && !dist_exists {
        return Err(
            AppError::Conflict(
                owned(
                    "restart_after_success on a running installation requires an existing managed frontend dist; enable dependency sync or build the frontend first",
                ),
            ),
        );
    }
    Ok(())
}

} // verus!
