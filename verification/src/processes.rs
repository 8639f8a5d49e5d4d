//! The commands a launch profile runs: which arguments, how a frontend root
//! is written for WSL, and how failures are reported.
use vstd::prelude::*;
use crate::errors::{AppError, AppResult};
use crate::execution::{parse_wsl_unc_path, wsl_path_spec};
use crate::launch::{env_view, osv};
use crate::models::LaunchProfile;
use crate::paths::{path_file_name, path_file_name_spec};
use crate::text::{
    chars_of, eq_ignore_ascii_case, eq_ignore_ascii_case_chars, has_prefix, ov, owned, push_owned,
    push_str, slice_chars, starts_with, string_of, sv, trim, trim_str,
};
use std::collections::HashMap;

use crate::text::oqv;

verus! {


/// The program is `wsl` or `wsl.exe` (in any ASCII case).
pub open spec fn explicit_wsl_launcher(program: Seq<char>) -> bool {
    match path_file_name_spec(program) {
        Some(n) => eq_ignore_ascii_case(n, "wsl.exe"@) || eq_ignore_ascii_case(n, "wsl"@),
        None => false,
    }
}

pub fn is_explicit_wsl_launcher(program: &str) -> (r: bool)
    ensures
        r == explicit_wsl_launcher(program@),
{
    match path_file_name(program) {
        Some(n) => {
            let c = chars_of(n.as_str());
            eq_ignore_ascii_case_chars(&c, &chars_of("wsl.exe")) || eq_ignore_ascii_case_chars(&c, &chars_of("wsl"))
        },
        None => false,
    }
}

/// A command runs inside WSL: it is the WSL launcher, or its program or
/// working directory is a WSL path.
pub open spec fn wsl_backed(program: Seq<char>, cwd: Option<Seq<char>>) -> bool {
    explicit_wsl_launcher(program) || wsl_path_spec(program) is Some || match cwd {
        Some(c) => wsl_path_spec(c) is Some,
        None => false,
    }
}

pub fn command_is_wsl_backed(program: &str, cwd: Option<&str>) -> (r: bool)
    ensures
        r == wsl_backed(program@, oqv(cwd)),
{
    if is_explicit_wsl_launcher(program) {
        return true;
    }
    if parse_wsl_unc_path(program).is_some() {
        return true;
    }
    match cwd {
        Some(c) => parse_wsl_unc_path(c).is_some(),
        None => false,
    }
}

/// A frontend root as a WSL command sees it: a WSL path becomes its Linux
/// path; anything else, or any root of a command outside WSL, stays.
pub open spec fn root_for(wsl: bool, value: Seq<char>) -> Seq<char> {
    if wsl && wsl_path_spec(value) is Some {
        (wsl_path_spec(value)->0).1
    } else {
        value
    }
}

fn root_for_exec(wsl: bool, value: &str) -> (r: String)
    ensures
        r@ == root_for(wsl, value@),
{
    if wsl {
        if let Some(p) = parse_wsl_unc_path(value) {
            return p.linux_path;
        }
    }
    owned(value)
}

/// The arguments with every frontend root converted by `root_for`: the
/// value after `--front-end-root`, and the value of `--front-end-root=`.
pub open spec fn rewrite_roots(wsl: bool, args: Seq<Seq<char>>) -> Seq<Seq<char>>
    decreases args.len(),
{
    if args.len() == 0 {
        args
    } else if args[0] == "--front-end-root"@ {
        if args.len() >= 2 {
            seq![args[0], root_for(wsl, args[1])] + rewrite_roots(wsl, args.subrange(2, args.len() as int))
        } else {
            seq![args[0]]
        }
    } else if has_prefix(args[0], "--front-end-root="@) {
        seq!["--front-end-root="@ + root_for(wsl, args[0].subrange(17, args[0].len() as int))] + rewrite_roots(
            wsl,
            args.drop_first(),
        )
    } else {
        seq![args[0]] + rewrite_roots(wsl, args.drop_first())
    }
}

/// Rewrites the frontend-root arguments of a command for the context it
/// runs in.
pub fn rewrite_frontend_root_args_for_context(program: &str, args: &Vec<String>, cwd: Option<&str>) -> (r: Vec<String>)
    ensures
        sv(r@) == rewrite_roots(wsl_backed(program@, oqv(cwd)), sv(args@)),
{
    let wsl = command_is_wsl_backed(program, cwd);
    let ghost a = sv(args@);
    let flag = chars_of("--front-end-root");
    let assign = chars_of("--front-end-root=");
    proof {
        reveal_strlit("--front-end-root=");
    }
    let mut out: Vec<String> = Vec::new();
    let mut i: usize = 0;
    assert(a.subrange(0, a.len() as int) == a);
    while i < args.len()
        invariant
            a == sv(args@),
            flag@ == "--front-end-root"@,
            assign@ == "--front-end-root="@,
            assign@.len() == 17,
            i <= args.len(),
            rewrite_roots(wsl, a) == sv(out@) + rewrite_roots(wsl, a.subrange(i as int, a.len() as int)),
        decreases args.len() - i,
    {
        let ghost rest = a.subrange(i as int, a.len() as int);
        let ghost o0 = sv(out@);
        assert(rest[0] == args@[i as int]@);
        let cur = chars_of(args[i].as_str());
        if crate::text::chars_eq(&cur, &flag) {
            push_owned(&mut out, args[i].as_str());
            if i + 1 < args.len() {
                assert(rest[1] == args@[i + 1]@);
                let conv = root_for_exec(wsl, args[i + 1].as_str());
                push_owned(&mut out, conv.as_str());
                assert(rest.subrange(2, rest.len() as int) == a.subrange(i + 2, a.len() as int));
                assert(sv(out@) == o0 + seq![rest[0], root_for(wsl, rest[1])]);
                assert(o0 + seq![rest[0], root_for(wsl, rest[1])] + rewrite_roots(wsl, a.subrange(i + 2, a.len() as int))
                    == o0 + (seq![rest[0], root_for(wsl, rest[1])] + rewrite_roots(wsl, a.subrange(i + 2, a.len() as int))));
                i = i + 2;
            } else {
                assert(a.subrange(args.len() as int, a.len() as int) == Seq::<Seq<char>>::empty());
                assert(sv(out@) == o0 + seq![rest[0]]);
                assert(rewrite_roots(wsl, Seq::<Seq<char>>::empty()) == Seq::<Seq<char>>::empty());
                assert(sv(out@) + Seq::<Seq<char>>::empty() == sv(out@));
                i = args.len();
            }
        } else if starts_with(&cur, &assign) {
            let value = string_of(&slice_chars(&cur, 17, cur.len()));
            let conv = root_for_exec(wsl, value.as_str());
            let mut m = String::from_str("--front-end-root=");
            push_str(&mut m, conv.as_str());
            push_owned(&mut out, m.as_str());
            assert(rest.drop_first() == a.subrange(i + 1, a.len() as int));
            assert(o0.push(m@) + rewrite_roots(wsl, a.subrange(i + 1, a.len() as int))
                == o0 + (seq![m@] + rewrite_roots(wsl, a.subrange(i + 1, a.len() as int))));
            i = i + 1;
        } else {
            push_owned(&mut out, args[i].as_str());
            assert(rest.drop_first() == a.subrange(i + 1, a.len() as int));
            assert(o0.push(rest[0]) + rewrite_roots(wsl, a.subrange(i + 1, a.len() as int))
                == o0 + (seq![rest[0]] + rewrite_roots(wsl, a.subrange(i + 1, a.len() as int))));
            i = i + 1;
        }
    }
    assert(rewrite_roots(wsl, a.subrange(a.len() as int, a.len() as int)) == Seq::<Seq<char>>::empty());
    assert(sv(out@) + Seq::<Seq<char>>::empty() == sv(out@));
    out
}

/// The base arguments followed by the extra ones.
pub fn joined_args(base: &Vec<String>, extra: &Option<Vec<String>>) -> (r: Vec<String>)
    ensures
        sv(r@) == sv(base@) + match osv(*extra) {
            Some(e) => e,
            None => Seq::<Seq<char>>::empty(),
        },
{
    let mut r = crate::text::clone_strings(base);
    if let Some(e) = extra {
        let ghost start = sv(r@);
        let mut i: usize = 0;
        while i < e.len()
            invariant
                i <= e.len(),
                sv(r@) == start + sv(e@).subrange(0, i as int),
            decreases e.len() - i,
        {
            push_owned(&mut r, e[i].as_str());
            assert(sv(e@).subrange(0, i + 1) == sv(e@).subrange(0, i as int).push(e@[i as int]@));
            i = i + 1;
        }
        assert(sv(e@).subrange(0, e.len() as int) == sv(e@));
    } else {
        assert(sv(r@) + Seq::<Seq<char>>::empty() == sv(r@));
    }
    r
}

/// The command a profile starts ComfyUI with.
pub fn start_command(profile: &LaunchProfile) -> (r: (String, Vec<String>))
    ensures
        r.0@ == profile.command@,
        sv(r.1@) == rewrite_roots(
            wsl_backed(profile.command@, ov(profile.cwd)),
            sv(profile.args@) + match osv(profile.extra_args) {
                Some(e) => e,
                None => Seq::<Seq<char>>::empty(),
            },
        ),
{
    let program = owned(profile.command.as_str());
    let joined = joined_args(&profile.args, &profile.extra_args);
    let cwd = match &profile.cwd {
        Some(c) => Some(c.as_str()),
        None => None,
    };
    let args = rewrite_frontend_root_args_for_context(program.as_str(), &joined, cwd);
    (program, args)
}

/// The command a profile restarts ComfyUI with: its restart command and
/// arguments where it has them, else its start command and arguments, with
/// the extra arguments after them.
pub fn restart_command(profile: &LaunchProfile) -> (r: (String, Vec<String>))
    ensures
        r.0@ == (match ov(profile.restart_command) {
            Some(c) => c,
            None => profile.command@,
        }),
        sv(r.1@) == rewrite_roots(
            wsl_backed(r.0@, ov(profile.cwd)),
            (match osv(profile.restart_args) {
                Some(a) => a,
                None => sv(profile.args@),
            }) + match osv(profile.extra_args) {
                Some(e) => e,
                None => Seq::<Seq<char>>::empty(),
            },
        ),
{
    let program = match &profile.restart_command {
        Some(c) => owned(c.as_str()),
        None => owned(profile.command.as_str()),
    };
    let joined = match &profile.restart_args {
        Some(a) => joined_args(a, &profile.extra_args),
        None => joined_args(&profile.args, &profile.extra_args),
    };
    let cwd = match &profile.cwd {
        Some(c) => Some(c.as_str()),
        None => None,
    };
    let args = rewrite_frontend_root_args_for_context(program.as_str(), &joined, cwd);
    (program, args)
}

/// Custom environment variables cannot be passed into WSL.
pub fn validate_command_env_support(program: &str, cwd: Option<&str>, env: Option<&HashMap<String, String>>) -> (r: AppResult<()>)
    ensures
        r is Err <==> (match env {
            Some(m) => !m@.is_empty(),
            None => false,
        } && (wsl_path_spec(program@) is Some || match cwd {
            Some(c) => wsl_path_spec(c@) is Some,
            None => false,
        })),
        r matches Err(e) ==> (e matches AppError::Process(m) && m@
            == "launch profiles with custom environment variables are not supported for WSL-backed installations"@),
{
    let has_env = match env {
        Some(values) => !values.is_empty(),
        None => false,
    };
    if !has_env {
        return Ok(());
    }
    let program_is_wsl = parse_wsl_unc_path(program).is_some();
    let cwd_is_wsl = match cwd {
        Some(c) => parse_wsl_unc_path(c).is_some(),
        None => false,
    };
    if program_is_wsl || cwd_is_wsl {
        return Err(
            AppError::Process(
                owned("launch profiles with custom environment variables are not supported for WSL-backed installations"),
            ),
        );
    }
    Ok(())
}

/// What a failed command is reported with: its trimmed standard error, else
/// its trimmed standard output, else its exit status.
pub open spec fn failure_detail(stderr: Seq<char>, stdout: Seq<char>, status: Seq<char>) -> Seq<char> {
    if trim(stderr).len() > 0 {
        trim(stderr)
    } else if trim(stdout).len() > 0 {
        trim(stdout)
    } else {
        "exit status "@ + status
    }
}

/// The error for a command that failed; `status` is the exit status as it
/// is displayed.
pub fn command_failed(program: &str, stderr: &str, stdout: &str, status: &str) -> (r: AppError)
    ensures
        r matches AppError::Process(m) && m@ == "command '"@ + program@ + "' failed: "@ + failure_detail(stderr@, stdout@, status@),
{
    let e = trim_str(stderr);
    let o = trim_str(stdout);
    let detail = if e.as_str().unicode_len() > 0 {
        e
    } else if o.as_str().unicode_len() > 0 {
        o
    } else {
        let mut d = String::from_str("exit status ");
        push_str(&mut d, status);
        d
    };
    let mut m = String::from_str("command '");
    push_str(&mut m, program);
    push_str(&mut m, "' failed: ");
    push_str(&mut m, detail.as_str());
    AppError::Process(m)
}

} // verus!
