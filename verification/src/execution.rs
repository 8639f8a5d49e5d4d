//! WSL path translation and the plan of a command to run.
use vstd::prelude::*;
use crate::errors::{AppError, AppResult};
use crate::git::{replace_char, replace_char_exec};
use crate::patterns::{wsl_unc_captures, wsl_unc_spec};
use crate::text::{chars_of, ov, owned, push_chars, push_owned, push_str, str_eq, string_of, sv};
use crate::util::trim_start_char;

verus! {

/// A path inside a WSL distribution.
#[derive(Debug, Clone, PartialEq, Eq)]
pub struct WslPath {
    pub distro: String,
    pub linux_path: String,
}

/// The Linux path that the text after the distribution denotes.
pub open spec fn linux_path_of(rest: Seq<char>) -> Seq<char> {
    if rest.len() == 0 {
        seq!['/']
    } else {
        seq!['/'] + replace_char(trim_start_char(rest, '\\'), '\\', '/')
    }
}

/// The WSL path a Windows UNC path denotes (`/` read as `\\`).
pub open spec fn wsl_path_spec(path: Seq<char>) -> Option<(Seq<char>, Seq<char>)> {
    match wsl_unc_spec(replace_char(path, '/', '\\')) {
        None => None,
        Some((distro, rest)) => Some(
            (
                distro,
                linux_path_of(
                    match rest {
                        Some(r) => r,
                        None => Seq::empty(),
                    },
                ),
            ),
        ),
    }
}

/// Only a path that begins with two separators (`\\` or `/`) can denote a
/// WSL path: drive paths such as `C:\ComfyUI` and Unix paths such as
/// `/home/user` never do.
pub proof fn law_wsl_paths_begin_with_two_separators(path: Seq<char>)
    ensures
        wsl_path_spec(path) is Some ==> path.len() >= 2 && (path[0] == '\\' || path[0] == '/') && (path[1]
            == '\\' || path[1] == '/'),
{
    let raw = replace_char(path, '/', '\\');
    if wsl_path_spec(path) is Some {
        assert(raw[0] == '\\' && raw[1] == '\\');
    }
}

fn trim_start_backslashes(v: &Vec<char>) -> (r: Vec<char>)
    ensures
        r@ == trim_start_char(v@, '\\'),
{
    let mut i: usize = 0;
    assert(v@.subrange(0, v.len() as int) == v@);
    while i < v.len() && v[i] == '\\'
        invariant
            i <= v.len(),
            trim_start_char(v@, '\\') == trim_start_char(v@.subrange(i as int, v.len() as int), '\\'),
        decreases v.len() - i,
    {
        assert(v@.subrange(i as int, v.len() as int).drop_first() == v@.subrange(
            i + 1,
            v.len() as int,
        ));
        i = i + 1;
    }
    crate::text::slice_chars(v, i, v.len())
}

/// The WSL path for a distribution and the text after it in a UNC path.
pub fn wsl_path_from_captures(distro: &str, rest: &str) -> (r: WslPath)
    ensures
        r.distro@ == distro@,
        r.linux_path@ == linux_path_of(rest@),
{
    let v = chars_of(rest);
    let linux_path = if v.len() == 0 {
        owned("/")
    } else {
        let mut p = owned("/");
        push_chars(&mut p, &replace_char_exec(&trim_start_backslashes(&v), '\\', '/'));
        p
    };
    proof {
        if v@.len() == 0 {
            assert("/"@ == seq!['/']) by {
                reveal_strlit("/");
            }
        } else {
            reveal_strlit("/");
        }
    }
    WslPath { distro: owned(distro), linux_path }
}

/// Reads a Windows UNC path into `\\wsl.localhost\<distro>` (or `wsl$`)
/// form as a distribution and a Linux path.
pub fn parse_wsl_unc_path(path: &str) -> (r: Option<WslPath>)
    ensures
        r is None <==> wsl_path_spec(path@) is None,
        r matches Some(w) ==> wsl_path_spec(path@) == Some((w.distro@, w.linux_path@)),
{
    let raw = string_of(&replace_char_exec(&chars_of(path), '/', '\\'));
    match wsl_unc_captures(raw.as_str()) {
        None => None,
        Some((distro, rest)) => {
            let rest_text = match rest {
                Some(r) => r,
                None => String::new(),
            };
            Some(wsl_path_from_captures(distro.as_str(), rest_text.as_str()))
        },
    }
}


/// A command to start: program, arguments, working directory.
#[derive(Debug, Clone)]
pub struct CommandPlan {
    pub program: String,
    pub args: Vec<String>,
    pub cwd: Option<String>,
}

/// The WSL context of a command: that of its working directory, else that
/// of its program.
pub open spec fn wsl_context(
    cwd: Option<Seq<char>>,
    program: Seq<char>,
) -> Option<(Seq<char>, Seq<char>)> {
    let cw = match cwd {
        Some(c) => wsl_path_spec(c),
        None => None,
    };
    if cw is Some {
        cw
    } else {
        wsl_path_spec(program)
    }
}

/// The arguments of `wsl.exe` that run `program` with `args` in the context.
pub open spec fn wsl_args_spec(
    cwd: Option<Seq<char>>,
    program: Seq<char>,
    args: Seq<Seq<char>>,
) -> Seq<Seq<char>> {
    let ctx = wsl_context(cwd, program)->0;
    let cw = match cwd {
        Some(c) => wsl_path_spec(c),
        None => None,
    };
    let pw = wsl_path_spec(program);
    let effective = if pw matches Some(p) && p.0 == ctx.0 {
        (pw->0).1
    } else {
        program
    };
    seq!["-d"@, ctx.0] + (match cw {
        Some(c) => seq!["--cd"@, c.1],
        None => Seq::empty(),
    }) + seq!["--"@, effective] + args
}

/// A command whose working directory is a WSL path runs there: `wsl.exe`
/// gets `-d` and that directory's distribution, then `--cd` and its Linux
/// path, then `--`, the program and the arguments unchanged.
pub proof fn law_wsl_cwd_passed_with_cd(
    cwd: Seq<char>,
    program: Seq<char>,
    args: Seq<Seq<char>>,
    distro: Seq<char>,
    linux_path: Seq<char>,
)
    requires
        wsl_path_spec(cwd) == Some((distro, linux_path)),
    ensures
        ({
            let a = wsl_args_spec(Some(cwd), program, args);
            &&& a.len() == args.len() + 6
            &&& a[0] == "-d"@ && a[1] == distro
            &&& a[2] == "--cd"@ && a[3] == linux_path
            &&& a[4] == "--"@
            &&& a.subrange(6, a.len() as int) == args
        }),
{
    let a = wsl_args_spec(Some(cwd), program, args);
    assert(a.subrange(6, a.len() as int) =~= args);
}

/// Plans how to start `program`: a program or working directory on a WSL
/// UNC path runs through `wsl.exe` in that distribution.
pub fn plan_command(program: &str, args: &Vec<String>, cwd: Option<&str>) -> (r: AppResult<
    CommandPlan,
>)
    ensures
        ({
            let cw = match cwd {
                Some(c) => wsl_path_spec(c@),
                None => None,
            };
            let pw = wsl_path_spec(program@);
            let cwv = match cwd {
                Some(c) => Some(c@),
                None => None,
            };
            if wsl_context(cwv, program@) is None {
                r matches Ok(p) && p.program@ == program@ && sv(p.args@) == sv(args@) && ov(p.cwd)
                    == cwv
            } else if cw matches Some(c) && pw matches Some(q) && c.0 != q.0 {
                r matches Err(AppError::InvalidInput(m)) && m@ == "WSL cwd distro '"@ + (cw->0).0
                    + "' does not match program distro '"@ + (pw->0).0 + "'"@
            } else {
                r matches Ok(p) && p.program@ == "wsl.exe"@ && sv(p.args@) == wsl_args_spec(
                    cwv,
                    program@,
                    sv(args@),
                ) && p.cwd is None
            }
        }),
{
    let cwd_wsl = match cwd {
        Some(c) => parse_wsl_unc_path(c),
        None => None,
    };
    let program_wsl = parse_wsl_unc_path(program);
    let context_distro = match &cwd_wsl {
        Some(c) => crate::text::copy_string(&c.distro),
        None => match &program_wsl {
            Some(p) => crate::text::copy_string(&p.distro),
            None => {
                let plan = CommandPlan {
                    program: owned(program),
                    args: crate::text::clone_strings(args),
                    cwd: match cwd {
                        Some(c) => Some(owned(c)),
                        None => None,
                    },
                };
                return Ok(plan);
            },
        },
    };
    if let (Some(c), Some(p)) = (&cwd_wsl, &program_wsl) {
        if !str_eq(c.distro.as_str(), p.distro.as_str()) {
            let mut m = owned("WSL cwd distro '");
            push_str(&mut m, c.distro.as_str());
            push_str(&mut m, "' does not match program distro '");
            push_str(&mut m, p.distro.as_str());
            push_str(&mut m, "'");
            return Err(AppError::InvalidInput(m));
        }
    }
    let mut out: Vec<String> = Vec::new();
    push_owned(&mut out, "-d");
    push_owned(&mut out, context_distro.as_str());
    if let Some(c) = &cwd_wsl {
        push_owned(&mut out, "--cd");
        push_owned(&mut out, c.linux_path.as_str());
    }
    push_owned(&mut out, "--");
    match &program_wsl {
        Some(p) if str_eq(p.distro.as_str(), context_distro.as_str()) => {
            push_owned(&mut out, p.linux_path.as_str())
        },
        _ => push_owned(&mut out, program),
    }
    let ghost head = sv(out@);
    proof {
        let cwv = match cwd {
            Some(c) => Some(c@),
            None => None,
        };
        let cw = match cwd {
            Some(c) => wsl_path_spec(c@),
            None => None,
        };
        let pw = wsl_path_spec(program@);
        let ctx = wsl_context(cwv, program@)->0;
        let effective = if pw matches Some(p) && p.0 == ctx.0 {
            (pw->0).1
        } else {
            program@
        };
        assert(head =~= seq!["-d"@, ctx.0] + (match cw {
            Some(c) => seq!["--cd"@, c.1],
            None => Seq::empty(),
        }) + seq!["--"@, effective]);
    }
    let mut i: usize = 0;
    while i < args.len()
        invariant
            i <= args.len(),
            sv(out@) == head + sv(args@.subrange(0, i as int)),
        decreases args.len() - i,
    {
        let ghost before = sv(out@);
        push_owned(&mut out, args[i].as_str());
        assert(sv(args@.subrange(0, i + 1)) == sv(args@.subrange(0, i as int)).push(args@[i as int]@));
        i = i + 1;
    }
    assert(args@.subrange(0, args.len() as int) == args@);
    Ok(CommandPlan { program: owned("wsl.exe"), args: out, cwd: None })
}

} // verus!
