//! Small text rules: slugs, environment kinds and Python discovery.
use vstd::prelude::*;
use crate::git::{join_custom_node_path, join_path_spec};
use crate::patterns::{collapse_non_slug, replace_non_slug_runs, slug_char};
use crate::text::{
    chars_of, contains_exec, contains_spec, ends_with, has_suffix, owned, slice_chars, string_of,
    strip_suffix_all, strip_suffix_all_chars, sv, trim, trim_str,
};
use crate::unicode::{lowercase_spec, to_lowercase};

verus! {

/// `s` without leading copies of `c`.
pub open spec fn trim_start_char(s: Seq<char>, c: char) -> Seq<char>
    decreases s.len(),
{
    if s.len() > 0 && s[0] == c {
        trim_start_char(s.drop_first(), c)
    } else {
        s
    }
}

/// `s` without leading or trailing `-` (`str::trim_matches('-')`).
pub open spec fn trim_dashes(s: Seq<char>) -> Seq<char> {
    strip_suffix_all(trim_start_char(s, '-'), seq!['-'])
}

/// The slug of a name: trimmed, lower-cased, runs of characters outside
/// `[a-z0-9._-]` turned into `-`, and `-` stripped from both ends.
pub open spec fn slug_spec(name: Seq<char>) -> Seq<char> {
    trim_dashes(collapse_non_slug(lowercase_spec(trim(name))))
}

pub fn trim_start_char_exec(v: &Vec<char>, c: char) -> (r: Vec<char>)
    ensures
        r@ == trim_start_char(v@, c),
{
    let mut i: usize = 0;
    assert(v@.subrange(0, v.len() as int) == v@);
    while i < v.len() && v[i] == c
        invariant
            i <= v.len(),
            trim_start_char(v@, c) == trim_start_char(v@.subrange(i as int, v.len() as int), c),
        decreases v.len() - i,
    {
        assert(v@.subrange(i as int, v.len() as int).drop_first() == v@.subrange(
            i + 1,
            v.len() as int,
        ));
        i = i + 1;
    }
    slice_chars(v, i, v.len())
}

pub fn slugify(name: &str) -> (r: String)
    ensures
        r@ == slug_spec(name@),
{
    let lower = to_lowercase(trim_str(name).as_str());
    let compact = replace_non_slug_runs(lower.as_str());
    let start = trim_start_char_exec(&chars_of(compact.as_str()), '-');
    let mut dash: Vec<char> = Vec::new();
    dash.push('-');
    assert(dash@ == seq!['-']);
    string_of(&strip_suffix_all_chars(&start, &dash))
}

pub open spec fn all_slug_chars(s: Seq<char>) -> bool {
    forall|i: int| 0 <= i < s.len() ==> slug_char(#[trigger] s[i])
}

proof fn lemma_collapse_slug_chars(s: Seq<char>)
    ensures
        all_slug_chars(collapse_non_slug(s)),
    decreases s.len(),
{
    if s.len() > 0 {
        lemma_collapse_slug_chars(s.drop_last());
        let prev = collapse_non_slug(s.drop_last());
        let cur = collapse_non_slug(s);
        assert forall|i: int| 0 <= i < cur.len() implies slug_char(#[trigger] cur[i]) by {
            if i < prev.len() {
                assert(cur[i] == prev[i]);
            }
        }
    }
}

proof fn lemma_trim_start_char(s: Seq<char>, c: char)
    ensures
        exists|k: int| 0 <= k <= s.len() && trim_start_char(s, c) == s.subrange(k, s.len() as int),
        trim_start_char(s, c).len() > 0 ==> trim_start_char(s, c)[0] != c,
    decreases s.len(),
{
    if s.len() > 0 && s[0] == c {
        lemma_trim_start_char(s.drop_first(), c);
        let k = choose|k: int|
            0 <= k <= s.drop_first().len() && trim_start_char(s.drop_first(), c)
                == s.drop_first().subrange(k, s.drop_first().len() as int);
        assert(s.drop_first().subrange(k, s.drop_first().len() as int) == s.subrange(
            k + 1,
            s.len() as int,
        ));
    } else {
        assert(s.subrange(0, s.len() as int) == s);
    }
}

proof fn lemma_strip_dash_suffix(s: Seq<char>)
    ensures
        exists|k: int| 0 <= k <= s.len() && strip_suffix_all(s, seq!['-']) == s.subrange(0, k),
        strip_suffix_all(s, seq!['-']).len() > 0 ==> strip_suffix_all(s, seq!['-']).last() != '-',
    decreases s.len(),
{
    if has_suffix(s, seq!['-']) {
        let t = s.subrange(0, s.len() - 1);
        lemma_strip_dash_suffix(t);
        let k = choose|k: int| 0 <= k <= t.len() && strip_suffix_all(t, seq!['-']) == t.subrange(0, k);
        assert(t.subrange(0, k) == s.subrange(0, k));
    } else {
        assert(s.subrange(0, s.len() as int) == s);
        if s.len() > 0 {
            assert(s.subrange(s.len() - 1, s.len() as int) == seq![s.last()]);
        }
    }
}

/// A slug holds only `[a-z0-9._-]` and neither starts nor ends with `-`.
pub proof fn law_slug_shape(name: Seq<char>)
    ensures
        all_slug_chars(slug_spec(name)),
        slug_spec(name).len() > 0 ==> slug_spec(name)[0] != '-' && slug_spec(name).last() != '-',
{
    let c = collapse_non_slug(lowercase_spec(trim(name)));
    lemma_collapse_slug_chars(lowercase_spec(trim(name)));
    lemma_trim_start_char(c, '-');
    let t = trim_start_char(c, '-');
    let k = choose|k: int| 0 <= k <= c.len() && t == c.subrange(k, c.len() as int);
    lemma_strip_dash_suffix(t);
    let j = choose|j: int| 0 <= j <= t.len() && strip_suffix_all(t, seq!['-']) == t.subrange(0, j);
    let r = slug_spec(name);
    assert forall|i: int| 0 <= i < r.len() implies slug_char(#[trigger] r[i]) by {
        assert(r[i] == c[k + i]);
    }
    if r.len() > 0 {
        assert(r[0] == t[0]);
    }
}

/// The kind of Python environment that an interpreter path suggests.
pub open spec fn env_kind_spec(python_exe: Seq<char>) -> Seq<char> {
    let lower = lowercase_spec(python_exe);
    if contains_spec(lower, "conda"@) || contains_spec(lower, "miniconda"@) {
        "conda"@
    } else if contains_spec(lower, "venv"@) || contains_spec(lower, ".venv"@) {
        "venv"@
    } else if has_suffix(lower, "python"@) || has_suffix(lower, "python.exe"@) {
        "system"@
    } else {
        "unknown"@
    }
}

pub fn detect_env_kind(python_exe: &str) -> (r: String)
    ensures
        r@ == env_kind_spec(python_exe@),
{
    let lower = chars_of(to_lowercase(python_exe).as_str());
    if contains_exec(&lower, &chars_of("conda")) || contains_exec(&lower, &chars_of("miniconda")) {
        owned("conda")
    } else if contains_exec(&lower, &chars_of("venv")) || contains_exec(&lower, &chars_of(".venv")) {
        owned("venv")
    } else if ends_with(&lower, &chars_of("python")) || ends_with(&lower, &chars_of("python.exe")) {
        owned("system")
    } else {
        owned("unknown")
    }
}

/// The interpreter locations probed under a ComfyUI root, in order.
pub open spec fn python_candidates_spec(root: Seq<char>) -> Seq<Seq<char>> {
    seq![
        join_path_spec(root, "venv/bin/python"@),
        join_path_spec(root, ".venv/bin/python"@),
        join_path_spec(root, "python_embeded/python.exe"@),
        join_path_spec(root, "python_embedded/python.exe"@),
        join_path_spec(root, "venv/Scripts/python.exe"@),
        join_path_spec(root, ".venv/Scripts/python.exe"@),
    ]
}

pub fn python_candidates(root: &str) -> (r: Vec<String>)
    ensures
        sv(r@) == python_candidates_spec(root@),
{
    let mut r: Vec<String> = Vec::new();
    r.push(join_custom_node_path(root, "venv/bin/python"));
    r.push(join_custom_node_path(root, ".venv/bin/python"));
    r.push(join_custom_node_path(root, "python_embeded/python.exe"));
    r.push(join_custom_node_path(root, "python_embedded/python.exe"));
    r.push(join_custom_node_path(root, "venv/Scripts/python.exe"));
    r.push(join_custom_node_path(root, ".venv/Scripts/python.exe"));
    assert(sv(r@) =~= python_candidates_spec(root@));
    r
}

/// The first interpreter candidate that exists; `present[i]` tells whether
/// candidate `i` of `python_candidates(root)` exists.
pub fn infer_python(root: &str, present: &Vec<bool>) -> (r: Option<String>)
    requires
        present.len() == 6,
    ensures
        r is None <==> forall|i: int| 0 <= i < 6 ==> !present@[i],
        r matches Some(p) ==> exists|i: int|
            0 <= i < 6 && present@[i] && (forall|j: int| 0 <= j < i ==> !present@[j]) && p@
                == python_candidates_spec(root@)[i],
{
    let candidates = python_candidates(root);
    assert(sv(candidates@).len() == 6);
    let mut i: usize = 0;
    while i < 6
        invariant
            i <= 6,
            present.len() == 6,
            sv(candidates@) == python_candidates_spec(root@),
            candidates@.len() == 6,
            forall|j: int| 0 <= j < i ==> !present@[j],
        decreases 6 - i,
    {
        if present[i] {
            assert(sv(candidates@)[i as int] == candidates@[i as int]@);
            return Some(candidates[i].clone());
        }
        i = i + 1;
    }
    None
}


/// How a configured Python executable is found: inferred from the root,
/// an absolute path, a path relative to the root, or a command name looked
/// up on `PATH`.
pub enum PythonExeForm {
    Infer,
    Absolute(String),
    RootRelative(String),
    Command(String),
}

/// Classifies a configured Python executable: blank or missing means
/// inferring it; a path starting at `/` is absolute; any other value with
/// a `/` is relative to the root; a bare name is a command.
pub fn python_exe_form(python_exe: Option<&str>) -> (r: PythonExeForm)
    ensures
        ({
            match python_exe {
                None => r is Infer,
                Some(s) => {
                    let t = trim(s@);
                    if t.len() == 0 {
                        r is Infer
                    } else if t[0] == '/' {
                        r matches PythonExeForm::Absolute(p) && p@ == t
                    } else if contains_spec(t, seq!['/']) {
                        r matches PythonExeForm::RootRelative(p) && p@ == t
                    } else {
                        r matches PythonExeForm::Command(p) && p@ == t
                    }
                },
            }
        }),
{
    let value = match python_exe {
        Some(s) => trim_str(s),
        None => return PythonExeForm::Infer,
    };
    let chars = chars_of(value.as_str());
    if chars.len() == 0 {
        return PythonExeForm::Infer;
    }
    if chars[0] == '/' {
        return PythonExeForm::Absolute(value);
    }
    let slash: Vec<char> = vec!['/'];
    assert(slash@ == seq!['/']);
    if contains_exec(&chars, &slash) {
        PythonExeForm::RootRelative(value)
    } else {
        PythonExeForm::Command(value)
    }
}

/// The error for a configured interpreter path that is not a file.
pub fn python_not_a_file(path: &str) -> (r: crate::errors::AppError)
    ensures
        r matches crate::errors::AppError::InvalidInput(m) && m@ == "python executable is not a file: "@ + path@,
{
    let mut m = owned("python executable is not a file: ");
    m.append(path);
    crate::errors::AppError::InvalidInput(m)
}

} // verus!
