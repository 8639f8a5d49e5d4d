//! Git remotes, git output parsing and custom-node directory names.
use vstd::prelude::*;
use crate::patterns::{github_ssh_remote, ssh_remote_parts};
use crate::errors::{AppError, AppResult};
use crate::models::{RepoActionPreviewCommit, RepoActionPreviewFile};
use crate::text::{
    ascii_lower, ascii_lower_chars, byte_len, byte_offset, chars_eq, chars_of, find_char,
    find_char_from, find_last_char, find_last_char_exec, has_prefix, lemma_find_char,
    lemma_find_last_char, lemma_line_shorter, starts_with, eq_ignore_ascii_case,
    eq_ignore_ascii_case_chars, find_sub, find_sub_exec, lemma_byte_offset_grows, lines,
    push_chars, push_str, slice_chars, split_lines, string_of, strip_suffix_all,
    strip_suffix_all_chars, trim, trim_bounds, trim_str, utf8_width_exec, vv,
};
use crate::urls::{parse_url, parsed_url, strings_view};

verus! {

/// The segments of `segs` that are not empty, in order.
pub open spec fn nonempty_segments(segs: Seq<Seq<char>>) -> Seq<Seq<char>>
    decreases segs.len(),
{
    if segs.len() == 0 {
        segs
    } else if segs.last().len() > 0 {
        nonempty_segments(segs.drop_last()).push(segs.last())
    } else {
        nonempty_segments(segs.drop_last())
    }
}

/// The copies of the non-empty strings of `v`, in order.
pub fn nonempty_strings(v: &Vec<String>) -> (r: Vec<String>)
    ensures
        strings_view(r@) == nonempty_segments(strings_view(v@)),
{
    let mut r: Vec<String> = Vec::new();
    let mut i: usize = 0;
    while i < v.len()
        invariant
            i <= v.len(),
            strings_view(r@) == nonempty_segments(strings_view(v@.subrange(0, i as int))),
        decreases v.len() - i,
    {
        let ghost before = r@;
        let s = v[i].clone();
        let n = chars_of(s.as_str()).len();
        assert(strings_view(v@.subrange(0, i + 1)).drop_last() == strings_view(
            v@.subrange(0, i as int),
        ));
        if n > 0 {
            r.push(s);
            assert(strings_view(r@) == strings_view(before).push(v@[i as int]@));
        }
        i = i + 1;
    }
    assert(v@.subrange(0, v.len() as int) == v@);
    r
}

/// `https://github.com/<owner>/<repo>`.
pub open spec fn github_repo_url(owner: Seq<char>, repo: Seq<char>) -> Seq<char> {
    "https://github.com/"@ + owner + "/"@ + repo
}

/// The canonical form of a GitHub remote: an `git@github.com:owner/repo`
/// address or a `github.com` URL with at least two non-empty path segments,
/// reduced to `https://github.com/owner/repo` without `.git`; the owner and
/// repository keep their case.
pub open spec fn canonical_remote(input: Seq<char>) -> Option<Seq<char>> {
    let t = trim(input);
    if t.len() == 0 {
        None
    } else if let Some((owner, repo)) = ssh_remote_parts(t) {
        Some(github_repo_url(owner, repo))
    } else {
        match parsed_url(t) {
            Some((Some(host), Some(segs))) => {
                let parts = nonempty_segments(segs);
                if eq_ignore_ascii_case(host, "github.com"@) && parts.len() >= 2 {
                    Some(github_repo_url(parts[0], strip_suffix_all(parts[1], ".git"@)))
                } else {
                    None
                }
            },
            _ => None,
        }
    }
}

fn github_repo_url_exec(owner: &Vec<char>, repo: &Vec<char>) -> (r: String)
    ensures
        r@ == github_repo_url(owner@, repo@),
{
    let mut r = String::from_str("https://github.com/");
    push_chars(&mut r, owner);
    push_str(&mut r, "/");
    push_chars(&mut r, repo);
    r
}

/// Reduces a GitHub remote to `https://github.com/owner/repo`; `None` for
/// anything that is not a GitHub remote.
pub fn canonicalize_remote(input: &str) -> (r: Option<String>)
    ensures
        r is None <==> canonical_remote(input@) is None,
        r matches Some(s) ==> canonical_remote(input@) == Some(s@),
{
    let t = trim_str(input);
    if t.as_str().unicode_len() == 0 {
        return None;
    }
    if let Some((owner, repo)) = github_ssh_remote(t.as_str()) {
        return Some(github_repo_url_exec(&chars_of(owner.as_str()), &chars_of(repo.as_str())));
    }
    let parts = match parse_url(t.as_str()) {
        Some(p) => p,
        None => return None,
    };
    let host = match parts.host {
        Some(h) => h,
        None => return None,
    };
    let segments = match parts.segments {
        Some(s) => s,
        None => return None,
    };
    let nonempty = nonempty_strings(&segments);
    if eq_ignore_ascii_case_chars(&chars_of(host.as_str()), &chars_of("github.com"))
        && nonempty.len() >= 2
    {
        let owner = chars_of(nonempty[0].as_str());
        let repo = strip_suffix_all_chars(&chars_of(nonempty[1].as_str()), &chars_of(".git"));
        Some(github_repo_url_exec(&owner, &repo))
    } else {
        None
    }
}


/// Whether two canonical remotes name the same repository: GitHub owner and
/// repository names are compared without regard to ASCII case.
pub fn same_canonical_remote(a: &str, b: &str) -> (r: bool)
    ensures
        r == eq_ignore_ascii_case(a@, b@),
{
    eq_ignore_ascii_case_chars(&chars_of(a), &chars_of(b))
}

/// The character index at byte offset 3 of `l`, or -1 where byte 3 falls
/// inside a character.
pub open spec fn byte3_index(l: Seq<char>) -> int {
    if l.len() >= 1 && byte_offset(l, 1) == 3 {
        1
    } else if l.len() >= 2 && byte_offset(l, 2) == 3 {
        2
    } else if l.len() >= 3 && byte_offset(l, 3) == 3 {
        3
    } else {
        -1
    }
}

/// A porcelain status line that can be sliced at byte 3: shorter than four
/// bytes, or with a character boundary at byte 3.
pub open spec fn status_line_ok(l: Seq<char>) -> bool {
    byte_len(l) < 4 || byte3_index(l) >= 0
}

pub open spec fn nonempty_or_none(s: Seq<char>) -> Seq<Seq<char>> {
    if s.len() > 0 {
        seq![s]
    } else {
        Seq::empty()
    }
}

/// The paths named by one `git status --porcelain` line: the text after the
/// two status columns and the space; both sides of a rename.
pub open spec fn status_line_paths(l: Seq<char>) -> Seq<Seq<char>> {
    if byte_len(l) < 4 {
        Seq::empty()
    } else {
        let path = trim(l.subrange(byte3_index(l), l.len() as int));
        let k = find_sub(path, " -> "@);
        if path.len() == 0 {
            Seq::empty()
        } else if k < path.len() {
            nonempty_or_none(trim(path.subrange(0, k))) + nonempty_or_none(
                trim(path.subrange(k + " -> "@.len(), path.len() as int)),
            )
        } else {
            seq![path]
        }
    }
}

/// The paths of all status lines, in order.
pub open spec fn status_paths(ls: Seq<Seq<char>>) -> Seq<Seq<char>>
    decreases ls.len(),
{
    if ls.len() == 0 {
        Seq::empty()
    } else {
        status_paths(ls.drop_last()) + status_line_paths(ls.last())
    }
}

/// Whether the UTF-8 length of `l` is below four bytes, and the character
/// index at byte 3.
fn status_prefix(l: &Vec<char>) -> (r: (bool, i64))
    ensures
        r.0 == (byte_len(l@) < 4),
        r.1 == byte3_index(l@),
{
    proof {
        lemma_byte_offset_grows(l@, l@.len() as int);
    }
    let n = l.len();
    let mut off: Vec<usize> = Vec::new();
    off.push(0);
    let mut k: usize = 0;
    while k < n && k < 4
        invariant
            n == l@.len(),
            k <= n,
            k <= 4,
            off@.len() == k + 1,
            forall|j: int| 0 <= j <= k ==> off@[j] == byte_offset(l@, j),
            forall|j: int| 0 <= j <= k ==> off@[j] <= 4 * j,
        decreases n - k,
    {
        let w = utf8_width_exec(l[k]);
        let next = off[k] + w;
        off.push(next);
        k = k + 1;
    }
    let short = if n >= 4 {
        proof {
            lemma_byte_offset_grows(l@, 4);
            lemma_byte_offset_grows(l@, n as int);
        }
        false
    } else {
        off[n] < 4
    };
    let idx: i64 = if n >= 1 && off[1] == 3 {
        1
    } else if n >= 2 && off[2] == 3 {
        2
    } else if n >= 3 && off[3] == 3 {
        3
    } else {
        -1
    };
    (short, idx)
}

fn push_if_nonempty(out: &mut Vec<String>, v: &Vec<char>)
    ensures
        strings_view(final(out)@) == strings_view(old(out)@) + nonempty_or_none(v@),
{
    if v.len() > 0 {
        let ghost before = strings_view(out@);
        out.push(string_of(v));
        assert(strings_view(out@) == before + nonempty_or_none(v@));
    } else {
        assert(strings_view(out@) == strings_view(out@) + nonempty_or_none(v@));
    }
}

fn trimmed_range(v: &Vec<char>, from: usize, to: usize) -> (r: Vec<char>)
    requires
        from <= to <= v.len(),
    ensures
        r@ == trim(v@.subrange(from as int, to as int)),
{
    let part = slice_chars(v, from, to);
    let (a, b) = trim_bounds(&part);
    slice_chars(&part, a, b)
}

/// The changed paths listed by `git status --porcelain` output, both sides
/// of renames included.
pub fn parse_status_changed_files(output: &str) -> (r: Vec<String>)
    requires
        forall|i: int| 0 <= i < lines(output@).len() ==> status_line_ok(#[trigger] lines(output@)[i]),
    ensures
        strings_view(r@) == status_paths(lines(output@)),
{
    let ls = split_lines(&chars_of(output));
    let arrow = chars_of(" -> ");
    let mut out: Vec<String> = Vec::new();
    let mut i: usize = 0;
    while i < ls.len()
        invariant
            vv(ls@) == lines(output@),
            arrow@ == " -> "@,
            i <= ls@.len(),
            forall|q: int| 0 <= q < ls@.len() ==> status_line_ok(#[trigger] vv(ls@)[q]),
            strings_view(out@) == status_paths(vv(ls@).subrange(0, i as int)),
        decreases ls@.len() - i,
    {
        let l = &ls[i];
        assert(vv(ls@).subrange(0, i + 1).drop_last() == vv(ls@).subrange(0, i as int));
        assert(vv(ls@)[i as int] == l@);
        let (short, idx) = status_prefix(l);
        if !short {
            assert(status_line_ok(l@));
            let path = trimmed_range(l, idx as usize, l.len());
            if path.len() > 0 {
                let k = find_sub_exec(&path, &arrow);
                if k < path.len() {
                    let old_path = trimmed_range(&path, 0, k);
                    let new_path = trimmed_range(&path, k + arrow.len(), path.len());
                    push_if_nonempty(&mut out, &old_path);
                    push_if_nonempty(&mut out, &new_path);
                } else {
                    out.push(string_of(&path));
                }
            }
        }
        i = i + 1;
    }
    assert(vv(ls@).subrange(0, ls@.len() as int) == vv(ls@));
    out
}


/// A porcelain line for an untracked path (`?? <path>`).
pub open spec fn line_untracked(l: Seq<char>) -> bool {
    l.len() >= 2 && l[0] == '?' && l[1] == '?'
}

/// The paths of the status lines that are (or are not) untracked, in order.
pub open spec fn status_paths_where(ls: Seq<Seq<char>>, untracked: bool) -> Seq<Seq<char>>
    decreases ls.len(),
{
    if ls.len() == 0 {
        Seq::empty()
    } else {
        status_paths_where(ls.drop_last(), untracked) + if line_untracked(ls.last()) == untracked {
            status_line_paths(ls.last())
        } else {
            Seq::empty()
        }
    }
}

/// The paths of `git status --porcelain` output that git tracks
/// (`untracked == false`) or does not track (`untracked == true`).
pub fn parse_status_files_where(output: &str, untracked: bool) -> (r: Vec<String>)
    requires
        forall|i: int| 0 <= i < lines(output@).len() ==> status_line_ok(#[trigger] lines(output@)[i]),
    ensures
        strings_view(r@) == status_paths_where(lines(output@), untracked),
{
    let ls = split_lines(&chars_of(output));
    let arrow = chars_of(" -> ");
    let mut out: Vec<String> = Vec::new();
    let mut i: usize = 0;
    while i < ls.len()
        invariant
            vv(ls@) == lines(output@),
            arrow@ == " -> "@,
            i <= ls@.len(),
            forall|q: int| 0 <= q < ls@.len() ==> status_line_ok(#[trigger] vv(ls@)[q]),
            strings_view(out@) == status_paths_where(vv(ls@).subrange(0, i as int), untracked),
        decreases ls@.len() - i,
    {
        let l = &ls[i];
        assert(vv(ls@).subrange(0, i + 1).drop_last() == vv(ls@).subrange(0, i as int));
        assert(vv(ls@)[i as int] == l@);
        let is_untracked = l.len() >= 2 && l[0] == '?' && l[1] == '?';
        if is_untracked != untracked {
            assert(strings_view(out@) + Seq::<Seq<char>>::empty() == strings_view(out@));
        } else {
            let (short, idx) = status_prefix(l);
            if !short {
                assert(status_line_ok(l@));
                let path = trimmed_range(l, idx as usize, l.len());
                if path.len() > 0 {
                    let k = find_sub_exec(&path, &arrow);
                    if k < path.len() {
                        let old_path = trimmed_range(&path, 0, k);
                        let new_path = trimmed_range(&path, k + arrow.len(), path.len());
                        push_if_nonempty(&mut out, &old_path);
                        push_if_nonempty(&mut out, &new_path);
                    } else {
                        out.push(string_of(&path));
                    }
                } else {
                    assert(strings_view(out@) + Seq::<Seq<char>>::empty() == strings_view(out@));
                }
            } else {
                assert(strings_view(out@) + Seq::<Seq<char>>::empty() == strings_view(out@));
            }
        }
        i = i + 1;
    }
    assert(vv(ls@).subrange(0, ls@.len() as int) == vv(ls@));
    out
}


/// The default branch announced by `git ls-remote --symref <remote> HEAD`:
/// the first `ref: refs/heads/<branch>\tHEAD` line; a `ref: refs/heads/`
/// line without a tab ends the search with nothing.
pub open spec fn default_branch_scan(ls: Seq<Seq<char>>) -> Option<Seq<char>>
    decreases ls.len(),
{
    if ls.len() == 0 {
        None
    } else {
        let l = ls[0];
        let p = "ref: refs/heads/"@;
        if !has_prefix(l, p) {
            default_branch_scan(ls.drop_first())
        } else {
            let rest = l.subrange(p.len() as int, l.len() as int);
            let k = find_char(rest, '\t');
            if k >= rest.len() {
                None
            } else if trim(rest.subrange(k + 1, rest.len() as int)) == "HEAD"@ && trim(
                rest.subrange(0, k),
            ).len() > 0 {
                Some(trim(rest.subrange(0, k)))
            } else {
                default_branch_scan(ls.drop_first())
            }
        }
    }
}

/// Parses the default branch out of `git ls-remote --symref` output.
pub fn parse_ls_remote_default_branch(output: &str) -> (r: Option<String>)
    ensures
        r is None <==> default_branch_scan(lines(output@)) is None,
        r matches Some(b) ==> default_branch_scan(lines(output@)) == Some(b@),
{
    let ls = split_lines(&chars_of(output));
    let prefix = chars_of("ref: refs/heads/");
    let head = chars_of("HEAD");
    let mut i: usize = 0;
    assert(vv(ls@).subrange(0, vv(ls@).len() as int) == vv(ls@));
    while i < ls.len()
        invariant
            vv(ls@) == lines(output@),
            prefix@ == "ref: refs/heads/"@,
            head@ == "HEAD"@,
            i <= ls@.len(),
            default_branch_scan(lines(output@)) == default_branch_scan(
                vv(ls@).subrange(i as int, ls@.len() as int),
            ),
        decreases ls@.len() - i,
    {
        let ghost rest_lines = vv(ls@).subrange(i as int, ls@.len() as int);
        assert(rest_lines.drop_first() == vv(ls@).subrange(i + 1, ls@.len() as int));
        assert(rest_lines[0] == ls@[i as int]@);
        let l = &ls[i];
        if starts_with(l, &prefix) {
            let rest = slice_chars(l, prefix.len(), l.len());
            let k = find_char_from(&rest, '\t', 0);
            assert(rest@.subrange(0, rest@.len() as int) == rest@);
            if k >= rest.len() {
                return None;
            }
            let branch = trimmed_range(&rest, 0, k);
            let name = trimmed_range(&rest, k + 1, rest.len());
            if chars_eq(&name, &head) && branch.len() > 0 {
                return Some(string_of(&branch));
            }
        }
        i = i + 1;
    }
    None
}

/// The stash reference recorded for `stash_id` in `git stash list
/// --format=%H%x09%gd` output: the second column of the first line whose
/// first column is the id.
pub open spec fn stash_scan(ls: Seq<Seq<char>>, id: Seq<char>) -> Option<Seq<char>>
    decreases ls.len(),
{
    if ls.len() == 0 {
        None
    } else {
        let l = ls[0];
        let k = find_char(l, '\t');
        if k < l.len() && trim(l.subrange(0, k)) == id && trim(
            l.subrange(k + 1, l.len() as int),
        ).len() > 0 {
            Some(trim(l.subrange(k + 1, l.len() as int)))
        } else {
            stash_scan(ls.drop_first(), id)
        }
    }
}

pub open spec fn stash_ref_spec(list: Seq<char>, id: Seq<char>) -> Option<Seq<char>> {
    if has_prefix(id, "stash@{"@) {
        Some(id)
    } else {
        stash_scan(lines(list), id)
    }
}

/// The stash reference to pop for a checkpoint's saved stash id: a legacy
/// `stash@{n}` reference as it is, a commit id looked up in the stash list.
pub fn stash_ref_from_list(stash_list: &str, stash_id: &str) -> (r: Option<String>)
    ensures
        r is None <==> stash_ref_spec(stash_list@, stash_id@) is None,
        r matches Some(x) ==> stash_ref_spec(stash_list@, stash_id@) == Some(x@),
{
    let id = chars_of(stash_id);
    let marker = chars_of("stash@{");
    if starts_with(&id, &marker) {
        return Some(string_of(&id));
    }
    assert(!has_prefix(stash_id@, "stash@{"@));
    let ls = split_lines(&chars_of(stash_list));
    let mut i: usize = 0;
    assert(vv(ls@).subrange(0, vv(ls@).len() as int) == vv(ls@));
    while i < ls.len()
        invariant
            vv(ls@) == lines(stash_list@),
            id@ == stash_id@,
            !has_prefix(stash_id@, "stash@{"@),
            i <= ls@.len(),
            stash_scan(lines(stash_list@), id@) == stash_scan(
                vv(ls@).subrange(i as int, ls@.len() as int),
                id@,
            ),
        decreases ls@.len() - i,
    {
        let ghost rest_lines = vv(ls@).subrange(i as int, ls@.len() as int);
        assert(rest_lines.drop_first() == vv(ls@).subrange(i + 1, ls@.len() as int));
        assert(rest_lines[0] == ls@[i as int]@);
        let l = &ls[i];
        let k = find_char_from(l, '\t', 0);
        assert(l@.subrange(0, l@.len() as int) == l@);
        if k < l.len() {
            let sha = trimmed_range(l, 0, k);
            let found = trimmed_range(l, k + 1, l.len());
            if chars_eq(&sha, &id) && found.len() > 0 {
                assert(stash_scan(rest_lines, id@) == Some(found@));
                return Some(string_of(&found));
            }
        }
        i = i + 1;
    }
    None
}


/// The state of a git working tree.
#[derive(Debug, Clone)]
pub struct RepoStatus {
    pub head_sha: Option<String>,
    pub branch: Option<String>,
    pub is_detached: bool,
    pub is_dirty: bool,
    pub changed_files: Vec<String>,
    /// Changed paths that git tracks (untracked files left out).
    pub tracked_changed_files: Vec<String>,
    /// Paths that git does not track.
    pub untracked_files: Vec<String>,
    pub origin_url: Option<String>,
}

/// Every `a` in `s` replaced by `b`.
pub open spec fn replace_char(s: Seq<char>, a: char, b: char) -> Seq<char> {
    s.map_values(|c: char| if c == a { b } else { c })
}

pub fn replace_char_exec(v: &Vec<char>, a: char, b: char) -> (r: Vec<char>)
    ensures
        r@ == replace_char(v@, a, b),
{
    let mut r: Vec<char> = Vec::new();
    let mut i: usize = 0;
    while i < v.len()
        invariant
            i <= v.len(),
            r@ == replace_char(v@.subrange(0, i as int), a, b),
        decreases v.len() - i,
    {
        r.push(if v[i] == a { b } else { v[i] });
        assert(replace_char(v@.subrange(0, i + 1), a, b) == replace_char(
            v@.subrange(0, i as int),
            a,
            b,
        ).push(if v@[i as int] == a { b } else { v@[i as int] }));
        i = i + 1;
    }
    assert(v@.subrange(0, v.len() as int) == v@);
    r
}

/// A Linux path with `\\` read as `/` and trailing slashes dropped; the
/// root stays `/`.
pub open spec fn linux_path_spec(s: Seq<char>) -> Seq<char> {
    let t = strip_suffix_all(replace_char(s, '\\', '/'), seq!['/']);
    if t.len() == 0 {
        seq!['/']
    } else {
        t
    }
}

pub fn normalize_linux_path(input: &str) -> (r: String)
    ensures
        r@ == linux_path_spec(input@),
{
    let replaced = replace_char_exec(&chars_of(input), '\\', '/');
    let mut slash: Vec<char> = Vec::new();
    slash.push('/');
    assert(slash@ == seq!['/']);
    let t = strip_suffix_all_chars(&replaced, &slash);
    if t.len() == 0 {
        let r = string_of(&slash);
        r
    } else {
        string_of(&t)
    }
}

/// A native (non-Windows) path with trailing slashes dropped.
pub fn normalize_native_path(path: &str) -> (r: String)
    ensures
        r@ == strip_suffix_all(path@, seq!['/']),
{
    let mut slash: Vec<char> = Vec::new();
    slash.push('/');
    assert(slash@ == seq!['/']);
    string_of(&strip_suffix_all_chars(&chars_of(path), &slash))
}

/// A path separator on either platform.
pub open spec fn is_sep(c: char) -> bool {
    c == '/' || c == '\\'
}

/// A drive prefix such as `C:`.
pub open spec fn has_drive_prefix(t: Seq<char>) -> bool {
    t.len() >= 2 && t[1] == ':' && (('a' <= t[0] && t[0] <= 'z') || ('A' <= t[0] && t[0] <= 'Z'))
}

/// Text after a directory name that adds no path component: separators and
/// lone `.` segments.
pub open spec fn only_empty_segments(r: Seq<char>) -> bool {
    forall|i: int|
        0 <= i < r.len() ==> (is_sep(#[trigger] r[i]) || (r[i] == '.' && (i == 0 || is_sep(r[i - 1]))
            && (i + 1 == r.len() || is_sep(r[i + 1]))))
}

/// The index of the first separator in `t`, or its length.
pub open spec fn first_sep(t: Seq<char>) -> int
    decreases t.len(),
{
    if t.len() == 0 {
        0
    } else if is_sep(t[0]) {
        0
    } else {
        1 + first_sep(t.drop_first())
    }
}

pub proof fn lemma_first_sep(t: Seq<char>)
    ensures
        0 <= first_sep(t) <= t.len(),
        forall|k: int| 0 <= k < first_sep(t) ==> !is_sep(t[k]),
        first_sep(t) < t.len() ==> is_sep(t[first_sep(t)]),
    decreases t.len(),
{
    if t.len() > 0 && !is_sep(t[0]) {
        lemma_first_sep(t.drop_first());
        assert forall|k: int| 0 <= k < first_sep(t) implies !is_sep(t[k]) by {
            if k > 0 {
                assert(t[k] == t.drop_first()[k - 1]);
            }
        }
    }
}

/// The single directory name that `dir_name` (trimmed) denotes, or `None`
/// where it is empty, rooted, drive-prefixed, `.`/`..`, or names a nested path.
pub open spec fn single_dir_name(t: Seq<char>) -> Option<Seq<char>> {
    let k = first_sep(t);
    let name = t.subrange(0, k);
    if t.len() == 0 || has_drive_prefix(t) || name.len() == 0 || name == seq!['.'] || name
        == seq!['.', '.'] || !only_empty_segments(t.subrange(k, t.len() as int)) {
        None
    } else {
        Some(name)
    }
}

fn error_text_exec(s: &str) -> (r: String)
    ensures
        r@ == s@,
{
    String::from_str(s)
}

/// Validates a custom-node directory name: after trimming it must name a
/// single folder inside `custom_nodes`.
#[verifier::loop_isolation(false)]
pub fn validate_custom_node_dir_name(dir_name: &str) -> (r: AppResult<String>)
    ensures
        trim(dir_name@).len() == 0 ==> (r matches Err(AppError::InvalidInput(m)) && m@
            == "custom node directory name cannot be empty"@),
        trim(dir_name@).len() > 0 && single_dir_name(trim(dir_name@)) is None ==> (r matches Err(
            AppError::InvalidInput(m),
        ) && m@ == "custom node directory name must be a single folder name inside custom_nodes"@),
        single_dir_name(trim(dir_name@)) matches Some(name) ==> (r matches Ok(x) && x@ == name),
{
    let v = chars_of(dir_name);
    let (a, b) = trim_bounds(&v);
    let t = slice_chars(&v, a, b);
    if t.len() == 0 {
        return Err(
            AppError::InvalidInput(error_text_exec("custom node directory name cannot be empty")),
        );
    }
    let invalid = AppError::InvalidInput(
        error_text_exec("custom node directory name must be a single folder name inside custom_nodes"),
    );
    proof {
        lemma_first_sep(t@);
    }
    let mut k: usize = 0;
    while k < t.len() && t[k] != '/' && t[k] != '\\'
        invariant
            k <= t.len(),
            forall|q: int| 0 <= q < k ==> !is_sep(t@[q]),
        decreases t.len() - k,
    {
        k = k + 1;
    }
    proof {
        lemma_first_sep(t@);
        if first_sep(t@) < k {
            assert(is_sep(t@[first_sep(t@)]));
        }
        if k < first_sep(t@) {
            assert(!is_sep(t@[k as int]));
        }
    }
    if t.len() >= 2 && t[1] == ':' && (('a' <= t[0] && t[0] <= 'z') || ('A' <= t[0] && t[0] <= 'Z')) {
        return Err(invalid);
    }
    if k == 0 || (k == 1 && t[0] == '.') || (k == 2 && t[0] == '.' && t[1] == '.') {
        proof {
            if k == 1 && t@[0] == '.' {
                assert(t@.subrange(0, 1) == seq!['.']);
            }
            if k == 2 && t@[0] == '.' && t@[1] == '.' {
                assert(t@.subrange(0, 2) == seq!['.', '.']);
            }
        }
        return Err(invalid);
    }
    let mut i = k;
    while i < t.len()
        invariant
            k <= i <= t.len(),
            forall|q: int|
                k <= q < i ==> (is_sep(#[trigger] t@[q]) || (t@[q] == '.' && (q == k || is_sep(
                    t@[q - 1],
                )) && (q + 1 == t.len() || is_sep(t@[q + 1])))),
        decreases t.len() - i,
    {
        let c = t[i];
        let ok = c == '/' || c == '\\' || (c == '.' && (i == k || t[i - 1] == '/' || t[i - 1]
            == '\\') && (i + 1 == t.len() || t[i + 1] == '/' || t[i + 1] == '\\'));
        if !ok {
            proof {
                let rest = t@.subrange(k as int, t.len() as int);
                assert(rest[i - k] == t@[i as int]);
                if i > k {
                    assert(rest[i - k - 1] == t@[i - 1]);
                }
                if i + 1 < t.len() {
                    assert(rest[i - k + 1] == t@[i + 1]);
                }
                assert(!only_empty_segments(rest));
            }
            return Err(invalid);
        }
        i = i + 1;
    }
    proof {
        let rest = t@.subrange(k as int, t.len() as int);
        assert forall|q: int| 0 <= q < rest.len() implies (is_sep(#[trigger] rest[q]) || (rest[q]
            == '.' && (q == 0 || is_sep(rest[q - 1])) && (q + 1 == rest.len() || is_sep(
            rest[q + 1],
        )))) by {
            assert(rest[q] == t@[k + q]);
            if q > 0 {
                assert(rest[q - 1] == t@[k + q - 1]);
            }
            if q + 1 < rest.len() {
                assert(rest[q + 1] == t@[k + q + 1]);
            }
        }
        if t@.subrange(0, k as int) == seq!['.'] {
            assert(t@.subrange(0, k as int).len() == 1);
            assert(t@.subrange(0, k as int)[0] == t@[0]);
        }
        if t@.subrange(0, k as int) == seq!['.', '.'] {
            assert(t@.subrange(0, k as int).len() == 2);
            assert(t@.subrange(0, k as int)[0] == t@[0]);
            assert(t@.subrange(0, k as int)[1] == t@[1]);
        }
    }
    Ok(string_of(&slice_chars(&t, 0, k)))
}

/// `dir.join(name)` on a Unix path: a rooted name replaces the directory.
pub open spec fn join_path_spec(dir: Seq<char>, name: Seq<char>) -> Seq<char> {
    if name.len() > 0 && name[0] == '/' {
        name
    } else if dir.len() == 0 {
        name
    } else if dir.last() == '/' {
        dir + name
    } else {
        dir + seq!['/'] + name
    }
}

/// A name that `validate_custom_node_dir_name` accepts, joined to a
/// directory, is a direct child of that directory: the result is the
/// directory, a separator where it has none at its end, and the name, which
/// is not empty, is neither `.` nor `..`, and holds no separator.
pub proof fn law_validated_name_is_direct_child(dir: Seq<char>, raw: Seq<char>, name: Seq<char>)
    requires
        single_dir_name(trim(raw)) == Some(name),
    ensures
        name.len() > 0,
        name != seq!['.'],
        name != seq!['.', '.'],
        forall|i: int| 0 <= i < name.len() ==> !is_sep(#[trigger] name[i]),
        join_path_spec(dir, name) == if dir.len() == 0 {
            name
        } else if dir.last() == '/' {
            dir + name
        } else {
            dir + seq!['/'] + name
        },
{
    let t = trim(raw);
    lemma_first_sep(t);
    assert forall|i: int| 0 <= i < name.len() implies !is_sep(#[trigger] name[i]) by {
        assert(name[i] == t[i]);
    }
    assert(!is_sep(name[0]));
}

pub fn join_custom_node_path(custom_nodes_dir: &str, dir_name: &str) -> (r: String)
    ensures
        r@ == join_path_spec(custom_nodes_dir@, dir_name@),
{
    let d = chars_of(custom_nodes_dir);
    let n = chars_of(dir_name);
    if n.len() > 0 && n[0] == '/' {
        return string_of(&n);
    }
    if d.len() == 0 {
        return string_of(&n);
    }
    let mut r = string_of(&d);
    if d[d.len() - 1] != '/' {
        crate::text::push_char(&mut r, '/');
    }
    push_chars(&mut r, &n);
    r
}


pub open spec fn commit_view(c: RepoActionPreviewCommit) -> (Seq<char>, Seq<char>) {
    (c.sha@, c.subject@)
}

pub open spec fn file_view(f: RepoActionPreviewFile) -> (Seq<char>, Seq<char>) {
    (f.path@, f.status@)
}

/// `<sha>\t<subject>` lines of `git log --format=%H%x09%s`; lines without a
/// tab are skipped.
pub open spec fn commit_entries(ls: Seq<Seq<char>>) -> Seq<(Seq<char>, Seq<char>)>
    decreases ls.len(),
{
    if ls.len() == 0 {
        Seq::empty()
    } else {
        let l = ls.last();
        let k = find_char(l, '\t');
        if k < l.len() {
            commit_entries(ls.drop_last()).push((l.subrange(0, k), l.subrange(k + 1, l.len() as int)))
        } else {
            commit_entries(ls.drop_last())
        }
    }
}

/// The commits listed by `git log --format=%H%x09%s` output.
pub fn parse_commit_log(output: &str) -> (r: Vec<RepoActionPreviewCommit>)
    ensures
        r@.map_values(|c: RepoActionPreviewCommit| commit_view(c)) == commit_entries(lines(output@)),
{
    let ls = split_lines(&chars_of(output));
    let mut out: Vec<RepoActionPreviewCommit> = Vec::new();
    let mut i: usize = 0;
    while i < ls.len()
        invariant
            vv(ls@) == lines(output@),
            i <= ls@.len(),
            out@.map_values(|c: RepoActionPreviewCommit| commit_view(c)) == commit_entries(
                vv(ls@).subrange(0, i as int),
            ),
        decreases ls@.len() - i,
    {
        assert(vv(ls@).subrange(0, i + 1).drop_last() == vv(ls@).subrange(0, i as int));
        let l = &ls[i];
        let k = find_char_from(l, '\t', 0);
        assert(l@.subrange(0, l@.len() as int) == l@);
        if k < l.len() {
            let c = RepoActionPreviewCommit {
                sha: string_of(&slice_chars(l, 0, k)),
                subject: string_of(&slice_chars(l, k + 1, l.len())),
            };
            let ghost before = out@.map_values(|c: RepoActionPreviewCommit| commit_view(c));
            out.push(c);
            assert(out@.map_values(|c: RepoActionPreviewCommit| commit_view(c)) == before.push(
                commit_view(c),
            ));
        }
        i = i + 1;
    }
    assert(vv(ls@).subrange(0, ls@.len() as int) == vv(ls@));
    out
}

/// `<status>\t...\t<path>` lines of `git diff --name-status`: the first
/// column and the last one, both trimmed; lines without a tab are skipped.
pub open spec fn name_status_entries(ls: Seq<Seq<char>>) -> Seq<(Seq<char>, Seq<char>)>
    decreases ls.len(),
{
    if ls.len() == 0 {
        Seq::empty()
    } else {
        let l = ls.last();
        let k = find_char(l, '\t');
        let j = find_last_char(l, '\t');
        if k < l.len() {
            name_status_entries(ls.drop_last()).push(
                (trim(l.subrange(j + 1, l.len() as int)), trim(l.subrange(0, k))),
            )
        } else {
            name_status_entries(ls.drop_last())
        }
    }
}

/// The changed files listed by `git diff --name-status` output.
pub fn parse_name_status(output: &str) -> (r: Vec<RepoActionPreviewFile>)
    requires
        output@.len() < 0x7fff_ffff_ffff_ffff,
    ensures
        r@.map_values(|f: RepoActionPreviewFile| file_view(f)) == name_status_entries(
            lines(output@),
        ),
{
    let ls = split_lines(&chars_of(output));
    let mut out: Vec<RepoActionPreviewFile> = Vec::new();
    let mut i: usize = 0;
    while i < ls.len()
        invariant
            vv(ls@) == lines(output@),
            i <= ls@.len(),
            output@.len() < 0x7fff_ffff_ffff_ffff,
            out@.map_values(|f: RepoActionPreviewFile| file_view(f)) == name_status_entries(
                vv(ls@).subrange(0, i as int),
            ),
        decreases ls@.len() - i,
    {
        assert(vv(ls@).subrange(0, i + 1).drop_last() == vv(ls@).subrange(0, i as int));
        let l = &ls[i];
        proof {
            lemma_line_shorter(output@, i as int);
        }
        let k = find_char_from(l, '\t', 0);
        assert(l@.subrange(0, l@.len() as int) == l@);
        if k < l.len() {
            let j = find_last_char_exec(l, '\t');
            proof {
                lemma_find_last_char(l@, '\t');
                lemma_find_char(l@, '\t');
            }
            let f = RepoActionPreviewFile {
                path: string_of(&trimmed_range(l, (j + 1) as usize, l.len())),
                status: string_of(&trimmed_range(l, 0, k)),
            };
            let ghost before = out@.map_values(|f: RepoActionPreviewFile| file_view(f));
            out.push(f);
            assert(out@.map_values(|f: RepoActionPreviewFile| file_view(f)) == before.push(
                file_view(f),
            ));
        }
        i = i + 1;
    }
    assert(vv(ls@).subrange(0, ls@.len() as int) == vv(ls@));
    out
}


/// What the working tree needs before a checkout changes it.
#[derive(Debug, Clone, Copy, PartialEq, Eq, Structural)]
pub enum DirtyTreeStep {
    /// Nothing: the tree is clean.
    Clean,
    /// Discard the changes (`reset --hard`, `clean -fd`).
    HardReset,
    /// Stash the changes, untracked files included.
    Stash,
}

/// The step for a working tree under a dirty-repository strategy; a dirty
/// tree under `Abort` is a conflict.
pub fn dirty_tree_step(is_dirty: bool, strategy: &crate::models::DirtyRepoStrategy) -> (r: AppResult<DirtyTreeStep>)
    ensures
        !is_dirty ==> r == Ok::<DirtyTreeStep, AppError>(DirtyTreeStep::Clean),
        is_dirty && *strategy == crate::models::DirtyRepoStrategy::Abort ==> (r matches Err(AppError::Conflict(m))
            && m@ == "repository has local changes"@),
        is_dirty && *strategy == crate::models::DirtyRepoStrategy::HardReset ==> r == Ok::<DirtyTreeStep, AppError>(
            DirtyTreeStep::HardReset,
        ),
        is_dirty && *strategy == crate::models::DirtyRepoStrategy::Stash ==> r == Ok::<DirtyTreeStep, AppError>(
            DirtyTreeStep::Stash,
        ),
{
    if !is_dirty {
        return Ok(DirtyTreeStep::Clean);
    }
    match strategy {
        crate::models::DirtyRepoStrategy::Abort => Err(AppError::Conflict(crate::text::owned("repository has local changes"))),
        crate::models::DirtyRepoStrategy::HardReset => Ok(DirtyTreeStep::HardReset),
        crate::models::DirtyRepoStrategy::Stash => Ok(DirtyTreeStep::Stash),
    }
}

/// What a `git stash push` left: nothing where git reported no local
/// changes, else the stash commit, which must have resolved.
pub fn stash_outcome(push_output: &str, stash_id: &str) -> (r: AppResult<Option<String>>)
    ensures
        crate::text::contains_spec(push_output@, "No local changes"@) ==> r matches Ok(None),
        !crate::text::contains_spec(push_output@, "No local changes"@) && stash_id@.len() == 0 ==> (r matches Err(
            AppError::Git(m),
        ) && m@ == "git stash push succeeded but no stash entry could be resolved"@),
        !crate::text::contains_spec(push_output@, "No local changes"@) && stash_id@.len() > 0 ==> (r matches Ok(
            Some(x),
        ) && x@ == stash_id@),
{
    if crate::text::contains_exec(&chars_of(push_output), &chars_of("No local changes")) {
        return Ok(None);
    }
    if stash_id.unicode_len() == 0 {
        return Err(AppError::Git(crate::text::owned("git stash push succeeded but no stash entry could be resolved")));
    }
    Ok(Some(crate::text::owned(stash_id)))
}

/// The prefix of a `git merge-tree` line that names a conflicting file.
pub open spec fn conflict_prefix() -> Seq<char> {
    "CONFLICT (contents): Merge conflict in "@
}

/// The file a `git merge-tree` line reports a content conflict in.
pub open spec fn conflict_path(line: Seq<char>) -> Option<Seq<char>> {
    let t = trim(line);
    if has_prefix(t, conflict_prefix()) {
        Some(trim(t.subrange(conflict_prefix().len() as int, t.len() as int)))
    } else {
        None
    }
}

/// A conflict line reports the text after `CONFLICT (contents): Merge
/// conflict in `, trimmed: a line whose trimmed text is that prefix followed
/// by `p` reports exactly `trim(p)`, and whatever a line reports is the
/// trimmed rest of such a line.
pub proof fn law_conflict_path_is_text_after_prefix(line: Seq<char>, p: Seq<char>, x: Seq<char>)
    ensures
        trim(line) == "CONFLICT (contents): Merge conflict in "@ + p ==> conflict_path(line) == Some(trim(p)),
        conflict_path(line) == Some(x) ==> exists|q: Seq<char>|
            trim(line) == "CONFLICT (contents): Merge conflict in "@ + q && x == trim(q),
{
    let pre = "CONFLICT (contents): Merge conflict in "@;
    let t = trim(line);
    if t == pre + p {
        assert(t.subrange(0, pre.len() as int) =~= pre);
        assert(t.subrange(pre.len() as int, t.len() as int) =~= p);
    }
    if conflict_path(line) == Some(x) {
        let q = t.subrange(pre.len() as int, t.len() as int);
        assert(t =~= pre + q);
    }
}

/// The files with content conflicts that `git merge-tree` output reports,
/// sorted and each once.
pub fn parse_merge_conflicts(output: &str) -> (r: Vec<String>)
    ensures
        crate::ordering::strictly_sorted(strings_view(r@)),
        forall|x: Seq<char>| strings_view(r@).contains(x) <==> exists|i: int|
            0 <= i < lines(output@).len() && conflict_path(#[trigger] lines(output@)[i]) == Some(x),
{
    let ls = split_lines(&chars_of(output));
    let prefix = chars_of("CONFLICT (contents): Merge conflict in ");
    let mut found: Vec<String> = Vec::new();
    let mut i: usize = 0;
    while i < ls.len()
        invariant
            vv(ls@) == lines(output@),
            prefix@ == conflict_prefix(),
            i <= ls.len(),
            forall|x: Seq<char>| strings_view(found@).contains(x) <==> exists|q: int|
                0 <= q < i && conflict_path(#[trigger] vv(ls@)[q]) == Some(x),
        decreases ls.len() - i,
    {
        let ghost f0 = strings_view(found@);
        assert(vv(ls@)[i as int] == ls@[i as int]@);
        let (a, b) = trim_bounds(&ls[i]);
        let t = slice_chars(&ls[i], a, b);
        if starts_with(&t, &prefix) {
            let rest = trimmed_range(&t, prefix.len(), t.len());
            let ghost before = strings_view(found@);
            found.push(string_of(&rest));
            assert(strings_view(found@) == before.push(rest@));
            assert forall|x: Seq<char>| strings_view(found@).contains(x) <==> exists|q: int|
                0 <= q < i + 1 && conflict_path(#[trigger] vv(ls@)[q]) == Some(x) by {
                if strings_view(found@).contains(x) {
                    let k = choose|k: int| 0 <= k < strings_view(found@).len() && strings_view(found@)[k] == x;
                    if k < f0.len() {
                        assert(f0[k] == x);
                        assert(f0.contains(x));
                    } else {
                        assert(conflict_path(vv(ls@)[i as int]) == Some(x));
                    }
                }
                if exists|q: int| 0 <= q < i + 1 && conflict_path(#[trigger] vv(ls@)[q]) == Some(x) {
                    let q = choose|q: int| 0 <= q < i + 1 && conflict_path(#[trigger] vv(ls@)[q]) == Some(x);
                    if q < i {
                        assert(f0.contains(x));
                        let k = choose|k: int| 0 <= k < f0.len() && f0[k] == x;
                        assert(strings_view(found@)[k] == x);
                    } else {
                        assert(strings_view(found@)[f0.len() as int] == x);
                    }
                }
            }
        } else {
            assert forall|x: Seq<char>| strings_view(found@).contains(x) <==> exists|q: int|
                0 <= q < i + 1 && conflict_path(#[trigger] vv(ls@)[q]) == Some(x) by {
                if exists|q: int| 0 <= q < i + 1 && conflict_path(#[trigger] vv(ls@)[q]) == Some(x) {
                    let q = choose|q: int| 0 <= q < i + 1 && conflict_path(#[trigger] vv(ls@)[q]) == Some(x);
                    assert(q != i);
                }
            }
        }
        i = i + 1;
    }
    assert(strings_view(found@) =~= crate::text::sv(found@));
    let ghost fv = found@;
    let r = crate::ordering::sorted_unique(found);
    assert(strings_view(r@) =~= crate::text::sv(r@));
    assert(strings_view(fv) =~= crate::text::sv(fv));
    r
}

/// The UNC path of a Linux path inside a WSL distribution:
/// `\\wsl.localhost\<distro>` for the root, else with the path's
/// components after it, separated by `\`.
pub open spec fn wsl_unc_root_spec(distro: Seq<char>, repo_root: Seq<char>) -> Seq<char> {
    let n = linux_path_spec(repo_root);
    if n == seq!['/'] {
        "\\\\wsl.localhost\\"@ + distro
    } else {
        "\\\\wsl.localhost\\"@ + distro + "\\"@ + replace_char(crate::util::trim_start_char(n, '/'), '/', '\\')
    }
}

pub fn wsl_unc_root(distro: &str, repo_root: &str) -> (r: String)
    ensures
        r@ == wsl_unc_root_spec(distro@, repo_root@),
{
    let n = chars_of(normalize_linux_path(repo_root).as_str());
    let mut r = String::from_str("\\\\wsl.localhost\\");
    push_str(&mut r, distro);
    if n.len() == 1 && n[0] == '/' {
        assert(n@ == seq!['/']);
        return r;
    }
    push_str(&mut r, "\\");
    let rest = crate::util::trim_start_char_exec(&n, '/');
    push_chars(&mut r, &replace_char_exec(&rest, '/', '\\'));
    r
}

} // verus!
