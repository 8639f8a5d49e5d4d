//! Text patterns matched with the `regex` crate.
use vstd::prelude::*;
use crate::text::{find_char, has_char, has_prefix, has_suffix};

verus! {

/// What `^git@github\.com:(?P<owner>[^/]+)/(?P<repo>[^/]+?)(?:\.git)?$`
/// captures: the text after the prefix holds exactly one `/`, with a
/// non-empty owner before it and a non-empty tail after it; the lazy repo
/// group leaves a final `.git` to the optional suffix group wherever
/// something precedes it.
pub open spec fn ssh_remote_parts(s: Seq<char>) -> Option<(Seq<char>, Seq<char>)> {
    let prefix = "git@github.com:"@;
    if !has_prefix(s, prefix) {
        None
    } else {
        let rest = s.subrange(prefix.len() as int, s.len() as int);
        let k = find_char(rest, '/');
        let owner = rest.subrange(0, k);
        if k == 0 || k >= rest.len() {
            None
        } else {
            let tail = rest.subrange(k + 1, rest.len() as int);
            if tail.len() == 0 || has_char(tail, '/') {
                None
            } else if tail.len() > 4 && has_suffix(tail, ".git"@) {
                Some((owner, tail.subrange(0, tail.len() - 4)))
            } else {
                Some((owner, tail))
            }
        }
    }
}

/// Matches `input` against the pattern above with `regex::Regex::captures`
/// and returns the `owner` and `repo` groups. The contract restates the
/// pattern's meaning under the crate's leftmost-first semantics.
#[verifier::external_body]
pub(crate) fn github_ssh_remote(input: &str) -> (r: Option<(String, String)>)
    ensures
        r is None <==> ssh_remote_parts(input@) is None,
        r matches Some(p) ==> ssh_remote_parts(input@) == Some((p.0@, p.1@)),
{
    let re = regex::Regex::new(r"^git@github\.com:(?P<owner>[^/]+)/(?P<repo>[^/]+?)(?:\.git)?$")
        .unwrap();
    let caps = re.captures(input)?;
    Some((caps.name("owner")?.as_str().to_string(), caps.name("repo")?.as_str().to_string()))
}

pub open spec fn is_hex_digit(c: char) -> bool {
    ('0' <= c && c <= '9') || ('a' <= c && c <= 'f') || ('A' <= c && c <= 'F')
}

/// What `^[0-9a-fA-F]{7,40}$` matches: 7 to 40 hexadecimal digits.
pub open spec fn is_sha_like(s: Seq<char>) -> bool {
    7 <= s.len() <= 40 && forall|i: int| 0 <= i < s.len() ==> is_hex_digit(#[trigger] s[i])
}

/// Tests `input` against `^[0-9a-fA-F]{7,40}$` with `regex::Regex::is_match`.
#[verifier::external_body]
pub(crate) fn matches_sha_pattern(input: &str) -> (r: bool)
    ensures
        r == is_sha_like(input@),
{
    regex::Regex::new(r"^[0-9a-fA-F]{7,40}$").unwrap().is_match(input)
}

/// The characters that `[a-z0-9._-]` accepts.
pub open spec fn slug_char(c: char) -> bool {
    ('a' <= c && c <= 'z') || ('0' <= c && c <= '9') || c == '.' || c == '_' || c == '-'
}

/// Every maximal run of characters outside `[a-z0-9._-]` replaced by one `-`.
pub open spec fn collapse_non_slug(s: Seq<char>) -> Seq<char>
    decreases s.len(),
{
    if s.len() == 0 {
        s
    } else if slug_char(s.last()) {
        collapse_non_slug(s.drop_last()).push(s.last())
    } else if s.len() >= 2 && !slug_char(s[s.len() - 2]) {
        collapse_non_slug(s.drop_last())
    } else {
        collapse_non_slug(s.drop_last()).push('-')
    }
}

/// `regex::Regex::replace_all` with pattern `[^a-z0-9._-]+` and replacement
/// `-`: the greedy pattern matches each maximal run of other characters.
#[verifier::external_body]
pub(crate) fn replace_non_slug_runs(input: &str) -> (r: String)
    ensures
        r@ == collapse_non_slug(input@),
{
    regex::Regex::new(r"[^a-z0-9._-]+").unwrap().replace_all(input, "-").into_owned()
}


/// `c` matches the pattern character `x` case-insensitively, as the regex
/// crate's Unicode simple case folding has it for the characters the WSL
/// pattern holds: an ASCII letter matches either case, and `s` also matches
/// `ſ` (U+017F); anything else matches itself.
pub open spec fn folds_to(c: char, x: char) -> bool {
    ||| c == x
    ||| ('a' <= x && x <= 'z' && c as u32 == x as u32 - 32)
    ||| (x == 's' && c == '\u{17F}')
}

/// `s` begins with `p`, compared character by character with `folds_to`.
pub open spec fn has_prefix_folded(s: Seq<char>, p: Seq<char>) -> bool {
    s.len() >= p.len() && forall|i: int| 0 <= i < p.len() ==> folds_to(#[trigger] s[i], p[i])
}

/// The `distro` and `rest` groups of
/// `^(?:\\\\\?\\UNC\\|\\\\)(?:wsl\.localhost|wsl\$)\\(?P<distro>[^\\]+)(?P<rest>\\.*)?$`
/// matched case-insensitively, or `None` where the text does not match: a
/// `\\?\UNC\` or `\\` prefix, the host `wsl.localhost` or `wsl$` and a
/// backslash, then the distribution up to the next backslash (not empty),
/// and the rest from that backslash to the end, which holds no line feed
/// (`.` does not match one).
pub open spec fn wsl_unc_spec(raw: Seq<char>) -> Option<(Seq<char>, Option<Seq<char>>)> {
    let p: int = if has_prefix_folded(raw, seq!['\\', '\\', '?', '\\', 'u', 'n', 'c', '\\']) {
        8
    } else if has_prefix_folded(raw, seq!['\\', '\\']) {
        2
    } else {
        -1
    };
    let after = raw.subrange(p, raw.len() as int);
    let q: int = if p < 0 {
        -1
    } else if has_prefix_folded(after, "wsl.localhost\\"@) {
        p + 14
    } else if has_prefix_folded(after, "wsl$\\"@) {
        p + 5
    } else {
        -1
    };
    let t = raw.subrange(q, raw.len() as int);
    let k = find_char(t, '\\');
    if q < 0 || k == 0 {
        None
    } else if k >= t.len() {
        Some((t, None))
    } else if has_char(t.subrange(k, t.len() as int), '\n') {
        None
    } else {
        Some((t.subrange(0, k), Some(t.subrange(k, t.len() as int))))
    }
}

/// Matches a WSL UNC path with `regex::RegexBuilder` (case-insensitive) and
/// returns its `distro` and `rest` groups, as `wsl_unc_spec` restates the
/// pattern under the crate's leftmost-first semantics.
#[verifier::external_body]
pub(crate) fn wsl_unc_captures(raw: &str) -> (r: Option<(String, Option<String>)>)
    ensures
        r is None <==> wsl_unc_spec(raw@) is None,
        r matches Some(c) ==> wsl_unc_spec(raw@) == Some(
            (
                c.0@,
                match c.1 {
                    Some(x) => Some(x@),
                    None => None,
                },
            ),
        ),
{
    let re = regex::RegexBuilder::new(
        r"^(?:\\\\\?\\UNC\\|\\\\)(?:wsl\.localhost|wsl\$)\\(?P<distro>[^\\]+)(?P<rest>\\.*)?$",
    )
    .case_insensitive(true)
    .build()
    .unwrap();
    let caps = re.captures(raw)?;
    let distro = caps.name("distro")?.as_str().to_string();
    let rest = caps.name("rest").map(|m| m.as_str().to_string());
    Some((distro, rest))
}

} // verus!
