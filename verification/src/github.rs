//! Reading GitHub URLs and raw refs into resolved targets.
use vstd::prelude::*;
use crate::errors::{AppError, AppResult};
use crate::git::{nonempty_segments, nonempty_strings};
use crate::patterns::{is_sha_like, matches_sha_pattern};
use crate::text::{
    chars_eq, chars_of, eq_ignore_ascii_case, eq_ignore_ascii_case_chars, owned, push_char,
    push_str, slice_chars, str_eq, string_of, strip_suffix_all, strip_suffix_all_chars, sv,
};
use crate::urls::{parse_url, parsed_url, strings_view};
use crate::git::{canonical_remote, canonicalize_remote};
use crate::models::{ResolvedTarget, TargetKind};
use crate::text::{decimal, find_last_char, ov, rfind_char_end, trim, trim_str, u64_decimal};
use crate::util::{slug_spec, slugify};

verus! {

/// The non-empty path segments of a `github.com` URL.
pub open spec fn github_segments(input: Seq<char>) -> Option<Seq<Seq<char>>> {
    match parsed_url(input) {
        Some((Some(host), Some(segs))) => if eq_ignore_ascii_case(host, "github.com"@) {
            Some(nonempty_segments(segs))
        } else {
            None
        },
        _ => None,
    }
}

fn github_path_segments(input: &str) -> (r: Option<Vec<String>>)
    ensures
        r is None <==> github_segments(input@) is None,
        r matches Some(v) ==> github_segments(input@) == Some(sv(v@)),
{
    let parts = match parse_url(input) {
        Some(p) => p,
        None => return None,
    };
    let host = match parts.host {
        Some(h) => h,
        None => return None,
    };
    let segments = match parts.segments {
        Some(s) => s,
        None => return None,
    };
    if !eq_ignore_ascii_case_chars(&chars_of(host.as_str()), &chars_of("github.com")) {
        return None;
    }
    let r = nonempty_strings(&segments);
    assert(strings_view(r@) == sv(r@));
    Some(r)
}

/// A repository segment without trailing `.git`.
pub open spec fn repo_segment(s: Seq<char>) -> Seq<char> {
    strip_suffix_all(s, ".git"@)
}

fn repo_segment_exec(s: &String) -> (r: String)
    ensures
        r@ == repo_segment(s@),
{
    string_of(&strip_suffix_all_chars(&chars_of(s.as_str()), &chars_of(".git")))
}

#[derive(Debug, Clone)]
pub struct RepoUrlParts {
    pub owner: String,
    pub repo: String,
}

#[derive(Debug, Clone)]
pub struct BranchUrlParts {
    pub owner: String,
    pub repo: String,
    pub branch: String,
}

#[derive(Debug, Clone)]
pub struct CommitUrlParts {
    pub owner: String,
    pub repo: String,
    pub sha: String,
}

#[derive(Debug, Clone)]
pub struct PrUrlParts {
    pub owner: String,
    pub repo: String,
    pub number: u64,
}

/// `https://github.com/<owner>/<repo>`: exactly two path segments.
pub open spec fn repo_url_spec(input: Seq<char>) -> Option<(Seq<char>, Seq<char>)> {
    match github_segments(input) {
        Some(segs) => if segs.len() == 2 {
            Some((segs[0], repo_segment(segs[1])))
        } else {
            None
        },
        None => None,
    }
}

pub fn parse_repo_url(input: &str) -> (r: Option<RepoUrlParts>)
    ensures
        r is None <==> repo_url_spec(input@) is None,
        r matches Some(p) ==> repo_url_spec(input@) == Some((p.owner@, p.repo@)),
{
    let segs = github_path_segments(input)?;
    if segs.len() == 2 {
        Some(RepoUrlParts { owner: segs[0].clone(), repo: repo_segment_exec(&segs[1]) })
    } else {
        None
    }
}

/// Segments joined with `/`.
pub open spec fn join_slash(segs: Seq<Seq<char>>) -> Seq<char>
    decreases segs.len(),
{
    if segs.len() == 0 {
        Seq::empty()
    } else if segs.len() == 1 {
        segs[0]
    } else {
        join_slash(segs.drop_last()) + seq!['/'] + segs.last()
    }
}

/// The strings of `v[from..]` joined with `/`.
pub fn join_slash_from(v: &Vec<String>, from: usize) -> (r: String)
    requires
        from <= v.len(),
    ensures
        r@ == join_slash(sv(v@).subrange(from as int, v.len() as int)),
{
    let mut r = String::new();
    let mut i = from;
    while i < v.len()
        invariant
            from <= i <= v.len(),
            r@ == join_slash(sv(v@).subrange(from as int, i as int)),
        decreases v.len() - i,
    {
        let ghost part = sv(v@).subrange(from as int, i + 1);
        assert(part.drop_last() == sv(v@).subrange(from as int, i as int));
        if i > from {
            push_char(&mut r, '/');
        }
        push_str(&mut r, v[i].as_str());
        i = i + 1;
    }
    r
}

/// `https://github.com/<owner>/<repo>/tree/<ref...>`; the ref keeps every
/// remaining segment.
pub open spec fn branch_url_spec(input: Seq<char>) -> Option<(Seq<char>, Seq<char>, Seq<char>)> {
    match github_segments(input) {
        Some(segs) => if segs.len() >= 4 && segs[2] == "tree"@ {
            Some((segs[0], repo_segment(segs[1]), join_slash(segs.subrange(3, segs.len() as int))))
        } else {
            None
        },
        None => None,
    }
}

pub fn parse_branch_url(input: &str) -> (r: Option<BranchUrlParts>)
    ensures
        r is None <==> branch_url_spec(input@) is None,
        r matches Some(p) ==> branch_url_spec(input@) == Some((p.owner@, p.repo@, p.branch@)),
{
    let segs = github_path_segments(input)?;
    if segs.len() >= 4 && str_eq(segs[2].as_str(), "tree") {
        Some(
            BranchUrlParts {
                owner: segs[0].clone(),
                repo: repo_segment_exec(&segs[1]),
                branch: join_slash_from(&segs, 3),
            },
        )
    } else {
        None
    }
}

/// `https://github.com/<owner>/<repo>/commit/<sha>`.
pub open spec fn commit_url_spec(input: Seq<char>) -> Option<(Seq<char>, Seq<char>, Seq<char>)> {
    match github_segments(input) {
        Some(segs) => if segs.len() == 4 && segs[2] == "commit"@ {
            Some((segs[0], repo_segment(segs[1]), segs[3]))
        } else {
            None
        },
        None => None,
    }
}

pub fn parse_commit_url(input: &str) -> (r: Option<CommitUrlParts>)
    ensures
        r is None <==> commit_url_spec(input@) is None,
        r matches Some(p) ==> commit_url_spec(input@) == Some((p.owner@, p.repo@, p.sha@)),
{
    let segs = github_path_segments(input)?;
    if segs.len() == 4 && str_eq(segs[2].as_str(), "commit") {
        Some(
            CommitUrlParts {
                owner: segs[0].clone(),
                repo: repo_segment_exec(&segs[1]),
                sha: segs[3].clone(),
            },
        )
    } else {
        None
    }
}

/// A `github.com` commit URL names its commit by the whole last segment:
/// for the non-empty path segments `[owner, repo, "commit", sha]` the parsed
/// owner is `owner`, the repository is `repo` without trailing `.git`, and
/// the sha is `sha` exactly, however long.
pub proof fn law_commit_url_keeps_full_sha(input: Seq<char>, owner: Seq<char>, repo: Seq<char>, sha: Seq<char>)
    requires
        github_segments(input) == Some(seq![owner, repo, "commit"@, sha]),
    ensures
        commit_url_spec(input) == Some((owner, strip_suffix_all(repo, ".git"@), sha)),
{
    let segs = seq![owner, repo, "commit"@, sha];
    assert(segs.len() == 4 && segs[2] == "commit"@ && segs[0] == owner && segs[1] == repo && segs[3] == sha);
}

/// The value of a decimal digit string.
pub open spec fn digits_value(s: Seq<char>) -> nat
    decreases s.len(),
{
    if s.len() == 0 {
        0
    } else {
        digits_value(s.drop_last()) * 10 + ((s.last() as u32) - 48) as nat
    }
}

pub open spec fn all_digits(s: Seq<char>) -> bool {
    forall|i: int| 0 <= i < s.len() ==> '0' <= #[trigger] s[i] && s[i] <= '9'
}

/// What `<u64 as FromStr>::from_str` accepts: an optional `+`, then one or
/// more decimal digits whose value fits in 64 bits.
pub open spec fn parse_u64_spec(s: Seq<char>) -> Option<u64> {
    let d = if s.len() > 0 && s[0] == '+' {
        s.drop_first()
    } else {
        s
    };
    if d.len() > 0 && all_digits(d) && digits_value(d) <= u64::MAX {
        Some(digits_value(d) as u64)
    } else {
        None
    }
}

#[verifier::loop_isolation(false)]
pub fn parse_u64(s: &str) -> (r: Option<u64>)
    ensures
        r == parse_u64_spec(s@),
{
    let v = chars_of(s);
    let start: usize = if v.len() > 0 && v[0] == '+' {
        1
    } else {
        0
    };
    let d = slice_chars(&v, start, v.len());
    assert(start == 1 ==> d@ == v@.drop_first());
    assert(start == 0 ==> d@ == v@);
    if d.len() == 0 {
        return None;
    }
    let mut value: u64 = 0;
    let mut i: usize = 0;
    while i < d.len()
        invariant
            i <= d.len(),
            forall|k: int| 0 <= k < i ==> '0' <= #[trigger] d@[k] && d@[k] <= '9',
            value == digits_value(d@.subrange(0, i as int)),
        decreases d.len() - i,
    {
        let c = d[i];
        if !('0' <= c && c <= '9') {
            return None;
        }
        assert(d@.subrange(0, i + 1).drop_last() == d@.subrange(0, i as int));
        let digit = (c as u32 - 48) as u64;
        if value > (u64::MAX - digit) / 10 {
            proof {
                assert(value * 10 + digit > u64::MAX) by (nonlinear_arith)
                    requires
                        value > (u64::MAX - digit) / 10,
                        digit <= 9,
                ;
                assert(all_digits(d@.subrange(0, i + 1)));
                lemma_digits_value_monotone(d@, i + 1);
            }
            return None;
        }
        value = value * 10 + digit;
        i = i + 1;
    }
    assert(d@.subrange(0, d.len() as int) == d@);
    Some(value)
}

/// A longer digit prefix never has a smaller value.
pub proof fn lemma_digits_value_monotone(s: Seq<char>, n: int)
    requires
        0 <= n <= s.len(),
        all_digits(s.subrange(0, n)),
    ensures
        digits_value(s.subrange(0, n)) <= digits_value(s) || !all_digits(s),
    decreases s.len() - n,
{
    if n < s.len() && all_digits(s) {
        assert(s.subrange(0, n + 1).drop_last() == s.subrange(0, n));
        assert(all_digits(s.subrange(0, n + 1)));
        lemma_digits_value_monotone(s, n + 1);
    } else if n == s.len() {
        assert(s.subrange(0, n) == s);
    }
}

/// `https://github.com/<owner>/<repo>/pull/<number>`.
pub open spec fn pr_url_spec(input: Seq<char>) -> Option<(Seq<char>, Seq<char>, u64)> {
    match github_segments(input) {
        Some(segs) => if segs.len() == 4 && segs[2] == "pull"@ && parse_u64_spec(segs[3]) is Some {
            Some((segs[0], repo_segment(segs[1]), parse_u64_spec(segs[3])->0))
        } else {
            None
        },
        None => None,
    }
}

pub fn parse_pr_url(input: &str) -> (r: Option<PrUrlParts>)
    ensures
        r is None <==> pr_url_spec(input@) is None,
        r matches Some(p) ==> pr_url_spec(input@) == Some((p.owner@, p.repo@, p.number)),
{
    let segs = github_path_segments(input)?;
    if segs.len() == 4 && str_eq(segs[2].as_str(), "pull") {
        let number = parse_u64(segs[3].as_str())?;
        Some(PrUrlParts { owner: segs[0].clone(), repo: repo_segment_exec(&segs[1]), number })
    } else {
        None
    }
}

/// A raw ref that looks like an abbreviated or full commit id.
pub fn is_probable_sha(input: &str) -> (r: bool)
    ensures
        r == is_sha_like(input@),
{
    matches_sha_pattern(input)
}

/// The first seven characters of a commit id (all of a shorter one).
pub open spec fn short_sha_spec(s: Seq<char>) -> Seq<char> {
    if s.len() <= 7 {
        s
    } else {
        s.subrange(0, 7)
    }
}

pub fn short_sha(input: &str) -> (r: String)
    ensures
        r@ == short_sha_spec(input@),
{
    let v = chars_of(input);
    let n = if v.len() <= 7 {
        v.len()
    } else {
        7
    };
    assert(v@.subrange(0, v.len() as int) == v@);
    string_of(&slice_chars(&v, 0, n))
}


/// The fields of a resolved target, compared by view.
pub open spec fn target_is(
    t: ResolvedTarget,
    source: Seq<char>,
    kind: TargetKind,
    canonical: Seq<char>,
    fetch: Seq<char>,
    checkout: Seq<char>,
    sha: Option<Seq<char>>,
    pr: Option<(u64, Seq<char>, Seq<char>, Seq<char>, Seq<char>)>,
    summary: Seq<char>,
    dir: Seq<char>,
) -> bool {
    &&& t.source_input@ == source
    &&& t.target_kind == kind
    &&& t.canonical_repo_url@ == canonical
    &&& t.fetch_url@ == fetch
    &&& t.checkout_ref@ == checkout
    &&& ov(t.resolved_sha) == sha
    &&& match pr {
        Some((n, base_url, base_ref, head_url, head_ref)) => {
            &&& t.pr_number == Some(n)
            &&& ov(t.pr_base_repo_url) == Some(base_url)
            &&& ov(t.pr_base_ref) == Some(base_ref)
            &&& ov(t.pr_head_repo_url) == Some(head_url)
            &&& ov(t.pr_head_ref) == Some(head_ref)
        },
        None => {
            &&& t.pr_number is None
            &&& t.pr_base_repo_url is None
            &&& t.pr_base_ref is None
            &&& t.pr_head_repo_url is None
            &&& t.pr_head_ref is None
        },
    }
    &&& t.summary_label@ == summary
    &&& t.suggested_local_dir_name@ == dir
}

/// The kind of text a target was given as.
pub enum TargetInput {
    Empty,
    Pr(PrUrlParts),
    Tree(BranchUrlParts),
    Commit(CommitUrlParts),
    Repo(RepoUrlParts),
    Raw,
}

/// Reads a trimmed target input: a pull-request, tree, commit or repository
/// URL, in that order of precedence, else a raw ref.
pub fn classify_target_input(input: &str) -> (r: TargetInput)
    ensures
        ({
            let t = trim(input@);
            if t.len() == 0 {
                r is Empty
            } else if pr_url_spec(t) is Some {
                r matches TargetInput::Pr(p) && pr_url_spec(t) == Some((p.owner@, p.repo@, p.number))
            } else if branch_url_spec(t) is Some {
                r matches TargetInput::Tree(p) && branch_url_spec(t) == Some(
                    (p.owner@, p.repo@, p.branch@),
                )
            } else if commit_url_spec(t) is Some {
                r matches TargetInput::Commit(p) && commit_url_spec(t) == Some(
                    (p.owner@, p.repo@, p.sha@),
                )
            } else if repo_url_spec(t) is Some {
                r matches TargetInput::Repo(p) && repo_url_spec(t) == Some((p.owner@, p.repo@))
            } else {
                r is Raw
            }
        }),
{
    let t = trim_str(input);
    if chars_of(t.as_str()).len() == 0 {
        return TargetInput::Empty;
    }
    if let Some(p) = parse_pr_url(t.as_str()) {
        return TargetInput::Pr(p);
    }
    if let Some(p) = parse_branch_url(t.as_str()) {
        return TargetInput::Tree(p);
    }
    if let Some(p) = parse_commit_url(t.as_str()) {
        return TargetInput::Commit(p);
    }
    if let Some(p) = parse_repo_url(t.as_str()) {
        return TargetInput::Repo(p);
    }
    TargetInput::Raw
}

/// What the GitHub API reports of a pull request.
#[derive(Debug, Clone)]
pub struct PullInfo {
    pub number: u64,
    pub head_sha: String,
    pub head_ref: String,
    pub head_repo_html_url: String,
    pub base_ref: String,
    pub base_repo_clone_url: String,
    pub base_repo_html_url: String,
}

fn github_error(m: &str) -> (r: AppError)
    ensures
        r matches AppError::Github(x) && x@ == m@,
{
    AppError::Github(owned(m))
}

fn invalid_input(m: String) -> (r: AppError)
    ensures
        r == AppError::InvalidInput(m),
{
    AppError::InvalidInput(m)
}

fn concat2(a: &str, b: &str) -> (r: String)
    ensures
        r@ == a@ + b@,
{
    let mut r = owned(a);
    push_str(&mut r, b);
    r
}

/// The target for a pull request: its head commit, fetched from the base
/// repository under `patcher/pr-<n>`.
pub fn target_from_pr(source: &str, pr: &PrUrlParts, pull: &PullInfo) -> (r: AppResult<ResolvedTarget>)
    ensures
        match (canonical_remote(pull.base_repo_html_url@), canonical_remote(pull.head_repo_html_url@)) {
            (None, _) => r matches Err(AppError::Github(m)) && m@
                == "could not canonicalize PR base repo"@,
            (Some(_), None) => r matches Err(AppError::Github(m)) && m@
                == "could not canonicalize PR head repo"@,
            (Some(base), Some(head)) => r matches Ok(t) && target_is(
            t,
            source@,
            TargetKind::Pr,
            base,
            pull.base_repo_clone_url@,
            "patcher/pr-"@ + decimal(pr.number as nat),
            Some(pull.head_sha@),
            Some((pr.number, base, pull.base_ref@, head, pull.head_ref@)),
            "PR #"@ + decimal(pull.number as nat) + " @ "@ + short_sha_spec(pull.head_sha@),
            slug_spec(pr.repo@),
            ),
        },
{
    let canonical = match canonicalize_remote(pull.base_repo_html_url.as_str()) {
        Some(c) => c,
        None => return Err(github_error("could not canonicalize PR base repo")),
    };
    let head_url = match canonicalize_remote(pull.head_repo_html_url.as_str()) {
        Some(c) => c,
        None => return Err(github_error("could not canonicalize PR head repo")),
    };
    let mut summary = owned("PR #");
    push_str(&mut summary, u64_decimal(pull.number).as_str());
    push_str(&mut summary, " @ ");
    push_str(&mut summary, short_sha(pull.head_sha.as_str()).as_str());
    Ok(ResolvedTarget {
        source_input: owned(source),
        target_kind: TargetKind::Pr,
        canonical_repo_url: canonical.clone(),
        fetch_url: pull.base_repo_clone_url.clone(),
        checkout_ref: concat2("patcher/pr-", u64_decimal(pr.number).as_str()),
        resolved_sha: Some(pull.head_sha.clone()),
        pr_number: Some(pr.number),
        pr_base_repo_url: Some(canonical),
        pr_base_ref: Some(pull.base_ref.clone()),
        pr_head_repo_url: Some(head_url),
        pr_head_ref: Some(pull.head_ref.clone()),
        summary_label: summary,
        suggested_local_dir_name: slugify(pull_repo_name(pr).as_str()),
    })
}

fn pull_repo_name(pr: &PrUrlParts) -> (r: String)
    ensures
        r@ == pr.repo@,
{
    pr.repo.clone()
}

/// `https://github.com/<owner>/<repo>` as written in the URL.
pub open spec fn plain_repo_url(owner: Seq<char>, repo: Seq<char>) -> Seq<char> {
    "https://github.com/"@ + owner + "/"@ + repo
}

fn plain_repo_url_exec(owner: &str, repo: &str) -> (r: String)
    ensures
        r@ == plain_repo_url(owner@, repo@),
{
    let mut r = owned("https://github.com/");
    push_str(&mut r, owner);
    push_str(&mut r, "/");
    push_str(&mut r, repo);
    r
}

/// The label of a branch or tag target: `branch x`, `tag x`, else `ref x`.
pub open spec fn ref_label(kind: TargetKind, name: Seq<char>) -> Seq<char> {
    match kind {
        TargetKind::Branch => "branch "@ + name,
        TargetKind::Tag => "tag "@ + name,
        _ => "ref "@ + name,
    }
}

fn ref_label_exec(kind: TargetKind, name: &str) -> (r: String)
    ensures
        r@ == ref_label(kind, name@),
{
    match kind {
        TargetKind::Branch => concat2("branch ", name),
        TargetKind::Tag => concat2("tag ", name),
        _ => concat2("ref ", name),
    }
}

/// The target for a tree URL whose ref resolved to `kind` named `checkout_ref`.
pub fn target_from_tree(source: &str, tree: &BranchUrlParts, kind: TargetKind, checkout_ref: &str) -> (r:
    ResolvedTarget)
    ensures
        target_is(
            r,
            source@,
            kind,
            plain_repo_url(tree.owner@, tree.repo@),
            plain_repo_url(tree.owner@, tree.repo@) + ".git"@,
            checkout_ref@,
            None,
            None,
            ref_label(kind, checkout_ref@) + " @ "@ + tree.owner@ + "/"@ + tree.repo@,
            slug_spec(tree.repo@),
        ),
{
    let canonical = plain_repo_url_exec(tree.owner.as_str(), tree.repo.as_str());
    let fetch = concat2(canonical.as_str(), ".git");
    let mut summary = ref_label_exec(kind, checkout_ref);
    push_str(&mut summary, " @ ");
    push_str(&mut summary, tree.owner.as_str());
    push_str(&mut summary, "/");
    push_str(&mut summary, tree.repo.as_str());
    ResolvedTarget {
        source_input: owned(source),
        target_kind: kind,
        canonical_repo_url: canonical,
        fetch_url: fetch,
        checkout_ref: owned(checkout_ref),
        resolved_sha: None,
        pr_number: None,
        pr_base_repo_url: None,
        pr_base_ref: None,
        pr_head_repo_url: None,
        pr_head_ref: None,
        summary_label: summary,
        suggested_local_dir_name: slugify(tree.repo.as_str()),
    }
}

/// The target for a commit URL.
pub fn target_from_commit(source: &str, commit: &CommitUrlParts) -> (r: ResolvedTarget)
    ensures
        target_is(
            r,
            source@,
            TargetKind::Commit,
            plain_repo_url(commit.owner@, commit.repo@),
            plain_repo_url(commit.owner@, commit.repo@) + ".git"@,
            commit.sha@,
            Some(commit.sha@),
            None,
            "commit "@ + short_sha_spec(commit.sha@),
            slug_spec(commit.repo@),
        ),
{
    let canonical = plain_repo_url_exec(commit.owner.as_str(), commit.repo.as_str());
    let fetch = concat2(canonical.as_str(), ".git");
    ResolvedTarget {
        source_input: owned(source),
        target_kind: TargetKind::Commit,
        canonical_repo_url: canonical,
        fetch_url: fetch,
        checkout_ref: commit.sha.clone(),
        resolved_sha: Some(commit.sha.clone()),
        pr_number: None,
        pr_base_repo_url: None,
        pr_base_ref: None,
        pr_head_repo_url: None,
        pr_head_ref: None,
        summary_label: concat2("commit ", short_sha(commit.sha.as_str()).as_str()),
        suggested_local_dir_name: slugify(commit.repo.as_str()),
    }
}

/// The target for a repository URL: its default branch, with the canonical
/// URL and clone URL that the GitHub API reported.
pub fn target_from_repo_metadata(source: &str, repo: &RepoUrlParts, clone_url: &str, default_branch: &str) -> (r:
    AppResult<ResolvedTarget>)
    ensures
        canonical_remote(clone_url@) is None ==> (r matches Err(AppError::Github(m)) && m@
            == "could not canonicalize repository URL"@),
        canonical_remote(clone_url@) matches Some(c) ==> (r matches Ok(t) && target_is(
            t,
            source@,
            TargetKind::DefaultBranch,
            c,
            clone_url@,
            default_branch@,
            None,
            None,
            "default branch "@ + default_branch@,
            slug_spec(repo.repo@),
        )),
{
    let canonical = match canonicalize_remote(clone_url) {
        Some(c) => c,
        None => return Err(github_error("could not canonicalize repository URL")),
    };
    Ok(ResolvedTarget {
        source_input: owned(source),
        target_kind: TargetKind::DefaultBranch,
        canonical_repo_url: canonical,
        fetch_url: owned(clone_url),
        checkout_ref: owned(default_branch),
        resolved_sha: None,
        pr_number: None,
        pr_base_repo_url: None,
        pr_base_ref: None,
        pr_head_repo_url: None,
        pr_head_ref: None,
        summary_label: concat2("default branch ", default_branch),
        suggested_local_dir_name: slugify(repo.repo.as_str()),
    })
}

/// The canonical URL of a repository URL's owner and name, and its fetch URL.
pub fn repo_fetch_url(repo: &RepoUrlParts) -> (r: AppResult<(String, String)>)
    ensures
        canonical_remote(plain_repo_url(repo.owner@, repo.repo@)) is None ==> (r matches Err(
            AppError::Github(m),
        ) && m@ == "could not canonicalize repository URL"@),
        canonical_remote(plain_repo_url(repo.owner@, repo.repo@)) matches Some(c) ==> (r matches Ok(
            p,
        ) && p.0@ == c && p.1@ == c + ".git"@),
{
    let url = plain_repo_url_exec(repo.owner.as_str(), repo.repo.as_str());
    match canonicalize_remote(url.as_str()) {
        Some(c) => {
            let fetch = concat2(c.as_str(), ".git");
            Ok((c, fetch))
        },
        None => Err(github_error("could not canonicalize repository URL")),
    }
}

/// The target for a repository URL whose default branch came from
/// `git ls-remote` because the API failed.
pub fn target_from_repo_default_branch(source: &str, repo: &RepoUrlParts, canonical: &str, fetch_url: &str, default_branch: &str) -> (r:
    ResolvedTarget)
    ensures
        target_is(
            r,
            source@,
            TargetKind::DefaultBranch,
            canonical@,
            fetch_url@,
            default_branch@,
            None,
            None,
            "default branch "@ + default_branch@,
            slug_spec(repo.repo@),
        ),
{
    ResolvedTarget {
        source_input: owned(source),
        target_kind: TargetKind::DefaultBranch,
        canonical_repo_url: owned(canonical),
        fetch_url: owned(fetch_url),
        checkout_ref: owned(default_branch),
        resolved_sha: None,
        pr_number: None,
        pr_base_repo_url: None,
        pr_base_ref: None,
        pr_head_repo_url: None,
        pr_head_ref: None,
        summary_label: concat2("default branch ", default_branch),
        suggested_local_dir_name: slugify(repo.repo.as_str()),
    }
}

/// The error when neither the API nor `git ls-remote` gave a default branch.
pub fn default_branch_unresolved(api_error: &AppError, git_error: Option<&AppError>) -> (r: AppError)
    ensures
        r matches AppError::Github(m) && m@ == match git_error {
            Some(g) => "could not resolve repository default branch via GitHub API ("@
                + crate::errors::error_text(*api_error) + ") or git ls-remote HEAD ("@
                + crate::errors::error_text(*g) + ")"@,
            None => "could not resolve repository default branch via GitHub API ("@
                + crate::errors::error_text(*api_error) + ") or git ls-remote HEAD"@,
        },
{
    let mut m = owned("could not resolve repository default branch via GitHub API (");
    push_str(&mut m, api_error.message().as_str());
    match git_error {
        Some(g) => {
            push_str(&mut m, ") or git ls-remote HEAD (");
            push_str(&mut m, g.message().as_str());
            push_str(&mut m, ")");
        },
        None => push_str(&mut m, ") or git ls-remote HEAD"),
    }
    AppError::Github(m)
}

/// The text after the last `/` (all of it where there is none).
pub open spec fn last_segment(s: Seq<char>) -> Seq<char> {
    s.subrange(find_last_char(s, '/') + 1, s.len() as int)
}

fn last_segment_exec(s: &str) -> (r: String)
    ensures
        r@ == last_segment(s@),
{
    let v = chars_of(s);
    let j = rfind_char_end(&v, '/');
    string_of(&slice_chars(&v, j, v.len()))
}

/// The target for a raw branch or tag name found on the current origin.
pub fn target_from_raw_ref(source: &str, kind: TargetKind, current_remote: Option<&str>) -> (r:
    AppResult<ResolvedTarget>)
    ensures
        current_remote is None ==> (r matches Err(AppError::InvalidInput(m)) && m@
            == "missing current repository remote"@),
        current_remote matches Some(c) ==> (r matches Ok(t) && target_is(
            t,
            source@,
            kind,
            c@,
            c@ + ".git"@,
            source@,
            None,
            None,
            ref_label(kind, source@),
            last_segment(c@),
        )),
{
    let remote = match current_remote {
        Some(c) => c,
        None => return Err(invalid_input(owned("missing current repository remote"))),
    };
    Ok(ResolvedTarget {
        source_input: owned(source),
        target_kind: kind,
        canonical_repo_url: owned(remote),
        fetch_url: concat2(remote, ".git"),
        checkout_ref: owned(source),
        resolved_sha: None,
        pr_number: None,
        pr_base_repo_url: None,
        pr_base_ref: None,
        pr_head_repo_url: None,
        pr_head_ref: None,
        summary_label: ref_label_exec(kind, source),
        suggested_local_dir_name: last_segment_exec(remote),
    })
}

/// The target for a raw commit id on the current origin.
pub fn target_from_raw_sha(source: &str, current_remote: Option<&str>) -> (r: AppResult<
    ResolvedTarget,
>)
    ensures
        current_remote is None ==> (r matches Err(AppError::InvalidInput(m)) && m@
            == "raw commit SHA requires an existing repository context"@),
        current_remote matches Some(c) ==> (r matches Ok(t) && target_is(
            t,
            source@,
            TargetKind::Commit,
            c@,
            c@ + ".git"@,
            source@,
            Some(source@),
            None,
            "commit "@ + short_sha_spec(source@),
            last_segment(c@),
        )),
{
    let remote = match current_remote {
        Some(c) => c,
        None => return Err(
            invalid_input(owned("raw commit SHA requires an existing repository context")),
        ),
    };
    Ok(ResolvedTarget {
        source_input: owned(source),
        target_kind: TargetKind::Commit,
        canonical_repo_url: owned(remote),
        fetch_url: concat2(remote, ".git"),
        checkout_ref: owned(source),
        resolved_sha: Some(owned(source)),
        pr_number: None,
        pr_base_repo_url: None,
        pr_base_ref: None,
        pr_head_repo_url: None,
        pr_head_ref: None,
        summary_label: concat2("commit ", short_sha(source).as_str()),
        suggested_local_dir_name: last_segment_exec(remote),
    })
}

/// The error for a raw ref that origin does not know.
pub fn unresolved_raw_ref(source: &str) -> (r: AppError)
    ensures
        r matches AppError::InvalidInput(m) && m@ == "could not resolve branch, tag, or commit '"@
            + source@ + "' against origin"@,
{
    let mut m = owned("could not resolve branch, tag, or commit '");
    push_str(&mut m, source);
    push_str(&mut m, "' against origin");
    AppError::InvalidInput(m)
}

/// The error for a raw name given without a repository to look it up in.
pub fn raw_ref_needs_repository() -> (r: AppError)
    ensures
        r matches AppError::InvalidInput(m) && m@
            == "raw branch or tag names require an existing repository context; use a GitHub URL for new custom nodes"@,
{
    invalid_input(
        owned(
            "raw branch or tag names require an existing repository context; use a GitHub URL for new custom nodes",
        ),
    )
}

/// The error for an empty target input.
pub fn empty_target_input() -> (r: AppError)
    ensures
        r matches AppError::InvalidInput(m) && m@ == "target input is empty"@,
{
    invalid_input(owned("target input is empty"))
}


/// The refs a tree URL's tail may name, longest first: `a/b/c`, `a/b`, `a`.
pub open spec fn tree_ref_candidates_spec(tail: Seq<char>) -> Seq<Seq<char>> {
    let parts = nonempty_segments(crate::text::split_on(tail, '/'));
    Seq::new(parts.len(), |k: int| join_slash(parts.subrange(0, parts.len() - k)))
}

/// The candidate refs to look up for a tree URL's tail, longest first; an
/// error where the tail names nothing.
pub fn tree_ref_candidates(tail: &str) -> (r: AppResult<Vec<String>>)
    ensures
        tree_ref_candidates_spec(tail@).len() == 0 ==> (r matches Err(AppError::InvalidInput(m))
            && m@ == "GitHub tree URL is missing the target branch or tag"@),
        tree_ref_candidates_spec(tail@).len() > 0 ==> (r matches Ok(v) && sv(v@)
            == tree_ref_candidates_spec(tail@)),
{
    let pieces = crate::text::split_on_exec(&chars_of(tail), '/');
    let parts = nonempty_strings(&pieces);
    assert(sv(parts@) == nonempty_segments(crate::text::split_on(tail@, '/')));
    if parts.len() == 0 {
        return Err(invalid_input(owned("GitHub tree URL is missing the target branch or tag")));
    }
    let mut out: Vec<String> = Vec::new();
    let mut end = parts.len();
    while end > 0
        invariant
            end <= parts.len(),
            sv(parts@) == nonempty_segments(crate::text::split_on(tail@, '/')),
            sv(out@) == tree_ref_candidates_spec(tail@).subrange(0, parts.len() - end),
        decreases end,
    {
        let ghost before = sv(out@);
        let joined = join_slash_prefix(&parts, end);
        out.push(joined);
        assert(sv(out@) == before.push(joined@));
        assert(tree_ref_candidates_spec(tail@)[parts.len() - end] == joined@);
        assert(tree_ref_candidates_spec(tail@).subrange(0, parts.len() - end + 1)
            == tree_ref_candidates_spec(tail@).subrange(0, parts.len() - end).push(joined@));
        end = end - 1;
    }
    assert(tree_ref_candidates_spec(tail@).subrange(0, parts.len() as int) == tree_ref_candidates_spec(tail@));
    Ok(out)
}

/// The first `n` strings of `v` joined with `/`.
fn join_slash_prefix(v: &Vec<String>, n: usize) -> (r: String)
    requires
        n <= v.len(),
    ensures
        r@ == join_slash(sv(v@).subrange(0, n as int)),
{
    let mut r = String::new();
    let mut i: usize = 0;
    while i < n
        invariant
            i <= n <= v.len(),
            r@ == join_slash(sv(v@).subrange(0, i as int)),
        decreases n - i,
    {
        assert(sv(v@).subrange(0, i + 1).drop_last() == sv(v@).subrange(0, i as int));
        if i > 0 {
            push_char(&mut r, '/');
        }
        push_str(&mut r, v[i].as_str());
        i = i + 1;
    }
    r
}

/// The error for a tree URL whose tail names no ref of the remote.
pub fn unresolved_tree_ref(tail: &str) -> (r: AppError)
    ensures
        r matches AppError::InvalidInput(m) && m@ == "could not resolve tree URL target '"@ + tail@
            + "' against remote refs"@,
{
    let mut m = owned("could not resolve tree URL target '");
    push_str(&mut m, tail);
    push_str(&mut m, "' against remote refs");
    AppError::InvalidInput(m)
}

/// The next step of looking a ref name up among `count` candidates: each
/// candidate in order is asked for as a branch, then as a tag.
#[derive(Debug)]
pub enum RefLookupStep {
    /// Ask whether candidate `.0` is listed as a branch (`.1`) or as a tag.
    Probe(usize, bool),
    /// Candidate `.0` is a ref of this kind.
    Found(usize, TargetKind),
    /// No candidate is a branch or a tag.
    Exhausted,
}

/// The step after asking `last` (none yet where `None`), whose answer was
/// `listed`.
pub open spec fn ref_lookup_next_spec(count: nat, last: Option<(usize, bool)>, listed: bool) -> RefLookupStep {
    match last {
        None => if count == 0 {
            RefLookupStep::Exhausted
        } else {
            RefLookupStep::Probe(0, true)
        },
        Some((i, true)) => if listed {
            RefLookupStep::Found(i, TargetKind::Branch)
        } else {
            RefLookupStep::Probe(i, false)
        },
        Some((i, false)) => if listed {
            RefLookupStep::Found(i, TargetKind::Tag)
        } else if i + 1 < count {
            RefLookupStep::Probe((i + 1) as usize, true)
        } else {
            RefLookupStep::Exhausted
        },
    }
}

/// Decides the next step of a branch-then-tag lookup over `count`
/// candidates, given the question last asked and its answer.
pub fn ref_lookup_next(count: usize, last: Option<(usize, bool)>, listed: bool) -> (r: RefLookupStep)
    requires
        last matches Some((i, _)) ==> i < count,
    ensures
        r == ref_lookup_next_spec(count as nat, last, listed),
        r matches RefLookupStep::Probe(i, _) ==> i < count,
        r matches RefLookupStep::Found(i, _) ==> i < count,
{
    match last {
        None => if count == 0 {
            RefLookupStep::Exhausted
        } else {
            RefLookupStep::Probe(0, true)
        },
        Some((i, true)) => if listed {
            RefLookupStep::Found(i, TargetKind::Branch)
        } else {
            RefLookupStep::Probe(i, false)
        },
        Some((i, false)) => if listed {
            RefLookupStep::Found(i, TargetKind::Tag)
        } else if i + 1 < count {
            RefLookupStep::Probe(i + 1, true)
        } else {
            RefLookupStep::Exhausted
        },
    }
}

} // verus!
