//! Lexical normalization of `/`-separated paths: `.` segments and empty
//! segments go, `..` removes the segment before it (or stays at the front of
//! a relative path), and nothing climbs above the root. Also the component
//! comparisons that the frontend settings rules use.
use vstd::prelude::*;
use crate::errors::{AppError, AppResult};
use crate::models::{FrontendPackageManager, FrontendSettings, Installation};
use crate::paths::{path_parent, path_parent_spec};
use crate::git::{join_custom_node_path, join_path_spec};
use crate::github::{join_slash, join_slash_from};
use crate::text::{
    chars_of, find_char, has_char, lemma_find_char, lemma_find_char_is, owned, push_str, split_on,
    split_on_exec, str_eq, sv, trim, trim_str,
};

verus! {

/// One segment applied to the stack of kept segments.
pub open spec fn norm_step(stack: Seq<Seq<char>>, rooted: bool, seg: Seq<char>) -> Seq<Seq<char>> {
    if seg.len() == 0 || seg == "."@ {
        stack
    } else if seg == ".."@ {
        if stack.len() > 0 && stack.last() != ".."@ {
            stack.drop_last()
        } else if rooted {
            stack
        } else {
            stack.push(seg)
        }
    } else {
        stack.push(seg)
    }
}

/// The segments kept after applying `segs` in order.
pub open spec fn norm_stack(rooted: bool, segs: Seq<Seq<char>>) -> Seq<Seq<char>>
    decreases segs.len(),
{
    if segs.len() == 0 {
        Seq::empty()
    } else {
        norm_step(norm_stack(rooted, segs.drop_last()), rooted, segs.last())
    }
}

pub open spec fn is_rooted(p: Seq<char>) -> bool {
    p.len() > 0 && p[0] == '/'
}

/// The normal segments of `p`.
pub open spec fn path_stack(p: Seq<char>) -> Seq<Seq<char>> {
    norm_stack(is_rooted(p), split_on(p, '/'))
}

pub open spec fn render_path(rooted: bool, stack: Seq<Seq<char>>) -> Seq<char> {
    if rooted {
        seq!['/'] + join_slash(stack)
    } else {
        join_slash(stack)
    }
}

/// `p` normalized.
pub open spec fn normalized_path(p: Seq<char>) -> Seq<char> {
    render_path(is_rooted(p), path_stack(p))
}

/// The components of `p` once normalized: the root (written `/`) where it
/// has one, then its normal segments.
pub open spec fn path_comps(p: Seq<char>) -> Seq<Seq<char>> {
    if is_rooted(p) {
        seq!["/"@] + path_stack(p)
    } else {
        path_stack(p)
    }
}

/// Whether `base`'s components begin `path`'s (`Path::starts_with`).
pub open spec fn comps_prefix(base: Seq<Seq<char>>, path: Seq<Seq<char>>) -> bool {
    base.len() <= path.len() && path.subrange(0, base.len() as int) == base
}

/// A stack that normalization can give: no empty, `.` or `/`-holding
/// segment, and `..` only in a leading run of a relative path.
pub open spec fn clean_stack(rooted: bool, st: Seq<Seq<char>>) -> bool {
    forall|i: int|
        0 <= i < st.len() ==> {
            &&& (#[trigger] st[i]).len() > 0
            &&& st[i] != "."@
            &&& !has_char(st[i], '/')
            &&& (st[i] == ".."@ ==> !rooted && forall|j: int| 0 <= j < i ==> st[j] == ".."@)
        }
}

pub open spec fn no_slash_pieces(segs: Seq<Seq<char>>) -> bool {
    forall|i: int| 0 <= i < segs.len() ==> !has_char(#[trigger] segs[i], '/')
}

proof fn lemma_split_pieces(s: Seq<char>, c: char)
    ensures
        forall|i: int| 0 <= i < split_on(s, c).len() ==> !has_char(#[trigger] split_on(s, c)[i], c),
        split_on(s, c).len() > 0,
    decreases s.len(),
{
    lemma_find_char(s, c);
    let k = find_char(s, c);
    if k < s.len() {
        let rest = s.subrange(k + 1, s.len() as int);
        lemma_split_pieces(rest, c);
        let sp = split_on(s, c);
        assert(sp == seq![s.subrange(0, k)] + split_on(rest, c));
        assert forall|i: int| 0 <= i < sp.len() implies !has_char(#[trigger] sp[i], c) by {
            if i == 0 {
                assert(sp[0] == s.subrange(0, k));
                if has_char(sp[0], c) {
                    let j = choose|j: int| 0 <= j < sp[0].len() && sp[0][j] == c;
                    assert(s[j] == c);
                }
            } else {
                assert(sp[i] == split_on(rest, c)[i - 1]);
            }
        }
    } else {
        assert(split_on(s, c) == seq![s]);
        if has_char(s, c) {
            let j = choose|j: int| 0 <= j < s.len() && s[j] == c;
            assert(s[j] == c);
        }
    }
}

proof fn lemma_step_clean(stack: Seq<Seq<char>>, rooted: bool, seg: Seq<char>)
    requires
        clean_stack(rooted, stack),
        !has_char(seg, '/'),
    ensures
        clean_stack(rooted, norm_step(stack, rooted, seg)),
{
    let r = norm_step(stack, rooted, seg);
    if seg.len() == 0 || seg == "."@ {
    } else if seg == ".."@ {
        if stack.len() > 0 && stack.last() != ".."@ {
            assert forall|i: int| 0 <= i < r.len() implies {
                &&& (#[trigger] r[i]).len() > 0
                &&& r[i] != "."@
                &&& !has_char(r[i], '/')
                &&& (r[i] == ".."@ ==> !rooted && forall|j: int| 0 <= j < i ==> r[j] == ".."@)
            } by {
                assert(r[i] == stack[i]);
                assert forall|j: int| 0 <= j < i implies r[j] == stack[j] by {}
            }
        } else if rooted {
        } else {
            assert forall|i: int| 0 <= i < r.len() implies {
                &&& (#[trigger] r[i]).len() > 0
                &&& r[i] != "."@
                &&& !has_char(r[i], '/')
                &&& (r[i] == ".."@ ==> !rooted && forall|j: int| 0 <= j < i ==> r[j] == ".."@)
            } by {
                if i == stack.len() {
                    assert forall|j: int| 0 <= j < i implies r[j] == ".."@ by {
                        assert(r[j] == stack[j]);
                        let l = stack.len() - 1;
                        assert(stack[l] == ".."@);
                        if j < l {
                            assert(stack[l] == ".."@ ==> forall|q: int| 0 <= q < l ==> stack[q] == ".."@);
                        }
                    }
                } else {
                    assert(r[i] == stack[i]);
                    assert forall|j: int| 0 <= j < i implies r[j] == stack[j] by {}
                }
            }
        }
    } else {
        assert forall|i: int| 0 <= i < r.len() implies {
            &&& (#[trigger] r[i]).len() > 0
            &&& r[i] != "."@
            &&& !has_char(r[i], '/')
            &&& (r[i] == ".."@ ==> !rooted && forall|j: int| 0 <= j < i ==> r[j] == ".."@)
        } by {
            if i < stack.len() {
                assert(r[i] == stack[i]);
                assert forall|j: int| 0 <= j < i implies r[j] == stack[j] by {}
            }
        }
    }
}

proof fn lemma_norm_clean(rooted: bool, segs: Seq<Seq<char>>)
    requires
        no_slash_pieces(segs),
    ensures
        clean_stack(rooted, norm_stack(rooted, segs)),
    decreases segs.len(),
{
    if segs.len() > 0 {
        let prev = segs.drop_last();
        assert forall|i: int| 0 <= i < prev.len() implies !has_char(#[trigger] prev[i], '/') by {
            assert(prev[i] == segs[i]);
        }
        lemma_norm_clean(rooted, prev);
        assert(!has_char(segs[segs.len() - 1], '/'));
        lemma_step_clean(norm_stack(rooted, prev), rooted, segs.last());
    }
}

/// Splitting at a separator splits the two sides apart.
proof fn lemma_split_concat(a: Seq<char>, b: Seq<char>, c: char)
    ensures
        split_on(a + seq![c] + b, c) == split_on(a, c) + split_on(b, c),
    decreases a.len(),
{
    let s = a + seq![c] + b;
    lemma_find_char(a, c);
    let k = find_char(a, c);
    if k < a.len() {
        assert forall|j: int| 0 <= j < k implies s[j] != c by {
            assert(s[j] == a[j]);
        }
        assert(s[k] == a[k]);
        lemma_find_char_is(s, c, k);
        let rest = a.subrange(k + 1, a.len() as int);
        lemma_split_concat(rest, b, c);
        assert(s.subrange(0, k) == a.subrange(0, k));
        assert(s.subrange(k + 1, s.len() as int) == rest + seq![c] + b);
        assert(split_on(s, c) == seq![a.subrange(0, k)] + split_on(rest + seq![c] + b, c));
        assert(split_on(a, c) == seq![a.subrange(0, k)] + split_on(rest, c));
        assert(split_on(s, c) =~= split_on(a, c) + split_on(b, c));
    } else {
        assert forall|j: int| 0 <= j < a.len() implies s[j] != c by {
            assert(s[j] == a[j]);
        }
        assert(s[a.len() as int] == c);
        lemma_find_char_is(s, c, a.len() as int);
        assert(s.subrange(0, a.len() as int) == a);
        assert(s.subrange(a.len() as int + 1, s.len() as int) == b);
        assert(split_on(a, c) == seq![a]);
        assert(split_on(s, c) =~= split_on(a, c) + split_on(b, c));
    }
}

proof fn lemma_split_plain(a: Seq<char>, c: char)
    requires
        !has_char(a, c),
    ensures
        split_on(a, c) == seq![a],
{
    assert forall|j: int| 0 <= j < a.len() implies a[j] != c by {
        if a[j] == c {
            assert(has_char(a, c));
        }
    }
    lemma_find_char_is(a, c, a.len() as int);
}

/// Joining non-empty slash-free segments and splitting again gives them back.
proof fn lemma_split_join(st: Seq<Seq<char>>)
    requires
        st.len() > 0,
        no_slash_pieces(st),
    ensures
        split_on(join_slash(st), '/') == st,
    decreases st.len(),
{
    if st.len() == 1 {
        assert(join_slash(st) == st[0]);
        lemma_split_plain(st[0], '/');
        assert(seq![st[0]] =~= st);
    } else {
        let prev = st.drop_last();
        assert forall|i: int| 0 <= i < prev.len() implies !has_char(#[trigger] prev[i], '/') by {
            assert(prev[i] == st[i]);
        }
        lemma_split_join(prev);
        lemma_split_concat(join_slash(prev), st.last(), '/');
        assert(!has_char(st[st.len() - 1], '/'));
        lemma_split_plain(st.last(), '/');
        assert(prev + seq![st.last()] =~= st);
    }
}

/// Re-normalizing a clean stack after segments that normalize to nothing
/// keeps it.
proof fn lemma_norm_keeps_clean(rooted: bool, pre: Seq<Seq<char>>, st: Seq<Seq<char>>)
    requires
        norm_stack(rooted, pre) == Seq::<Seq<char>>::empty(),
        clean_stack(rooted, st),
    ensures
        norm_stack(rooted, pre + st) == st,
    decreases st.len(),
{
    reveal_strlit(".");
    reveal_strlit("..");
    if st.len() == 0 {
        assert(pre + st =~= pre);
    } else {
        let prev = st.drop_last();
        assert forall|i: int| 0 <= i < prev.len() implies {
            &&& (#[trigger] prev[i]).len() > 0
            &&& prev[i] != "."@
            &&& !has_char(prev[i], '/')
            &&& (prev[i] == ".."@ ==> !rooted && forall|j: int| 0 <= j < i ==> prev[j] == ".."@)
        } by {
            assert(prev[i] == st[i]);
            assert forall|j: int| 0 <= j < i implies prev[j] == st[j] by {}
        }
        lemma_norm_keeps_clean(rooted, pre, prev);
        assert((pre + st).drop_last() =~= pre + prev);
        assert((pre + st).last() == st.last());
        let l = st.len() - 1;
        assert(st[l].len() > 0);
        if st[l] == ".."@ {
            assert(!rooted);
            if prev.len() > 0 {
                assert(prev.last() == st[l - 1]);
                assert(st[l - 1] == ".."@);
            }
        }
        assert(prev.push(st.last()) =~= st);
    }
}

/// Normalizing twice is normalizing once.
pub proof fn law_normalize_idempotent(p: Seq<char>)
    ensures
        normalized_path(normalized_path(p)) == normalized_path(p),
{
    reveal_strlit(".");
    reveal_strlit("..");
    let rooted = is_rooted(p);
    let st = path_stack(p);
    lemma_split_pieces(p, '/');
    lemma_norm_clean(rooted, split_on(p, '/'));
    let q = normalized_path(p);
    let j = join_slash(st);
    let e: Seq<Seq<char>> = Seq::empty();
    assert(norm_stack(rooted, e) == e);
    assert(no_slash_pieces(st));
    if st.len() > 0 {
        lemma_split_join(st);
    } else {
        assert(j == Seq::<char>::empty());
        assert(split_on(j, '/') == seq![j]);
    }
    let sj = split_on(j, '/');
    if rooted {
        assert(q == seq!['/'] + j);
        assert(is_rooted(q));
        lemma_split_concat(Seq::<char>::empty(), j, '/');
        assert(Seq::<char>::empty() + seq!['/'] + j =~= q);
        lemma_split_plain(Seq::<char>::empty(), '/');
        let pre: Seq<Seq<char>> = seq![Seq::<char>::empty()];
        assert(pre.drop_last() =~= e);
        assert(norm_stack(rooted, pre) == e);
        assert(split_on(q, '/') == pre + sj);
        if st.len() > 0 {
            lemma_norm_keeps_clean(rooted, pre, st);
        } else {
            let two = pre + sj;
            assert(two.drop_last() =~= pre);
        }
    } else {
        assert(q == j);
        if st.len() > 0 {
            if is_rooted(q) {
                lemma_find_char_is(q, '/', 0);
                assert(sj[0] == q.subrange(0, 0));
                assert(st[0].len() > 0);
            }
            lemma_norm_keeps_clean(rooted, e, st);
            assert(e + st =~= st);
        } else {
            assert(sj.drop_last() =~= e);
        }
    }
}

fn strings_equal(a: &Vec<String>, b: &Vec<String>) -> (r: bool)
    ensures
        r == (sv(a@) == sv(b@)),
{
    if a.len() != b.len() {
        proof {
            if sv(a@) == sv(b@) {
                assert(sv(a@).len() == sv(b@).len());
            }
        }
        return false;
    }
    let mut i: usize = 0;
    while i < a.len()
        invariant
            a.len() == b.len(),
            i <= a.len(),
            forall|k: int| 0 <= k < i ==> sv(a@)[k] == sv(b@)[k],
        decreases a.len() - i,
    {
        if !str_eq(a[i].as_str(), b[i].as_str()) {
            proof {
                if sv(a@) == sv(b@) {
                    assert(sv(a@)[i as int] == sv(b@)[i as int]);
                }
            }
            return false;
        }
        i = i + 1;
    }
    assert(sv(a@) =~= sv(b@));
    true
}

fn strings_prefix(base: &Vec<String>, path: &Vec<String>) -> (r: bool)
    ensures
        r == comps_prefix(sv(base@), sv(path@)),
{
    if base.len() > path.len() {
        return false;
    }
    let mut i: usize = 0;
    while i < base.len()
        invariant
            base.len() <= path.len(),
            i <= base.len(),
            forall|k: int| 0 <= k < i ==> sv(base@)[k] == sv(path@)[k],
        decreases base.len() - i,
    {
        if !str_eq(base[i].as_str(), path[i].as_str()) {
            proof {
                if comps_prefix(sv(base@), sv(path@)) {
                    assert(sv(path@).subrange(0, base.len() as int)[i as int] == sv(path@)[i as int]);
                }
            }
            return false;
        }
        i = i + 1;
    }
    assert(sv(path@).subrange(0, base.len() as int) =~= sv(base@));
    true
}

/// The root flag and normal segments of `path`.
fn normalize_stack(path: &str) -> (r: (bool, Vec<String>))
    ensures
        r.0 == is_rooted(path@),
        sv(r.1@) == path_stack(path@),
{
    let v = chars_of(path);
    let rooted = v.len() > 0 && v[0] == '/';
    let segs = split_on_exec(&v, '/');
    let ghost gs = sv(segs@);
    let mut stack: Vec<String> = Vec::new();
    let mut i: usize = 0;
    while i < segs.len()
        invariant
            gs == sv(segs@),
            i <= segs.len(),
            sv(stack@) == norm_stack(rooted, gs.subrange(0, i as int)),
        decreases segs.len() - i,
    {
        let seg = &segs[i];
        let ghost before = sv(stack@);
        assert(gs.subrange(0, i + 1).drop_last() == gs.subrange(0, i as int));
        assert(gs.subrange(0, i + 1).last() == seg@);
        if seg.as_str().unicode_len() == 0 || str_eq(seg.as_str(), ".") {
        } else if str_eq(seg.as_str(), "..") {
            if stack.len() > 0 && !str_eq(stack[stack.len() - 1].as_str(), "..") {
                stack.pop();
                assert(sv(stack@) == before.drop_last());
            } else if rooted {
            } else {
                stack.push(owned(seg.as_str()));
                assert(sv(stack@) == before.push(seg@));
            }
        } else {
            stack.push(owned(seg.as_str()));
            assert(sv(stack@) == before.push(seg@));
        }
        i = i + 1;
    }
    assert(gs.subrange(0, segs.len() as int) == gs);
    (rooted, stack)
}

fn render(rooted: bool, stack: &Vec<String>) -> (r: String)
    ensures
        r@ == render_path(rooted, sv(stack@)),
{
    let joined = join_slash_from(stack, 0);
    assert(sv(stack@).subrange(0, stack.len() as int) == sv(stack@));
    if rooted {
        let mut r = String::new();
        proof {
            reveal_strlit("/");
        }
        push_str(&mut r, "/");
        push_str(&mut r, joined.as_str());
        r
    } else {
        joined
    }
}

/// `path` normalized lexically (`.` and empty segments dropped, `..`
/// resolved against the segment before it).
pub fn normalize_path_components(path: &str) -> (r: String)
    ensures
        r@ == normalized_path(path@),
{
    let (rooted, stack) = normalize_stack(path);
    render(rooted, &stack)
}

fn comps_of(path: &str) -> (r: Vec<String>)
    ensures
        sv(r@) == path_comps(path@),
{
    let (rooted, stack) = normalize_stack(path);
    if rooted {
        let mut r: Vec<String> = Vec::new();
        r.push(owned("/"));
        let mut i: usize = 0;
        while i < stack.len()
            invariant
                i <= stack.len(),
                sv(r@) == seq!["/"@] + sv(stack@).subrange(0, i as int),
            decreases stack.len() - i,
        {
            let ghost before = sv(r@);
            r.push(owned(stack[i].as_str()));
            assert(sv(r@) == before.push(stack[i as int]@));
            assert(sv(stack@).subrange(0, i + 1) == sv(stack@).subrange(0, i as int).push(stack[i as int]@));
            assert(seq!["/"@] + sv(stack@).subrange(0, i + 1) =~= (seq!["/"@] + sv(stack@).subrange(
                0,
                i as int,
            )).push(stack[i as int]@));
            i = i + 1;
        }
        assert(sv(stack@).subrange(0, stack.len() as int) == sv(stack@));
        r
    } else {
        stack
    }
}

/// The managed frontend checkout's root, normalized; refused where it is the
/// ComfyUI root itself or lies inside `custom_nodes` (all compared by their
/// normalized components).
pub fn check_frontend_repo_root(repo_root: &str, comfy_root: &str, custom_nodes_dir: &str) -> (r: AppResult<String>)
    ensures
        path_comps(repo_root@) == path_comps(comfy_root@) ==> (r matches Err(AppError::InvalidInput(m)) && m@
            == "managed frontend repo root cannot be the ComfyUI root"@),
        path_comps(repo_root@) != path_comps(comfy_root@) && comps_prefix(path_comps(custom_nodes_dir@), path_comps(repo_root@))
            ==> (r matches Err(AppError::InvalidInput(m)) && m@ == "managed frontend repo root cannot be inside custom_nodes"@),
        path_comps(repo_root@) != path_comps(comfy_root@) && !comps_prefix(path_comps(custom_nodes_dir@), path_comps(repo_root@))
            ==> (r matches Ok(s) && s@ == normalized_path(repo_root@)),
{
    let repo = comps_of(repo_root);
    let root = comps_of(comfy_root);
    let nodes = comps_of(custom_nodes_dir);
    if strings_equal(&repo, &root) {
        return Err(AppError::InvalidInput(owned("managed frontend repo root cannot be the ComfyUI root")));
    }
    if strings_prefix(&nodes, &repo) {
        return Err(AppError::InvalidInput(owned("managed frontend repo root cannot be inside custom_nodes")));
    }
    Ok(normalize_path_components(repo_root))
}

/// The managed frontend's dist directory: `dist` under the repo root where
/// none is given, else the given path normalized.
pub fn frontend_dist_path(repo_root: &str, dist_path: Option<&str>) -> (r: String)
    ensures
        dist_path is None ==> r@ == join_path_spec(repo_root@, "dist"@),
        dist_path matches Some(d) ==> r@ == normalized_path(d@),
{
    match dist_path {
        Some(d) => normalize_path_components(d),
        None => join_custom_node_path(repo_root, "dist"),
    }
}

/// `ComfyUI_frontend` next to the ComfyUI root (inside it where the root
/// has no parent).
pub open spec fn default_frontend_repo_root_spec(comfy_root: Seq<char>) -> Seq<char> {
    let base = match path_parent_spec(comfy_root) {
        Some(p) => p,
        None => comfy_root,
    };
    join_path_spec(base, "ComfyUI_frontend"@)
}

/// Where a managed frontend checkout goes by default.
pub fn default_frontend_repo_root(installation: &Installation) -> (r: String)
    ensures
        r@ == default_frontend_repo_root_spec(installation.comfy_root@),
{
    let base = match path_parent(installation.comfy_root.as_str()) {
        Some(p) => p,
        None => installation.comfy_root.clone(),
    };
    join_custom_node_path(base.as_str(), "ComfyUI_frontend")
}

/// The frontend settings an installation starts from before they are
/// normalized: the given root or the default one, the installation's own
/// trimmed dist path (empty where it has none) and its package manager
/// (`Auto` where it has none).
pub fn default_frontend_settings_draft(installation: &Installation, repo_root_override: Option<&str>) -> (r:
    FrontendSettings)
    ensures
        r.repo_root@ == match repo_root_override {
            Some(o) => o@,
            None => default_frontend_repo_root_spec(installation.comfy_root@),
        },
        r.dist_path@ == match installation.frontend_settings {
            Some(f) => trim(f.dist_path@),
            None => Seq::<char>::empty(),
        },
        r.package_manager == match installation.frontend_settings {
            Some(f) => f.package_manager,
            None => FrontendPackageManager::Auto,
        },
{
    let repo_root = match repo_root_override {
        Some(o) => owned(o),
        None => default_frontend_repo_root(installation),
    };
    let (dist_path, package_manager) = match &installation.frontend_settings {
        Some(f) => (trim_str(f.dist_path.as_str()), f.package_manager),
        None => (String::new(), FrontendPackageManager::Auto),
    };
    FrontendSettings { repo_root, dist_path, package_manager }
}

} // verus!
