//! The registry browser's view of an installation: which local directories
//! match a registry entry, which managed repositories install it, how the
//! listed items are ordered, and which tracking-managed installs can be
//! adopted as git clones.
use vstd::prelude::*;
use crate::errors::{AppError, AppResult};
use crate::models::{
    DirtyRepoStrategy, ExistingRepoConflictStrategy, ManagedRepo, ManagerRegistryCustomNode,
    PatchCustomNodeInput,
};
use crate::paths::{path_file_name, path_file_name_spec};
use crate::registry::trimmed_field;
use crate::ordering::{key_view, keys_le, sorted_by_keys, stable_by_keys, take_smallest_by_keys};
use crate::registry::{
    entry_git_remote, entry_title_spec, expected_dir_names_for_entry, expected_dir_names_spec,
    install_label_spec, push_unique, push_unique_exec, registry_id_spec, source_input_spec,
    trimmed_nonempty, ManagerCustomNodeEntry,
};
use crate::text::{
    ascii_lower, ascii_lower_chars, ascii_lower_str, chars_eq, chars_of, decimal, eq_ignore_ascii_case,
    eq_ignore_ascii_case_chars, ov, owned, push_str, str_eq, sv, trim, u64_decimal,
};

verus! {

/// What a scan learned of one directory under `custom_nodes`: its name,
/// whether it holds a `.tracking` file or a `.git` marker, and (where it has
/// a marker) whether git takes it for a repository.
#[derive(Debug, Clone)]
pub struct LocalDirFacts {
    pub path: String,
    pub dir_name: String,
    pub has_tracking: bool,
    pub has_git: bool,
    pub is_git_repo: bool,
}

/// How the registry browser counts a local directory.
#[derive(Debug, Clone, Copy, PartialEq, Eq, Structural)]
pub enum LocalDirClass {
    /// A git repository; it is found through the managed repositories.
    GitRepo,
    /// Installed by the manager's tracking mechanism.
    TrackingManaged,
    /// Present, without git and without tracking.
    PresentNonGit,
    /// A `.git` marker that git does not accept, without tracking.
    Unrecognized,
}

pub open spec fn local_dir_class_spec(has_tracking: bool, has_git: bool, is_git_repo: bool) -> LocalDirClass {
    if has_git && is_git_repo {
        LocalDirClass::GitRepo
    } else if has_tracking {
        LocalDirClass::TrackingManaged
    } else if !has_git {
        LocalDirClass::PresentNonGit
    } else {
        LocalDirClass::Unrecognized
    }
}

pub fn classify_local_dir(f: &LocalDirFacts) -> (r: LocalDirClass)
    ensures
        r == local_dir_class_spec(f.has_tracking, f.has_git, f.is_git_repo),
{
    if f.has_git && f.is_git_repo {
        LocalDirClass::GitRepo
    } else if f.has_tracking {
        LocalDirClass::TrackingManaged
    } else if !f.has_git {
        LocalDirClass::PresentNonGit
    } else {
        LocalDirClass::Unrecognized
    }
}

/// A local directory under its lower-cased name.
#[derive(Debug, Clone)]
pub struct LocalDir {
    pub key: String,
    pub path: String,
}

pub open spec fn dirs_view(d: Seq<LocalDir>) -> Seq<(Seq<char>, Seq<char>)> {
    d.map_values(|x: LocalDir| (x.key@, x.path@))
}

/// The directories of class `c`, in scan order, under their lower-cased names.
pub open spec fn dirs_of_class(fs: Seq<LocalDirFacts>, c: LocalDirClass) -> Seq<(Seq<char>, Seq<char>)>
    decreases fs.len(),
{
    if fs.len() == 0 {
        Seq::empty()
    } else {
        let prev = dirs_of_class(fs.drop_last(), c);
        let f = fs.last();
        if local_dir_class_spec(f.has_tracking, f.has_git, f.is_git_repo) == c {
            prev.push((ascii_lower(f.dir_name@), f.path@))
        } else {
            prev
        }
    }
}

pub fn local_dirs_of_class(facts: &Vec<LocalDirFacts>, class: LocalDirClass) -> (r: Vec<LocalDir>)
    ensures
        dirs_view(r@) == dirs_of_class(facts@, class),
{
    let mut r: Vec<LocalDir> = Vec::new();
    let mut i: usize = 0;
    while i < facts.len()
        invariant
            i <= facts.len(),
            dirs_view(r@) == dirs_of_class(facts@.subrange(0, i as int), class),
        decreases facts.len() - i,
    {
        let f = &facts[i];
        assert(facts@.subrange(0, i + 1).drop_last() == facts@.subrange(0, i as int));
        if classify_local_dir(f) == class {
            let ghost before = dirs_view(r@);
            r.push(LocalDir { key: ascii_lower_str(f.dir_name.as_str()), path: owned(f.path.as_str()) });
            assert(dirs_view(r@) == before.push((ascii_lower(f.dir_name@), f.path@)));
        }
        i = i + 1;
    }
    assert(facts@.subrange(0, facts.len() as int) == facts@);
    r
}

/// `out` extended by the paths of the directories named `key`, in order,
/// each added once.
pub open spec fn add_matching(out: Seq<Seq<char>>, dirs: Seq<(Seq<char>, Seq<char>)>, key: Seq<char>) -> Seq<Seq<char>>
    decreases dirs.len(),
{
    if dirs.len() == 0 {
        out
    } else if dirs[0].0 == key {
        add_matching(push_unique(out, dirs[0].1), dirs.drop_first(), key)
    } else {
        add_matching(out, dirs.drop_first(), key)
    }
}

/// `out` extended by the directories whose lower-cased names match the
/// expected names (compared lower-cased), name by name.
pub open spec fn local_matches(out: Seq<Seq<char>>, expected: Seq<Seq<char>>, dirs: Seq<(Seq<char>, Seq<char>)>) -> Seq<Seq<char>>
    decreases expected.len(),
{
    if expected.len() == 0 {
        out
    } else {
        local_matches(add_matching(out, dirs, ascii_lower(expected[0])), expected.drop_first(), dirs)
    }
}

/// No path occurs twice.
pub open spec fn distinct(s: Seq<Seq<char>>) -> bool {
    forall|i: int, j: int| 0 <= i < j < s.len() ==> #[trigger] s[i] != #[trigger] s[j]
}

proof fn lemma_push_unique_distinct(out: Seq<Seq<char>>, x: Seq<char>)
    requires
        distinct(out),
    ensures
        distinct(push_unique(out, x)),
{
    if !out.contains(x) {
        let n = out.push(x);
        assert forall|i: int, j: int| 0 <= i < j < n.len() implies #[trigger] n[i] != #[trigger] n[j] by {
            if j == out.len() {
                assert(out[i] == n[i]);
                if out[i] == x {
                    assert(out.contains(x));
                }
            }
        }
    }
}

proof fn lemma_add_matching_distinct(out: Seq<Seq<char>>, dirs: Seq<(Seq<char>, Seq<char>)>, key: Seq<char>)
    requires
        distinct(out),
    ensures
        distinct(add_matching(out, dirs, key)),
    decreases dirs.len(),
{
    if dirs.len() > 0 {
        if dirs[0].0 == key {
            lemma_push_unique_distinct(out, dirs[0].1);
            lemma_add_matching_distinct(push_unique(out, dirs[0].1), dirs.drop_first(), key);
        } else {
            lemma_add_matching_distinct(out, dirs.drop_first(), key);
        }
    }
}

proof fn lemma_local_matches_distinct(out: Seq<Seq<char>>, expected: Seq<Seq<char>>, dirs: Seq<(Seq<char>, Seq<char>)>)
    requires
        distinct(out),
    ensures
        distinct(local_matches(out, expected, dirs)),
    decreases expected.len(),
{
    if expected.len() > 0 {
        lemma_add_matching_distinct(out, dirs, ascii_lower(expected[0]));
        lemma_local_matches_distinct(
            add_matching(out, dirs, ascii_lower(expected[0])),
            expected.drop_first(),
            dirs,
        );
    }
}

/// The local directories that carry one of the expected names (compared in
/// ASCII lower case), in the order of the names and then of the scan, each
/// path once.
pub fn collect_local_dir_matches(expected_dir_names: &Vec<String>, dirs: &Vec<LocalDir>) -> (r: Vec<String>)
    ensures
        sv(r@) == local_matches(Seq::empty(), sv(expected_dir_names@), dirs_view(dirs@)),
        distinct(sv(r@)),
{
    let ghost e = sv(expected_dir_names@);
    let ghost d = dirs_view(dirs@);
    let mut out: Vec<String> = Vec::new();
    let mut i: usize = 0;
    assert(e.subrange(0, e.len() as int) == e);
    assert(sv(out@) == Seq::<Seq<char>>::empty());
    while i < expected_dir_names.len()
        invariant
            e == sv(expected_dir_names@),
            d == dirs_view(dirs@),
            i <= expected_dir_names.len(),
            local_matches(Seq::empty(), e, d) == local_matches(
                sv(out@),
                e.subrange(i as int, e.len() as int),
                d,
            ),
        decreases expected_dir_names.len() - i,
    {
        let key = ascii_lower_str(expected_dir_names[i].as_str());
        let ghost out0 = sv(out@);
        let mut j: usize = 0;
        assert(d.subrange(0, d.len() as int) == d);
        while j < dirs.len()
            invariant
                d == dirs_view(dirs@),
                j <= dirs.len(),
                key@ == ascii_lower(e[i as int]),
                add_matching(out0, d, key@) == add_matching(
                    sv(out@),
                    d.subrange(j as int, d.len() as int),
                    key@,
                ),
            decreases dirs.len() - j,
        {
            let ghost rest = d.subrange(j as int, d.len() as int);
            assert(rest[0] == (dirs@[j as int].key@, dirs@[j as int].path@));
            assert(rest.drop_first() == d.subrange(j + 1, d.len() as int));
            if str_eq(dirs[j].key.as_str(), key.as_str()) {
                push_unique_exec(&mut out, dirs[j].path.as_str());
            }
            j = j + 1;
        }
        assert(e.subrange(i as int, e.len() as int).drop_first() == e.subrange(i + 1, e.len() as int));
        i = i + 1;
    }
    proof {
        lemma_local_matches_distinct(Seq::empty(), e, d);
    }
    out
}

/// The ids of the repositories.
pub open spec fn repo_ids(repos: Seq<ManagedRepo>) -> Seq<Seq<char>> {
    repos.map_values(|r: ManagedRepo| r.id@)
}

pub open spec fn alias_views(als: Seq<Vec<String>>) -> Seq<Seq<Seq<char>>> {
    als.map_values(|v: Vec<String>| sv(v@))
}

/// One more repository claims a remote: the first claim names it, a claim by
/// a repository with another id makes the remote ambiguous.
pub open spec fn claim(prev: Option<Option<int>>, ids: Seq<Seq<char>>, i: int) -> Option<Option<int>> {
    match prev {
        None => Some(Some(i)),
        Some(Some(j)) => if ids[j] == ids[i] {
            prev
        } else {
            Some(None)
        },
        Some(None) => Some(None),
    }
}

/// Which of the first `n` repositories installs `remote`, judged by their
/// remote aliases (but for ASCII case): `None` where none does, `Some(None)` where repositories
/// with different ids do, else the first that does.
pub open spec fn install_state(ids: Seq<Seq<char>>, als: Seq<Seq<Seq<char>>>, n: int, remote: Seq<char>) -> Option<Option<int>>
    decreases n,
{
    if n <= 0 {
        None
    } else {
        let prev = install_state(ids, als, n - 1, remote);
        if contains_ignoring_case(als[n - 1], remote) {
            claim(prev, ids, n - 1)
        } else {
            prev
        }
    }
}

/// Some text of `texts` is `t` but for ASCII case.
pub open spec fn contains_ignoring_case(texts: Seq<Seq<char>>, t: Seq<char>) -> bool {
    exists|k: int| 0 <= k < texts.len() && eq_ignore_ascii_case(#[trigger] texts[k], t)
}

fn strings_contain(v: &Vec<String>, s: &str) -> (r: bool)
    ensures
        r == contains_ignoring_case(sv(v@), s@),
{
    let mut i: usize = 0;
    while i < v.len()
        invariant
            i <= v.len(),
            forall|k: int| 0 <= k < i ==> !eq_ignore_ascii_case(#[trigger] sv(v@)[k], s@),
        decreases v.len() - i,
    {
        if eq_ignore_ascii_case_chars(&chars_of(v[i].as_str()), &chars_of(s)) {
            assert(eq_ignore_ascii_case(sv(v@)[i as int], s@));
            return true;
        }
        i = i + 1;
    }
    false
}

pub open spec fn state_view(r: Option<Option<usize>>) -> Option<Option<int>> {
    match r {
        None => None,
        Some(None) => Some(None),
        Some(Some(i)) => Some(Some(i as int)),
    }
}

/// Which managed repository installs `remote`; `aliases[i]` lists the
/// remote aliases of `repos[i]` (none where it has no remote).
pub fn installed_state_for_remote(repos: &Vec<ManagedRepo>, aliases: &Vec<Vec<String>>, remote: &str) -> (r: Option<Option<usize>>)
    requires
        repos.len() == aliases.len(),
    ensures
        state_view(r) == install_state(repo_ids(repos@), alias_views(aliases@), repos.len() as int, remote@),
        r matches Some(Some(i)) ==> i < repos.len(),
{
    let ghost ids = repo_ids(repos@);
    let ghost als = alias_views(aliases@);
    let mut st: Option<Option<usize>> = None;
    let mut i: usize = 0;
    while i < repos.len()
        invariant
            ids == repo_ids(repos@),
            als == alias_views(aliases@),
            repos.len() == aliases.len(),
            i <= repos.len(),
            state_view(st) == install_state(ids, als, i as int, remote@),
            st matches Some(Some(k)) ==> k < i,
        decreases repos.len() - i,
    {
        if strings_contain(&aliases[i], remote) {
            st = match st {
                None => Some(Some(i)),
                Some(Some(j)) => if str_eq(repos[j].id.as_str(), repos[i].id.as_str()) {
                    Some(Some(j))
                } else {
                    Some(None)
                },
                Some(None) => Some(None),
            };
        }
        i = i + 1;
    }
    st
}

/// The only element of a one-element list.
pub open spec fn single(ms: Seq<Seq<char>>) -> Option<Seq<char>> {
    if ms.len() == 1 {
        Some(ms[0])
    } else {
        None
    }
}

/// What the browser knows of the repository that installs an entry.
pub open spec fn entry_install_state(e: ManagerCustomNodeEntry, repos: Seq<ManagedRepo>, als: Seq<Seq<Seq<char>>>) -> Option<Option<int>> {
    match entry_git_remote(e) {
        Some(r) => install_state(repo_ids(repos), als, repos.len() as int, r),
        None => None,
    }
}

/// The item listed for entry `e`, given how repositories install it (`st`)
/// and its matches among tracking-managed (`tm`) and other present (`pm`)
/// directories.
pub open spec fn item_fits(
    item: ManagerRegistryCustomNode,
    e: ManagerCustomNodeEntry,
    st: Option<Option<int>>,
    repos: Seq<ManagedRepo>,
    tm: Seq<Seq<char>>,
    pm: Seq<Seq<char>>,
) -> bool {
    let label = install_label_spec(e);
    let remote = entry_git_remote(e);
    let installable = label == "git-clone"@ && remote is Some;
    let repo = match st {
        Some(Some(i)) => Some(repos[i]),
        _ => None,
    };
    &&& item.registry_id@ == registry_id_spec(e)
    &&& item.title@ == entry_title_spec(e)
    &&& ov(item.author) == trimmed_nonempty(ov(e.author))
    &&& ov(item.description) == trimmed_nonempty(ov(e.description))
    &&& item.install_type@ == label
    &&& ov(item.source_input) == (if installable {
        remote
    } else {
        source_input_spec(e)
    })
    &&& ov(item.canonical_repo_url) == remote
    &&& item.is_installable == installable
    &&& item.is_installed == (st is Some || tm.len() == 1)
    &&& item.is_tracking_managed == (tm.len() == 1)
    &&& ov(item.tracking_local_path) == single(tm)
    &&& item.is_present_non_git == (pm.len() == 1)
    &&& ov(item.present_local_path) == single(pm)
    &&& item.has_ambiguous_installation == (st == Some(None::<int>) || tm.len() > 1 || pm.len() > 1)
    &&& ov(item.installed_repo_id) == (match repo {
        Some(x) => Some(x.id@),
        None => None,
    })
    &&& ov(item.installed_display_name) == (match repo {
        Some(x) => Some(x.display_name@),
        None => None,
    })
    &&& ov(item.installed_local_path) == (match repo {
        Some(x) => Some(x.local_path@),
        None => None,
    })
}

/// The item listed for one entry: `e` with its install state and local
/// directory matches.
pub open spec fn registry_item_ok(
    item: ManagerRegistryCustomNode,
    e: ManagerCustomNodeEntry,
    repos: Seq<ManagedRepo>,
    als: Seq<Seq<Seq<char>>>,
    tracking: Seq<(Seq<char>, Seq<char>)>,
    present: Seq<(Seq<char>, Seq<char>)>,
) -> bool {
    item_fits(
        item,
        e,
        entry_install_state(e, repos, als),
        repos,
        local_matches(Seq::empty(), expected_dir_names_spec(e), tracking),
        local_matches(Seq::empty(), expected_dir_names_spec(e), present),
    )
}

fn single_path(ms: &Vec<String>) -> (r: Option<String>)
    ensures
        ov(r) == single(sv(ms@)),
{
    if ms.len() == 1 {
        Some(owned(ms[0].as_str()))
    } else {
        None
    }
}

fn copy_opt_field(repo: Option<&ManagedRepo>, which: u8) -> (r: Option<String>)
    ensures
        ov(r) == (match repo {
            Some(x) => Some(if which == 0 {
                x.id@
            } else if which == 1 {
                x.display_name@
            } else {
                x.local_path@
            }),
            None => None,
        }),
{
    match repo {
        Some(x) => Some(
            if which == 0 {
                owned(x.id.as_str())
            } else if which == 1 {
                owned(x.display_name.as_str())
            } else {
                owned(x.local_path.as_str())
            },
        ),
        None => None,
    }
}

/// The item the registry browser lists for `entry`.
pub fn build_registry_item(
    entry: &ManagerCustomNodeEntry,
    repos: &Vec<ManagedRepo>,
    aliases: &Vec<Vec<String>>,
    tracking_dirs: &Vec<LocalDir>,
    present_dirs: &Vec<LocalDir>,
) -> (r: ManagerRegistryCustomNode)
    requires
        repos.len() == aliases.len(),
    ensures
        registry_item_ok(
            r,
            *entry,
            repos@,
            alias_views(aliases@),
            dirs_view(tracking_dirs@),
            dirs_view(present_dirs@),
        ),
{
    let install_type = entry.install_type_label();
    let canonical_repo_url = entry.canonical_git_remote();
    let is_installable = str_eq(install_type.as_str(), "git-clone") && canonical_repo_url.is_some();
    let source_input = if is_installable {
        match &canonical_repo_url {
            Some(u) => Some(owned(u.as_str())),
            None => None,
        }
    } else {
        entry.source_input()
    };
    let installed_state = match &canonical_repo_url {
        Some(remote) => installed_state_for_remote(repos, aliases, remote.as_str()),
        None => None,
    };
    let expected = expected_dir_names_for_entry(entry);
    let tracking_matches = collect_local_dir_matches(&expected, tracking_dirs);
    let present_matches = collect_local_dir_matches(&expected, present_dirs);
    let tracking_local_path = single_path(&tracking_matches);
    let present_local_path = single_path(&present_matches);
    let installed: Option<&ManagedRepo> = match installed_state {
        Some(Some(i)) => Some(&repos[i]),
        _ => None,
    };
    let ambiguous_state = match installed_state {
        Some(None) => true,
        _ => false,
    };
    let has_ambiguous_installation = ambiguous_state || tracking_matches.len() > 1
        || present_matches.len() > 1;
    let is_tracking_managed = tracking_local_path.is_some();
    let is_present_non_git = present_local_path.is_some();
    ManagerRegistryCustomNode {
        registry_id: entry.registry_id(),
        title: entry.title(),
        author: entry.author(),
        description: entry.description(),
        install_type,
        source_input,
        canonical_repo_url,
        is_installable,
        is_installed: installed_state.is_some() || is_tracking_managed,
        is_tracking_managed,
        tracking_local_path,
        is_present_non_git,
        present_local_path,
        has_ambiguous_installation,
        installed_repo_id: copy_opt_field(installed, 0),
        installed_display_name: copy_opt_field(installed, 1),
        installed_local_path: copy_opt_field(installed, 2),
    }
}

/// The items the registry browser lists for `entries`, one per entry and in
/// their order.
pub fn build_registry_items(
    entries: &Vec<ManagerCustomNodeEntry>,
    repos: &Vec<ManagedRepo>,
    aliases: &Vec<Vec<String>>,
    tracking_dirs: &Vec<LocalDir>,
    present_dirs: &Vec<LocalDir>,
) -> (r: Vec<ManagerRegistryCustomNode>)
    requires
        repos.len() == aliases.len(),
    ensures
        r.len() == entries.len(),
        forall|k: int|
            0 <= k < r.len() ==> registry_item_ok(
                #[trigger] r@[k],
                entries@[k],
                repos@,
                alias_views(aliases@),
                dirs_view(tracking_dirs@),
                dirs_view(present_dirs@),
            ),
{
    let mut r: Vec<ManagerRegistryCustomNode> = Vec::new();
    let mut i: usize = 0;
    while i < entries.len()
        invariant
            repos.len() == aliases.len(),
            i <= entries.len(),
            r.len() == i,
            forall|k: int|
                0 <= k < i ==> registry_item_ok(
                    #[trigger] r@[k],
                    entries@[k],
                    repos@,
                    alias_views(aliases@),
                    dirs_view(tracking_dirs@),
                    dirs_view(present_dirs@),
                ),
        decreases entries.len() - i,
    {
        let item = build_registry_item(&entries[i], repos, aliases, tracking_dirs, present_dirs);
        r.push(item);
        i = i + 1;
    }
    r
}

/// The order of listed items: installed ones first, then by lower-cased
/// title, then by registry id.
pub open spec fn item_order_key(item: ManagerRegistryCustomNode) -> Seq<Seq<char>> {
    seq![
        if item.is_installed {
            "0"@
        } else {
            "1"@
        },
        ascii_lower(item.title@),
        item.registry_id@,
    ]
}

fn item_order_key_exec(item: &ManagerRegistryCustomNode) -> (r: Vec<Vec<char>>)
    ensures
        key_view(r) == item_order_key(*item),
{
    let mut k: Vec<Vec<char>> = Vec::new();
    k.push(if item.is_installed {
        chars_of("0")
    } else {
        chars_of("1")
    });
    k.push(ascii_lower_chars(&chars_of(item.title.as_str())));
    k.push(chars_of(item.registry_id.as_str()));
    assert(key_view(k) == item_order_key(*item));
    k
}

/// The number of items a listing returns: `limit` kept between 1 and 10000.
pub open spec fn clamped_limit(limit: usize) -> int {
    if limit < 1 {
        1
    } else if limit > 10000 {
        10000
    } else {
        limit as int
    }
}

/// The listed items in order, cut to the clamped limit. The result is
/// sorted, holds no item more often than `items` does, and leaves out
/// nothing that sorts before an item it keeps.
pub fn order_registry_items(items: Vec<ManagerRegistryCustomNode>, limit: usize) -> (r: Vec<ManagerRegistryCustomNode>)
    ensures
        sorted_by_keys(r@, |it: ManagerRegistryCustomNode| item_order_key(it)),
        r.len() == (if clamped_limit(limit) < items.len() {
            clamped_limit(limit)
        } else {
            items.len() as int
        }),
        r@.to_multiset().subset_of(items@.to_multiset()),
        forall|e: ManagerRegistryCustomNode, i: int|
            #![trigger items@.to_multiset().sub(r@.to_multiset()).count(e), r@[i]]
            items@.to_multiset().sub(r@.to_multiset()).count(e) > 0 && 0 <= i < r.len() ==> keys_le(
                item_order_key(r@[i]),
                item_order_key(e),
            ),
        exists|full: Seq<ManagerRegistryCustomNode>, p: Seq<int>|
            full.len() == items.len() && p.len() == items.len() && stable_by_keys(
                items@,
                full,
                p,
                |it: ManagerRegistryCustomNode| item_order_key(it),
            ) && sorted_by_keys(full, |it: ManagerRegistryCustomNode| item_order_key(it)) && r@
                == full.subrange(0, r.len() as int),
{
    let lim: usize = if limit < 1 {
        1
    } else if limit > 10000 {
        10000
    } else {
        limit
    };
    let mut keys: Vec<Vec<Vec<char>>> = Vec::new();
    let mut i: usize = 0;
    while i < items.len()
        invariant
            i <= items.len(),
            keys.len() == i,
            forall|k: int| 0 <= k < i ==> key_view(#[trigger] keys@[k]) == item_order_key(items@[k]),
        decreases items.len() - i,
    {
        keys.push(item_order_key_exec(&items[i]));
        i = i + 1;
    }
    let ghost kf = |it: ManagerRegistryCustomNode| item_order_key(it);
    take_smallest_by_keys(items, keys, Ghost(kf), lim)
}


/// An item that can be adopted: a unique, installable, tracking-managed
/// install that no managed repository holds, with a source and a path.
pub open spec fn adoptable(item: ManagerRegistryCustomNode) -> bool {
    &&& item.is_tracking_managed
    &&& !(item.installed_repo_id is Some || item.installed_local_path is Some)
    &&& item.is_installable
    &&& !item.has_ambiguous_installation
    &&& trimmed_nonempty(ov(item.source_input)) is Some
    &&& trimmed_nonempty(ov(item.tracking_local_path)) is Some
}

/// The adoptable items, in order.
pub open spec fn adoptable_items(s: Seq<ManagerRegistryCustomNode>) -> Seq<ManagerRegistryCustomNode>
    decreases s.len(),
{
    if s.len() == 0 {
        s
    } else if adoptable(s.last()) {
        adoptable_items(s.drop_last()).push(s.last())
    } else {
        adoptable_items(s.drop_last())
    }
}

/// The lower-cased, trimmed tracking path of an item.
pub open spec fn adoption_key(item: ManagerRegistryCustomNode) -> Seq<char> {
    match ov(item.tracking_local_path) {
        Some(p) => ascii_lower(trim(p)),
        None => Seq::empty(),
    }
}

pub open spec fn adoption_keys(s: Seq<ManagerRegistryCustomNode>) -> Seq<Seq<char>> {
    s.map_values(|x: ManagerRegistryCustomNode| adoption_key(x))
}

/// How often `k` occurs in `ks`.
pub open spec fn count_key(ks: Seq<Seq<char>>, k: Seq<char>) -> nat
    decreases ks.len(),
{
    if ks.len() == 0 {
        0
    } else {
        count_key(ks.drop_last(), k) + if ks.last() == k {
            1nat
        } else {
            0nat
        }
    }
}

/// The items among the first `n` whose path no other item shares.
pub open spec fn unique_items(a: Seq<ManagerRegistryCustomNode>, n: int) -> Seq<ManagerRegistryCustomNode>
    decreases n,
{
    if n <= 0 {
        Seq::empty()
    } else if count_key(adoption_keys(a), adoption_key(a[n - 1])) == 1 {
        unique_items(a, n - 1).push(a[n - 1])
    } else {
        unique_items(a, n - 1)
    }
}

/// The number of distinct paths among the first `n` keys that more than one
/// item shares.
pub open spec fn ambiguous_count(ks: Seq<Seq<char>>, n: int) -> nat
    decreases n,
{
    if n <= 0 {
        0
    } else {
        ambiguous_count(ks, n - 1) + if count_key(ks, ks[n - 1]) >= 2 && (forall|j: int|
            0 <= j < n - 1 ==> #[trigger] ks[j] != ks[n - 1]) {
            1nat
        } else {
            0nat
        }
    }
}

/// The order adoption works in: by lower-cased title, then registry id.
pub open spec fn adoption_order_key(item: ManagerRegistryCustomNode) -> Seq<Seq<char>> {
    seq![ascii_lower(item.title@), item.registry_id@]
}

/// `r` lists items of `s` by title and registry id, keeping the order of
/// items that tie.
pub open spec fn adoption_stable(s: Seq<ManagerRegistryCustomNode>, r: Seq<ManagerRegistryCustomNode>, p: Seq<int>) -> bool {
    stable_by_keys(s, r, p, |it: ManagerRegistryCustomNode| adoption_order_key(it))
}

/// The installs an adoption run works on, and how many paths it skips
/// because several entries map to them.
pub struct AdoptionPlan {
    pub candidates: Vec<ManagerRegistryCustomNode>,
    pub ambiguous_path_count: usize,
}

fn is_adoptable(item: &ManagerRegistryCustomNode) -> (r: bool)
    ensures
        r == adoptable(*item),
{
    item.is_tracking_managed && !(item.installed_repo_id.is_some()
        || item.installed_local_path.is_some()) && item.is_installable
        && !item.has_ambiguous_installation && trimmed_field(&item.source_input).is_some()
        && trimmed_field(&item.tracking_local_path).is_some()
}

fn adoption_key_exec(item: &ManagerRegistryCustomNode) -> (r: Vec<char>)
    ensures
        r@ == adoption_key(*item),
{
    match &item.tracking_local_path {
        Some(p) => ascii_lower_chars(&chars_of(crate::text::trim_str(p.as_str()).as_str())),
        None => Vec::new(),
    }
}

fn count_key_exec(ks: &Vec<Vec<char>>, k: &Vec<char>) -> (r: usize)
    ensures
        r == count_key(crate::text::vv(ks@), k@),
{
    let ghost v = crate::text::vv(ks@);
    let mut c: usize = 0;
    let mut j: usize = 0;
    while j < ks.len()
        invariant
            v == crate::text::vv(ks@),
            j <= ks.len(),
            c == count_key(v.subrange(0, j as int), k@),
            c <= j,
        decreases ks.len() - j,
    {
        assert(v.subrange(0, j + 1).drop_last() == v.subrange(0, j as int));
        if chars_eq(&ks[j], k) {
            c = c + 1;
        }
        j = j + 1;
    }
    assert(v.subrange(0, ks.len() as int) == v);
    c
}

/// Picks the installs an adoption run works on: of the adoptable items,
/// those whose lower-cased tracking path no other adoptable item shares,
/// in order of title and registry id; and counts the shared paths.
pub fn plan_adoption(items: Vec<ManagerRegistryCustomNode>) -> (r: AdoptionPlan)
    ensures
        r.candidates@.to_multiset() == unique_items(
            adoptable_items(items@),
            adoptable_items(items@).len() as int,
        ).to_multiset(),
        sorted_by_keys(r.candidates@, |it: ManagerRegistryCustomNode| adoption_order_key(it)),
        exists|p: Seq<int>|
            p.len() == r.candidates.len() && #[trigger] adoption_stable(
                unique_items(adoptable_items(items@), adoptable_items(items@).len() as int),
                r.candidates@,
                p,
            ),
        r.ambiguous_path_count == ambiguous_count(
            adoption_keys(adoptable_items(items@)),
            adoptable_items(items@).len() as int,
        ),
{
    let ghost orig = items@;
    let n = items.len();
    let mut rest = items;
    let mut a: Vec<ManagerRegistryCustomNode> = Vec::new();
    let mut ks: Vec<Vec<char>> = Vec::new();
    let mut i: usize = 0;
    assert(orig.subrange(0, 0) == Seq::<ManagerRegistryCustomNode>::empty());
    while i < n
        invariant
            n == orig.len(),
            i <= n,
            rest@ == orig.subrange(i as int, n as int),
            a@ == adoptable_items(orig.subrange(0, i as int)),
            crate::text::vv(ks@) == adoption_keys(a@),
        decreases n - i,
    {
        let e = rest.remove(0);
        assert(e == orig[i as int]);
        assert(rest@ == orig.subrange(i + 1, n as int));
        assert(orig.subrange(0, i + 1).drop_last() == orig.subrange(0, i as int));
        if is_adoptable(&e) {
            let k = adoption_key_exec(&e);
            let ghost a0 = a@;
            let ghost ks0 = crate::text::vv(ks@);
            ks.push(k);
            a.push(e);
            assert(crate::text::vv(ks@) == ks0.push(k@));
            assert(adoption_keys(a@) == adoption_keys(a0).push(adoption_key(e)));
        }
        i = i + 1;
    }
    assert(orig.subrange(0, n as int) == orig);
    let ghost av = a@;
    let ghost kv = crate::text::vv(ks@);
    let m = a.len();
    let mut ambiguous: usize = 0;
    let mut j: usize = 0;
    while j < m
        invariant
            m == av.len(),
            m == ks.len(),
            kv == crate::text::vv(ks@),
            kv == adoption_keys(av),
            j <= m,
            ambiguous == ambiguous_count(kv, j as int),
            ambiguous <= j,
        decreases m - j,
    {
        let c = count_key_exec(&ks, &ks[j]);
        let mut first = true;
        let mut t: usize = 0;
        while t < j
            invariant
                j < m,
                m == ks.len(),
                kv == crate::text::vv(ks@),
                t <= j,
                first == (forall|q: int| 0 <= q < t ==> #[trigger] kv[q] != kv[j as int]),
            decreases j - t,
        {
            assert(kv[t as int] == ks@[t as int]@);
            assert(kv[j as int] == ks@[j as int]@);
            if chars_eq(&ks[t], &ks[j]) {
                first = false;
            }
            t = t + 1;
        }
        if c >= 2 && first {
            ambiguous = ambiguous + 1;
        }
        j = j + 1;
    }
    let mut uniq: Vec<ManagerRegistryCustomNode> = Vec::new();
    let mut order_keys: Vec<Vec<Vec<char>>> = Vec::new();
    let mut rest_a = a;
    let mut q: usize = 0;
    while q < m
        invariant
            m == av.len(),
            m == ks.len(),
            kv == crate::text::vv(ks@),
            kv == adoption_keys(av),
            q <= m,
            rest_a@ == av.subrange(q as int, m as int),
            uniq@ == unique_items(av, q as int),
            order_keys.len() == uniq.len(),
            forall|z: int| 0 <= z < uniq.len() ==> key_view(#[trigger] order_keys@[z]) == adoption_order_key(uniq@[z]),
        decreases m - q,
    {
        let e = rest_a.remove(0);
        assert(e == av[q as int]);
        assert(rest_a@ == av.subrange(q + 1, m as int));
        let c = count_key_exec(&ks, &ks[q]);
        assert(kv[q as int] == ks@[q as int]@);
        assert(kv[q as int] == adoption_key(av[q as int]));
        if c == 1 {
            let mut k: Vec<Vec<char>> = Vec::new();
            k.push(ascii_lower_chars(&chars_of(e.title.as_str())));
            k.push(chars_of(e.registry_id.as_str()));
            assert(key_view(k) == adoption_order_key(e));
            order_keys.push(k);
            uniq.push(e);
        }
        q = q + 1;
    }
    let ghost kf = |it: ManagerRegistryCustomNode| adoption_order_key(it);
    let ghost u = uniq@;
    let candidates = crate::ordering::sort_by_keys(uniq, order_keys, Ghost(kf));
    proof {
        let pp = choose|pp: Seq<int>| pp.len() == u.len() && stable_by_keys(u, candidates@, pp, kf);
        assert(adoption_stable(u, candidates@, pp));
    }
    AdoptionPlan { candidates, ambiguous_path_count: ambiguous }
}

/// The outcome of an adoption run that found nothing to adopt.
pub fn adoption_empty_outcome(ambiguous_path_count: usize) -> (r: AppResult<String>)
    ensures
        ambiguous_path_count == 0 ==> (r matches Ok(s) && s@ == "no adoptable tracked installs found"@),
        ambiguous_path_count > 0 ==> (r matches Err(AppError::Conflict(m)) && m@
            == "found no uniquely mappable tracked installs to adopt; skipped "@ + decimal(
            ambiguous_path_count as nat,
        ) + " ambiguous path(s)"@),
{
    if ambiguous_path_count == 0 {
        return Ok(owned("no adoptable tracked installs found"));
    }
    let mut m = String::from_str("found no uniquely mappable tracked installs to adopt; skipped ");
    push_str(&mut m, u64_decimal(ambiguous_path_count as u64).as_str());
    push_str(&mut m, " ambiguous path(s)");
    Err(AppError::Conflict(m))
}

/// The summary of an adoption run.
pub open spec fn adoption_summary_spec(adopted: nat, total: nat, ambiguous: nat, failed: nat) -> Seq<char> {
    "adopted "@ + decimal(adopted) + " of "@ + decimal(total) + " tracked install(s)"@ + (if ambiguous > 0 {
        "; skipped "@ + decimal(ambiguous) + " ambiguous path(s)"@
    } else {
        Seq::empty()
    }) + (if failed > 0 {
        "; "@ + decimal(failed) + " failed"@
    } else {
        Seq::empty()
    })
}

/// The result of an adoption run: its summary, as an error where an
/// adoption failed.
pub fn adoption_summary(adopted: usize, total: usize, ambiguous: usize, failed: usize) -> (r: AppResult<String>)
    ensures
        failed == 0 ==> (r matches Ok(s) && s@ == adoption_summary_spec(
            adopted as nat,
            total as nat,
            ambiguous as nat,
            0,
        )),
        failed > 0 ==> (r matches Err(AppError::Conflict(m)) && m@ == adoption_summary_spec(
            adopted as nat,
            total as nat,
            ambiguous as nat,
            failed as nat,
        )),
{
    let mut s = String::from_str("adopted ");
    push_str(&mut s, u64_decimal(adopted as u64).as_str());
    push_str(&mut s, " of ");
    push_str(&mut s, u64_decimal(total as u64).as_str());
    push_str(&mut s, " tracked install(s)");
    if ambiguous > 0 {
        push_str(&mut s, "; skipped ");
        push_str(&mut s, u64_decimal(ambiguous as u64).as_str());
        push_str(&mut s, " ambiguous path(s)");
    }
    if failed > 0 {
        push_str(&mut s, "; ");
        push_str(&mut s, u64_decimal(failed as u64).as_str());
        push_str(&mut s, " failed");
        return Err(AppError::Conflict(s));
    }
    Ok(s)
}

/// The install request that adopts a candidate: its trimmed source, into
/// the directory named like its tracking path, replacing the tracking
/// install; `None` where the item has no source or no directory name.
pub fn adoption_patch_input(installation_id: &str, item: &ManagerRegistryCustomNode) -> (r: Option<PatchCustomNodeInput>)
    ensures
        r is Some <==> (trimmed_nonempty(ov(item.source_input)) is Some && item.tracking_local_path is Some
            && path_file_name_spec(item.tracking_local_path->0@) is Some),
        r matches Some(p) ==> {
            &&& p.installation_id@ == installation_id@
            &&& Some(p.input@) == trimmed_nonempty(ov(item.source_input))
            &&& ov(p.target_local_dir_name) == path_file_name_spec(item.tracking_local_path->0@)
            &&& p.existing_repo_conflict_strategy == ExistingRepoConflictStrategy::InstallWithSuffix
            &&& p.dirty_repo_strategy == DirtyRepoStrategy::Abort
            &&& p.set_tracked_target
            &&& p.sync_dependencies
            &&& !p.restart_after_success
            &&& p.adopt_tracking_install
        },
{
    let source = match trimmed_field(&item.source_input) {
        Some(s) => s,
        None => return None,
    };
    let dir_name = match &item.tracking_local_path {
        Some(p) => match path_file_name(p.as_str()) {
            Some(n) => n,
            None => return None,
        },
        None => return None,
    };
    Some(PatchCustomNodeInput {
        installation_id: owned(installation_id),
        input: source,
        target_local_dir_name: Some(dir_name),
        existing_repo_conflict_strategy: ExistingRepoConflictStrategy::InstallWithSuffix,
        dirty_repo_strategy: DirtyRepoStrategy::Abort,
        set_tracked_target: true,
        sync_dependencies: true,
        restart_after_success: false,
        adopt_tracking_install: true,
    })
}

} // verus!
