//! Entries of the ComfyUI-Manager custom-node list: identities, search,
//! directory names and `pyproject.toml` names.
use vstd::prelude::*;
use crate::git::{canonical_remote, canonicalize_remote};
use crate::text::{
    ascii_lower, ascii_lower_chars, ascii_lower_str, clone_strings, contains_exec, contains_spec,
    push_char, push_str, chars_of, find_last_char, lemma_find_last_char, ov, owned, rfind_char_end, slice_chars,
    str_eq, string_of, sv, trim, trim_str, has_prefix, starts_with, push_owned, has_char,
    trim_start, lines, split_lines, vv, eq_ignore_ascii_case, eq_ignore_ascii_case_chars, occurs_at,
};
use crate::models::{ResolvedTarget, TargetKind};
use crate::ordering::{lemma_lex_total, lemma_lex_trans, lex_le, lex_le_exec};
use crate::util::{slug_spec, slugify};

use crate::text::oqv;

verus! {

/// One entry of the manager's `custom-node-list.json`.
#[derive(Debug, Clone)]
pub struct ManagerCustomNodeEntry {
    pub id: Option<String>,
    pub title: Option<String>,
    pub author: Option<String>,
    pub description: Option<String>,
    pub reference: Option<String>,
    pub files: Option<Vec<String>>,
    pub install_type: Option<String>,
}

/// The view of an optional list of strings.
pub open spec fn osv(o: Option<Vec<String>>) -> Option<Seq<Seq<char>>> {
    match o {
        Some(v) => Some(sv(v@)),
        None => None,
    }
}

/// The trimmed text of an optional string, where that is not empty.
pub open spec fn trimmed_nonempty(o: Option<Seq<char>>) -> Option<Seq<char>> {
    match o {
        Some(s) => if trim(s).len() > 0 {
            Some(trim(s))
        } else {
            None
        },
        None => None,
    }
}

/// The trimmed text of `o`, where it is present and not blank.
pub fn trimmed_field(o: &Option<String>) -> (r: Option<String>)
    ensures
        ov(r) == trimmed_nonempty(ov(*o)),
{
    match o {
        Some(s) => {
            let t = trim_str(s.as_str());
            if t.as_str().unicode_len() > 0 {
                Some(t)
            } else {
                None
            }
        },
        None => None,
    }
}

/// The slug of `s`, where it is not empty.
pub open spec fn nonempty_slug(s: Seq<char>) -> Option<Seq<char>> {
    if slug_spec(s).len() > 0 {
        Some(slug_spec(s))
    } else {
        None
    }
}

fn nonempty_slug_exec(s: &str) -> (r: Option<String>)
    ensures
        ov(r) == nonempty_slug(s@),
{
    let slug = slugify(s);
    if slug.as_str().unicode_len() > 0 {
        Some(slug)
    } else {
        None
    }
}

/// The strings that may name an entry's git remote: its reference, then its
/// files, in order.
pub open spec fn remote_candidates(
    reference: Option<Seq<char>>,
    files: Option<Seq<Seq<char>>>,
) -> Seq<Seq<char>> {
    let head = match reference {
        Some(r) => seq![r],
        None => Seq::<Seq<char>>::empty(),
    };
    let tail = match files {
        Some(f) => f,
        None => Seq::<Seq<char>>::empty(),
    };
    head + tail
}

/// The canonical remote of the first candidate that has one.
pub open spec fn first_canonical(cands: Seq<Seq<char>>) -> Option<Seq<char>>
    decreases cands.len(),
{
    if cands.len() == 0 {
        None
    } else if canonical_remote(cands[0]) is Some {
        canonical_remote(cands[0])
    } else {
        first_canonical(cands.drop_first())
    }
}

/// The canonical GitHub remote of an entry: only `git-clone` entries have
/// one, and it is that of the first of its reference and files that is a
/// GitHub remote.
pub open spec fn entry_git_remote(e: ManagerCustomNodeEntry) -> Option<Seq<char>> {
    if ov(e.install_type) != Some("git-clone"@) {
        None
    } else {
        first_canonical(remote_candidates(ov(e.reference), osv(e.files)))
    }
}

/// The owner and repository named by the last two `/`-separated parts of
/// the canonical form of `url`.
pub open spec fn owner_repo_spec(url: Seq<char>) -> Option<(Seq<char>, Seq<char>)> {
    match canonical_remote(url) {
        None => None,
        Some(c) => {
            let k = find_last_char(c, '/');
            if k < 0 {
                None
            } else {
                let prefix = c.subrange(0, k);
                let j = find_last_char(prefix, '/');
                Some((prefix.subrange(j + 1, prefix.len() as int), c.subrange(k + 1, c.len() as int)))
            }
        },
    }
}

/// The repository name of a GitHub remote.
pub open spec fn repo_name_spec(url: Seq<char>) -> Option<Seq<char>> {
    match owner_repo_spec(url) {
        Some((_, repo)) => Some(repo),
        None => None,
    }
}

/// The owner and repository of a GitHub remote, from its canonical form.
pub fn owner_repo_from_canonical_url(url: &str) -> (r: Option<(String, String)>)
    ensures
        r is None <==> owner_repo_spec(url@) is None,
        r matches Some(p) ==> owner_repo_spec(url@) == Some((p.0@, p.1@)),
{
    let canonical = match canonicalize_remote(url) {
        Some(c) => c,
        None => return None,
    };
    let c = chars_of(canonical.as_str());
    let end = rfind_char_end(&c, '/');
    proof {
        lemma_find_last_char(c@, '/');
    }
    if end == 0 {
        return None;
    }
    let repo = string_of(&slice_chars(&c, end, c.len()));
    let prefix = slice_chars(&c, 0, end - 1);
    let start = rfind_char_end(&prefix, '/');
    let owner = string_of(&slice_chars(&prefix, start, prefix.len()));
    Some((owner, repo))
}

/// The repository name of a GitHub remote.
pub fn repo_name_from_url(url: &str) -> (r: Option<String>)
    ensures
        ov(r) == repo_name_spec(url@),
{
    match owner_repo_from_canonical_url(url) {
        Some((_, repo)) => Some(repo),
        None => None,
    }
}

/// The registry id of an entry: its trimmed id, else the slug of its title,
/// else the slug of the repository name of its git remote, else
/// `custom-node`.
pub open spec fn registry_id_spec(e: ManagerCustomNodeEntry) -> Seq<char> {
    if let Some(id) = trimmed_nonempty(ov(e.id)) {
        id
    } else if e.title is Some && nonempty_slug(e.title->0@) is Some {
        slug_spec(e.title->0@)
    } else if entry_git_remote(e) is Some && repo_name_spec(entry_git_remote(e)->0) is Some
        && nonempty_slug(repo_name_spec(entry_git_remote(e)->0)->0) is Some {
        slug_spec(repo_name_spec(entry_git_remote(e)->0)->0)
    } else {
        "custom-node"@
    }
}

/// The title shown for an entry: its trimmed title, else its registry id.
pub open spec fn entry_title_spec(e: ManagerCustomNodeEntry) -> Seq<char> {
    match trimmed_nonempty(ov(e.title)) {
        Some(t) => t,
        None => registry_id_spec(e),
    }
}

/// The install type shown for an entry: trimmed, else `unknown`.
pub open spec fn install_label_spec(e: ManagerCustomNodeEntry) -> Seq<char> {
    match trimmed_nonempty(ov(e.install_type)) {
        Some(t) => t,
        None => "unknown"@,
    }
}

/// The entry's first non-blank source: its trimmed reference, else its first
/// non-blank file, trimmed.
pub open spec fn first_nonblank(v: Seq<Seq<char>>) -> Option<Seq<char>>
    decreases v.len(),
{
    if v.len() == 0 {
        None
    } else if trim(v[0]).len() > 0 {
        Some(trim(v[0]))
    } else {
        first_nonblank(v.drop_first())
    }
}

pub open spec fn source_input_spec(e: ManagerCustomNodeEntry) -> Option<Seq<char>> {
    if trimmed_nonempty(ov(e.reference)) is Some {
        trimmed_nonempty(ov(e.reference))
    } else {
        match osv(e.files) {
            Some(f) => first_nonblank(f),
            None => None,
        }
    }
}

fn first_canonical_exec(cands: &Vec<String>) -> (r: Option<String>)
    ensures
        ov(r) == first_canonical(sv(cands@)),
{
    let mut i: usize = 0;
    assert(sv(cands@).subrange(0, cands.len() as int) == sv(cands@));
    while i < cands.len()
        invariant
            i <= cands.len(),
            first_canonical(sv(cands@)) == first_canonical(sv(cands@).subrange(i as int, cands.len() as int)),
        decreases cands.len() - i,
    {
        let ghost rest = sv(cands@).subrange(i as int, cands.len() as int);
        assert(rest[0] == cands@[i as int]@);
        let c = canonicalize_remote(cands[i].as_str());
        if c.is_some() {
            return c;
        }
        assert(rest.drop_first() == sv(cands@).subrange(i + 1, cands.len() as int));
        i = i + 1;
    }
    None
}

fn first_nonblank_exec(v: &Vec<String>) -> (r: Option<String>)
    ensures
        ov(r) == first_nonblank(sv(v@)),
{
    let mut i: usize = 0;
    assert(sv(v@).subrange(0, v.len() as int) == sv(v@));
    while i < v.len()
        invariant
            i <= v.len(),
            first_nonblank(sv(v@)) == first_nonblank(sv(v@).subrange(i as int, v.len() as int)),
        decreases v.len() - i,
    {
        let ghost rest = sv(v@).subrange(i as int, v.len() as int);
        assert(rest[0] == v@[i as int]@);
        let t = trim_str(v[i].as_str());
        if t.as_str().unicode_len() > 0 {
            return Some(t);
        }
        assert(rest.drop_first() == sv(v@).subrange(i + 1, v.len() as int));
        i = i + 1;
    }
    None
}

impl ManagerCustomNodeEntry {
    /// The canonical GitHub remote of a `git-clone` entry.
    pub fn canonical_git_remote(&self) -> (r: Option<String>)
        ensures
            ov(r) == entry_git_remote(*self),
    {
        let is_clone = match &self.install_type {
            Some(t) => str_eq(t.as_str(), "git-clone"),
            None => false,
        };
        if !is_clone {
            return None;
        }
        let mut cands: Vec<String> = Vec::new();
        if let Some(r) = &self.reference {
            cands.push(owned(r.as_str()));
        }
        if let Some(files) = &self.files {
            let mut i: usize = 0;
            let ghost head = sv(cands@);
            while i < files.len()
                invariant
                    i <= files.len(),
                    sv(cands@) == head + sv(files@).subrange(0, i as int),
                decreases files.len() - i,
            {
                let ghost before = sv(cands@);
                cands.push(owned(files[i].as_str()));
                assert(sv(cands@) == before.push(files@[i as int]@));
                assert(sv(files@).subrange(0, i + 1) == sv(files@).subrange(0, i as int).push(
                    files@[i as int]@,
                ));
                i = i + 1;
            }
            assert(sv(files@).subrange(0, files.len() as int) == sv(files@));
        }
        assert(sv(cands@) == remote_candidates(ov(self.reference), osv(self.files)));
        first_canonical_exec(&cands)
    }

    /// Whether the entry's git remote is `canonical_target`, but for ASCII
    /// case.
    pub fn matches_remote(&self, canonical_target: &str) -> (r: bool)
        ensures
            r == entry_remote_matches(*self, canonical_target@),
    {
        match self.canonical_git_remote() {
            Some(v) => eq_ignore_ascii_case_chars(&chars_of(v.as_str()), &chars_of(canonical_target)),
            None => false,
        }
    }

    /// The id the application shows for the entry.
    pub fn registry_id(&self) -> (r: String)
        ensures
            r@ == registry_id_spec(*self),
    {
        if let Some(id) = trimmed_field(&self.id) {
            return id;
        }
        if let Some(title) = &self.title {
            if let Some(s) = nonempty_slug_exec(title.as_str()) {
                return s;
            }
        }
        if let Some(remote) = self.canonical_git_remote() {
            if let Some(name) = repo_name_from_url(remote.as_str()) {
                if let Some(s) = nonempty_slug_exec(name.as_str()) {
                    return s;
                }
            }
        }
        owned("custom-node")
    }

    /// The trimmed title, else the registry id.
    pub fn title(&self) -> (r: String)
        ensures
            r@ == entry_title_spec(*self),
    {
        match trimmed_field(&self.title) {
            Some(t) => t,
            None => self.registry_id(),
        }
    }

    /// The trimmed author, where there is one.
    pub fn author(&self) -> (r: Option<String>)
        ensures
            ov(r) == trimmed_nonempty(ov(self.author)),
    {
        trimmed_field(&self.author)
    }

    /// The trimmed description, where there is one.
    pub fn description(&self) -> (r: Option<String>)
        ensures
            ov(r) == trimmed_nonempty(ov(self.description)),
    {
        trimmed_field(&self.description)
    }

    /// The trimmed install type, else `unknown`.
    pub fn install_type_label(&self) -> (r: String)
        ensures
            r@ == install_label_spec(*self),
    {
        match trimmed_field(&self.install_type) {
            Some(t) => t,
            None => owned("unknown"),
        }
    }

    /// What the user would type to install the entry: its reference, else
    /// its first file.
    pub fn source_input(&self) -> (r: Option<String>)
        ensures
            ov(r) == source_input_spec(*self),
    {
        if let Some(r) = trimmed_field(&self.reference) {
            return Some(r);
        }
        match &self.files {
            Some(files) => first_nonblank_exec(files),
            None => None,
        }
    }
}


/// A present optional string as a one-element list.
pub open spec fn opt_part(o: Option<Seq<char>>) -> Seq<Seq<char>> {
    match o {
        Some(s) => seq![s],
        None => Seq::<Seq<char>>::empty(),
    }
}

/// The fields that a search looks at: id, title, author, description,
/// reference and then the files, those that are present.
pub open spec fn haystack_parts(e: ManagerCustomNodeEntry) -> Seq<Seq<char>> {
    opt_part(ov(e.id)) + opt_part(ov(e.title)) + opt_part(ov(e.author)) + opt_part(
        ov(e.description),
    ) + opt_part(ov(e.reference)) + match osv(e.files) {
        Some(f) => f,
        None => Seq::<Seq<char>>::empty(),
    }
}

/// `parts` joined with `\n` between them.
pub open spec fn join_lines(parts: Seq<Seq<char>>) -> Seq<char>
    decreases parts.len(),
{
    if parts.len() == 0 {
        Seq::<char>::empty()
    } else if parts.len() == 1 {
        parts[0]
    } else {
        join_lines(parts.drop_last()) + seq!['\n'] + parts.last()
    }
}

/// The lower-cased text a query is searched in.
pub open spec fn haystack_spec(e: ManagerCustomNodeEntry) -> Seq<char> {
    ascii_lower(join_lines(haystack_parts(e)))
}

fn join_lines_exec(parts: &Vec<String>) -> (r: String)
    ensures
        r@ == join_lines(sv(parts@)),
{
    let mut r = String::new();
    let mut i: usize = 0;
    while i < parts.len()
        invariant
            i <= parts.len(),
            r@ == join_lines(sv(parts@).subrange(0, i as int)),
        decreases parts.len() - i,
    {
        let ghost prev = sv(parts@).subrange(0, i as int);
        let ghost next = sv(parts@).subrange(0, i + 1);
        assert(next.drop_last() == prev);
        assert(next.last() == parts@[i as int]@);
        if i > 0 {
            push_char(&mut r, '\n');
        }
        push_str(&mut r, parts[i].as_str());
        i = i + 1;
    }
    assert(sv(parts@).subrange(0, parts.len() as int) == sv(parts@));
    r
}

fn push_opt(v: &mut Vec<String>, o: &Option<String>)
    ensures
        sv(final(v)@) == sv(old(v)@) + opt_part(ov(*o)),
{
    match o {
        Some(s) => {
            let ghost before = sv(v@);
            v.push(owned(s.as_str()));
            assert(sv(v@) == before + seq![s@]);
        },
        None => {
            assert(sv(v@) + Seq::<Seq<char>>::empty() == sv(v@));
        },
    }
}

/// Each part occurs in the parts joined by line breaks.
proof fn lemma_join_lines_holds_parts(parts: Seq<Seq<char>>, k: int)
    requires
        0 <= k < parts.len(),
    ensures
        contains_spec(join_lines(parts), parts[k]),
    decreases parts.len(),
{
    let j = join_lines(parts);
    if parts.len() == 1 {
        assert(occurs_at(j, parts[k], 0)) by {
            assert(j.subrange(0, parts[k].len() as int) =~= parts[k]);
        }
    } else {
        let init = parts.drop_last();
        let head = join_lines(init);
        assert(j == head + seq!['\n'] + parts.last());
        if k < parts.len() - 1 {
            lemma_join_lines_holds_parts(init, k);
            assert(init[k] == parts[k]);
            let o = choose|o: int| occurs_at(head, parts[k], o);
            assert(j.subrange(o, o + parts[k].len()) =~= head.subrange(o, o + parts[k].len()));
            assert(occurs_at(j, parts[k], o));
        } else {
            let o: int = (head.len() + 1) as int;
            assert(j.subrange(o, o + parts[k].len()) =~= parts.last());
            assert(occurs_at(j, parts[k], o));
        }
    }
}

/// Lower-casing keeps an occurrence: where `p` occurs in `s`, the
/// lower-cased `p` occurs in the lower-cased `s`, and anything occurring in
/// the lower-cased `p` occurs there too.
proof fn lemma_lower_keeps_occurrence(s: Seq<char>, p: Seq<char>, q: Seq<char>)
    requires
        contains_spec(s, p),
        contains_spec(ascii_lower(p), q),
    ensures
        contains_spec(ascii_lower(s), q),
{
    let o = choose|o: int| occurs_at(s, p, o);
    let o2 = choose|o2: int| occurs_at(ascii_lower(p), q, o2);
    let ls = ascii_lower(s);
    let lp = ascii_lower(p);
    assert(ls.subrange(o, o + p.len()) =~= lp) by {
        assert forall|i: int| 0 <= i < p.len() implies #[trigger] ls.subrange(o, o + p.len())[i] == lp[i] by {
            assert(s.subrange(o, o + p.len())[i] == p[i]);
        }
    }
    assert(ls.subrange(o + o2, o + o2 + q.len()) =~= lp.subrange(o2, o2 + q.len())) by {
        assert forall|i: int| 0 <= i < q.len() implies #[trigger] ls.subrange(o + o2, o + o2 + q.len())[i]
            == lp.subrange(o2, o2 + q.len())[i] by {
            assert(ls[o + o2 + i] == ls.subrange(o, o + p.len())[o2 + i]);
        }
    }
    assert(occurs_at(ls, q, o + o2));
}

/// A search keeps an entry whose description, lower-cased, holds the
/// normalized query; so it does for the id, the title, the author, the
/// reference and each of the files.
pub proof fn law_search_looks_at_every_field(e: ManagerCustomNodeEntry, query: Seq<char>, field: Seq<char>)
    requires
        normalized_query(Some(query)) matches Some(nq) && contains_spec(ascii_lower(field), nq),
        ov(e.description) == Some(field) || ov(e.id) == Some(field) || ov(e.title) == Some(field)
            || ov(e.author) == Some(field) || ov(e.reference) == Some(field) || (osv(e.files) matches Some(
            fs) && fs.contains(field)),
    ensures
        search_keeps(e, Some(query)),
{
    let parts = haystack_parts(e);
    let a = opt_part(ov(e.id));
    let b = opt_part(ov(e.title));
    let c = opt_part(ov(e.author));
    let d = opt_part(ov(e.description));
    let r = opt_part(ov(e.reference));
    let f = match osv(e.files) {
        Some(f) => f,
        None => Seq::<Seq<char>>::empty(),
    };
    assert(parts == a + b + c + d + r + f);
    let k: int = if ov(e.description) == Some(field) {
        (a.len() + b.len() + c.len()) as int
    } else if ov(e.id) == Some(field) {
        0
    } else if ov(e.title) == Some(field) {
        a.len() as int
    } else if ov(e.author) == Some(field) {
        (a.len() + b.len()) as int
    } else if ov(e.reference) == Some(field) {
        (a.len() + b.len() + c.len() + d.len()) as int
    } else {
        let j = choose|j: int| 0 <= j < f.len() && f[j] == field;
        (a.len() + b.len() + c.len() + d.len() + r.len()) + j
    };
    assert(parts[k] == field);
    lemma_join_lines_holds_parts(parts, k);
    let nq = normalized_query(Some(query))->0;
    lemma_lower_keeps_occurrence(join_lines(parts), field, nq);
}

/// The key an entry is listed by: its trimmed title, else its trimmed id,
/// else its reference, else `zzzz-custom-node`.
pub open spec fn sort_key_spec(e: ManagerCustomNodeEntry) -> Seq<char> {
    if let Some(t) = trimmed_nonempty(ov(e.title)) {
        t
    } else if let Some(i) = trimmed_nonempty(ov(e.id)) {
        i
    } else if let Some(r) = ov(e.reference) {
        r
    } else {
        "zzzz-custom-node"@
    }
}

/// The lower-cased sort key, by which search results are ordered.
pub open spec fn search_key(e: ManagerCustomNodeEntry) -> Seq<char> {
    ascii_lower(sort_key_spec(e))
}

impl ManagerCustomNodeEntry {
    /// The lower-cased text of all the entry's fields, one per line.
    pub fn search_haystack(&self) -> (r: String)
        ensures
            r@ == haystack_spec(*self),
    {
        let mut parts: Vec<String> = Vec::new();
        push_opt(&mut parts, &self.id);
        push_opt(&mut parts, &self.title);
        push_opt(&mut parts, &self.author);
        push_opt(&mut parts, &self.description);
        push_opt(&mut parts, &self.reference);
        if let Some(files) = &self.files {
            let more = clone_strings(files);
            let ghost before = sv(parts@);
            let mut i: usize = 0;
            while i < more.len()
                invariant
                    i <= more.len(),
                    sv(parts@) == before + sv(more@).subrange(0, i as int),
                decreases more.len() - i,
            {
                let ghost b = sv(parts@);
                parts.push(owned(more[i].as_str()));
                assert(sv(parts@) == b.push(more@[i as int]@));
                assert(sv(more@).subrange(0, i + 1) == sv(more@).subrange(0, i as int).push(
                    more@[i as int]@,
                ));
                i = i + 1;
            }
            assert(sv(more@).subrange(0, more.len() as int) == sv(more@));
        } else {
            assert(sv(parts@) + Seq::<Seq<char>>::empty() == sv(parts@));
        }
        assert(sv(parts@) == haystack_parts(*self));
        ascii_lower_str(join_lines_exec(&parts).as_str())
    }

    /// Whether the lower-cased query occurs in the entry's haystack.
    pub fn matches_query(&self, query: &str) -> (r: bool)
        ensures
            r == contains_spec(haystack_spec(*self), query@),
    {
        contains_exec(&chars_of(self.search_haystack().as_str()), &chars_of(query))
    }

    /// The key the entry is listed by.
    pub fn sort_key(&self) -> (r: String)
        ensures
            r@ == sort_key_spec(*self),
    {
        if let Some(t) = trimmed_field(&self.title) {
            return t;
        }
        if let Some(i) = trimmed_field(&self.id) {
            return i;
        }
        match &self.reference {
            Some(r) => owned(r.as_str()),
            None => owned("zzzz-custom-node"),
        }
    }
}

/// Entries in order of their search keys.
pub open spec fn keys_sorted(s: Seq<ManagerCustomNodeEntry>) -> bool {
    forall|i: int, j: int|
        0 <= i < j < s.len() ==> lex_le(#[trigger] search_key(s[i]), #[trigger] search_key(s[j]))
}

fn search_key_exec(e: &ManagerCustomNodeEntry) -> (r: Vec<char>)
    ensures
        r@ == search_key(*e),
{
    ascii_lower_chars(&chars_of(e.sort_key().as_str()))
}

/// `r` lists entries of `s` through the index map `p`, each index at most
/// once, and entries with equal search keys come in their order in `s`.
pub open spec fn search_stable(s: Seq<ManagerCustomNodeEntry>, r: Seq<ManagerCustomNodeEntry>, p: Seq<int>) -> bool {
    &&& p.len() == r.len()
    &&& forall|k: int| 0 <= k < p.len() ==> 0 <= #[trigger] p[k] < s.len() && r[k] == s[p[k]]
    &&& forall|a: int, b: int| 0 <= a < b < p.len() ==> #[trigger] p[a] != #[trigger] p[b]
    &&& forall|a: int, b: int|
        0 <= a < b < p.len() && lex_le(search_key(r[b]), search_key(r[a])) ==> #[trigger] p[a] < #[trigger] p[b]
}

/// The entries ordered by their lower-cased sort keys; entries with equal
/// keys keep their order.
pub fn sort_entries_by_key(entries: Vec<ManagerCustomNodeEntry>) -> (r: Vec<ManagerCustomNodeEntry>)
    ensures
        r@.to_multiset() == entries@.to_multiset(),
        keys_sorted(r@),
        exists|p: Seq<int>| p.len() == entries.len() && #[trigger] search_stable(entries@, r@, p),
{
    broadcast use vstd::multiset::group_multiset_axioms;
    broadcast use vstd::seq_lib::group_to_multiset_ensures;

    let ghost orig = entries@;
    let mut rest = entries;
    let mut r: Vec<ManagerCustomNodeEntry> = Vec::new();
    let mut keys: Vec<Vec<char>> = Vec::new();
    let ghost mut p: Seq<int> = Seq::empty();
    assert(r@.to_multiset() =~= vstd::multiset::Multiset::empty());
    assert(orig.subrange(0, orig.len() as int) == orig);
    while rest.len() > 0
        invariant
            r@.to_multiset().add(rest@.to_multiset()) == orig.to_multiset(),
            keys.len() == r.len(),
            forall|i: int| 0 <= i < r.len() ==> (#[trigger] keys@[i])@ == search_key(r@[i]),
            keys_sorted(r@),
            rest.len() <= orig.len(),
            rest@ == orig.subrange(orig.len() - rest.len(), orig.len() as int),
            r.len() == orig.len() - rest.len(),
            search_stable(orig, r@, p),
            forall|k: int| 0 <= k < p.len() ==> #[trigger] p[k] < orig.len() - rest.len(),
        decreases rest.len(),
    {
        let ghost rest0 = rest@;
        let ghost r0 = r@;
        let ghost p0 = p;
        let ghost t = orig.len() - rest0.len();
        let e = rest.remove(0);
        assert(e == orig[t]) by {
            assert(rest0[0] == orig[t]);
        }
        assert(rest@ == orig.subrange(orig.len() - rest.len(), orig.len() as int));
        let k = search_key_exec(&e);
        let mut j: usize = 0;
        while j < r.len() && lex_le_exec(&keys[j], &k)
            invariant
                j <= r.len(),
                keys.len() == r.len(),
                forall|i: int| 0 <= i < r.len() ==> (#[trigger] keys@[i])@ == search_key(r@[i]),
                forall|i: int| 0 <= i < j ==> lex_le(#[trigger] search_key(r@[i]), k@),
            decreases r.len() - j,
        {
            j = j + 1;
        }
        proof {
            if j < r.len() {
                assert(!lex_le(search_key(r@[j as int]), k@));
                lemma_lex_total(search_key(r@[j as int]), k@);
                assert forall|i: int| j <= i < r.len() implies lex_le(k@, #[trigger] search_key(r@[i]))
                    && !lex_le(search_key(r@[i]), k@) by {
                    if i > j {
                        lemma_lex_trans(k@, search_key(r@[j as int]), search_key(r@[i]));
                        if lex_le(search_key(r@[i]), k@) {
                            lemma_lex_trans(search_key(r@[j as int]), search_key(r@[i]), k@);
                        }
                    }
                }
            }
        }
        let ghost ke = k@;
        let ghost keys0 = keys@;
        r.insert(j, e);
        keys.insert(j, k);
        proof {
            p = p0.insert(j as int, t);
            let n = r@;
            assert(n == r0.insert(j as int, e));
            assert forall|a: int, b: int| 0 <= a < b < n.len() implies lex_le(
                #[trigger] search_key(n[a]),
                #[trigger] search_key(n[b]),
            ) by {
                if b < j {
                } else if b == j {
                } else if a < j {
                    lemma_lex_trans(search_key(n[a]), ke, search_key(n[b]));
                } else if a == j {
                } else {
                }
            }
            assert forall|i: int| 0 <= i < r.len() implies (#[trigger] keys@[i])@ == search_key(r@[i]) by {
                if i < j {
                } else if i == j {
                } else {
                    assert(keys@[i] == keys0[i - 1]);
                }
            }
            assert forall|q: int| 0 <= q < p.len() implies 0 <= #[trigger] p[q] < orig.len() && n[q] == orig[p[q]]
                && p[q] < orig.len() - rest.len() by {
                if q < j {
                    assert(p[q] == p0[q]);
                } else if q > j {
                    assert(p[q] == p0[q - 1]);
                }
            }
            assert forall|a: int, b: int| 0 <= a < b < p.len() implies #[trigger] p[a] != #[trigger] p[b] by {
                if a != j && b != j {
                    let a0 = if a < j { a } else { a - 1 };
                    let b0 = if b < j { b } else { b - 1 };
                    assert(p[a] == p0[a0]);
                    assert(p[b] == p0[b0]);
                } else if a == j {
                    assert(p[b] == p0[b - 1]);
                } else {
                    assert(p[a] == p0[a]);
                }
            }
            assert forall|a: int, b: int|
                0 <= a < b < p.len() && lex_le(search_key(n[b]), search_key(n[a])) implies #[trigger] p[a]
                < #[trigger] p[b] by {
                if a != j && b != j {
                    let a0 = if a < j { a } else { a - 1 };
                    let b0 = if b < j { b } else { b - 1 };
                    assert(p[a] == p0[a0]);
                    assert(p[b] == p0[b0]);
                    assert(n[a] == r0[a0]);
                    assert(n[b] == r0[b0]);
                } else if a == j {
                    assert(n[b] == r0[b - 1]);
                    assert(!lex_le(search_key(r0[b - 1]), ke));
                } else {
                    assert(p[a] == p0[a]);
                }
            }
            assert(search_stable(orig, r@, p));
            assert(rest0.remove(0) == rest@);
            vstd::seq_lib::to_multiset_insert(r0, j as int, e);
            vstd::seq_lib::to_multiset_remove(rest0, 0);
            assert(r@.to_multiset() == r0.to_multiset().insert(e));
            assert(rest@.to_multiset() == rest0.to_multiset().remove(rest0[0]));
            vstd::seq_lib::to_multiset_contains(rest0, rest0[0]);
            assert(rest0.contains(rest0[0]));
            assert(rest0.to_multiset().contains(rest0[0]));
        }
    }
    assert(search_stable(orig, r@, p));
    r
}



/// The query a search uses: trimmed and ASCII-lower-cased, where not blank.
pub open spec fn normalized_query(q: Option<Seq<char>>) -> Option<Seq<char>> {
    match trimmed_nonempty(q) {
        Some(t) => Some(ascii_lower(t)),
        None => None,
    }
}

/// Whether a search for `q` keeps the entry: with no query every entry is
/// kept, else those whose haystack holds the normalized query.
pub open spec fn search_keeps(e: ManagerCustomNodeEntry, q: Option<Seq<char>>) -> bool {
    match normalized_query(q) {
        None => true,
        Some(nq) => contains_spec(haystack_spec(e), nq),
    }
}

/// The entries a search for `q` keeps, in their order.
pub open spec fn kept_entries(s: Seq<ManagerCustomNodeEntry>, q: Option<Seq<char>>) -> Seq<
    ManagerCustomNodeEntry,
>
    decreases s.len(),
{
    if s.len() == 0 {
        s
    } else if search_keeps(s.last(), q) {
        kept_entries(s.drop_last(), q).push(s.last())
    } else {
        kept_entries(s.drop_last(), q)
    }
}

fn normalize_query(query: Option<&str>) -> (r: Option<String>)
    ensures
        ov(r) == normalized_query(oqv(query)),
{
    match query {
        Some(q) => {
            let t = trim_str(q);
            if t.as_str().unicode_len() > 0 {
                Some(ascii_lower_str(t.as_str()))
            } else {
                None
            }
        },
        None => None,
    }
}

/// The entries that a search for `query` keeps, in their order.
pub fn filter_entries(entries: Vec<ManagerCustomNodeEntry>, query: Option<&str>) -> (r: Vec<
    ManagerCustomNodeEntry,
>)
    ensures
        r@ == kept_entries(entries@, oqv(query)),
{
    let q = normalize_query(query);
    let ghost orig = entries@;
    let n = entries.len();
    let mut rest = entries;
    let mut out: Vec<ManagerCustomNodeEntry> = Vec::new();
    let mut i: usize = 0;
    assert(orig.subrange(0, 0) == Seq::<ManagerCustomNodeEntry>::empty());
    assert(orig.subrange(0, n as int) == orig);
    while i < n
        invariant
            n == orig.len(),
            i <= n,
            rest@ == orig.subrange(i as int, n as int),
            out@ == kept_entries(orig.subrange(0, i as int), oqv(query)),
            ov(q) == normalized_query(oqv(query)),
        decreases n - i,
    {
        let ghost rest0 = rest@;
        let e = rest.remove(0);
        assert(e == orig[i as int]);
        assert(rest@ == orig.subrange(i + 1, n as int));
        let ghost pre = orig.subrange(0, i + 1);
        assert(pre.drop_last() == orig.subrange(0, i as int));
        assert(pre.last() == e);
        let keep = match &q {
            Some(nq) => e.matches_query(nq.as_str()),
            None => true,
        };
        if keep {
            out.push(e);
        }
        i = i + 1;
    }
    out
}

/// A search over the registry: the entries whose haystack holds the
/// trimmed, lower-cased query (all entries for a blank or missing query),
/// ordered by lower-cased sort key and cut to `limit`. The result is
/// sorted, takes no entry more often than the kept entries hold it, and
/// leaves out nothing that sorts before an entry it keeps.
pub fn select_search_entries(
    entries: Vec<ManagerCustomNodeEntry>,
    query: Option<&str>,
    limit: usize,
) -> (r: Vec<ManagerCustomNodeEntry>)
    ensures
        keys_sorted(r@),
        r.len() == (if limit < kept_entries(entries@, oqv(query)).len() {
            limit as int
        } else {
            kept_entries(entries@, oqv(query)).len() as int
        }),
        r@.to_multiset().subset_of(kept_entries(entries@, oqv(query)).to_multiset()),
        forall|e: ManagerCustomNodeEntry, i: int|
            #![trigger kept_entries(entries@, oqv(query)).to_multiset().sub(r@.to_multiset()).count(e), r@[i]]
            kept_entries(entries@, oqv(query)).to_multiset().sub(r@.to_multiset()).count(e) > 0
                && 0 <= i < r.len() ==> lex_le(search_key(r@[i]), search_key(e)),
        exists|full: Seq<ManagerCustomNodeEntry>, p: Seq<int>|
            full.len() == kept_entries(entries@, oqv(query)).len() && p.len() == full.len()
                && #[trigger] search_stable(kept_entries(entries@, oqv(query)), full, p) && keys_sorted(full)
                && r@ == full.subrange(0, r.len() as int),
{
    broadcast use vstd::multiset::group_multiset_axioms;

    let ghost kept = kept_entries(entries@, oqv(query));
    let filtered = filter_entries(entries, query);
    let mut sorted = sort_entries_by_key(filtered);
    let ghost p = sorted@;
    proof {
        vstd::seq_lib::to_multiset_len(p);
        vstd::seq_lib::to_multiset_len(kept);
    }
    sorted.truncate(limit);
    proof {
        let n = sorted.len() as int;
        let skip = p.subrange(n, p.len() as int);
        assert(p == sorted@ + skip);
        vstd::seq_lib::lemma_multiset_commutative(sorted@, skip);
        assert(kept.to_multiset() == sorted@.to_multiset().add(skip.to_multiset()));
        assert(kept.to_multiset().sub(sorted@.to_multiset()) =~= skip.to_multiset());
        assert forall|e: ManagerCustomNodeEntry, i: int|
            #![trigger kept.to_multiset().sub(sorted@.to_multiset()).count(e), sorted@[i]]
            kept.to_multiset().sub(sorted@.to_multiset()).count(e) > 0 && 0 <= i < n implies lex_le(
            search_key(sorted@[i]),
            search_key(e),
        ) by {
            vstd::seq_lib::to_multiset_contains(skip, e);
            let j = choose|j: int| 0 <= j < skip.len() && skip[j] == e;
            assert(p[n + j] == e);
            assert(p[i] == sorted@[i]);
            assert(lex_le(search_key(p[i]), search_key(p[n + j])));
        }
        let perm = choose|perm: Seq<int>| perm.len() == kept.len() && #[trigger] search_stable(kept, p, perm);
        assert(sorted@ == p.subrange(0, sorted@.len() as int));
        assert(search_stable(kept, p, perm));
    }
    sorted
}


/// `s` without its leading `-` and `_` characters.
pub open spec fn trim_dash_underscore(s: Seq<char>) -> Seq<char>
    decreases s.len(),
{
    if s.len() > 0 && (s[0] == '-' || s[0] == '_') {
        trim_dash_underscore(s.drop_first())
    } else {
        s
    }
}

/// `out` with `x` appended, unless it already holds `x`.
pub open spec fn push_unique(out: Seq<Seq<char>>, x: Seq<char>) -> Seq<Seq<char>> {
    if out.contains(x) {
        out
    } else {
        out.push(x)
    }
}

/// The slug with `prefix` and then any `-` or `_` removed from its front,
/// where it starts with `prefix` and something is left.
pub open spec fn strip_comfy(slug: Seq<char>, prefix: Seq<char>) -> Option<Seq<char>> {
    if has_prefix(slug, prefix) {
        let t = trim_dash_underscore(slug.subrange(prefix.len() as int, slug.len() as int));
        if t.len() > 0 {
            Some(t)
        } else {
            None
        }
    } else {
        None
    }
}

pub open spec fn push_stripped(out: Seq<Seq<char>>, slug: Seq<char>, prefix: Seq<char>) -> Seq<
    Seq<char>,
> {
    match strip_comfy(slug, prefix) {
        Some(t) => push_unique(out, t),
        None => out,
    }
}

/// The directory names a raw name suggests: its slug, and the slug without
/// a `comfyui-`, `comfyui_` or `comfyui` prefix; each added once.
pub open spec fn push_candidate(out: Seq<Seq<char>>, raw: Seq<char>) -> Seq<Seq<char>> {
    let slug = slug_spec(raw);
    if slug.len() == 0 {
        out
    } else {
        push_stripped(
            push_stripped(push_stripped(push_unique(out, slug), slug, "comfyui-"@), slug, "comfyui_"@),
            slug,
            "comfyui"@,
        )
    }
}

/// The directory names under which an entry may already be installed: those
/// suggested by its id, its title and the repository name of its remote.
pub open spec fn expected_dir_names_spec(e: ManagerCustomNodeEntry) -> Seq<Seq<char>> {
    let o1 = match ov(e.id) {
        Some(i) => push_candidate(Seq::<Seq<char>>::empty(), i),
        None => Seq::<Seq<char>>::empty(),
    };
    let o2 = match ov(e.title) {
        Some(t) => push_candidate(o1, t),
        None => o1,
    };
    match entry_git_remote(e) {
        Some(r) => match repo_name_spec(r) {
            Some(n) => push_candidate(o2, n),
            None => o2,
        },
        None => o2,
    }
}

/// No name occurs twice and none is empty.
pub open spec fn distinct_nonempty(s: Seq<Seq<char>>) -> bool {
    &&& forall|i: int, j: int| 0 <= i < j < s.len() ==> #[trigger] s[i] != #[trigger] s[j]
    &&& forall|i: int| 0 <= i < s.len() ==> (#[trigger] s[i]).len() > 0
}

proof fn lemma_push_unique_keeps(out: Seq<Seq<char>>, x: Seq<char>)
    requires
        distinct_nonempty(out),
        x.len() > 0,
    ensures
        distinct_nonempty(push_unique(out, x)),
{
    if !out.contains(x) {
        let n = out.push(x);
        assert forall|i: int, j: int| 0 <= i < j < n.len() implies #[trigger] n[i] != #[trigger] n[j] by {
            if j == out.len() {
                assert(out[i] == n[i]);
                if out[i] == x {
                    assert(out.contains(x));
                }
            }
        }
    }
}

proof fn lemma_push_candidate_keeps(out: Seq<Seq<char>>, raw: Seq<char>)
    requires
        distinct_nonempty(out),
    ensures
        distinct_nonempty(push_candidate(out, raw)),
{
    let slug = slug_spec(raw);
    if slug.len() > 0 {
        lemma_push_unique_keeps(out, slug);
        let o1 = push_unique(out, slug);
        if let Some(t) = strip_comfy(slug, "comfyui-"@) {
            lemma_push_unique_keeps(o1, t);
        }
        let o2 = push_stripped(o1, slug, "comfyui-"@);
        if let Some(t) = strip_comfy(slug, "comfyui_"@) {
            lemma_push_unique_keeps(o2, t);
        }
        let o3 = push_stripped(o2, slug, "comfyui_"@);
        if let Some(t) = strip_comfy(slug, "comfyui"@) {
            lemma_push_unique_keeps(o3, t);
        }
    }
}

fn trim_dash_underscore_exec(v: &Vec<char>, from: usize) -> (r: Vec<char>)
    requires
        from <= v.len(),
    ensures
        r@ == trim_dash_underscore(v@.subrange(from as int, v.len() as int)),
{
    let mut i: usize = from;
    while i < v.len() && (v[i] == '-' || v[i] == '_')
        invariant
            from <= i <= v.len(),
            trim_dash_underscore(v@.subrange(from as int, v.len() as int)) == trim_dash_underscore(
                v@.subrange(i as int, v.len() as int),
            ),
        decreases v.len() - i,
    {
        assert(v@.subrange(i as int, v.len() as int).drop_first() == v@.subrange(
            i + 1,
            v.len() as int,
        ));
        i = i + 1;
    }
    slice_chars(v, i, v.len())
}

pub fn push_unique_exec(out: &mut Vec<String>, x: &str)
    ensures
        sv(final(out)@) == push_unique(sv(old(out)@), x@),
{
    let mut i: usize = 0;
    while i < out.len()
        invariant
            i <= out.len(),
            forall|k: int| 0 <= k < i ==> out@[k]@ != x@,
        decreases out.len() - i,
    {
        if str_eq(out[i].as_str(), x) {
            assert(sv(out@)[i as int] == x@);
            assert(sv(out@).contains(x@));
            return;
        }
        i = i + 1;
    }
    assert(!sv(out@).contains(x@)) by {
        if sv(out@).contains(x@) {
            let k = choose|k: int| 0 <= k < sv(out@).len() && sv(out@)[k] == x@;
            assert(out@[k]@ == x@);
        }
    }
    push_owned(out, x);
}

fn push_stripped_exec(out: &mut Vec<String>, slug: &Vec<char>, prefix: &str)
    ensures
        sv(final(out)@) == push_stripped(sv(old(out)@), slug@, prefix@),
{
    let p = chars_of(prefix);
    if starts_with(slug, &p) {
        let t = trim_dash_underscore_exec(slug, p.len());
        if t.len() > 0 {
            push_unique_exec(out, string_of(&t).as_str());
        }
    }
}

fn push_candidate_exec(out: &mut Vec<String>, raw: &str)
    ensures
        sv(final(out)@) == push_candidate(sv(old(out)@), raw@),
{
    let slug = slugify(raw);
    let sc = chars_of(slug.as_str());
    if sc.len() == 0 {
        return;
    }
    push_unique_exec(out, slug.as_str());
    push_stripped_exec(out, &sc, "comfyui-");
    push_stripped_exec(out, &sc, "comfyui_");
    push_stripped_exec(out, &sc, "comfyui");
}

/// The directory names under which `entry` may already be installed, each
/// once and none empty.
pub fn expected_dir_names_for_entry(entry: &ManagerCustomNodeEntry) -> (r: Vec<String>)
    ensures
        sv(r@) == expected_dir_names_spec(*entry),
        distinct_nonempty(sv(r@)),
{
    let mut out: Vec<String> = Vec::new();
    assert(sv(out@) == Seq::<Seq<char>>::empty());
    if let Some(id) = &entry.id {
        push_candidate_exec(&mut out, id.as_str());
    }
    if let Some(title) = &entry.title {
        push_candidate_exec(&mut out, title.as_str());
    }
    if let Some(remote) = entry.canonical_git_remote() {
        if let Some(name) = repo_name_from_url(remote.as_str()) {
            push_candidate_exec(&mut out, name.as_str());
        }
    }
    proof {
        let e = *entry;
        let empty = Seq::<Seq<char>>::empty();
        let o1 = match ov(e.id) {
            Some(i) => push_candidate(empty, i),
            None => empty,
        };
        if let Some(i) = ov(e.id) {
            lemma_push_candidate_keeps(empty, i);
        }
        let o2 = match ov(e.title) {
            Some(t) => push_candidate(o1, t),
            None => o1,
        };
        if let Some(t) = ov(e.title) {
            lemma_push_candidate_keeps(o1, t);
        }
        if let Some(r) = entry_git_remote(e) {
            if let Some(n) = repo_name_spec(r) {
                lemma_push_candidate_keeps(o2, n);
            }
        }
    }
    out
}


/// The section name of a `pyproject.toml` header line, as
/// `^\s*\[(?P<section>[^\]]+)\]\s*$` captures it: the trimmed line is `[`,
/// a non-empty text without `]`, and `]`.
pub open spec fn section_header(line: Seq<char>) -> Option<Seq<char>> {
    let t = trim(line);
    if t.len() >= 3 && t[0] == '[' && t.last() == ']' && !has_char(
        t.subrange(1, t.len() - 1),
        ']',
    ) {
        Some(t.subrange(1, t.len() - 1))
    } else {
        None
    }
}

pub open spec fn is_quote(c: char) -> bool {
    c == '"' || c == '\''
}

/// The value of a `name = "..."` line, as
/// `^\s*name\s*=\s*["'](?P<name>[^"']+)["']\s*$` captures it: after `name`,
/// optional white space, `=` and optional white space, the rest of the
/// trimmed line is a quote, a non-empty text without quotes, and a quote.
pub open spec fn name_assignment(line: Seq<char>) -> Option<Seq<char>> {
    let t = trim(line);
    if !has_prefix(t, "name"@) {
        None
    } else {
        let a = trim_start(t.subrange(4, t.len() as int));
        if a.len() == 0 || a[0] != '=' {
            None
        } else {
            let b = trim_start(a.subrange(1, a.len() as int));
            let inner = b.subrange(1, b.len() - 1);
            if b.len() >= 3 && is_quote(b[0]) && is_quote(b.last()) && !has_char(inner, '"')
                && !has_char(inner, '\'') {
                Some(inner)
            } else {
                None
            }
        }
    }
}

/// Captures the `section` group of `^\s*\[(?P<section>[^\]]+)\]\s*$` in a
/// line with `regex::Regex::captures`. The contract restates the pattern:
/// `\s` is the Unicode `White_Space` class and the group cannot hold `]`.
#[verifier::external_body]
fn pyproject_section(line: &str) -> (r: Option<String>)
    ensures
        ov(r) == section_header(line@),
{
    let re = regex::Regex::new(r"^\s*\[(?P<section>[^\]]+)\]\s*$").unwrap();
    let caps = re.captures(line)?;
    caps.name("section").map(|m| m.as_str().to_string())
}

/// Captures the `name` group of `^\s*name\s*=\s*["'](?P<name>[^"']+)["']\s*$`
/// in a line with `regex::Regex::captures`. The contract restates the
/// pattern: the group cannot hold a quote, so the closing quote ends the
/// trimmed line.
#[verifier::external_body]
fn pyproject_name_value(line: &str) -> (r: Option<String>)
    ensures
        ov(r) == name_assignment(line@),
{
    let re = regex::Regex::new(r#"^\s*name\s*=\s*["'](?P<name>[^"']+)["']\s*$"#).unwrap();
    let caps = re.captures(line)?;
    caps.name("name").map(|m| m.as_str().to_string())
}

/// The first `name` assignment inside a `[project]` section of the lines,
/// trimmed; `in_project` says whether the lines start inside one.
pub open spec fn pyproject_scan(ls: Seq<Seq<char>>, in_project: bool) -> Option<Seq<char>>
    decreases ls.len(),
{
    if ls.len() == 0 {
        None
    } else if let Some(sec) = section_header(ls[0]) {
        pyproject_scan(ls.drop_first(), sec == "project"@)
    } else if in_project && name_assignment(ls[0]) is Some {
        Some(trim(name_assignment(ls[0])->0))
    } else {
        pyproject_scan(ls.drop_first(), in_project)
    }
}

/// The project name that a `pyproject.toml` declares in its `[project]`
/// section.
pub open spec fn pyproject_name_spec(text: Seq<char>) -> Option<Seq<char>> {
    pyproject_scan(lines(text), false)
}

/// Reads the `name` of the `[project]` section of a `pyproject.toml`.
pub fn parse_pyproject_name(text: &str) -> (r: Option<String>)
    ensures
        ov(r) == pyproject_name_spec(text@),
{
    let ls = split_lines(&chars_of(text));
    let mut in_project = false;
    let mut i: usize = 0;
    assert(vv(ls@).subrange(0, ls.len() as int) == vv(ls@));
    while i < ls.len()
        invariant
            i <= ls.len(),
            pyproject_name_spec(text@) == pyproject_scan(
                vv(ls@).subrange(i as int, ls.len() as int),
                in_project,
            ),
        decreases ls.len() - i,
    {
        let ghost rest = vv(ls@).subrange(i as int, ls.len() as int);
        assert(rest[0] == ls@[i as int]@);
        assert(rest.drop_first() == vv(ls@).subrange(i + 1, ls.len() as int));
        let line = string_of(&ls[i]);
        if let Some(section) = pyproject_section(line.as_str()) {
            in_project = str_eq(section.as_str(), "project");
        } else if in_project {
            if let Some(name) = pyproject_name_value(line.as_str()) {
                return Some(trim_str(name.as_str()));
            }
        }
        i = i + 1;
    }
    None
}

/// The directory name a `pyproject.toml` suggests: the slug of its project
/// name, where that is not empty.
pub open spec fn pyproject_dir_name_spec(text: Seq<char>) -> Option<Seq<char>> {
    match pyproject_name_spec(text) {
        Some(n) => nonempty_slug(n),
        None => None,
    }
}

pub fn pyproject_dir_name(text: &str) -> (r: Option<String>)
    ensures
        ov(r) == pyproject_dir_name_spec(text@),
{
    match parse_pyproject_name(text) {
        Some(n) => nonempty_slug_exec(n.as_str()),
        None => None,
    }
}

/// The canonical form of a remote, or the text itself where it has none.
pub open spec fn canonical_or_self(url: Seq<char>) -> Seq<char> {
    match canonical_remote(url) {
        Some(c) => c,
        None => url,
    }
}

pub fn canonical_target_url(url: &str) -> (r: String)
    ensures
        r@ == canonical_or_self(url@),
{
    match canonicalize_remote(url) {
        Some(c) => c,
        None => owned(url),
    }
}

/// The entry's git remote is `target` but for ASCII case.
pub open spec fn entry_remote_matches(e: ManagerCustomNodeEntry, target: Seq<char>) -> bool {
    entry_git_remote(e) matches Some(v) && eq_ignore_ascii_case(v, target)
}

/// The index of the first entry whose git remote is `canonical_target`, but
/// for ASCII case.
pub fn find_entry_for_remote(entries: &Vec<ManagerCustomNodeEntry>, canonical_target: &str) -> (r:
    Option<usize>)
    ensures
        r matches Some(i) ==> i < entries.len() && entry_remote_matches(entries@[i as int], canonical_target@)
            && forall|k: int|
            0 <= k < i ==> !entry_remote_matches(#[trigger] entries@[k], canonical_target@),
        r is None ==> forall|k: int|
            0 <= k < entries.len() ==> !entry_remote_matches(#[trigger] entries@[k], canonical_target@),
{
    let mut i: usize = 0;
    while i < entries.len()
        invariant
            i <= entries.len(),
            forall|k: int|
                0 <= k < i ==> !entry_remote_matches(#[trigger] entries@[k], canonical_target@),
        decreases entries.len() - i,
    {
        if entries[i].matches_remote(canonical_target) {
            return Some(i);
        }
        i = i + 1;
    }
    None
}

/// The directory name to install a registry entry under: the slug of the
/// project's `pyproject.toml` name where one was found, else the non-empty
/// slug of the entry's id, else the slug of the target's repository name.
pub open spec fn preferred_dir_name_spec(
    e: ManagerCustomNodeEntry,
    pyproject_name: Option<Seq<char>>,
    canonical_target: Seq<char>,
) -> Option<Seq<char>> {
    if pyproject_name is Some {
        pyproject_name
    } else if e.id is Some && nonempty_slug(e.id->0@) is Some {
        nonempty_slug(e.id->0@)
    } else {
        match repo_name_spec(canonical_target) {
            Some(n) => Some(slug_spec(n)),
            None => None,
        }
    }
}

/// Picks the directory name for an entry that matched the target, given the
/// name its `pyproject.toml` suggested.
pub fn preferred_dir_name(
    entry: &ManagerCustomNodeEntry,
    pyproject_name: Option<String>,
    canonical_target: &str,
) -> (r: Option<String>)
    ensures
        ov(r) == preferred_dir_name_spec(*entry, ov(pyproject_name), canonical_target@),
{
    if pyproject_name.is_some() {
        return pyproject_name;
    }
    if let Some(id) = &entry.id {
        if let Some(s) = nonempty_slug_exec(id.as_str()) {
            return Some(s);
        }
    }
    match repo_name_from_url(canonical_target) {
        Some(n) => Some(slugify(n.as_str())),
        None => None,
    }
}

/// The owner, repository and git ref whose `pyproject.toml` describes a
/// target: a PR's head repository and branch, else the target's repository
/// at its resolved commit or checkout ref.
pub open spec fn repo_ref_spec(t: ResolvedTarget) -> Option<(Seq<char>, Seq<char>, Seq<char>)> {
    match t.target_kind {
        TargetKind::Pr => match (ov(t.pr_head_repo_url), ov(t.pr_head_ref)) {
            (Some(u), Some(r)) => match owner_repo_spec(u) {
                Some((o, p)) => Some((o, p, r)),
                None => None,
            },
            _ => None,
        },
        _ => {
            let r = match ov(t.resolved_sha) {
                Some(sha) => sha,
                None => t.checkout_ref@,
            };
            match owner_repo_spec(t.canonical_repo_url@) {
                Some((o, p)) => Some((o, p, r)),
                None => None,
            }
        },
    }
}

pub fn repo_ref_for_target(resolved: &ResolvedTarget) -> (r: Option<(String, String, String)>)
    ensures
        r is None <==> repo_ref_spec(*resolved) is None,
        r matches Some(x) ==> repo_ref_spec(*resolved) == Some((x.0@, x.1@, x.2@)),
{
    match resolved.target_kind {
        TargetKind::Pr => {
            let url = match &resolved.pr_head_repo_url {
                Some(u) => u,
                None => return None,
            };
            let git_ref = match &resolved.pr_head_ref {
                Some(r) => owned(r.as_str()),
                None => return None,
            };
            match owner_repo_from_canonical_url(url.as_str()) {
                Some((o, p)) => Some((o, p, git_ref)),
                None => None,
            }
        },
        _ => {
            let git_ref = match &resolved.resolved_sha {
                Some(sha) => owned(sha.as_str()),
                None => owned(resolved.checkout_ref.as_str()),
            };
            match owner_repo_from_canonical_url(resolved.canonical_repo_url.as_str()) {
                Some((o, p)) => Some((o, p, git_ref)),
                None => None,
            }
        },
    }
}

/// The raw URL of the `pyproject.toml` that describes a target.
pub open spec fn pyproject_url_spec(t: ResolvedTarget) -> Option<Seq<char>> {
    match repo_ref_spec(t) {
        Some((o, p, r)) => Some(
            "https://raw.githubusercontent.com/"@ + o + "/"@ + p + "/"@ + r + "/pyproject.toml"@,
        ),
        None => None,
    }
}

pub fn pyproject_toml_url(resolved: &ResolvedTarget) -> (r: Option<String>)
    ensures
        ov(r) == pyproject_url_spec(*resolved),
{
    match repo_ref_for_target(resolved) {
        Some((o, p, git_ref)) => {
            let mut u = String::from_str("https://raw.githubusercontent.com/");
            push_str(&mut u, o.as_str());
            push_str(&mut u, "/");
            push_str(&mut u, p.as_str());
            push_str(&mut u, "/");
            push_str(&mut u, git_ref.as_str());
            push_str(&mut u, "/pyproject.toml");
            Some(u)
        },
        None => None,
    }
}

/// The aliases of a remote: its canonical form, then the canonical form of
/// the URL a request for it ended at, where that differs.
pub open spec fn remote_aliases_spec(canonical: Seq<char>, final_url: Option<Seq<char>>) -> Seq<
    Seq<char>,
> {
    match final_url {
        Some(f) => match canonical_remote(f) {
            Some(c) => if c != canonical {
                seq![canonical, c]
            } else {
                seq![canonical]
            },
            None => seq![canonical],
        },
        None => seq![canonical],
    }
}

pub fn remote_alias_list(canonical: &str, final_url: Option<&str>) -> (r: Vec<String>)
    ensures
        sv(r@) == remote_aliases_spec(canonical@, oqv(final_url)),
{
    let mut aliases: Vec<String> = Vec::new();
    push_owned(&mut aliases, canonical);
    if let Some(f) = final_url {
        if let Some(c) = canonicalize_remote(f) {
            if !str_eq(c.as_str(), canonical) {
                push_owned(&mut aliases, c.as_str());
            }
        }
    }
    aliases
}

} // verus!
