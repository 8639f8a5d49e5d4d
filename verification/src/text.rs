//! Character-level text helpers with exact specifications.
use vstd::prelude::*;

verus! {

/// The characters that carry the Unicode `White_Space` property, which is
/// what `char::is_whitespace` (and so `str::trim`) tests for.
pub open spec fn is_ws(c: char) -> bool {
    let u = c as u32;
    (0x9 <= u && u <= 0xd) || u == 0x20 || u == 0x85 || u == 0xa0 || u == 0x1680
        || (0x2000 <= u && u <= 0x200a) || u == 0x2028 || u == 0x2029 || u == 0x202f
        || u == 0x205f || u == 0x3000
}

/// `s` with leading white space removed.
pub open spec fn trim_start(s: Seq<char>) -> Seq<char>
    decreases s.len(),
{
    if s.len() > 0 && is_ws(s[0]) {
        trim_start(s.drop_first())
    } else {
        s
    }
}

/// `s` with trailing white space removed.
pub open spec fn trim_end(s: Seq<char>) -> Seq<char>
    decreases s.len(),
{
    if s.len() > 0 && is_ws(s.last()) {
        trim_end(s.drop_last())
    } else {
        s
    }
}

/// `s` with white space removed at both ends, as `str::trim` does.
pub open spec fn trim(s: Seq<char>) -> Seq<char> {
    trim_end(trim_start(s))
}

/// Whether `c` has the Unicode `White_Space` property.
pub fn char_is_ws(c: char) -> (r: bool)
    ensures
        r == is_ws(c),
{
    let u = c as u32;
    (0x9 <= u && u <= 0xd) || u == 0x20 || u == 0x85 || u == 0xa0 || u == 0x1680
        || (0x2000 <= u && u <= 0x200a) || u == 0x2028 || u == 0x2029 || u == 0x202f
        || u == 0x205f || u == 0x3000
}

/// The characters of `s`.
pub fn chars_of(s: &str) -> (v: Vec<char>)
    ensures
        v@ == s@,
{
    let n = s.unicode_len();
    let mut v: Vec<char> = Vec::new();
    let mut i: usize = 0;
    while i < n
        invariant
            n == s@.len(),
            i <= n,
            v@ == s@.subrange(0, i as int),
        decreases n - i,
    {
        v.push(s.get_char(i));
        i = i + 1;
    }
    v
}

/// Appends one character to a string (`String::push`).
#[verifier::external_body]
fn string_push(s: &mut String, c: char)
    ensures
        final(s)@ == old(s)@.push(c),
{
    s.push(c);
}

/// The string made of `v[from..to]`.
pub fn string_of_range(v: &Vec<char>, from: usize, to: usize) -> (s: String)
    requires
        from <= to <= v.len(),
    ensures
        s@ == v@.subrange(from as int, to as int),
{
    let mut s = String::new();
    let mut i = from;
    while i < to
        invariant
            from <= i <= to <= v.len(),
            s@ == v@.subrange(from as int, i as int),
        decreases to - i,
    {
        string_push(&mut s, v[i]);
        i = i + 1;
    }
    s
}

/// The string made of all of `v`.
pub fn string_of(v: &Vec<char>) -> (s: String)
    ensures
        s@ == v@,
{
    string_of_range(v, 0, v.len())
}

/// Bounds `(a, b)` such that `v[a..b]` is `v` trimmed.
pub fn trim_bounds(v: &Vec<char>) -> (r: (usize, usize))
    ensures
        r.0 <= r.1 <= v.len(),
        v@.subrange(r.0 as int, r.1 as int) == trim(v@),
{
    let n = v.len();
    let mut i: usize = 0;
    assert(v@.subrange(0, n as int) == v@);
    while i < n && char_is_ws(v[i])
        invariant
            n == v.len(),
            i <= n,
            trim_start(v@) == trim_start(v@.subrange(i as int, n as int)),
        decreases n - i,
    {
        assert(v@.subrange(i as int, n as int).drop_first() == v@.subrange(i + 1, n as int));
        i = i + 1;
    }
    assert(trim_start(v@) == v@.subrange(i as int, n as int));
    let mut j: usize = n;
    while j > i && char_is_ws(v[j - 1])
        invariant
            n == v.len(),
            i <= j <= n,
            trim_start(v@) == v@.subrange(i as int, n as int),
            trim(v@) == trim_end(v@.subrange(i as int, j as int)),
        decreases j,
    {
        assert(v@.subrange(i as int, j as int).drop_last() == v@.subrange(i as int, j - 1));
        j = j - 1;
    }
    (i, j)
}

/// `s` trimmed of white space at both ends.
pub fn trim_str(s: &str) -> (r: String)
    ensures
        r@ == trim(s@),
{
    let v = chars_of(s);
    let (a, b) = trim_bounds(&v);
    string_of_range(&v, a, b)
}


/// ASCII lower-casing of one character (`char::to_ascii_lowercase`).
pub open spec fn lower_char(c: char) -> char {
    if 'A' <= c && c <= 'Z' {
        ((c as u32) + 32) as char
    } else {
        c
    }
}

/// ASCII lower-casing of a text (`str::to_ascii_lowercase`).
pub open spec fn ascii_lower(s: Seq<char>) -> Seq<char> {
    s.map_values(|c: char| lower_char(c))
}

pub fn lower_char_exec(c: char) -> (r: char)
    ensures
        r == lower_char(c),
{
    if 'A' <= c && c <= 'Z' {
        ((c as u32) + 32) as u8 as char
    } else {
        c
    }
}

/// ASCII lower-cased copy of `v`.
pub fn ascii_lower_chars(v: &Vec<char>) -> (r: Vec<char>)
    ensures
        r@ == ascii_lower(v@),
{
    let mut r: Vec<char> = Vec::new();
    let mut i: usize = 0;
    while i < v.len()
        invariant
            i <= v.len(),
            r@ == ascii_lower(v@.subrange(0, i as int)),
        decreases v.len() - i,
    {
        r.push(lower_char_exec(v[i]));
        proof {
            assert(ascii_lower(v@.subrange(0, i + 1)) == ascii_lower(v@.subrange(0, i as int)).push(
                lower_char(v@[i as int]),
            ));
        }
        i = i + 1;
    }
    proof {
        assert(v@.subrange(0, v.len() as int) == v@);
    }
    r
}

/// Whether two character sequences are equal.
pub fn chars_eq(a: &Vec<char>, b: &Vec<char>) -> (r: bool)
    ensures
        r == (a@ == b@),
{
    if a.len() != b.len() {
        return false;
    }
    let mut i: usize = 0;
    while i < a.len()
        invariant
            a.len() == b.len(),
            i <= a.len(),
            forall|k: int| 0 <= k < i ==> a@[k] == b@[k],
        decreases a.len() - i,
    {
        if a[i] != b[i] {
            return false;
        }
        i = i + 1;
    }
    assert(a@ == b@);
    true
}

/// Whether two strings are equal.
pub fn str_eq(a: &str, b: &str) -> (r: bool)
    ensures
        r == (a@ == b@),
{
    chars_eq(&chars_of(a), &chars_of(b))
}

/// Whether `s` starts with `p`.
pub open spec fn has_prefix(s: Seq<char>, p: Seq<char>) -> bool {
    p.len() <= s.len() && s.subrange(0, p.len() as int) == p
}

/// Whether `s` ends with `p`.
pub open spec fn has_suffix(s: Seq<char>, p: Seq<char>) -> bool {
    p.len() <= s.len() && s.subrange(s.len() - p.len(), s.len() as int) == p
}

/// Whether `v` starts with `p`.
pub fn starts_with(v: &Vec<char>, p: &Vec<char>) -> (r: bool)
    ensures
        r == has_prefix(v@, p@),
{
    if p.len() > v.len() {
        return false;
    }
    let mut i: usize = 0;
    while i < p.len()
        invariant
            p.len() <= v.len(),
            i <= p.len(),
            forall|k: int| 0 <= k < i ==> v@[k] == p@[k],
        decreases p.len() - i,
    {
        if v[i] != p[i] {
            return false;
        }
        i = i + 1;
    }
    assert(v@.subrange(0, p.len() as int) == p@);
    true
}

/// Whether `v` ends with `p`.
pub fn ends_with(v: &Vec<char>, p: &Vec<char>) -> (r: bool)
    ensures
        r == has_suffix(v@, p@),
{
    if p.len() > v.len() {
        return false;
    }
    let off = v.len() - p.len();
    let mut i: usize = 0;
    while i < p.len()
        invariant
            p.len() <= v.len(),
            off == v.len() - p.len(),
            i <= p.len(),
            forall|k: int| 0 <= k < i ==> v@[off + k] == p@[k],
        decreases p.len() - i,
    {
        if v[off + i] != p[i] {
            return false;
        }
        i = i + 1;
    }
    assert(v@.subrange(off as int, v.len() as int) == p@);
    true
}

/// A copy of `v[from..to]`.
pub fn slice_chars(v: &Vec<char>, from: usize, to: usize) -> (r: Vec<char>)
    requires
        from <= to <= v.len(),
    ensures
        r@ == v@.subrange(from as int, to as int),
{
    let mut r: Vec<char> = Vec::new();
    let mut i = from;
    while i < to
        invariant
            from <= i <= to <= v.len(),
            r@ == v@.subrange(from as int, i as int),
        decreases to - i,
    {
        r.push(v[i]);
        i = i + 1;
    }
    r
}

/// Appends the characters of `t` to `s`.
pub fn push_str(s: &mut String, t: &str)
    ensures
        final(s)@ == old(s)@ + t@,
{
    s.append(t);
}

/// Appends the characters of `v` to `s`.
pub fn push_chars(s: &mut String, v: &Vec<char>)
    ensures
        final(s)@ == old(s)@ + v@,
{
    let t = string_of(v);
    s.append(t.as_str());
}

/// Appends `c` to `s`.
pub fn push_char(s: &mut String, c: char)
    ensures
        final(s)@ == old(s)@.push(c),
{
    string_push(s, c);
}

/// The decimal digit character for `d < 10`.
pub open spec fn digit_char(d: nat) -> char {
    ((d + 48) as u32) as char
}

/// Decimal representation of a natural number, without leading zeros.
pub open spec fn decimal(n: nat) -> Seq<char>
    decreases n,
{
    if n < 10 {
        seq![digit_char(n)]
    } else {
        decimal(n / 10).push(digit_char(n % 10))
    }
}

/// Decimal representation of `n` (as `u64::to_string` gives it).
pub fn u64_decimal(n: u64) -> (r: String)
    ensures
        r@ == decimal(n as nat),
    decreases n,
{
    if n < 10 {
        let mut r = String::new();
        string_push(&mut r, ((n + 48) as u8) as char);
        r
    } else {
        let mut r = u64_decimal(n / 10);
        string_push(&mut r, ((n % 10 + 48) as u8) as char);
        r
    }
}


/// Index of the first `c` in `s`, or `s.len()` where there is none.
pub open spec fn find_char(s: Seq<char>, c: char) -> int
    decreases s.len(),
{
    if s.len() == 0 {
        0
    } else if s[0] == c {
        0
    } else {
        1 + find_char(s.drop_first(), c)
    }
}

pub proof fn lemma_find_char(s: Seq<char>, c: char)
    ensures
        0 <= find_char(s, c) <= s.len(),
        forall|k: int| 0 <= k < find_char(s, c) ==> s[k] != c,
        find_char(s, c) < s.len() ==> s[find_char(s, c)] == c,
    decreases s.len(),
{
    if s.len() > 0 && s[0] != c {
        lemma_find_char(s.drop_first(), c);
        assert forall|k: int| 0 <= k < find_char(s, c) implies s[k] != c by {
            if k > 0 {
                assert(s[k] == s.drop_first()[k - 1]);
            }
        }
    }
}

/// `find_char` is characterised by the first occurrence.
pub proof fn lemma_find_char_is(s: Seq<char>, c: char, k: int)
    requires
        0 <= k <= s.len(),
        forall|j: int| 0 <= j < k ==> s[j] != c,
        k < s.len() ==> s[k] == c,
    ensures
        find_char(s, c) == k,
    decreases s.len(),
{
    if s.len() > 0 && s[0] != c {
        assert forall|j: int| 0 <= j < k - 1 implies s.drop_first()[j] != c by {
            assert(s.drop_first()[j] == s[j + 1]);
        }
        lemma_find_char_is(s.drop_first(), c, k - 1);
    }
}

/// Index of the first `c` in `v` at or after `from`, or `v.len()`.
pub fn find_char_from(v: &Vec<char>, c: char, from: usize) -> (r: usize)
    requires
        from <= v.len(),
    ensures
        from + find_char(v@.subrange(from as int, v.len() as int), c) == r,
        from <= r <= v.len(),
        forall|k: int| from <= k < r ==> v@[k] != c,
        r < v.len() ==> v@[r as int] == c,
{
    let mut i = from;
    while i < v.len() && v[i] != c
        invariant
            from <= i <= v.len(),
            forall|k: int| from <= k < i ==> v@[k] != c,
        decreases v.len() - i,
    {
        i = i + 1;
    }
    proof {
        let t = v@.subrange(from as int, v.len() as int);
        lemma_find_char_is(t, c, i - from);
    }
    i
}

/// Whether `c` occurs in `s`.
pub open spec fn has_char(s: Seq<char>, c: char) -> bool {
    exists|k: int| 0 <= k < s.len() && s[k] == c
}


/// `s` with every trailing copy of `p` removed (`str::trim_end_matches`).
pub open spec fn strip_suffix_all(s: Seq<char>, p: Seq<char>) -> Seq<char>
    decreases s.len(),
{
    if p.len() > 0 && has_suffix(s, p) {
        strip_suffix_all(s.subrange(0, s.len() - p.len()), p)
    } else {
        s
    }
}

/// `v` with every trailing copy of `p` removed.
pub fn strip_suffix_all_chars(v: &Vec<char>, p: &Vec<char>) -> (r: Vec<char>)
    ensures
        r@ == strip_suffix_all(v@, p@),
{
    if p.len() == 0 {
        return slice_chars(v, 0, v.len());
    }
    let mut end = v.len();
    let mut cur = slice_chars(v, 0, end);
    assert(v@.subrange(0, v.len() as int) == v@);
    while ends_with(&cur, p)
        invariant
            p.len() > 0,
            end <= v.len(),
            cur@ == v@.subrange(0, end as int),
            strip_suffix_all(v@, p@) == strip_suffix_all(cur@, p@),
        decreases end,
    {
        let ghost prev = cur@;
        end = end - p.len();
        cur = slice_chars(v, 0, end);
        assert(cur@ == prev.subrange(0, prev.len() - p@.len()));
    }
    cur
}

/// ASCII case-insensitive equality (`str::eq_ignore_ascii_case`).
pub open spec fn eq_ignore_ascii_case(a: Seq<char>, b: Seq<char>) -> bool {
    ascii_lower(a) == ascii_lower(b)
}

pub fn eq_ignore_ascii_case_chars(a: &Vec<char>, b: &Vec<char>) -> (r: bool)
    ensures
        r == eq_ignore_ascii_case(a@, b@),
{
    chars_eq(&ascii_lower_chars(a), &ascii_lower_chars(b))
}

/// The string `s`, lower-cased in ASCII.
pub fn ascii_lower_str(s: &str) -> (r: String)
    ensures
        r@ == ascii_lower(s@),
{
    string_of(&ascii_lower_chars(&chars_of(s)))
}


/// Views of a sequence of character vectors.
pub open spec fn vv(v: Seq<Vec<char>>) -> Seq<Seq<char>> {
    v.map_values(|x: Vec<char>| x@)
}

/// One line as `str::lines` yields it: a final `\r` is dropped when the line
/// was ended by `\n`.
pub open spec fn line_text(s: Seq<char>, k: int) -> Seq<char> {
    let raw = s.subrange(0, k);
    if k < s.len() && raw.len() > 0 && raw.last() == '\r' {
        raw.drop_last()
    } else {
        raw
    }
}

/// The lines of `s` as `str::lines` yields them: split at `\n`, no empty
/// line after a final `\n`, and `\r\n` endings treated as `\n`.
pub open spec fn lines(s: Seq<char>) -> Seq<Seq<char>>
    decreases s.len(),
{
    if s.len() == 0 {
        Seq::empty()
    } else {
        let k = find_char(s, '\n');
        if k < s.len() {
            proof {
                lemma_find_char(s, '\n');
            }
            seq![line_text(s, k)] + lines(s.subrange(k + 1, s.len() as int))
        } else {
            seq![line_text(s, k)]
        }
    }
}

/// The lines of `v`, as `str::lines` yields them.
pub fn split_lines(v: &Vec<char>) -> (r: Vec<Vec<char>>)
    ensures
        vv(r@) == lines(v@),
{
    let mut r: Vec<Vec<char>> = Vec::new();
    let mut start: usize = 0;
    let n = v.len();
    assert(v@.subrange(0, n as int) == v@);
    while start < n
        invariant
            n == v.len(),
            start <= n,
            lines(v@) == vv(r@) + lines(v@.subrange(start as int, n as int)),
        decreases n - start,
    {
        let ghost rest = v@.subrange(start as int, n as int);
        let k = find_char_from(v, '\n', start);
        let mut end = k;
        if k < n && end > start && v[end - 1] == '\r' {
            end = end - 1;
        }
        let line = slice_chars(v, start, end);
        proof {
            lemma_find_char(rest, '\n');
            assert(line@ == line_text(rest, k - start));
        }
        let ghost before = vv(r@);
        r.push(line);
        assert(vv(r@) == before.push(line@));
        if k < n {
            assert(rest.subrange(k - start + 1, rest.len() as int) == v@.subrange(k + 1, n as int));
            start = k + 1;
        } else {
            assert(lines(rest) == seq![line@]);
            start = n;
        }
    }
    assert(lines(v@.subrange(n as int, n as int)) == Seq::<Seq<char>>::empty());
    assert(vv(r@) + Seq::<Seq<char>>::empty() == vv(r@));
    r
}


/// `p` occurs in `s` at index `k`.
pub open spec fn occurs_at(s: Seq<char>, p: Seq<char>, k: int) -> bool {
    0 <= k && k + p.len() <= s.len() && s.subrange(k, k + p.len()) == p
}

/// The first index at or after `k` where `p` occurs in `s`, or `s.len()`.
pub open spec fn find_sub_from(s: Seq<char>, p: Seq<char>, k: int) -> int
    decreases s.len() + 1 - k,
{
    if k < 0 || k + p.len() > s.len() {
        s.len() as int
    } else if occurs_at(s, p, k) {
        k
    } else {
        find_sub_from(s, p, k + 1)
    }
}

/// The first index where `p` occurs in `s`, or `s.len()` (the split point
/// of `str::split_once`).
pub open spec fn find_sub(s: Seq<char>, p: Seq<char>) -> int {
    find_sub_from(s, p, 0)
}

pub proof fn lemma_find_sub_from(s: Seq<char>, p: Seq<char>, k: int)
    requires
        0 <= k,
    ensures
        find_sub_from(s, p, k) == s.len() || (k <= find_sub_from(s, p, k) && occurs_at(
            s,
            p,
            find_sub_from(s, p, k),
        )),
        find_sub_from(s, p, k) <= s.len(),
        find_sub_from(s, p, k) >= 0,
    decreases s.len() + 1 - k,
{
    if k + p.len() <= s.len() && !occurs_at(s, p, k) {
        lemma_find_sub_from(s, p, k + 1);
    }
}

/// Whether `p` occurs in `v` at index `k`.
pub fn occurs_at_exec(v: &Vec<char>, p: &Vec<char>, k: usize) -> (r: bool)
    ensures
        r == occurs_at(v@, p@, k as int),
{
    if k > v.len() || p.len() > v.len() - k {
        return false;
    }
    let mut i: usize = 0;
    while i < p.len()
        invariant
            k + p.len() <= v.len(),
            i <= p.len(),
            forall|q: int| 0 <= q < i ==> v@[k + q] == p@[q],
        decreases p.len() - i,
    {
        if v[k + i] != p[i] {
            return false;
        }
        i = i + 1;
    }
    assert(v@.subrange(k as int, k + p.len()) == p@);
    true
}

/// The first index where `p` occurs in `v`, or `v.len()`.
pub fn find_sub_exec(v: &Vec<char>, p: &Vec<char>) -> (r: usize)
    ensures
        r == find_sub(v@, p@),
        r <= v.len(),
        r < v.len() ==> occurs_at(v@, p@, r as int),
{
    let mut k: usize = 0;
    proof {
        lemma_find_sub_from(v@, p@, 0);
    }
    while p.len() <= v.len() - k
        invariant
            k <= v.len(),
            find_sub(v@, p@) == find_sub_from(v@, p@, k as int),
        decreases v.len() - k,
    {
        if occurs_at_exec(v, p, k) {
            proof {
                lemma_find_sub_from(v@, p@, k as int);
            }
            return k;
        }
        if k == v.len() {
            assert(find_sub_from(v@, p@, k + 1) == v.len());
            return v.len();
        }
        k = k + 1;
    }
    proof {
        lemma_find_sub_from(v@, p@, 0);
    }
    v.len()
}

/// The UTF-8 width of a character (`char::len_utf8`).
pub open spec fn utf8_width(c: char) -> int {
    let u = c as u32;
    if u < 0x80 {
        1
    } else if u < 0x800 {
        2
    } else if u < 0x10000 {
        3
    } else {
        4
    }
}

pub fn utf8_width_exec(c: char) -> (r: usize)
    ensures
        r == utf8_width(c),
{
    let u = c as u32;
    if u < 0x80 {
        1
    } else if u < 0x800 {
        2
    } else if u < 0x10000 {
        3
    } else {
        4
    }
}

/// The byte offset of character `k` of `s` in its UTF-8 encoding.
pub open spec fn byte_offset(s: Seq<char>, k: int) -> int
    decreases k,
{
    if k <= 0 {
        0
    } else {
        byte_offset(s, k - 1) + utf8_width(s[k - 1])
    }
}

/// The UTF-8 length of `s` in bytes (`str::len`).
pub open spec fn byte_len(s: Seq<char>) -> int {
    byte_offset(s, s.len() as int)
}

pub proof fn lemma_byte_offset_grows(s: Seq<char>, k: int)
    requires
        0 <= k <= s.len(),
    ensures
        byte_offset(s, k) >= k,
        forall|j: int| 0 <= j <= k ==> byte_offset(s, j) <= byte_offset(s, k),
    decreases k,
{
    if k > 0 {
        lemma_byte_offset_grows(s, k - 1);
    }
}


/// Every line of `s` is no longer than `s`.
pub proof fn lemma_line_shorter(s: Seq<char>, i: int)
    requires
        0 <= i < lines(s).len(),
    ensures
        lines(s)[i].len() <= s.len(),
    decreases s.len(),
{
    lemma_find_char(s, '\n');
    let k = find_char(s, '\n');
    if i > 0 && k < s.len() {
        lemma_line_shorter(s.subrange(k + 1, s.len() as int), i - 1);
    }
}


/// The view of an optional string.
/// The view of an optional text.
pub open spec fn oqv(q: Option<&str>) -> Option<Seq<char>> {
    match q {
        Some(s) => Some(s@),
        None => None,
    }
}

pub open spec fn ov(o: Option<String>) -> Option<Seq<char>> {
    match o {
        Some(s) => Some(s@),
        None => None,
    }
}

/// A copy of an optional string.
pub fn clone_opt(o: &Option<String>) -> (r: Option<String>)
    ensures
        ov(r) == ov(*o),
{
    match o {
        Some(s) => Some(s.clone()),
        None => None,
    }
}

/// Whether two optional strings are equal.
pub fn opt_eq(a: &Option<String>, b: &Option<String>) -> (r: bool)
    ensures
        r == (ov(*a) == ov(*b)),
{
    match (a, b) {
        (Some(x), Some(y)) => str_eq(x.as_str(), y.as_str()),
        (None, None) => true,
        _ => false,
    }
}

/// A copy of a string.
pub fn copy_string(s: &String) -> (r: String)
    ensures
        r@ == s@,
{
    s.clone()
}

/// The string `s` as an owned string.
pub fn owned(s: &str) -> (r: String)
    ensures
        r@ == s@,
{
    String::from_str(s)
}

/// Views of a sequence of strings.
pub open spec fn sv(v: Seq<String>) -> Seq<Seq<char>> {
    v.map_values(|s: String| s@)
}

/// A copy of a vector of strings.
pub fn clone_strings(v: &Vec<String>) -> (r: Vec<String>)
    ensures
        sv(r@) == sv(v@),
{
    let mut r: Vec<String> = Vec::new();
    let mut i: usize = 0;
    while i < v.len()
        invariant
            i <= v.len(),
            sv(r@) == sv(v@.subrange(0, i as int)),
        decreases v.len() - i,
    {
        let ghost before = sv(r@);
        r.push(v[i].clone());
        assert(sv(v@.subrange(0, i + 1)) == before.push(v@[i as int]@));
        i = i + 1;
    }
    assert(v@.subrange(0, v.len() as int) == v@);
    r
}


/// Appends a copy of `s` to `v`.
pub fn push_owned(v: &mut Vec<String>, s: &str)
    ensures
        sv(final(v)@) == sv(old(v)@).push(s@),
{
    let ghost before = sv(v@);
    v.push(owned(s));
    assert(sv(v@) == before.push(s@));
}


/// `p` occurs somewhere in `s` (`str::contains`).
pub open spec fn contains_spec(s: Seq<char>, p: Seq<char>) -> bool {
    exists|k: int| occurs_at(s, p, k)
}

pub proof fn lemma_find_sub_first(s: Seq<char>, p: Seq<char>, k: int)
    requires
        0 <= k,
    ensures
        forall|j: int| k <= j < find_sub_from(s, p, k) ==> !occurs_at(s, p, j),
    decreases s.len() + 1 - k,
{
    if k + p.len() <= s.len() && !occurs_at(s, p, k) {
        lemma_find_sub_first(s, p, k + 1);
    }
}

/// Whether `p` occurs in `v`.
pub fn contains_exec(v: &Vec<char>, p: &Vec<char>) -> (r: bool)
    ensures
        r == contains_spec(v@, p@),
{
    let k = find_sub_exec(v, p);
    proof {
        lemma_find_sub_first(v@, p@, 0);
        lemma_find_sub_from(v@, p@, 0);
    }
    if k < v.len() {
        return true;
    }
    let at_end = occurs_at_exec(v, p, v.len());
    proof {
        if !at_end {
            assert forall|j: int| !occurs_at(v@, p@, j) by {
                if 0 <= j < v@.len() {
                } else if j > v@.len() {
                } else if j == v@.len() {
                }
            }
        }
    }
    at_end
}


/// Index of the last `c` in `s`, or -1.
pub open spec fn find_last_char(s: Seq<char>, c: char) -> int
    decreases s.len(),
{
    if s.len() == 0 {
        -1
    } else if s.last() == c {
        s.len() - 1
    } else {
        find_last_char(s.drop_last(), c)
    }
}

pub proof fn lemma_find_last_char(s: Seq<char>, c: char)
    ensures
        -1 <= find_last_char(s, c) < s.len(),
        find_last_char(s, c) >= 0 ==> s[find_last_char(s, c)] == c,
        forall|k: int| find_last_char(s, c) < k < s.len() ==> s[k] != c,
    decreases s.len(),
{
    if s.len() > 0 && s.last() != c {
        lemma_find_last_char(s.drop_last(), c);
        assert forall|k: int| find_last_char(s, c) < k < s.len() implies s[k] != c by {
            if k < s.len() - 1 {
                assert(s[k] == s.drop_last()[k]);
            }
        }
    }
}

pub fn find_last_char_exec(v: &Vec<char>, c: char) -> (r: i64)
    requires
        v.len() < 0x7fff_ffff_ffff_ffff,
    ensures
        r == find_last_char(v@, c),
{
    let mut j: usize = v.len();
    assert(v@.subrange(0, v.len() as int) == v@);
    while j > 0 && v[j - 1] != c
        invariant
            j <= v.len(),
            find_last_char(v@, c) == find_last_char(v@.subrange(0, j as int), c),
        decreases j,
    {
        assert(v@.subrange(0, j as int).drop_last() == v@.subrange(0, j - 1));
        j = j - 1;
    }
    proof {
        assert(v@.subrange(0, v.len() as int) == v@);
    }
    if j == 0 {
        -1
    } else {
        (j - 1) as i64
    }
}

/// One past the index of the last `c` in `v` (0 where there is none).
pub fn rfind_char_end(v: &Vec<char>, c: char) -> (r: usize)
    ensures
        r as int == find_last_char(v@, c) + 1,
        r <= v.len(),
{
    let mut j: usize = v.len();
    assert(v@.subrange(0, v.len() as int) == v@);
    while j > 0 && v[j - 1] != c
        invariant
            j <= v.len(),
            find_last_char(v@, c) == find_last_char(v@.subrange(0, j as int), c),
        decreases j,
    {
        assert(v@.subrange(0, j as int).drop_last() == v@.subrange(0, j - 1));
        j = j - 1;
    }
    proof {
        if j > 0 {
            assert(v@.subrange(0, j as int).last() == c);
        }
    }
    j
}


/// The pieces of `s` between occurrences of `c` (`str::split`).
pub open spec fn split_on(s: Seq<char>, c: char) -> Seq<Seq<char>>
    decreases s.len(),
{
    let k = find_char(s, c);
    if k < s.len() {
        proof {
            lemma_find_char(s, c);
        }
        seq![s.subrange(0, k)] + split_on(s.subrange(k + 1, s.len() as int), c)
    } else {
        seq![s]
    }
}

/// The pieces of `v` between occurrences of `c`.
pub fn split_on_exec(v: &Vec<char>, c: char) -> (r: Vec<String>)
    ensures
        sv(r@) == split_on(v@, c),
{
    let mut r: Vec<String> = Vec::new();
    let mut start: usize = 0;
    let n = v.len();
    assert(v@.subrange(0, n as int) == v@);
    loop
        invariant
            n == v.len(),
            start <= n,
            split_on(v@, c) == sv(r@) + split_on(v@.subrange(start as int, n as int), c),
        decreases n - start,
    {
        let ghost rest = v@.subrange(start as int, n as int);
        let k = find_char_from(v, c, start);
        proof {
            lemma_find_char(rest, c);
        }
        let piece = string_of_range(v, start, k);
        let ghost before = sv(r@);
        r.push(piece);
        assert(sv(r@) == before.push(piece@));
        if k < n {
            assert(rest.subrange(k - start + 1, rest.len() as int) == v@.subrange(k + 1, n as int));
            assert(rest.subrange(0, k - start) == piece@);
            start = k + 1;
        } else {
            assert(split_on(rest, c) == seq![piece@]);
            assert(sv(r@) + Seq::<Seq<char>>::empty() == sv(r@));
            return r;
        }
    }
}

} // verus!
