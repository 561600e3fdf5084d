//! Character-sequence model of text and the string operations the
//! compression logic is built from.
//!
//! Text is modelled as `Seq<char>`; executable code works on `Vec<char>`
//! and converts from and to `String` at the edges.

use vstd::prelude::*;

verus! {

// ---------------------------------------------------------------------
// Model
// ---------------------------------------------------------------------

/// Unicode `White_Space` property, as `char::is_whitespace` tests it.
pub open spec fn is_ws(c: char) -> bool {
    let u = c as u32;
    (0x9 <= u && u <= 0xD) || u == 0x20 || u == 0x85 || u == 0xA0 || u == 0x1680
        || (0x2000 <= u && u <= 0x200A) || u == 0x2028 || u == 0x2029 || u == 0x202F
        || u == 0x205F || u == 0x3000
}

/// Unicode general category `Cc`, as `char::is_control` tests it.
pub open spec fn is_control(c: char) -> bool {
    let u = c as u32;
    u <= 0x1F || (0x7F <= u && u <= 0x9F)
}

/// ASCII decimal digit.
pub open spec fn is_digit(c: char) -> bool {
    '0' <= c && c <= '9'
}

/// `s` without its leading whitespace.
pub open spec fn trim_start(s: Seq<char>) -> Seq<char>
    decreases s.len(),
{
    if s.len() > 0 && is_ws(s[0]) {
        trim_start(s.drop_first())
    } else {
        s
    }
}

/// `s` without its trailing whitespace.
pub open spec fn trim_end(s: Seq<char>) -> Seq<char>
    decreases s.len(),
{
    if s.len() > 0 && is_ws(s.last()) {
        trim_end(s.drop_last())
    } else {
        s
    }
}

/// `s` without leading and trailing whitespace (`str::trim`).
pub open spec fn trim(s: Seq<char>) -> Seq<char> {
    trim_end(trim_start(s))
}

/// `p` is a prefix of `s`.
pub open spec fn is_prefix(p: Seq<char>, s: Seq<char>) -> bool {
    p.len() <= s.len() && s.subrange(0, p.len() as int) == p
}

/// `p` is a suffix of `s`.
pub open spec fn is_suffix(p: Seq<char>, s: Seq<char>) -> bool {
    p.len() <= s.len() && s.subrange(s.len() - p.len(), s.len() as int) == p
}

/// `p` occurs in `s` starting at index `i`.
pub open spec fn occurs_at(s: Seq<char>, p: Seq<char>, i: int) -> bool {
    0 <= i && i + p.len() <= s.len() && s.subrange(i, i + p.len()) == p
}

/// `p` occurs somewhere in `s` (`str::contains`).
pub open spec fn has_sub(s: Seq<char>, p: Seq<char>) -> bool {
    exists|i: int| occurs_at(s, p, i)
}

/// Index of the first occurrence of `p` in `s` (`str::find`).
pub open spec fn find_first(s: Seq<char>, p: Seq<char>) -> Option<int> {
    if has_sub(s, p) {
        Some(choose|i: int| occurs_at(s, p, i) && forall|j: int| 0 <= j < i ==> !occurs_at(s, p, j))
    } else {
        None
    }
}

/// Index of the last occurrence of `p` in `s` (`str::rfind`).
pub open spec fn find_last(s: Seq<char>, p: Seq<char>) -> Option<int> {
    if has_sub(s, p) {
        Some(
            choose|i: int|
                occurs_at(s, p, i) && forall|j: int| i < j && j + p.len() <= s.len() ==> !occurs_at(s, p, j),
        )
    } else {
        None
    }
}

/// `s` split at every occurrence of `c` (`str::split` with a `char`).
pub open spec fn split_on(s: Seq<char>, c: char) -> Seq<Seq<char>>
    decreases s.len(),
{
    if s.len() == 0 {
        seq![Seq::empty()]
    } else {
        let prev = split_on(s.drop_last(), c);
        if s.last() == c {
            prev.push(Seq::empty())
        } else {
            prev.update(prev.len() - 1, prev.last().push(s.last()))
        }
    }
}

/// `s` split at every whitespace character.
pub open spec fn split_ws(s: Seq<char>) -> Seq<Seq<char>>
    decreases s.len(),
{
    if s.len() == 0 {
        seq![Seq::empty()]
    } else {
        let prev = split_ws(s.drop_last());
        if is_ws(s.last()) {
            prev.push(Seq::empty())
        } else {
            prev.update(prev.len() - 1, prev.last().push(s.last()))
        }
    }
}

/// The non-empty pieces of `parts`, in order.
pub open spec fn non_empty(parts: Seq<Seq<char>>) -> Seq<Seq<char>>
    decreases parts.len(),
{
    if parts.len() == 0 {
        Seq::empty()
    } else if parts.last().len() == 0 {
        non_empty(parts.drop_last())
    } else {
        non_empty(parts.drop_last()).push(parts.last())
    }
}

/// The whitespace-separated words of `s` (`str::split_whitespace`).
pub open spec fn words(s: Seq<char>) -> Seq<Seq<char>> {
    non_empty(split_ws(s))
}

/// A line without the carriage return that preceded its newline.
pub open spec fn strip_cr(l: Seq<char>) -> Seq<char> {
    if l.len() > 0 && l.last() == '\r' {
        l.drop_last()
    } else {
        l
    }
}

/// Every piece of `ps` passed through `strip_cr`.
pub open spec fn strip_cr_all(ps: Seq<Seq<char>>) -> Seq<Seq<char>>
    decreases ps.len(),
{
    if ps.len() == 0 {
        Seq::empty()
    } else {
        strip_cr_all(ps.drop_last()).push(strip_cr(ps.last()))
    }
}

/// The lines of `s` (`str::lines`): pieces between `\n`, a `\r` before a
/// `\n` removed, and no final empty line.
pub open spec fn lines_of(s: Seq<char>) -> Seq<Seq<char>> {
    let p = split_on(s, '\n');
    if p.last().len() == 0 {
        strip_cr_all(p.drop_last())
    } else {
        strip_cr_all(p.drop_last()).push(p.last())
    }
}

/// The pieces of `parts` joined by `sep` (`[..].join(sep)`).
pub open spec fn join(parts: Seq<Seq<char>>, sep: Seq<char>) -> Seq<char>
    decreases parts.len(),
{
    if parts.len() == 0 {
        Seq::empty()
    } else if parts.len() == 1 {
        parts[0]
    } else {
        join(parts.drop_last(), sep) + sep + parts.last()
    }
}

/// The ASCII digit for `d < 10`.
pub open spec fn digit(d: nat) -> char {
    (48 + d) as char
}

/// Decimal representation of `n` (`Display` for unsigned integers).
pub open spec fn decimal(n: nat) -> Seq<char>
    decreases n,
{
    if n < 10 {
        seq![digit(n)]
    } else {
        decimal(n / 10).push(digit(n % 10))
    }
}

/// What `str::to_lowercase` returns for a string that is not all ASCII
/// (the Unicode lowercase mapping).
pub uninterp spec fn unicode_lowercase(s: Seq<char>) -> Seq<char>;

/// What `char::is_alphanumeric` returns for a character outside ASCII
/// (Unicode `Alphabetic` or `Numeric`).
pub uninterp spec fn unicode_alphanumeric(c: char) -> bool;

/// Every character is ASCII.
pub open spec fn is_ascii_text(s: Seq<char>) -> bool {
    forall|i: int| 0 <= i < s.len() ==> (#[trigger] s[i] as u32) < 128
}

/// The ASCII lowercase of a character: `A` to `Z` become `a` to `z`.
pub open spec fn ascii_lower(c: char) -> char {
    if 'A' <= c && c <= 'Z' {
        ((c as u32) + 32) as char
    } else {
        c
    }
}

/// What `str::to_lowercase` returns: for ASCII text, each letter in
/// lowercase; otherwise the Unicode mapping.
pub open spec fn lowercase(s: Seq<char>) -> Seq<char> {
    if is_ascii_text(s) {
        Seq::new(s.len(), |i: int| ascii_lower(s[i]))
    } else {
        unicode_lowercase(s)
    }
}

/// What `char::is_alphanumeric` returns: for ASCII, a letter or a digit;
/// otherwise Unicode's `Alphabetic` or `Numeric`.
pub open spec fn alphanumeric(c: char) -> bool {
    if (c as u32) < 128 {
        ('a' <= c && c <= 'z') || ('A' <= c && c <= 'Z') || ('0' <= c && c <= '9')
    } else {
        unicode_alphanumeric(c)
    }
}

// ---------------------------------------------------------------------
// Lemmas
// ---------------------------------------------------------------------

pub proof fn lemma_split_on_nonempty(s: Seq<char>, c: char)
    ensures
        split_on(s, c).len() >= 1,
    decreases s.len(),
{
    if s.len() > 0 {
        lemma_split_on_nonempty(s.drop_last(), c);
    }
}

pub proof fn lemma_split_ws_nonempty(s: Seq<char>)
    ensures
        split_ws(s).len() >= 1,
    decreases s.len(),
{
    if s.len() > 0 {
        lemma_split_ws_nonempty(s.drop_last());
    }
}

pub proof fn lemma_join_push(parts: Seq<Seq<char>>, sep: Seq<char>, x: Seq<char>)
    ensures
        join(parts.push(x), sep) == if parts.len() == 0 {
            x
        } else {
            join(parts, sep) + sep + x
        },
{
    assert(parts.push(x).drop_last() == parts);
}

// ---------------------------------------------------------------------
// Wrappers around std
// ---------------------------------------------------------------------

/// Appends one character to a `String` (`String::push`); the result is the
/// old contents followed by `c`.
#[verifier::external_body]
pub(crate) fn string_push(s: &mut String, c: char)
    ensures
        final(s)@ == old(s)@.push(c),
{
    s.push(c);
}

/// `str::to_lowercase`: ASCII letters in lowercase for ASCII text (as std
/// documents for ASCII), the Unicode mapping, named `unicode_lowercase`,
/// otherwise.
#[verifier::external_body]
pub(crate) fn str_to_lowercase(s: &str) -> (r: String)
    ensures
        r@ == lowercase(s@),
        !is_ascii_text(s@) ==> r@ == unicode_lowercase(s@),
{
    s.to_lowercase()
}

/// `char::is_alphanumeric`: an ASCII letter or digit for ASCII characters
/// (as std documents), Unicode's property, named `unicode_alphanumeric`,
/// otherwise.
#[verifier::external_body]
pub(crate) fn char_is_alphanumeric(c: char) -> (r: bool)
    ensures
        r == alphanumeric(c),
        (c as u32) >= 128 ==> r == unicode_alphanumeric(c),
{
    c.is_alphanumeric()
}

// ---------------------------------------------------------------------
// Conversions
// ---------------------------------------------------------------------

/// The characters of `s`, in order.
pub fn to_chars(s: &str) -> (r: Vec<char>)
    ensures
        r@ == s@,
{
    broadcast use vstd::string::axiom_spec_iter;

    let mut r: Vec<char> = Vec::new();
    for c in it: s.chars()
        invariant
            it.seq() == s@,
            r@ == it.seq().take(it.index() as int),
    {
        r.push(c);
    }
    r
}

/// A `String` holding the characters of `v`.
pub fn from_chars(v: &Vec<char>) -> (r: String)
    ensures
        r@ == v@,
{
    let mut r = String::new();
    let mut i: usize = 0;
    while i < v.len()
        invariant
            i <= v.len(),
            r@ == v@.take(i as int),
        decreases v.len() - i,
    {
        string_push(&mut r, v[i]);
        i += 1;
        assert(v@.take(i as int) == v@.take(i - 1).push(v@[i - 1]));
    }
    assert(v@.take(v.len() as int) == v@);
    r
}

/// The Unicode lowercase mapping of `v`.
pub fn lower(v: &Vec<char>) -> (r: Vec<char>)
    ensures
        r@ == lowercase(v@),
{
    let s = from_chars(v);
    let l = str_to_lowercase(s.as_str());
    to_chars(l.as_str())
}

/// `v@[lo..hi]` as a new vector.
pub fn slice_of(v: &Vec<char>, lo: usize, hi: usize) -> (r: Vec<char>)
    requires
        lo <= hi <= v.len(),
    ensures
        r@ == v@.subrange(lo as int, hi as int),
{
    let mut r: Vec<char> = Vec::new();
    let mut i = lo;
    while i < hi
        invariant
            lo <= i <= hi <= v.len(),
            r@ == v@.subrange(lo as int, i as int),
        decreases hi - i,
    {
        r.push(v[i]);
        i += 1;
        assert(v@.subrange(lo as int, i as int) == v@.subrange(lo as int, i - 1).push(v@[i - 1]));
    }
    r
}

/// Appends `src` to `dst`.
pub fn push_all(dst: &mut Vec<char>, src: &Vec<char>)
    ensures
        final(dst)@ == old(dst)@ + src@,
{
    let mut i: usize = 0;
    while i < src.len()
        invariant
            i <= src.len(),
            dst@ == old(dst)@ + src@.take(i as int),
        decreases src.len() - i,
    {
        dst.push(src[i]);
        i += 1;
        assert(src@.take(i as int) == src@.take(i - 1).push(src@[i - 1]));
    }
    assert(src@.take(src.len() as int) == src@);
}

/// Appends the characters of `src` to `dst`.
pub fn push_str(dst: &mut Vec<char>, src: &str)
    ensures
        final(dst)@ == old(dst)@ + src@,
{
    let s = to_chars(src);
    push_all(dst, &s);
}

/// A copy of `v`.
pub fn copy(v: &Vec<char>) -> (r: Vec<char>)
    ensures
        r@ == v@,
{
    let mut r: Vec<char> = Vec::new();
    push_all(&mut r, v);
    r
}

// ---------------------------------------------------------------------
// Character classes
// ---------------------------------------------------------------------

/// `char::is_whitespace`.
pub fn char_is_ws(c: char) -> (r: bool)
    ensures
        r == is_ws(c),
{
    let u = c as u32;
    (0x9 <= u && u <= 0xD) || u == 0x20 || u == 0x85 || u == 0xA0 || u == 0x1680 || (0x2000
        <= u && u <= 0x200A) || u == 0x2028 || u == 0x2029 || u == 0x202F || u == 0x205F || u
        == 0x3000
}

/// `char::is_control`.
pub fn char_is_control(c: char) -> (r: bool)
    ensures
        r == is_control(c),
{
    let u = c as u32;
    u <= 0x1F || (0x7F <= u && u <= 0x9F)
}

/// `char::is_ascii_digit`.
pub fn char_is_digit(c: char) -> (r: bool)
    ensures
        r == is_digit(c),
{
    '0' <= c && c <= '9'
}

// ---------------------------------------------------------------------
// Trimming
// ---------------------------------------------------------------------

/// `s` without leading whitespace.
pub fn trim_start_of(v: &Vec<char>) -> (r: Vec<char>)
    ensures
        r@ == trim_start(v@),
{
    let mut i: usize = 0;
    assert(v@.subrange(0, v@.len() as int) == v@);
    while i < v.len() && char_is_ws(v[i])
        invariant
            i <= v.len(),
            trim_start(v@) == trim_start(v@.subrange(i as int, v@.len() as int)),
        decreases v.len() - i,
    {
        assert(v@.subrange(i as int, v@.len() as int).drop_first() == v@.subrange(
            i + 1,
            v@.len() as int,
        ));
        i += 1;
    }
    slice_of(v, i, v.len())
}

/// `s` without trailing whitespace.
pub fn trim_end_of(v: &Vec<char>) -> (r: Vec<char>)
    ensures
        r@ == trim_end(v@),
{
    let mut j: usize = v.len();
    assert(v@.subrange(0, v@.len() as int) == v@);
    while j > 0 && char_is_ws(v[j - 1])
        invariant
            j <= v.len(),
            trim_end(v@) == trim_end(v@.subrange(0, j as int)),
        decreases j,
    {
        assert(v@.subrange(0, j as int).drop_last() == v@.subrange(0, j - 1));
        j -= 1;
    }
    slice_of(v, 0, j)
}

/// `s` without leading and trailing whitespace (`str::trim`).
pub fn trim_of(v: &Vec<char>) -> (r: Vec<char>)
    ensures
        r@ == trim(v@),
{
    let a = trim_start_of(v);
    trim_end_of(&a)
}

// ---------------------------------------------------------------------
// Matching
// ---------------------------------------------------------------------

/// Whether `p` occurs in `s` at index `i`.
pub fn matches_at(s: &Vec<char>, p: &Vec<char>, i: usize) -> (r: bool)
    ensures
        r == occurs_at(s@, p@, i as int),
{
    if i > s.len() || p.len() > s.len() - i {
        return false;
    }
    let mut k: usize = 0;
    while k < p.len()
        invariant
            i + p.len() <= s.len(),
            k <= p.len(),
            forall|m: int| 0 <= m < k ==> s@[i + m] == p@[m],
        decreases p.len() - k,
    {
        if s[i + k] != p[k] {
            assert(s@.subrange(i as int, i + p.len())[k as int] != p@[k as int]);
            return false;
        }
        k += 1;
    }
    assert(s@.subrange(i as int, i + p.len()) =~= p@);
    true
}

/// `str::starts_with`.
pub fn starts_with(s: &Vec<char>, p: &Vec<char>) -> (r: bool)
    ensures
        r == is_prefix(p@, s@),
{
    matches_at(s, p, 0)
}

/// `str::ends_with`.
pub fn ends_with(s: &Vec<char>, p: &Vec<char>) -> (r: bool)
    ensures
        r == is_suffix(p@, s@),
{
    if p.len() > s.len() {
        false
    } else {
        matches_at(s, p, s.len() - p.len())
    }
}

/// `str::starts_with` with a literal pattern.
pub fn starts_with_str(s: &Vec<char>, p: &str) -> (r: bool)
    ensures
        r == is_prefix(p@, s@),
{
    let pc = to_chars(p);
    starts_with(s, &pc)
}

/// `str::ends_with` with a literal pattern.
pub fn ends_with_str(s: &Vec<char>, p: &str) -> (r: bool)
    ensures
        r == is_suffix(p@, s@),
{
    let pc = to_chars(p);
    ends_with(s, &pc)
}

/// `str::find`: the index of the first occurrence of `p` in `s`.
pub fn find(s: &Vec<char>, p: &Vec<char>) -> (r: Option<usize>)
    ensures
        match r {
            Some(i) => find_first(s@, p@) == Some(i as int),
            None => find_first(s@, p@) is None,
        },
        r is Some == has_sub(s@, p@),
        r matches Some(i) ==> i + p@.len() <= s@.len(),
{
    if p.len() > s.len() {
        assert forall|j: int| !occurs_at(s@, p@, j) by {}
        return None;
    }
    let mut i: usize = 0;
    loop
        invariant
            p.len() <= s.len(),
            i + p.len() <= s.len(),
            forall|j: int| 0 <= j < i ==> !occurs_at(s@, p@, j),
        decreases s.len() - i,
    {
        if matches_at(s, p, i) {
            let ghost w = choose|k: int|
                occurs_at(s@, p@, k) && forall|j: int| 0 <= j < k ==> !occurs_at(s@, p@, j);
            assert(occurs_at(s@, p@, i as int) && forall|j: int|
                0 <= j < i ==> !occurs_at(s@, p@, j));
            assert(w == i) by {
                if w < i {
                } else if w > i {
                }
            }
            return Some(i);
        }
        if i == s.len() - p.len() {
            assert forall|j: int| !occurs_at(s@, p@, j) by {
                if 0 <= j && j <= i {
                }
            }
            return None;
        }
        i += 1;
    }
}

/// `str::rfind`: the index of the last occurrence of `p` in `s`.
pub fn rfind(s: &Vec<char>, p: &Vec<char>) -> (r: Option<usize>)
    ensures
        match r {
            Some(i) => find_last(s@, p@) == Some(i as int),
            None => find_last(s@, p@) is None,
        },
        r is Some == has_sub(s@, p@),
        r matches Some(i) ==> i + p@.len() <= s@.len(),
{
    if p.len() > s.len() {
        assert forall|j: int| !occurs_at(s@, p@, j) by {}
        return None;
    }
    let mut i: usize = s.len() - p.len();
    loop
        invariant
            p.len() <= s.len(),
            i + p.len() <= s.len(),
            forall|j: int| i < j && j + p.len() <= s.len() ==> !occurs_at(s@, p@, j),
        decreases i,
    {
        if matches_at(s, p, i) {
            let ghost w = choose|m: int|
                occurs_at(s@, p@, m) && forall|j: int|
                    m < j && j + p.len() <= s.len() ==> !occurs_at(s@, p@, j);
            assert(occurs_at(s@, p@, i as int) && forall|j: int|
                i < j && j + p.len() <= s.len() ==> !occurs_at(s@, p@, j));
            assert(w == i) by {
                if w < i {
                } else if w > i {
                }
            }
            return Some(i);
        }
        if i == 0 {
            assert forall|j: int| !occurs_at(s@, p@, j) by {
                if 0 <= j && j + p.len() <= s.len() {
                }
            }
            return None;
        }
        i -= 1;
    }
}

/// `str::contains`.
pub fn contains(s: &Vec<char>, p: &Vec<char>) -> (r: bool)
    ensures
        r == has_sub(s@, p@),
{
    find(s, p).is_some()
}

/// `str::contains` with a literal pattern.
pub fn contains_str(s: &Vec<char>, p: &str) -> (r: bool)
    ensures
        r == has_sub(s@, p@),
{
    let pc = to_chars(p);
    contains(s, &pc)
}

/// `str::contains` with a single character.
pub fn contains_char(s: &Vec<char>, c: char) -> (r: bool)
    ensures
        r == has_sub(s@, seq![c]),
{
    let mut i: usize = 0;
    while i < s.len()
        invariant
            i <= s.len(),
            forall|j: int| 0 <= j < i ==> s@[j] != c,
        decreases s.len() - i,
    {
        if s[i] == c {
            assert(occurs_at(s@, seq![c], i as int)) by {
                assert(s@.subrange(i as int, i + 1) =~= seq![c]);
            }
            return true;
        }
        i += 1;
    }
    assert forall|j: int| !occurs_at(s@, seq![c], j) by {
        if occurs_at(s@, seq![c], j) {
            assert(s@.subrange(j, j + 1)[0] == c);
        }
    }
    false
}

/// Whether `s` is equal to the literal `p`.
pub fn eq_str(s: &Vec<char>, p: &str) -> (r: bool)
    ensures
        r == (s@ == p@),
{
    let pc = to_chars(p);
    if s.len() != pc.len() {
        return false;
    }
    let r = matches_at(s, &pc, 0);
    assert(r ==> s@ =~= pc@) by {
        if r {
            assert(s@.subrange(0, pc@.len() as int) =~= s@);
        }
    }
    assert(s@ == pc@ ==> r) by {
        if s@ == pc@ {
            assert(s@.subrange(0, pc@.len() as int) =~= s@);
        }
    }
    r
}

/// Whether two character vectors are equal.
pub fn eq_chars(s: &Vec<char>, t: &Vec<char>) -> (r: bool)
    ensures
        r == (s@ == t@),
{
    if s.len() != t.len() {
        return false;
    }
    let r = matches_at(s, t, 0);
    assert(s@.subrange(0, t@.len() as int) =~= s@);
    r
}

// ---------------------------------------------------------------------
// Splitting and joining
// ---------------------------------------------------------------------

/// The contents of a vector of character vectors.
pub open spec fn views(vs: Seq<Vec<char>>) -> Seq<Seq<char>> {
    Seq::new(vs.len(), |i: int| vs[i]@)
}

pub proof fn lemma_views_push(vs: Seq<Vec<char>>, x: Vec<char>)
    ensures
        views(vs.push(x)) == views(vs).push(x@),
{
    assert(views(vs.push(x)) =~= views(vs).push(x@));
}

/// Pairs held as parallel vectors of first and second parts.
pub open spec fn pairs_view(keys: Seq<Vec<char>>, vals: Seq<Vec<char>>) -> Seq<(Seq<char>, Seq<char>)> {
    Seq::new(keys.len(), |i: int| (keys[i]@, vals[i]@))
}

/// `str::split` with a single character.
pub fn split_char(s: &Vec<char>, c: char) -> (r: Vec<Vec<char>>)
    ensures
        views(r@) == split_on(s@, c),
{
    let mut done: Vec<Vec<char>> = Vec::new();
    let mut cur: Vec<char> = Vec::new();
    let mut i: usize = 0;
    while i < s.len()
        invariant
            i <= s.len(),
            views(done@).push(cur@) == split_on(s@.take(i as int), c),
        decreases s.len() - i,
    {
        let ghost before = s@.take(i as int);
        let ghost d0 = done@;
        let ghost c0 = cur@;
        proof {
            lemma_split_on_nonempty(before, c);
        }
        assert(s@.take(i + 1).drop_last() == before);
        if s[i] == c {
            let piece = cur;
            done.push(piece);
            cur = Vec::new();
            proof {
                lemma_views_push(d0, piece);
            }
        } else {
            cur.push(s[i]);
            assert(views(d0).push(c0).update(views(d0).len() as int, c0.push(s@[i as int]))
                =~= views(d0).push(cur@));
        }
        i += 1;
    }
    assert(s@.take(s.len() as int) == s@);
    let ghost d0 = done@;
    done.push(cur);
    proof {
        lemma_views_push(d0, cur);
    }
    done
}

/// `str::split_whitespace`.
pub fn split_whitespace(s: &Vec<char>) -> (r: Vec<Vec<char>>)
    ensures
        views(r@) == words(s@),
{
    let ghost mut pieces: Seq<Seq<char>> = Seq::empty();
    let mut done: Vec<Vec<char>> = Vec::new();
    let mut cur: Vec<char> = Vec::new();
    let mut i: usize = 0;
    while i < s.len()
        invariant
            i <= s.len(),
            pieces.push(cur@) == split_ws(s@.take(i as int)),
            views(done@) == non_empty(pieces),
        decreases s.len() - i,
    {
        let ghost before = s@.take(i as int);
        let ghost d0 = done@;
        let ghost c0 = cur@;
        let ghost p0 = pieces;
        proof {
            lemma_split_ws_nonempty(before);
        }
        assert(s@.take(i + 1).drop_last() == before);
        if char_is_ws(s[i]) {
            proof {
                pieces = pieces.push(c0);
                assert(pieces.drop_last() == p0);
            }
            if cur.len() > 0 {
                let piece = cur;
                done.push(piece);
                proof {
                    lemma_views_push(d0, piece);
                }
            }
            cur = Vec::new();
        } else {
            cur.push(s[i]);
            assert(p0.push(c0).update(p0.len() as int, c0.push(s@[i as int])) =~= p0.push(cur@));
        }
        i += 1;
    }
    assert(s@.take(s.len() as int) == s@);
    assert(pieces.push(cur@).drop_last() == pieces);
    if cur.len() > 0 {
        let ghost d0 = done@;
        let piece = cur;
        done.push(piece);
        proof {
            lemma_views_push(d0, piece);
        }
    }
    done
}

/// `l` without a final carriage return.
pub fn strip_cr_of(l: &Vec<char>) -> (r: Vec<char>)
    ensures
        r@ == strip_cr(l@),
{
    if l.len() > 0 && l[l.len() - 1] == '\r' {
        slice_of(l, 0, l.len() - 1)
    } else {
        copy(l)
    }
}

/// `str::lines`.
pub fn lines(s: &Vec<char>) -> (r: Vec<Vec<char>>)
    ensures
        views(r@) == lines_of(s@),
{
    let p = split_char(s, '\n');
    proof {
        lemma_split_on_nonempty(s@, '\n');
    }
    let n = p.len();
    let ghost pv = views(p@);
    let mut r: Vec<Vec<char>> = Vec::new();
    let mut i: usize = 0;
    while i + 1 < n
        invariant
            n == p.len(),
            n >= 1,
            pv == views(p@),
            i + 1 <= n,
            views(r@) == strip_cr_all(pv.take(i as int)),
        decreases n - i,
    {
        let l = strip_cr_of(&p[i]);
        let ghost r0 = r@;
        r.push(l);
        proof {
            lemma_views_push(r0, l);
            assert(pv.take(i + 1).drop_last() == pv.take(i as int));
        }
        i += 1;
    }
    assert(pv.take(i as int) == pv.drop_last());
    if p[n - 1].len() > 0 {
        let l = copy(&p[n - 1]);
        let ghost r0 = r@;
        r.push(l);
        proof {
            lemma_views_push(r0, l);
        }
    }
    r
}

/// `lines_of(s)` for a `&str`.
pub fn str_lines(s: &str) -> (r: Vec<Vec<char>>)
    ensures
        views(r@) == lines_of(s@),
{
    let v = to_chars(s);
    lines(&v)
}

/// The first `n` pieces of `v` (all of them when there are fewer).
pub fn take_pieces(v: &Vec<Vec<char>>, n: usize) -> (r: Vec<Vec<char>>)
    ensures
        views(r@) == (if v.len() > n {
            views(v@).take(n as int)
        } else {
            views(v@)
        }),
{
    let m = if v.len() > n {
        n
    } else {
        v.len()
    };
    let mut r: Vec<Vec<char>> = Vec::new();
    let mut i: usize = 0;
    while i < m
        invariant
            m <= v.len(),
            i <= m,
            m == (if v.len() > n { n } else { v.len() }),
            views(r@) == views(v@).take(i as int),
        decreases m - i,
    {
        let c = copy(&v[i]);
        let ghost r0 = r@;
        r.push(c);
        proof {
            lemma_views_push(r0, c);
            assert(views(v@).take(i + 1) == views(v@).take(i as int).push(v@[i as int]@));
        }
        i += 1;
    }
    assert(views(v@).take(v.len() as int) == views(v@));
    r
}

/// `parts.join(sep)`.
pub fn join_vec(parts: &Vec<Vec<char>>, sep: &Vec<char>) -> (r: Vec<char>)
    ensures
        r@ == join(views(parts@), sep@),
{
    let ghost pv = views(parts@);
    let mut r: Vec<char> = Vec::new();
    let mut i: usize = 0;
    while i < parts.len()
        invariant
            i <= parts.len(),
            pv == views(parts@),
            r@ == join(pv.take(i as int), sep@),
        decreases parts.len() - i,
    {
        proof {
            lemma_join_push(pv.take(i as int), sep@, pv[i as int]);
            assert(pv.take(i + 1) == pv.take(i as int).push(pv[i as int]));
        }
        if i > 0 {
            push_all(&mut r, sep);
        }
        push_all(&mut r, &parts[i]);
        i += 1;
    }
    assert(pv.take(parts.len() as int) == pv);
    r
}

/// `parts.join(sep)` with a literal separator.
pub fn join_str(parts: &Vec<Vec<char>>, sep: &str) -> (r: Vec<char>)
    ensures
        r@ == join(views(parts@), sep@),
{
    let sc = to_chars(sep);
    join_vec(parts, &sc)
}

/// The ASCII digit for `d < 10`.
pub fn digit_char(d: usize) -> (r: char)
    requires
        d < 10,
    ensures
        r == digit(d as nat),
{
    let b: u8 = 48u8 + (d as u8);
    b as char
}

/// The decimal representation of `n`.
pub fn decimal_of(n: usize) -> (r: Vec<char>)
    ensures
        r@ == decimal(n as nat),
    decreases n,
{
    if n < 10 {
        let mut r: Vec<char> = Vec::new();
        r.push(digit_char(n));
        r
    } else {
        let mut r = decimal_of(n / 10);
        r.push(digit_char(n % 10));
        r
    }
}

/// Appends the decimal representation of `n` to `dst`.
pub fn push_decimal(dst: &mut Vec<char>, n: usize)
    ensures
        final(dst)@ == old(dst)@ + decimal(n as nat),
{
    let d = decimal_of(n);
    push_all(dst, &d);
}

/// `str::strip_prefix` with a literal prefix.
pub fn strip_prefix_str(s: &Vec<char>, p: &str) -> (r: Option<Vec<char>>)
    ensures
        match r {
            Some(rest) => is_prefix(p@, s@) && rest@ == s@.subrange(p@.len() as int, s@.len() as int),
            None => !is_prefix(p@, s@),
        },
{
    let pc = to_chars(p);
    if starts_with(s, &pc) {
        Some(slice_of(s, pc.len(), s.len()))
    } else {
        None
    }
}

/// `s` after the last occurrence of `c` (all of `s` when `c` does not occur).
pub open spec fn after_last_char(s: Seq<char>, c: char) -> Seq<char>
    decreases s.len(),
{
    if s.len() == 0 {
        s
    } else if s.last() == c {
        Seq::empty()
    } else {
        after_last_char(s.drop_last(), c).push(s.last())
    }
}

proof fn lemma_after_last_char(s: Seq<char>, c: char, i: int)
    requires
        0 <= i <= s.len(),
        forall|j: int| i <= j < s.len() ==> s[j] != c,
        i > 0 ==> s[i - 1] == c,
    ensures
        after_last_char(s, c) == s.subrange(i, s.len() as int),
    decreases s.len(),
{
    if s.len() > 0 {
        if i == s.len() {
            assert(s.subrange(i, s.len() as int) =~= Seq::<char>::empty());
        } else {
            lemma_after_last_char(s.drop_last(), c, i);
            assert(s.drop_last().subrange(i, s.len() - 1).push(s.last()) =~= s.subrange(
                i,
                s.len() as int,
            ));
        }
    }
}

/// `s` after the last occurrence of `c`.
pub fn after_last_char_exec(s: &Vec<char>, c: char) -> (r: Vec<char>)
    ensures
        r@ == after_last_char(s@, c),
{
    let mut i: usize = s.len();
    while i > 0 && s[i - 1] != c
        invariant
            i <= s.len(),
            forall|j: int| i <= j < s.len() ==> s@[j] != c,
        decreases i,
    {
        i -= 1;
    }
    proof {
        lemma_after_last_char(s@, c, i as int);
    }
    slice_of(s, i, s.len())
}

/// `s` with every trailing repetition of `p` removed (`str::trim_end_matches`).
pub open spec fn strip_all_suffix(s: Seq<char>, p: Seq<char>) -> Seq<char>
    decreases s.len(),
{
    if p.len() > 0 && is_suffix(p, s) {
        strip_all_suffix(s.take(s.len() - p.len()), p)
    } else {
        s
    }
}

/// `str::trim_end_matches` with a literal pattern.
pub fn strip_all_suffix_exec(s: &Vec<char>, p: &str) -> (r: Vec<char>)
    ensures
        r@ == strip_all_suffix(s@, p@),
{
    let pc = to_chars(p);
    let mut cur = copy(s);
    while pc.len() > 0 && ends_with(&cur, &pc)
        invariant
            pc@ == p@,
            strip_all_suffix(s@, p@) == strip_all_suffix(cur@, p@),
        decreases cur.len(),
    {
        cur = slice_of(&cur, 0, cur.len() - pc.len());
    }
    cur
}

/// `s` with every leading repetition of `p` removed (`str::trim_start_matches`).
pub open spec fn strip_all_prefix(s: Seq<char>, p: Seq<char>) -> Seq<char>
    decreases s.len(),
{
    if p.len() > 0 && is_prefix(p, s) {
        strip_all_prefix(s.skip(p.len() as int), p)
    } else {
        s
    }
}

/// `str::trim_start_matches` with a literal pattern.
pub fn strip_all_prefix_exec(s: &Vec<char>, p: &str) -> (r: Vec<char>)
    ensures
        r@ == strip_all_prefix(s@, p@),
{
    let pc = to_chars(p);
    let mut cur = copy(s);
    while pc.len() > 0 && starts_with(&cur, &pc)
        invariant
            pc@ == p@,
            strip_all_prefix(s@, p@) == strip_all_prefix(cur@, p@),
        decreases cur.len(),
    {
        cur = slice_of(&cur, pc.len(), cur.len());
    }
    cur
}

/// The part of `s` before the first `c` (all of `s` when `c` does not
/// occur); the first piece of `str::split`.
pub open spec fn before_first(s: Seq<char>, c: char) -> Seq<char>
    decreases s.len(),
{
    if s.len() == 0 {
        s
    } else if s[0] == c {
        Seq::empty()
    } else {
        seq![s[0]] + before_first(s.drop_first(), c)
    }
}

/// The part of `s` before the first `c`.
pub fn before_first_exec(s: &Vec<char>, c: char) -> (r: Vec<char>)
    ensures
        r@ == before_first(s@, c),
{
    let mut i: usize = 0;
    assert(s@.skip(0) == s@);
    while i < s.len() && s[i] != c
        invariant
            i <= s.len(),
            before_first(s@, c) == s@.take(i as int) + before_first(s@.skip(i as int), c),
        decreases s.len() - i,
    {
        assert(s@.skip(i as int).drop_first() == s@.skip(i + 1));
        assert(s@.take(i + 1) == s@.take(i as int) + seq![s@[i as int]]);
        i += 1;
    }
    assert(s@.take(i as int) + before_first(s@.skip(i as int), c) == s@.take(i as int));
    slice_of(s, 0, i)
}

/// Number of elements of `ls` that are non-blank after trimming.
pub open spec fn count_nonblank(ls: Seq<Seq<char>>) -> nat
    decreases ls.len(),
{
    if ls.len() == 0 {
        0
    } else {
        count_nonblank(ls.drop_last()) + if trim(ls.last()).len() > 0 {
            1nat
        } else {
            0nat
        }
    }
}

/// Number of non-blank lines.
pub fn count_nonblank_exec(ls: &Vec<Vec<char>>) -> (r: usize)
    ensures
        r == count_nonblank(views(ls@)),
        r <= ls.len(),
{
    let ghost lv = views(ls@);
    let mut n: usize = 0;
    let mut i: usize = 0;
    while i < ls.len()
        invariant
            i <= ls.len(),
            lv == views(ls@),
            n == count_nonblank(lv.take(i as int)),
            n <= i,
        decreases ls.len() - i,
    {
        assert(lv.take(i + 1).drop_last() == lv.take(i as int));
        let t = trim_of(&ls[i]);
        if t.len() > 0 {
            n += 1;
        }
        i += 1;
    }
    assert(lv.take(ls.len() as int) == lv);
    n
}

/// Number of bytes `c` takes in UTF-8.
pub open spec fn utf8_width(c: char) -> nat {
    let u = c as u32;
    if u < 0x80 {
        1
    } else if u < 0x800 {
        2
    } else if u < 0x10000 {
        3
    } else {
        4
    }
}

/// Number of bytes `s` takes in UTF-8 (`str::len`).
pub open spec fn utf8_len(s: Seq<char>) -> nat
    decreases s.len(),
{
    if s.len() == 0 {
        0
    } else {
        utf8_len(s.drop_last()) + utf8_width(s.last())
    }
}

/// Whether `s` takes fewer than `limit` bytes in UTF-8.
pub fn utf8_len_below(s: &Vec<char>, limit: usize) -> (r: bool)
    ensures
        r == (utf8_len(s@) < limit),
{
    if limit == 0 {
        return false;
    }
    let mut n: usize = 0;
    let mut i: usize = 0;
    while i < s.len()
        invariant
            i <= s.len(),
            n == utf8_len(s@.take(i as int)),
            n < limit,
        decreases s.len() - i,
    {
        assert(s@.take(i + 1).drop_last() == s@.take(i as int));
        let u = s[i] as u32;
        let w: usize = if u < 0x80 {
            1
        } else if u < 0x800 {
            2
        } else if u < 0x10000 {
            3
        } else {
            4
        };
        if w >= limit - n {
            proof {
                lemma_utf8_len_mono(s@, i + 1);
            }
            return false;
        }
        n = n + w;
        i += 1;
    }
    assert(s@.take(s.len() as int) == s@);
    true
}

pub proof fn lemma_utf8_len_mono(s: Seq<char>, i: int)
    requires
        0 <= i <= s.len(),
    ensures
        utf8_len(s.take(i)) <= utf8_len(s),
    decreases s.len() - i,
{
    if i < s.len() {
        lemma_utf8_len_mono(s, i + 1);
        assert(s.take(i + 1).drop_last() == s.take(i));
    } else {
        assert(s.take(i) == s);
    }
}

/// The contents of an optional string.
pub open spec fn opt_view(o: Option<String>) -> Option<Seq<char>> {
    match o {
        Some(s) => Some(s@),
        None => None,
    }
}

/// The contents of an optional character vector.
pub open spec fn opt_chars(o: Option<Vec<char>>) -> Option<Seq<char>> {
    match o {
        Some(v) => Some(v@),
        None => None,
    }
}

/// What `Path::extension` gives for a path, as text.
pub uninterp spec fn path_extension(p: Seq<char>) -> Option<Seq<char>>;

/// What `Path::parent` gives for a path, as text.
pub uninterp spec fn path_parent(p: Seq<char>) -> Option<Seq<char>>;

/// `Path::new(p).extension()`; the result is named `path_extension` of the
/// argument.
#[verifier::external_body]
pub(crate) fn path_extension_of(p: &str) -> (r: Option<String>)
    ensures
        opt_view(r) == path_extension(p@),
{
    let ext = std::path::Path::new(p).extension()?;
    Some(ext.to_string_lossy().into_owned())
}

/// `Path::new(p).parent()`; the result is named `path_parent` of the
/// argument.
#[verifier::external_body]
pub(crate) fn path_parent_of(p: &str) -> (r: Option<String>)
    ensures
        opt_view(r) == path_parent(p@),
{
    let parent = std::path::Path::new(p).parent()?;
    Some(parent.to_string_lossy().into_owned())
}

/// Value of a string of ASCII digits.
pub open spec fn digits_value(d: Seq<char>) -> nat
    decreases d.len(),
{
    if d.len() == 0 {
        0
    } else {
        digits_value(d.drop_last()) * 10 + ((d.last() as u32) - 48) as nat
    }
}

/// All characters are ASCII digits.
pub open spec fn all_digits(d: Seq<char>) -> bool {
    forall|i: int| 0 <= i < d.len() ==> is_digit(#[trigger] d[i])
}

/// What `str::parse::<usize>` gives: an optional `+`, then one or more ASCII
/// digits whose value fits in a `usize`.
pub open spec fn parse_usize_spec(s: Seq<char>) -> Option<usize> {
    let d = if s.len() > 0 && s[0] == '+' {
        s.drop_first()
    } else {
        s
    };
    if d.len() > 0 && all_digits(d) && digits_value(d) <= usize::MAX {
        Some(digits_value(d) as usize)
    } else {
        None
    }
}

proof fn lemma_digits_value_mono(d: Seq<char>, i: int)
    requires
        0 <= i <= d.len(),
    ensures
        digits_value(d.take(i)) <= digits_value(d),
    decreases d.len() - i,
{
    if i < d.len() {
        lemma_digits_value_mono(d, i + 1);
        assert(d.take(i + 1).drop_last() == d.take(i));
        let a = digits_value(d.take(i));
        assert(a * 10 >= a) by (nonlinear_arith);
    } else {
        assert(d.take(i) == d);
    }
}

/// `str::parse::<usize>`.
pub fn parse_usize(s: &Vec<char>) -> (r: Option<usize>)
    ensures
        r == parse_usize_spec(s@),
{
    let start: usize = if s.len() > 0 && s[0] == '+' {
        1
    } else {
        0
    };
    let ghost d = if s@.len() > 0 && s@[0] == '+' {
        s@.drop_first()
    } else {
        s@
    };
    assert(d == s@.skip(start as int));
    if start >= s.len() {
        return None;
    }
    let mut acc: usize = 0;
    let mut i: usize = start;
    while i < s.len()
        invariant
            start <= i <= s.len(),
            start < s.len(),
            d == s@.skip(start as int),
            parse_usize_spec(s@) == (if d.len() > 0 && all_digits(d) && digits_value(d) <= usize::MAX {
                Some(digits_value(d) as usize)
            } else {
                None::<usize>
            }),
            all_digits(d.take(i - start)),
            acc == digits_value(d.take(i - start)),
        decreases s.len() - i,
    {
        let k = i - start;
        assert(d.take(k + 1).drop_last() == d.take(k as int));
        assert(d[k as int] == s@[i as int]);
        let c = s[i];
        if !char_is_digit(c) {
            assert(!is_digit(d[k as int]));
            assert(!all_digits(d));
            return None;
        }
        let dv: usize = (c as u32 - 48) as usize;
        assert(d.take(k + 1).last() == c);
        assert(digits_value(d.take(k + 1)) == digits_value(d.take(k as int)) * 10 + dv);
        match acc.checked_mul(10) {
            Some(m) => match m.checked_add(dv) {
                Some(n) => {
                    acc = n;
                },
                None => {
                    proof {
                        lemma_digits_value_mono(d, k + 1);
                    }
                    assert(digits_value(d.take(k + 1)) > usize::MAX);
                    assert(!(all_digits(d) && digits_value(d) <= usize::MAX));
                    return None;
                },
            },
            None => {
                proof {
                    lemma_digits_value_mono(d, k + 1);
                    assert(acc * 10 + dv >= acc * 10) by (nonlinear_arith)
                        requires
                            dv >= 0,
                    ;
                }
                assert(!(all_digits(d) && digits_value(d) <= usize::MAX));
                return None;
            },
        }
        assert forall|j: int| 0 <= j < k + 1 implies is_digit(#[trigger] d.take(k + 1)[j]) by {
            if j < k {
                assert(d.take(k + 1)[j] == d.take(k as int)[j]);
            }
        }
        i += 1;
    }
    assert(d.take(s.len() - start) == d);
    Some(acc)
}

} // verus!
