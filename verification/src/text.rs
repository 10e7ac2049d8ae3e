//! Character-level text primitives shared by every module.
//!
//! Strings are modelled by their view, a `Seq<char>`. The executable
//! helpers here work on `Vec<char>` buffers and build `String`s, and each
//! states its result over the spec functions defined below.

use vstd::prelude::*;
use vstd::string::*;

verus! {

// ---------------------------------------------------------------------------
// Specification vocabulary
// ---------------------------------------------------------------------------

/// `p` occurs in `s` starting at character position `i`.
pub open spec fn occurs_at(s: Seq<char>, p: Seq<char>, i: int) -> bool {
    0 <= i && i + p.len() <= s.len() && s.subrange(i, i + p.len()) == p
}

/// `s` begins with `p`.
pub open spec fn has_prefix(s: Seq<char>, p: Seq<char>) -> bool {
    occurs_at(s, p, 0)
}

/// `s` ends with `p`.
pub open spec fn has_suffix(s: Seq<char>, p: Seq<char>) -> bool {
    p.len() <= s.len() && occurs_at(s, p, s.len() - p.len())
}

/// `p` occurs somewhere in `s`.
pub open spec fn contains_seq(s: Seq<char>, p: Seq<char>) -> bool {
    exists|i: int| #[trigger] occurs_at(s, p, i)
}

/// The first position at or after `from` where `p` occurs in `s`.
pub open spec fn find_from(s: Seq<char>, p: Seq<char>, from: int) -> Option<int>
    decreases s.len() + 1 - from,
{
    if from < 0 || from + p.len() > s.len() {
        None
    } else if occurs_at(s, p, from) {
        Some(from)
    } else {
        find_from(s, p, from + 1)
    }
}

/// The first position where `p` occurs in `s`.
pub open spec fn find_first(s: Seq<char>, p: Seq<char>) -> Option<int> {
    find_from(s, p, 0)
}

/// The last position at or before `upto` where `p` occurs in `s`.
pub open spec fn rfind_upto(s: Seq<char>, p: Seq<char>, upto: int) -> Option<int>
    decreases upto + 1,
{
    if upto < 0 {
        None
    } else if occurs_at(s, p, upto) {
        Some(upto)
    } else {
        rfind_upto(s, p, upto - 1)
    }
}

/// The last position where `p` occurs in `s`.
pub open spec fn find_last(s: Seq<char>, p: Seq<char>) -> Option<int> {
    rfind_upto(s, p, s.len() - p.len())
}

/// The last position of the character `c` in `s`.
pub open spec fn last_index_of(s: Seq<char>, c: char) -> Option<int> {
    find_last(s, seq![c])
}

/// Every non-overlapping occurrence of `from` in `s`, scanning left to
/// right, replaced by `to`. For an empty `from`, `to` is inserted before
/// every character and at the end, as `str::replace` does.
pub open spec fn replace_all(s: Seq<char>, from: Seq<char>, to: Seq<char>) -> Seq<char>
    decreases s.len(),
{
    if from.len() == 0 {
        if s.len() == 0 {
            to
        } else {
            to + seq![s[0]] + replace_all(s.skip(1), from, to)
        }
    } else if s.len() == 0 {
        s
    } else if occurs_at(s, from, 0) {
        to + replace_all(s.skip(from.len() as int), from, to)
    } else {
        seq![s[0]] + replace_all(s.skip(1), from, to)
    }
}

/// `s` with every leading `c` removed.
pub open spec fn trim_start_char(s: Seq<char>, c: char) -> Seq<char>
    decreases s.len(),
{
    if s.len() > 0 && s[0] == c {
        trim_start_char(s.skip(1), c)
    } else {
        s
    }
}

/// `s` with every trailing `c` removed.
pub open spec fn trim_end_char(s: Seq<char>, c: char) -> Seq<char>
    decreases s.len(),
{
    if s.len() > 0 && s.last() == c {
        trim_end_char(s.drop_last(), c)
    } else {
        s
    }
}

/// Unicode `White_Space`, the set that `char::is_whitespace` tests.
pub open spec fn is_ws(c: char) -> bool {
    ||| ('\u{9}' <= c && c <= '\u{d}')
    ||| c == ' '
    ||| c == '\u{85}'
    ||| c == '\u{a0}'
    ||| c == '\u{1680}'
    ||| ('\u{2000}' <= c && c <= '\u{200a}')
    ||| c == '\u{2028}'
    ||| c == '\u{2029}'
    ||| c == '\u{202f}'
    ||| c == '\u{205f}'
    ||| c == '\u{3000}'
}

/// `s` without leading whitespace (`str::trim_start`).
pub open spec fn trim_ws_start(s: Seq<char>) -> Seq<char>
    decreases s.len(),
{
    if s.len() > 0 && is_ws(s[0]) {
        trim_ws_start(s.skip(1))
    } else {
        s
    }
}

/// `s` without trailing whitespace (`str::trim_end`).
pub open spec fn trim_ws_end(s: Seq<char>) -> Seq<char>
    decreases s.len(),
{
    if s.len() > 0 && is_ws(s.last()) {
        trim_ws_end(s.drop_last())
    } else {
        s
    }
}

/// `s` without leading and trailing whitespace (`str::trim`).
pub open spec fn trim_ws(s: Seq<char>) -> Seq<char> {
    trim_ws_end(trim_ws_start(s))
}

/// ASCII decimal digit.
pub open spec fn is_digit(c: char) -> bool {
    '0' <= c && c <= '9'
}

/// ASCII letter.
pub open spec fn is_alpha(c: char) -> bool {
    ('a' <= c && c <= 'z') || ('A' <= c && c <= 'Z')
}

/// ASCII letter or digit.
pub open spec fn is_alnum(c: char) -> bool {
    is_alpha(c) || is_digit(c)
}

/// The ASCII lowercase of `c` (`char::to_ascii_lowercase`).
pub open spec fn lower_char(c: char) -> char {
    if 'A' <= c && c <= 'Z' {
        ((c as u32) + 32) as char
    } else {
        c
    }
}

/// The ASCII lowercase of `s` (`str::to_ascii_lowercase`).
pub open spec fn ascii_lower(s: Seq<char>) -> Seq<char> {
    s.map_values(|c: char| lower_char(c))
}

/// The value of a string of ASCII digits.
pub open spec fn digits_value(s: Seq<char>) -> nat
    decreases s.len(),
{
    if s.len() == 0 {
        0
    } else {
        digits_value(s.drop_last()) * 10 + ((s.last() as u32) - ('0' as u32)) as nat
    }
}

/// All characters of `s` are ASCII digits.
pub open spec fn all_digits(s: Seq<char>) -> bool {
    forall|i: int| 0 <= i < s.len() ==> is_digit(#[trigger] s[i])
}

/// `u32::from_str`: an optional `+`, then at least one ASCII digit, and a
/// value that fits in 32 bits.
pub open spec fn parse_u32_spec(s: Seq<char>) -> Option<u32> {
    let body = if s.len() > 0 && s[0] == '+' { s.skip(1) } else { s };
    if body.len() > 0 && all_digits(body) && digits_value(body) <= u32::MAX {
        Some(digits_value(body) as u32)
    } else {
        None
    }
}

/// The single decimal digit character for `d < 10`.
pub open spec fn digit_char(d: nat) -> char {
    (('0' as u32) + d) as char
}

/// The decimal rendering of `n`, without sign or leading zeros.
pub open spec fn decimal(n: nat) -> Seq<char>
    decreases n,
{
    if n < 10 {
        seq![digit_char(n)]
    } else {
        decimal(n / 10).push(digit_char(n % 10))
    }
}

// ---------------------------------------------------------------------------
// Conversions between `str`/`String` and character buffers
// ---------------------------------------------------------------------------

/// The characters of `s`, in order.
///
/// Trusted: calls `str::chars` and collects; std documents that `chars`
/// yields the string's characters in order, which is the view of a `str`.
#[verifier::external_body]
pub(crate) fn chars_of(s: &str) -> (v: Vec<char>)
    ensures
        v@ == s@,
{
    s.chars().collect()
}

/// A `String` holding exactly the characters of `v`.
///
/// Trusted: calls `String::from_iter` over the characters, which std
/// documents as concatenating them in order.
#[verifier::external_body]
pub(crate) fn string_of(v: &[char]) -> (s: String)
    ensures
        s@ == v@,
{
    v.iter().collect()
}

/// What `str::to_lowercase` makes of `s`: each character replaced by its
/// Unicode lowercase mapping (which may be several characters).
pub uninterp spec fn unicode_lower(s: Seq<char>) -> Seq<char>;

/// The Unicode lowercase of `s`.
///
/// Trusted: calls `str::to_lowercase`, whose result is fixed by the
/// Unicode tables that std is built with, so a function of `s` alone.
#[verifier::external_body]
pub(crate) fn lowercase_of(s: &str) -> (r: String)
    ensures
        r@ == unicode_lower(s@),
{
    s.to_lowercase()
}

/// Appends the character `c` to `s`.
///
/// Trusted: calls `String::push`, documented to append one character.
#[verifier::external_body]
pub(crate) fn push_char(s: &mut String, c: char)
    ensures
        final(s)@ == old(s)@.push(c),
{
    s.push(c);
}

/// Appends the characters of `v` to `s`.
pub fn push_chars(s: &mut String, v: &[char])
    ensures
        final(s)@ == old(s)@ + v@,
{
    let mut i: usize = 0;
    while i < v.len()
        invariant
            i <= v@.len(),
            s@ == old(s)@ + v@.subrange(0, i as int),
        decreases v@.len() - i,
    {
        push_char(s, v[i]);
        i = i + 1;
        assert(v@.subrange(0, i as int) == v@.subrange(0, i - 1).push(v@[i - 1]));
    }
    assert(v@.subrange(0, v@.len() as int) == v@);
}

/// A new `String` equal to `s`.
pub fn owned(s: &str) -> (r: String)
    ensures
        r@ == s@,
{
    s.to_owned()
}


// ---------------------------------------------------------------------------
// Comparisons and searches
// ---------------------------------------------------------------------------

/// Whether `p` occurs in `s` at position `at`.
pub fn occurs_at_exec(s: &[char], p: &[char], at: usize) -> (r: bool)
    ensures
        r == occurs_at(s@, p@, at as int),
{
    if at > s.len() || p.len() > s.len() - at {
        return false;
    }
    let mut k: usize = 0;
    while k < p.len()
        invariant
            at <= s.len(),
            at + p.len() <= s.len(),
            s@.len() == s.len(),
            p@.len() == p.len(),
            k <= p@.len(),
            forall|j: int| 0 <= j < k ==> s@[at + j] == p@[j],
        decreases p@.len() - k,
    {
        if s[at + k] != p[k] {
            assert(s@.subrange(at as int, at + p@.len())[k as int] != p@[k as int]);
            return false;
        }
        k = k + 1;
    }
    assert(s@.subrange(at as int, at + p@.len()) =~= p@);
    true
}

/// Whether the strings `a` and `b` are equal.
pub fn str_eq(a: &str, b: &str) -> (r: bool)
    ensures
        r == (a@ == b@),
{
    let x = chars_of(a);
    let y = chars_of(b);
    if x.len() != y.len() {
        return false;
    }
    let r = occurs_at_exec(&x, &y, 0);
    assert(x@.subrange(0, y@.len() as int) =~= x@);
    r
}

/// Whether `s` begins with `p` (`str::starts_with`).
pub fn starts_with(s: &str, p: &str) -> (r: bool)
    ensures
        r == has_prefix(s@, p@),
{
    let x = chars_of(s);
    let y = chars_of(p);
    occurs_at_exec(&x, &y, 0)
}

/// Whether `s` ends with `p` (`str::ends_with`).
pub fn ends_with(s: &str, p: &str) -> (r: bool)
    ensures
        r == has_suffix(s@, p@),
{
    let x = chars_of(s);
    let y = chars_of(p);
    if y.len() > x.len() {
        return false;
    }
    occurs_at_exec(&x, &y, x.len() - y.len())
}

/// The first position at or after `from` where `p` occurs in `s`.
pub fn find_from_exec(s: &[char], p: &[char], from: usize) -> (r: Option<usize>)
    ensures
        match r {
            Some(i) => find_from(s@, p@, from as int) == Some(i as int),
            None => find_from(s@, p@, from as int) is None,
        },
{
    let mut i = from;
    while i < s.len() && p.len() <= s.len() - i
        invariant
            from <= i,
            find_from(s@, p@, from as int) == find_from(s@, p@, i as int),
        decreases s@.len() + 1 - i,
    {
        if occurs_at_exec(s, p, i) {
            return Some(i);
        }
        i = i + 1;
    }
    if i <= s.len() && p.len() <= s.len() - i && occurs_at_exec(s, p, i) {
        return Some(i);
    }
    assert(find_from(s@, p@, i as int) is None) by {
        reveal_with_fuel(find_from, 2);
    }
    None
}

/// Whether `p` occurs anywhere in `s` (`str::contains`).
pub fn contains_exec(s: &[char], p: &[char]) -> (r: bool)
    ensures
        r == contains_seq(s@, p@),
{
    let r = find_from_exec(s, p, 0);
    proof {
        lemma_find_from_iff(s@, p@, 0);
    }
    r.is_some()
}

/// Whether `p` occurs anywhere in `s`.
pub fn str_contains(s: &str, p: &str) -> (r: bool)
    ensures
        r == contains_seq(s@, p@),
{
    let x = chars_of(s);
    let y = chars_of(p);
    contains_exec(&x, &y)
}

/// `find_from` finds the first occurrence at or after `from`, and finds one
/// exactly when there is one.
pub proof fn lemma_find_from_iff(s: Seq<char>, p: Seq<char>, from: int)
    requires
        0 <= from,
    ensures
        find_from(s, p, from) is Some <==> exists|i: int| from <= i && #[trigger] occurs_at(s, p, i),
        find_from(s, p, from) matches Some(k) ==> from <= k && occurs_at(s, p, k) && forall|j: int|
            from <= j < k ==> !#[trigger] occurs_at(s, p, j),
    decreases s.len() + 1 - from,
{
    if from + p.len() > s.len() {
        assert forall|i: int| from <= i implies !#[trigger] occurs_at(s, p, i) by {}
    } else if occurs_at(s, p, from) {
    } else {
        lemma_find_from_iff(s, p, from + 1);
        assert forall|i: int| from <= i && #[trigger] occurs_at(s, p, i) implies from + 1 <= i by {}
    }
}

/// The characters `s[from..to]`.
pub fn sub_chars(s: &[char], from: usize, to: usize) -> (r: Vec<char>)
    requires
        from <= to <= s@.len(),
    ensures
        r@ == s@.subrange(from as int, to as int),
{
    let mut r: Vec<char> = Vec::new();
    let mut i = from;
    while i < to
        invariant
            from <= i <= to <= s@.len(),
            r@ == s@.subrange(from as int, i as int),
        decreases to - i,
    {
        r.push(s[i]);
        i = i + 1;
        assert(r@ =~= s@.subrange(from as int, i as int));
    }
    r
}

/// `s` with every trailing `c` removed (`str::trim_end_matches(c)`).
pub fn trim_end_char_exec(s: &str, c: char) -> (r: String)
    ensures
        r@ == trim_end_char(s@, c),
{
    let v = chars_of(s);
    let mut n = v.len();
    assert(v@.subrange(0, n as int) =~= v@);
    while n > 0 && v[n - 1] == c
        invariant
            n <= v@.len(),
            trim_end_char(v@, c) == trim_end_char(v@.subrange(0, n as int), c),
        decreases n,
    {
        assert(v@.subrange(0, n as int).drop_last() =~= v@.subrange(0, n - 1));
        n = n - 1;
    }
    let w = sub_chars(&v, 0, n);
    string_of(&w)
}

/// `s` with every leading `c` removed (`str::trim_start_matches(c)`).
pub fn trim_start_char_exec(s: &str, c: char) -> (r: String)
    ensures
        r@ == trim_start_char(s@, c),
{
    let v = chars_of(s);
    let mut n: usize = 0;
    assert(v@.subrange(0, v@.len() as int) =~= v@);
    while n < v.len() && v[n] == c
        invariant
            n <= v@.len(),
            trim_start_char(v@, c) == trim_start_char(v@.subrange(n as int, v@.len() as int), c),
        decreases v@.len() - n,
    {
        assert(v@.subrange(n as int, v@.len() as int).skip(1) =~= v@.subrange(n + 1, v@.len() as int));
        n = n + 1;
    }
    let w = sub_chars(&v, n, v.len());
    string_of(&w)
}

/// The concatenation of `a` and `b`.
pub fn concat2(a: &str, b: &str) -> (r: String)
    ensures
        r@ == a@ + b@,
{
    let mut r = owned(a);
    r.append(b);
    r
}

/// The concatenation of `a`, `b` and `c`.
pub fn concat3(a: &str, b: &str, c: &str) -> (r: String)
    ensures
        r@ == a@ + b@ + c@,
{
    let mut r = owned(a);
    r.append(b);
    r.append(c);
    r
}

/// Whether `c` is Unicode whitespace (`char::is_whitespace`).
pub fn is_ws_exec(c: char) -> (r: bool)
    ensures
        r == is_ws(c),
{
    ('\u{9}' <= c && c <= '\u{d}') || c == ' ' || c == '\u{85}' || c == '\u{a0}' || c == '\u{1680}'
        || ('\u{2000}' <= c && c <= '\u{200a}') || c == '\u{2028}' || c == '\u{2029}' || c == '\u{202f}'
        || c == '\u{205f}' || c == '\u{3000}'
}

/// The number of characters of `v` left after removing trailing
/// whitespace.
pub fn ws_end_len(v: &[char]) -> (n: usize)
    ensures
        n <= v@.len(),
        v@.subrange(0, n as int) == trim_ws_end(v@),
{
    let mut n = v.len();
    assert(v@.subrange(0, n as int) =~= v@);
    while n > 0 && is_ws_exec(v[n - 1])
        invariant
            n <= v@.len(),
            trim_ws_end(v@) == trim_ws_end(v@.subrange(0, n as int)),
        decreases n,
    {
        assert(v@.subrange(0, n as int).drop_last() =~= v@.subrange(0, n - 1));
        n = n - 1;
    }
    n
}

/// The number of leading whitespace characters of `v`.
pub fn ws_start_len(v: &[char]) -> (n: usize)
    ensures
        n <= v@.len(),
        v@.subrange(n as int, v@.len() as int) == trim_ws_start(v@),
{
    let mut n: usize = 0;
    assert(v@.subrange(0, v@.len() as int) =~= v@);
    while n < v.len() && is_ws_exec(v[n])
        invariant
            n <= v@.len(),
            trim_ws_start(v@) == trim_ws_start(v@.subrange(n as int, v@.len() as int)),
        decreases v@.len() - n,
    {
        assert(v@.subrange(n as int, v@.len() as int).skip(1) =~= v@.subrange(n + 1, v@.len() as int));
        n = n + 1;
    }
    n
}

/// `s` without trailing whitespace (`str::trim_end`).
pub fn trim_end_exec(s: &str) -> (r: String)
    ensures
        r@ == trim_ws_end(s@),
{
    let v = chars_of(s);
    let n = ws_end_len(&v);
    let w = sub_chars(&v, 0, n);
    string_of(&w)
}

/// `s` without leading whitespace (`str::trim_start`).
pub fn trim_start_exec(s: &str) -> (r: String)
    ensures
        r@ == trim_ws_start(s@),
{
    let v = chars_of(s);
    let n = ws_start_len(&v);
    let w = sub_chars(&v, n, v.len());
    string_of(&w)
}

/// `s` without leading and trailing whitespace (`str::trim`).
pub fn trim_exec(s: &str) -> (r: String)
    ensures
        r@ == trim_ws(s@),
{
    let a = trim_start_exec(s);
    trim_end_exec(a.as_str())
}

/// The views of a list of strings.
pub open spec fn strs_view(v: Seq<String>) -> Seq<Seq<char>> {
    v.map_values(|s: String| s@)
}

/// The view of an optional string.
pub open spec fn opt_view(o: Option<String>) -> Option<Seq<char>> {
    match o {
        Some(s) => Some(s@),
        None => None,
    }
}

/// A copy of an optional string.
pub fn clone_opt(o: &Option<String>) -> (r: Option<String>)
    ensures
        opt_view(r) == opt_view(*o),
{
    match o {
        Some(s) => Some(s.clone()),
        None => None,
    }
}

/// Whether the list `v` holds the string `s`.
pub fn list_contains(v: &[String], s: &str) -> (r: bool)
    ensures
        r == strs_view(v@).contains(s@),
{
    let mut i: usize = 0;
    while i < v.len()
        invariant
            i <= v@.len(),
            forall|j: int| 0 <= j < i ==> v@[j]@ != s@,
        decreases v@.len() - i,
    {
        if str_eq(v[i].as_str(), s) {
            assert(strs_view(v@)[i as int] == s@);
            return true;
        }
        i = i + 1;
    }
    assert forall|j: int| 0 <= j < strs_view(v@).len() implies strs_view(v@)[j] != s@ by {
        assert(strs_view(v@)[j] == v@[j]@);
    }
    false
}


/// The last position of `c` in `v`.
pub fn rfind_char(v: &[char], c: char) -> (r: Option<usize>)
    ensures
        match r {
            Some(i) => last_index_of(v@, c) == Some(i as int),
            None => last_index_of(v@, c) is None,
        },
{
    let mut n = v.len();
    proof {
        assert(v@.len() - seq![c].len() == n - 1);
    }
    while n > 0
        invariant
            n <= v@.len(),
            last_index_of(v@, c) == rfind_upto(v@, seq![c], n - 1),
        decreases n,
    {
        if v[n - 1] == c {
            assert(v@.subrange(n - 1, n as int) =~= seq![c]);
            return Some(n - 1);
        }
        assert(!occurs_at(v@, seq![c], n - 1)) by {
            if occurs_at(v@, seq![c], n - 1) {
                assert(v@.subrange(n - 1, n as int)[0] == v@[n - 1]);
            }
        }
        n = n - 1;
    }
    None
}

/// An occurrence in `a` is one in `a + b`, at the same place.
pub proof fn lemma_occurs_concat_left(a: Seq<char>, b: Seq<char>, p: Seq<char>, k: int)
    requires
        occurs_at(a, p, k),
    ensures
        occurs_at(a + b, p, k),
{
    assert((a + b).subrange(k, k + p.len()) =~= a.subrange(k, k + p.len()));
}

/// An occurrence in `b` at `k` is one in `a + b` at `a.len() + k`.
pub proof fn lemma_occurs_concat_right(a: Seq<char>, b: Seq<char>, p: Seq<char>, k: int)
    requires
        occurs_at(b, p, k),
    ensures
        occurs_at(a + b, p, a.len() + k),
{
    assert((a + b).subrange(a.len() + k, a.len() + k + p.len()) =~= b.subrange(k, k + p.len()));
}

/// A sequence occurs in itself at its start.
pub proof fn lemma_occurs_self(p: Seq<char>)
    ensures
        occurs_at(p, p, 0),
{
    assert(p.subrange(0, p.len() as int) =~= p);
}

/// `a` is a prefix of `a + b`.
pub proof fn lemma_prefix_concat(a: Seq<char>, b: Seq<char>)
    ensures
        has_prefix(a + b, a),
{
    assert((a + b).subrange(0, a.len() as int) =~= a);
}

/// `p` occurs in `s` at `i` exactly when it occurs at `i - k` in the
/// suffix of `s` after `k` characters.
pub proof fn lemma_occurs_skip(s: Seq<char>, p: Seq<char>, k: int, i: int)
    requires
        0 <= k <= i,
        k <= s.len(),
    ensures
        occurs_at(s, p, i) == occurs_at(s.skip(k), p, i - k),
{
    if i + p.len() <= s.len() {
        assert(s.skip(k).subrange(i - k, i - k + p.len()) =~= s.subrange(i, i + p.len()));
    }
}

/// `replace_all` on a suffix, unfolded by one step.
pub proof fn lemma_replace_step(s: Seq<char>, from: Seq<char>, to: Seq<char>, i: int)
    requires
        0 <= i < s.len(),
        from.len() > 0,
    ensures
        occurs_at(s, from, i) ==> replace_all(s.skip(i), from, to) == to + replace_all(s.skip(i + from.len()), from, to),
        !occurs_at(s, from, i) ==> replace_all(s.skip(i), from, to) == seq![s[i]] + replace_all(s.skip(i + 1), from, to),
{
    lemma_occurs_skip(s, from, i, i);
    let t = s.skip(i);
    if occurs_at(s, from, i) {
        assert(t.skip(from.len() as int) =~= s.skip(i + from.len()));
    } else {
        assert(t.skip(1) =~= s.skip(i + 1));
    }
}

/// `s` with every occurrence of `from` replaced by `to`
/// (`str::replace`).
pub fn replace_all_exec(s: &[char], from: &[char], to: &[char]) -> (r: Vec<char>)
    ensures
        r@ == replace_all(s@, from@, to@),
{
    let mut out: Vec<char> = Vec::new();
    let mut i: usize = 0;
    assert(s@.skip(0) =~= s@);
    if from.len() == 0 {
        while i < s.len()
            invariant
                i <= s@.len(),
                from@.len() == 0,
                out@ + replace_all(s@.skip(i as int), from@, to@) == replace_all(s@, from@, to@),
            decreases s@.len() - i,
        {
            let ghost t = s@.skip(i as int);
            assert(t.skip(1) =~= s@.skip(i + 1));
            assert(replace_all(t, from@, to@) == to@ + seq![t[0]] + replace_all(t.skip(1), from@, to@));
            let mut k: usize = 0;
            let ghost out0 = out@;
            while k < to.len()
                invariant
                    k <= to@.len(),
                    out@ == out0 + to@.subrange(0, k as int),
                decreases to@.len() - k,
            {
                out.push(to[k]);
                k = k + 1;
                assert(out@ =~= out0 + to@.subrange(0, k as int));
            }
            assert(to@.subrange(0, to@.len() as int) =~= to@);
            out.push(s[i]);
            assert(out@ + replace_all(s@.skip(i + 1), from@, to@) =~= out0 + replace_all(t, from@, to@));
            i = i + 1;
        }
        assert(s@.skip(s@.len() as int) =~= Seq::<char>::empty());
        let ghost out0 = out@;
        let mut k: usize = 0;
        while k < to.len()
            invariant
                k <= to@.len(),
                out@ == out0 + to@.subrange(0, k as int),
            decreases to@.len() - k,
        {
            out.push(to[k]);
            k = k + 1;
            assert(out@ =~= out0 + to@.subrange(0, k as int));
        }
        assert(to@.subrange(0, to@.len() as int) =~= to@);
        return out;
    }
    while i < s.len()
        invariant
            i <= s@.len(),
            from@.len() > 0,
            out@ + replace_all(s@.skip(i as int), from@, to@) == replace_all(s@, from@, to@),
        decreases s@.len() - i,
    {
        let ghost out0 = out@;
        proof {
            lemma_replace_step(s@, from@, to@, i as int);
        }
        if occurs_at_exec(s, from, i) {
            let mut k: usize = 0;
            while k < to.len()
                invariant
                    k <= to@.len(),
                    out@ == out0 + to@.subrange(0, k as int),
                decreases to@.len() - k,
            {
                out.push(to[k]);
                k = k + 1;
                assert(out@ =~= out0 + to@.subrange(0, k as int));
            }
            assert(to@.subrange(0, to@.len() as int) =~= to@);
            assert(out@ + replace_all(s@.skip(i + from@.len()), from@, to@) =~= out0 + replace_all(s@.skip(i as int), from@, to@));
            i = i + from.len();
        } else {
            out.push(s[i]);
            assert(out@ + replace_all(s@.skip(i + 1), from@, to@) =~= out0 + replace_all(s@.skip(i as int), from@, to@));
            i = i + 1;
        }
    }
    assert(s@.skip(s@.len() as int) =~= Seq::<char>::empty());
    assert(out@ + Seq::<char>::empty() =~= out@);
    out
}

/// `s` with every occurrence of `from` replaced by `to`
/// (`str::replace`).
pub fn str_replace(s: &str, from: &str, to: &str) -> (r: String)
    ensures
        r@ == replace_all(s@, from@, to@),
{
    let a = chars_of(s);
    let b = chars_of(from);
    let c = chars_of(to);
    let v = replace_all_exec(&a, &b, &c);
    string_of(&v)
}


/// The value of a prefix of a digit string extended by one digit.
pub proof fn lemma_digits_step(s: Seq<char>, i: int)
    requires
        0 <= i < s.len(),
    ensures
        digits_value(s.subrange(0, i + 1)) == digits_value(s.subrange(0, i)) * 10 + ((s[i] as u32) - ('0' as u32)) as nat,
{
    assert(s.subrange(0, i + 1).drop_last() =~= s.subrange(0, i));
}

/// The value of a digit string is at least that of any prefix.
pub proof fn lemma_digits_prefix_le(s: Seq<char>, i: int)
    requires
        0 <= i <= s.len(),
        all_digits(s),
    ensures
        digits_value(s.subrange(0, i)) <= digits_value(s),
    decreases s.len() - i,
{
    if i < s.len() {
        lemma_digits_step(s, i);
        lemma_digits_prefix_le(s, i + 1);
    } else {
        assert(s.subrange(0, i) =~= s);
    }
}

/// Parse a `u32` the way `u32::from_str` does: an optional `+`, then one
/// or more ASCII digits, with a value that fits.
pub fn parse_u32(s: &str) -> (r: Option<u32>)
    ensures
        r == parse_u32_spec(s@),
{
    let v = chars_of(s);
    let start: usize = if v.len() > 0 && v[0] == '+' { 1 } else { 0 };
    let body = sub_chars(&v, start, v.len());
    assert(body@ == (if s@.len() > 0 && s@[0] == '+' { s@.skip(1) } else { s@ }));
    if body.len() == 0 {
        return None;
    }
    let mut acc: u64 = 0;
    let mut i: usize = 0;
    assert(body@.subrange(0, 0) =~= Seq::<char>::empty());
    while i < body.len()
        invariant
            i <= body@.len(),
            acc == digits_value(body@.subrange(0, i as int)),
            acc <= u32::MAX,
            body@ == (if s@.len() > 0 && s@[0] == '+' { s@.skip(1) } else { s@ }),
            body@.len() > 0,
            forall|j: int| 0 <= j < i ==> is_digit(#[trigger] body@[j]),
        decreases body@.len() - i,
    {
        let c = body[i];
        if !('0' <= c && c <= '9') {
            assert(!all_digits(body@));
            return None;
        }
        proof {
            lemma_digits_step(body@, i as int);
        }
        let d = (c as u32 - '0' as u32) as u64;
        acc = acc * 10 + d;
        if acc > 4294967295u64 {
            proof {
                if all_digits(body@) {
                    lemma_digits_prefix_le(body@, i + 1);
                }
            }
            return None;
        }
        i = i + 1;
    }
    assert(body@.subrange(0, i as int) =~= body@);
    Some(acc as u32)
}

/// The decimal rendering of `n`.
pub fn decimal_string(n: u64) -> (r: String)
    ensures
        r@ == decimal(n as nat),
    decreases n,
{
    if n < 10 {
        let mut r = String::new();
        push_char(&mut r, digit_of(n));
        assert(r@ =~= seq![digit_char(n as nat)]);
        r
    } else {
        let mut r = decimal_string(n / 10);
        push_char(&mut r, digit_of(n % 10));
        assert((n / 10) as nat == (n as nat) / 10);
        assert((n % 10) as nat == (n as nat) % 10);
        r
    }
}

/// The digit character of `d < 10`.
fn digit_of(d: u64) -> (c: char)
    requires
        d < 10,
    ensures
        c == digit_char(d as nat),
{
    match d {
        0 => '0',
        1 => '1',
        2 => '2',
        3 => '3',
        4 => '4',
        5 => '5',
        6 => '6',
        7 => '7',
        8 => '8',
        _ => '9',
    }
}


/// The ASCII lowercase of `s`.
pub fn ascii_lower_exec(s: &str) -> (r: String)
    ensures
        r@ == ascii_lower(s@),
{
    let v = chars_of(s);
    let mut out: Vec<char> = Vec::new();
    let mut i: usize = 0;
    while i < v.len()
        invariant
            i <= v@.len(),
            out@ == ascii_lower(v@.subrange(0, i as int)),
        decreases v@.len() - i,
    {
        let c = v[i];
        let l = if 'A' <= c && c <= 'Z' { ((c as u32) + 32) as u8 as char } else { c };
        assert(l == lower_char(c)) by {
            if 'A' <= c && c <= 'Z' {
                assert(((c as u32) + 32) < 256);
            }
        }
        out.push(l);
        assert(ascii_lower(v@.subrange(0, i + 1)) =~= ascii_lower(v@.subrange(0, i as int)).push(l));
        i = i + 1;
    }
    assert(v@.subrange(0, v@.len() as int) =~= v@);
    string_of(&out)
}


/// The pieces of `s` between occurrences of `c` (`str::split` on a
/// character): always at least one, empty pieces included.
pub open spec fn split_on(s: Seq<char>, c: char) -> Seq<Seq<char>>
    decreases s.len(),
{
    if s.len() == 0 {
        seq![seq![]]
    } else {
        let r = split_on(s.drop_last(), c);
        if s.last() == c {
            r.push(seq![])
        } else {
            r.update(r.len() - 1, r.last().push(s.last()))
        }
    }
}

/// The pieces are never none.
pub proof fn lemma_split_nonempty(s: Seq<char>, c: char)
    ensures
        split_on(s, c).len() >= 1,
    decreases s.len(),
{
    if s.len() > 0 {
        lemma_split_nonempty(s.drop_last(), c);
    }
}

/// There are at most one more pieces than characters.
pub proof fn lemma_split_len(s: Seq<char>, c: char)
    ensures
        split_on(s, c).len() <= s.len() + 1,
    decreases s.len(),
{
    if s.len() > 0 {
        lemma_split_len(s.drop_last(), c);
        lemma_split_nonempty(s.drop_last(), c);
    }
}

/// Trimming never lengthens.
pub proof fn lemma_trim_start_char_len(s: Seq<char>, c: char)
    ensures
        trim_start_char(s, c).len() <= s.len(),
    decreases s.len(),
{
    if s.len() > 0 && s[0] == c {
        lemma_trim_start_char_len(s.skip(1), c);
    }
}

/// Split `s` on every occurrence of `c`.
pub fn split_char(s: &str, c: char) -> (r: Vec<String>)
    ensures
        strs_view(r@) == split_on(s@, c),
{
    let v = chars_of(s);
    let mut pieces: Vec<String> = Vec::new();
    let mut cur: Vec<char> = Vec::new();
    let mut i: usize = 0;
    assert(v@.subrange(0, 0) =~= Seq::<char>::empty());
    assert(strs_view(pieces@).push(cur@) =~= split_on(v@.subrange(0, 0), c));
    while i < v.len()
        invariant
            i <= v@.len(),
            strs_view(pieces@).push(cur@) == split_on(v@.subrange(0, i as int), c),
        decreases v@.len() - i,
    {
        let ghost pre = v@.subrange(0, i + 1);
        assert(pre.drop_last() =~= v@.subrange(0, i as int));
        assert(pre.last() == v@[i as int]);
        let ghost before = strs_view(pieces@);
        if v[i] == c {
            let piece = string_of(&cur);
            pieces.push(piece);
            cur = Vec::new();
            assert(strs_view(pieces@) =~= before.push(piece@));
            assert(strs_view(pieces@).push(cur@) =~= split_on(pre, c));
        } else {
            let ghost old_cur = cur@;
            cur.push(v[i]);
            assert(strs_view(pieces@).push(cur@) =~= before.push(old_cur).update(before.len() as int, old_cur.push(v@[i as int])));
        }
        i = i + 1;
    }
    assert(v@.subrange(0, v@.len() as int) =~= v@);
    let ghost before = strs_view(pieces@);
    let last = string_of(&cur);
    pieces.push(last);
    assert(strs_view(pieces@) =~= before.push(last@));
    pieces
}


/// What is left after trimming the start begins with a non-space.
proof fn lemma_trim_start_head(s: Seq<char>)
    ensures
        trim_ws_start(s).len() == 0 || !is_ws(trim_ws_start(s)[0]),
    decreases s.len(),
{
    if s.len() > 0 && is_ws(s[0]) {
        lemma_trim_start_head(s.skip(1));
    }
}

/// Trimming the end keeps a prefix that ends with a non-space.
proof fn lemma_trim_end_prefix(s: Seq<char>)
    ensures
        trim_ws_end(s).len() <= s.len(),
        trim_ws_end(s) == s.subrange(0, trim_ws_end(s).len() as int),
        trim_ws_end(s).len() == 0 || !is_ws(trim_ws_end(s).last()),
    decreases s.len(),
{
    if s.len() > 0 && is_ws(s.last()) {
        lemma_trim_end_prefix(s.drop_last());
        let e = trim_ws_end(s.drop_last());
        assert(s.drop_last().subrange(0, e.len() as int) =~= s.subrange(0, e.len() as int));
    } else {
        assert(s.subrange(0, s.len() as int) =~= s);
    }
}

/// Trimmed text is left as it is by a second trim.
pub proof fn lemma_trim_ws_idempotent(s: Seq<char>)
    ensures
        trim_ws(trim_ws(s)) == trim_ws(s),
{
    let a = trim_ws_start(s);
    lemma_trim_start_head(s);
    lemma_trim_end_prefix(a);
    let b = trim_ws_end(a);
    if b.len() > 0 {
        assert(b[0] == a[0]);
        assert(trim_ws_start(b) == b);
        assert(trim_ws_end(b) == b);
    } else {
        assert(trim_ws_start(b) == b);
        assert(trim_ws_end(b) == b);
    }
}

/// A copy of a list of strings.
pub(crate) fn copy_strings(v: &Vec<String>) -> (r: Vec<String>)
    ensures
        strs_view(r@) == strs_view(v@),
{
    let mut out: Vec<String> = Vec::new();
    let mut i: usize = 0;
    while i < v.len()
        invariant
            i <= v@.len(),
            strs_view(out@) == strs_view(v@).subrange(0, i as int),
        decreases v@.len() - i,
    {
        let ghost before = strs_view(out@);
        out.push(v[i].clone());
        assert(strs_view(out@) =~= before.push(v@[i as int]@));
        assert(strs_view(v@).subrange(0, i + 1) =~= strs_view(v@).subrange(0, i as int).push(v@[i as int]@));
        i = i + 1;
    }
    assert(strs_view(v@).subrange(0, v@.len() as int) =~= strs_view(v@));
    out
}

} // verus!
