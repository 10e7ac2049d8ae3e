//! Selector and declaration analysis for critical CSS extraction:
//! stripping dynamic pseudo-classes and pseudo-elements from selectors so
//! they can be matched against a static DOM, and finding the global rules
//! (fonts, animations, custom properties) a declaration block depends on.
//!
//! The small declaration patterns are scanned here directly: `\s` is
//! Unicode whitespace and the case-insensitive property names contain no
//! letter whose case folding leaves ASCII, so ASCII case folding is exact
//! for them.

use vstd::prelude::*;
use crate::regexp::{
    groups_view, opt_strs_view, regex_all_capture_groups, regex_capture_groups, regex_captures, regex_captures_all, regex_compiles,
};
use crate::text::{opt_view, 
    ascii_lower, chars_of, has_prefix, lowercase_of, unicode_lower, has_suffix, is_alnum, is_alpha, is_digit, is_ws, is_ws_exec, list_contains, lower_char,
    occurs_at, owned, push_char, starts_with, ends_with, str_eq, string_of, strs_view, sub_chars, trim_ws,
};

verus! {

// ---------------------------------------------------------------------------
// Selectors
// ---------------------------------------------------------------------------

/// An ASCII letter or `-`.
pub open spec fn elem_name_char(c: char) -> bool {
    is_alpha(c) || c == '-'
}

/// An ASCII letter, digit or `-`.
pub open spec fn class_name_char(c: char) -> bool {
    is_alnum(c) || c == '-'
}

/// The number of characters of `s` from `j` on satisfying `p`.
pub open spec fn run_len(s: Seq<char>, j: int, p: spec_fn(char) -> bool) -> nat
    decreases s.len() - j,
{
    if j < 0 || j >= s.len() || !p(s[j]) {
        0
    } else {
        1 + run_len(s, j + 1, p)
    }
}

/// The position of the first `)` at or after `j`, if any.
pub open spec fn close_paren_from(s: Seq<char>, j: int) -> Option<int>
    decreases s.len() - j,
{
    if j < 0 || j >= s.len() {
        None
    } else if s[j] == ')' {
        Some(j)
    } else {
        close_paren_from(s, j + 1)
    }
}

/// The end of a pseudo-element (`::name` with an optional `(...)`)
/// starting at `i`, if one starts there.
pub open spec fn pseudo_element_end(s: Seq<char>, i: int) -> Option<int> {
    let n = run_len(s, i + 2, |c: char| elem_name_char(c));
    if occurs_at(s, "::"@, i) && n > 0 {
        let e = i + 2 + n;
        if e < s.len() && s[e] == '(' {
            match close_paren_from(s, e + 1) {
                Some(c) => Some(c + 1),
                None => Some(e),
            }
        } else {
            Some(e)
        }
    } else {
        None
    }
}

/// `s[i..]` without its pseudo-elements, scanned left to right.
pub open spec fn without_pseudo_elements(s: Seq<char>, i: int) -> Seq<char>
    decreases (if i < s.len() { s.len() - i } else { 0 }),
{
    if i < 0 || i >= s.len() {
        seq![]
    } else {
        match pseudo_element_end(s, i) {
            Some(e) => if e > i { without_pseudo_elements(s, e) } else { seq![] },
            None => seq![s[i]] + without_pseudo_elements(s, i + 1),
        }
    }
}

/// The position after the parenthesized group whose `(` precedes `j`,
/// with `depth` groups open (the end of the text when unbalanced).
pub open spec fn paren_end(s: Seq<char>, j: int, depth: nat) -> int
    decreases s.len() - j,
{
    if depth == 0 || j < 0 || j >= s.len() {
        j
    } else if s[j] == '(' {
        paren_end(s, j + 1, depth + 1)
    } else if s[j] == ')' {
        paren_end(s, j + 1, (depth - 1) as nat)
    } else {
        paren_end(s, j + 1, depth)
    }
}

/// The pseudo-classes kept for matching: the structural ones.
pub open spec fn structural_pseudos() -> Seq<Seq<char>> {
    seq![
        "root"@, "first-child"@, "last-child"@, "nth-child"@, "nth-last-child"@, "nth-of-type"@,
        "nth-last-of-type"@, "first-of-type"@, "last-of-type"@, "only-child"@, "only-of-type"@, "empty"@,
        "not"@, "is"@, "where"@, "has"@,
    ]
}

/// The end of a pseudo-class's optional parenthesized arguments after its
/// name ending at `ne`.
pub open spec fn args_end(s: Seq<char>, ne: int) -> int {
    if ne < s.len() && s[ne] == '(' {
        paren_end(s, ne + 1, 1)
    } else {
        ne
    }
}

/// `s[i..]` with its non-structural pseudo-classes removed; every other
/// character is kept.
pub open spec fn strip_classes(s: Seq<char>, i: int) -> Seq<char>
    decreases (if i < s.len() { s.len() - i } else { 0 }),
{
    if i < 0 || i >= s.len() {
        seq![]
    } else if s[i] == ':' && (i + 1 >= s.len() || s[i + 1] != ':') {
        let ne = i + 1 + run_len(s, i + 1, |c: char| class_name_char(c));
        let end = args_end(s, ne);
        if end <= i {
            seq![]
        } else if structural_pseudos().contains(s.subrange(i + 1, ne)) {
            s.subrange(i, end) + strip_classes(s, end)
        } else {
            strip_classes(s, end)
        }
    } else {
        seq![s[i]] + strip_classes(s, i + 1)
    }
}

/// The words of `s[i..]` (maximal runs of non-whitespace) joined by single
/// spaces, continuing a result whose last word is open when `in_word`.
pub open spec fn collapse_ws(s: Seq<char>, i: int, started: bool, pending: bool) -> Seq<char>
    decreases s.len() - i,
{
    if i < 0 || i >= s.len() {
        seq![]
    } else if is_ws(s[i]) {
        collapse_ws(s, i + 1, started, started)
    } else {
        (if pending { seq![' '] } else { seq![] }) + seq![s[i]] + collapse_ws(s, i + 1, true, false)
    }
}

/// The selector reduced for matching against a static document, or `None`
/// when nothing is left (the rule applies unconditionally).
pub open spec fn stripped_selector(sel: Seq<char>) -> Option<Seq<char>> {
    let r = collapse_ws(strip_classes(without_pseudo_elements(sel, 0), 0), 0, false, false);
    if r.len() == 0 {
        None
    } else {
        Some(r)
    }
}

/// The number of characters of `v` from `j` on that are ASCII letters or
/// `-`.
fn elem_run(v: &[char], j: usize) -> (n: usize)
    ensures
        n == run_len(v@, j as int, |c: char| elem_name_char(c)),
        n == 0 || j + n <= v@.len(),
{
    let mut k = j;
    while k < v.len() && (('a' <= v[k] && v[k] <= 'z') || ('A' <= v[k] && v[k] <= 'Z') || v[k] == '-')
        invariant
            j <= k,
            k <= v@.len() || k == j,
            run_len(v@, j as int, |c: char| elem_name_char(c)) == (k - j) + run_len(v@, k as int, |c: char| elem_name_char(c)),
        decreases v@.len() - k,
    {
        k = k + 1;
    }
    k - j
}

/// The number of characters of `v` from `j` on that are ASCII letters,
/// digits or `-`.
fn class_run(v: &[char], j: usize) -> (n: usize)
    ensures
        n == run_len(v@, j as int, |c: char| class_name_char(c)),
        n == 0 || j + n <= v@.len(),
{
    let mut k = j;
    while k < v.len() && (('a' <= v[k] && v[k] <= 'z') || ('A' <= v[k] && v[k] <= 'Z') || ('0' <= v[k] && v[k] <= '9')
        || v[k] == '-')
        invariant
            j <= k,
            k <= v@.len() || k == j,
            run_len(v@, j as int, |c: char| class_name_char(c)) == (k - j) + run_len(v@, k as int, |c: char| class_name_char(c)),
        decreases v@.len() - k,
    {
        k = k + 1;
    }
    k - j
}

/// The first `)` at or after `j`.
fn close_paren(v: &[char], j: usize) -> (r: Option<usize>)
    ensures
        match r {
            Some(c) => close_paren_from(v@, j as int) == Some(c as int) && j <= c < v@.len(),
            None => close_paren_from(v@, j as int) is None,
        },
{
    let mut k = j;
    while k < v.len()
        invariant
            j <= k,
            close_paren_from(v@, j as int) == close_paren_from(v@, k as int),
        decreases v@.len() - k,
    {
        if v[k] == ')' {
            return Some(k);
        }
        k = k + 1;
    }
    None
}

/// `v` without its pseudo-elements.
fn remove_pseudo_elements(v: &[char]) -> (r: Vec<char>)
    ensures
        r@ == without_pseudo_elements(v@, 0),
{
    let dc = chars_of("::");
    proof {
        reveal_strlit("::");
    }
    assert(dc@.len() == 2);
    let mut out: Vec<char> = Vec::new();
    let mut i: usize = 0;
    while i < v.len()
        invariant
            dc@ == "::"@,
            dc@.len() == 2,
            out@ + without_pseudo_elements(v@, i as int) == without_pseudo_elements(v@, 0),
        decreases v@.len() - i,
    {
        let ghost before = out@;
        let is_pe = crate::text::occurs_at_exec(v, &dc, i);
        let n = if is_pe { elem_run(v, i + 2) } else { 0 };
        if is_pe && n > 0 {
            let e = i + 2 + n;
            let end = if e < v.len() && v[e] == '(' {
                match close_paren(v, e + 1) {
                    Some(c) => c + 1,
                    None => e,
                }
            } else {
                e
            };
            assert(pseudo_element_end(v@, i as int) == Some(end as int));
            i = end;
        } else {
            assert(pseudo_element_end(v@, i as int) is None);
            out.push(v[i]);
            assert(out@ + without_pseudo_elements(v@, i + 1) =~= before + without_pseudo_elements(v@, i as int));
            i = i + 1;
        }
    }
    assert(out@ + Seq::<char>::empty() =~= out@);
    out
}

/// The end of the parenthesized group opened before `j`.
fn paren_end_exec(v: &[char], j: usize) -> (r: usize)
    requires
        1 <= j <= v@.len(),
    ensures
        r == paren_end(v@, j as int, 1),
        j <= r <= v@.len(),
{
    let vlen = v.len();
    let mut end = j;
    let mut depth: usize = 1;
    while end < v.len() && depth > 0
        invariant
            1 <= j <= end <= v@.len(),
            vlen == v@.len(),
            depth <= end - j + 1,
            paren_end(v@, j as int, 1) == paren_end(v@, end as int, depth as nat),
        decreases v@.len() - end,
    {
        if v[end] == '(' {
            depth = depth + 1;
        } else if v[end] == ')' {
            depth = depth - 1;
        }
        end = end + 1;
    }
    end
}

/// Whether `name` is a structural pseudo-class.
fn is_structural(name: &[char]) -> (r: bool)
    ensures
        r == structural_pseudos().contains(name@),
{
    let s = string_of(name);
    let list: Vec<String> = vec![
        owned("root"), owned("first-child"), owned("last-child"), owned("nth-child"), owned("nth-last-child"),
        owned("nth-of-type"), owned("nth-last-of-type"), owned("first-of-type"), owned("last-of-type"),
        owned("only-child"), owned("only-of-type"), owned("empty"), owned("not"), owned("is"), owned("where"),
        owned("has"),
    ];
    assert(strs_view(list@) =~= structural_pseudos());
    list_contains(list.as_slice(), s.as_str())
}

/// `v` with its non-structural pseudo-classes removed.
fn remove_pseudo_classes(v: &[char]) -> (r: Vec<char>)
    ensures
        r@ == strip_classes(v@, 0),
{
    let mut out: Vec<char> = Vec::new();
    let mut i: usize = 0;
    while i < v.len()
        invariant
            i <= v@.len(),
            out@ + strip_classes(v@, i as int) == strip_classes(v@, 0),
        decreases v@.len() - i,
    {
        let ghost before = out@;
        if v[i] == ':' && (i + 1 >= v.len() || v[i + 1] != ':') {
            let n = class_run(v, i + 1);
            let ne = i + 1 + n;
            let end = if ne < v.len() && v[ne] == '(' { paren_end_exec(v, ne + 1) } else { ne };
            assert(end == args_end(v@, ne as int));
            let name = sub_chars(v, i + 1, ne);
            if is_structural(&name) {
                let mut k = i;
                while k < end
                    invariant
                        i <= k <= end <= v@.len(),
                        out@ == before + v@.subrange(i as int, k as int),
                    decreases end - k,
                {
                    out.push(v[k]);
                    k = k + 1;
                    assert(out@ =~= before + v@.subrange(i as int, k as int));
                }
                assert(out@ + strip_classes(v@, end as int) =~= before + strip_classes(v@, i as int));
            }
            i = end;
        } else {
            out.push(v[i]);
            assert(out@ + strip_classes(v@, i + 1) =~= before + strip_classes(v@, i as int));
            i = i + 1;
        }
    }
    assert(out@ + Seq::<char>::empty() =~= out@);
    out
}

/// The words of `v` joined by single spaces.
fn collapse_ws_exec(v: &[char]) -> (r: Vec<char>)
    ensures
        r@ == collapse_ws(v@, 0, false, false),
{
    let mut out: Vec<char> = Vec::new();
    let mut started = false;
    let mut pending = false;
    let mut i: usize = 0;
    while i < v.len()
        invariant
            i <= v@.len(),
            out@ + collapse_ws(v@, i as int, started, pending) == collapse_ws(v@, 0, false, false),
        decreases v@.len() - i,
    {
        let ghost before = out@;
        let ghost p0 = pending;
        let ghost s0 = started;
        if is_ws_exec(v[i]) {
            pending = started;
        } else {
            if pending {
                out.push(' ');
            }
            out.push(v[i]);
            started = true;
            pending = false;
            assert(out@ + collapse_ws(v@, i + 1, started, pending) =~= before + collapse_ws(v@, i as int, s0, p0));
        }
        i = i + 1;
    }
    assert(out@ + Seq::<char>::empty() =~= out@);
    out
}

/// Strip dynamic pseudo-classes and pseudo-elements from a selector, to
/// match it against a static DOM: `Some(stripped)`, or `None` when
/// nothing is left (e.g. `::selection`: the rule is then included
/// unconditionally). Structural pseudo-classes (`:root`, `:nth-child`,
/// `:not(...)`, ...) are kept.
pub fn strip_pseudo_for_matching(selector: &str) -> (r: Option<String>)
    ensures
        crate::text::opt_view(r) == stripped_selector(selector@),
{
    let v = chars_of(selector);
    let a = remove_pseudo_elements(&v);
    let b = remove_pseudo_classes(&a);
    let c = collapse_ws_exec(&b);
    if c.len() == 0 {
        None
    } else {
        Some(string_of(&c))
    }
}

// ---------------------------------------------------------------------------
// Declarations
// ---------------------------------------------------------------------------

/// Global rules referenced by a declaration block. Each list holds
/// distinct names, in order of first reference.
pub struct GlobalDependencies {
    /// Font family names referenced by the declarations.
    pub font_families: Vec<String>,
    /// Animation names referenced by the declarations.
    pub animation_names: Vec<String>,
    /// Custom property names (e.g. `--color-primary`) referenced through
    /// `var()`.
    pub custom_properties: Vec<String>,
}

/// `acc` with `x` added unless present.
pub open spec fn set_add(acc: Seq<Seq<char>>, x: Seq<char>) -> Seq<Seq<char>> {
    if acc.contains(x) {
        acc
    } else {
        acc.push(x)
    }
}

/// The comma-separated parts of `s[start..]` (`str::split(',')`), the
/// current part having begun at `start` and the scan being at `j`.
pub open spec fn comma_parts_from(s: Seq<char>, start: int, j: int) -> Seq<Seq<char>>
    decreases s.len() - j,
{
    if j >= s.len() || j < start || start < 0 {
        seq![s.subrange(start, s.len() as int)]
    } else if s[j] == ',' {
        seq![s.subrange(start, j)] + comma_parts_from(s, j + 1, j + 1)
    } else {
        comma_parts_from(s, start, j + 1)
    }
}

/// The comma-separated parts of `s` (`str::split(',')`), in order.
pub open spec fn comma_parts(s: Seq<char>) -> Seq<Seq<char>> {
    comma_parts_from(s, 0, 0)
}

/// `s` with every leading and trailing `c` removed
/// (`str::trim_matches(c)`).
pub open spec fn trim_char(s: Seq<char>, c: char) -> Seq<char> {
    crate::text::trim_end_char(crate::text::trim_start_char(s, c), c)
}

/// Generic CSS family keywords.
pub open spec fn generic_families() -> Seq<Seq<char>> {
    seq![
        "serif"@, "sans-serif"@, "monospace"@, "cursive"@, "fantasy"@, "system-ui"@, "ui-serif"@,
        "ui-sans-serif"@, "ui-monospace"@, "ui-rounded"@, "emoji"@, "math"@, "fangsong"@, "inherit"@,
        "initial"@, "unset"@, "revert"@,
    ]
}

/// Whether a family name is a generic CSS family keyword once lowercased.
pub open spec fn generic_family(name: Seq<char>) -> bool {
    generic_families().contains(unicode_lower(name))
}

/// The cleaned family name of one comma part.
pub open spec fn family_name(part: Seq<char>) -> Seq<char> {
    trim_ws(trim_char(trim_char(trim_ws(part), '"'), '\''))
}

/// The family names of the parts, added to `acc`.
pub open spec fn add_families(acc: Seq<Seq<char>>, parts: Seq<Seq<char>>) -> Seq<Seq<char>>
    decreases parts.len(),
{
    if parts.len() == 0 {
        acc
    } else {
        let rest = add_families(acc, parts.drop_last());
        let n = family_name(parts.last());
        if n.len() > 0 && !generic_family(n) { set_add(rest, n) } else { rest }
    }
}

/// The animation names of the parts of an `animation-name` value, added
/// to `acc`.
pub open spec fn add_anim_names(acc: Seq<Seq<char>>, parts: Seq<Seq<char>>) -> Seq<Seq<char>>
    decreases parts.len(),
{
    if parts.len() == 0 {
        acc
    } else {
        let rest = add_anim_names(acc, parts.drop_last());
        let n = trim_ws(parts.last());
        if n.len() > 0 && n != "none"@ && n != "initial"@ && n != "inherit"@ { set_add(rest, n) } else { rest }
    }
}

/// The whitespace-separated tokens of `s[j..]`, continuing the token
/// `cur` (`str::split_whitespace`).
pub open spec fn ws_tokens_from(s: Seq<char>, j: int, cur: Seq<char>) -> Seq<Seq<char>>
    decreases s.len() - j,
{
    let done = if cur.len() > 0 { seq![cur] } else { seq![] };
    if j < 0 || j >= s.len() {
        done
    } else if is_ws(s[j]) {
        done + ws_tokens_from(s, j + 1, seq![])
    } else {
        ws_tokens_from(s, j + 1, cur.push(s[j]))
    }
}

/// The whitespace-separated tokens of `s`.
pub open spec fn ws_tokens(s: Seq<char>) -> Seq<Seq<char>> {
    ws_tokens_from(s, 0, seq![])
}

/// An optional sign, then ASCII digits with an optional `.` and at least
/// one digit, then an optional exponent; or `inf`, `infinity`, `nan` (any
/// case): the syntax `f64::from_str` accepts.
pub open spec fn float_syntax(t: Seq<char>) -> bool {
    let b = if t.len() > 0 && (t[0] == '+' || t[0] == '-') { t.skip(1) } else { t };
    let l = ascii_lower(b);
    if l == "inf"@ || l == "infinity"@ || l == "nan"@ {
        true
    } else {
        let m: int = run_len(b, 0, |c: char| is_digit(c)) as int;
        let (frac_end, digits) = if m < b.len() && b[m] == '.' {
            let f: int = run_len(b, m + 1, |c: char| is_digit(c)) as int;
            (m + 1 + f, m + f)
        } else {
            (m, m)
        };
        digits > 0 && (frac_end == b.len() || (frac_end < b.len() && (b[frac_end] == 'e' || b[frac_end] == 'E') && {
            let e = frac_end + 1;
            let e2 = if e < b.len() && (b[e] == '+' || b[e] == '-') { e + 1 } else { e };
            let k = run_len(b, e2, |c: char| is_digit(c));
            k > 0 && e2 + k == b.len()
        }))
    }
}

/// Timing keywords and other non-name words of the `animation` shorthand.
pub open spec fn timing_keywords() -> Seq<Seq<char>> {
    seq![
        "ease"@, "ease-in"@, "ease-out"@, "ease-in-out"@, "linear"@, "step-start"@, "step-end"@, "infinite"@,
        "none"@, "normal"@, "reverse"@, "alternate"@, "alternate-reverse"@, "forwards"@, "backwards"@, "both"@,
        "running"@, "paused"@, "initial"@, "inherit"@, "unset"@,
    ]
}

/// A number with at least one digit (not `inf` or `nan`).
pub open spec fn numeric(t: Seq<char>) -> bool {
    float_syntax(t) && exists|i: int| 0 <= i < t.len() && is_digit(#[trigger] t[i])
}

/// A duration: a number followed by `s` or `ms`.
pub open spec fn is_duration(t: Seq<char>) -> bool {
    (has_suffix(t, "ms"@) && numeric(t.subrange(0, t.len() - 2))) || (has_suffix(t, "s"@) && numeric(
        t.subrange(0, t.len() - 1),
    ))
}

/// Whether a shorthand token cannot be an animation name.
pub open spec fn skip_token(t: Seq<char>) -> bool {
    is_duration(t) || float_syntax(t) || timing_keywords().contains(unicode_lower(t)) || has_prefix(t, "cubic-bezier"@)
        || has_prefix(t, "steps("@)
}

/// The first token that can be an animation name.
pub open spec fn first_name_token(tokens: Seq<Seq<char>>) -> Option<Seq<char>>
    decreases tokens.len(),
{
    if tokens.len() == 0 {
        None
    } else if !skip_token(tokens[0]) && tokens[0].len() > 0 {
        Some(tokens[0])
    } else {
        first_name_token(tokens.skip(1))
    }
}

/// The animation names of the comma parts of an `animation` shorthand
/// value (one per part at most), added to `acc`.
pub open spec fn add_shorthand_names(acc: Seq<Seq<char>>, parts: Seq<Seq<char>>) -> Seq<Seq<char>>
    decreases parts.len(),
{
    if parts.len() == 0 {
        acc
    } else {
        let rest = add_shorthand_names(acc, parts.drop_last());
        match first_name_token(ws_tokens(parts.last())) {
            Some(n) => set_add(rest, n),
            None => rest,
        }
    }
}

/// The pattern of a declaration of `property`: its value, up to the
/// next `;`, in group 1 (case-insensitive).
pub open spec fn decl_pattern(property: Seq<char>) -> Seq<char> {
    "(?i)"@ + property + "\\s*:\\s*([^;]+)"@
}

/// The pattern of a `var(--name)` reference: the name in group 1.
pub open spec fn var_pattern() -> Seq<char> {
    "var\\(\\s*(--[a-zA-Z0-9_-]+)"@
}

/// Group 1 of the first match of `pattern` in `d`; `None` when there is
/// no match (or the pattern does not compile).
pub open spec fn first_group(pattern: Seq<char>, d: Seq<char>) -> Option<Seq<char>> {
    if regex_compiles(pattern) {
        match regex_capture_groups(pattern, d) {
            Some(g) => crate::build::bundling::css::group_at(g, 1),
            None => None,
        }
    } else {
        None
    }
}

/// The names in group 1 of the matches `caps`, added in order to `acc`
/// unless present.
pub open spec fn add_group_names(acc: Seq<Seq<char>>, caps: Seq<Seq<Option<Seq<char>>>>) -> Seq<Seq<char>>
    decreases caps.len(),
{
    if caps.len() == 0 {
        acc
    } else {
        let rest = add_group_names(acc, caps.drop_last());
        match crate::build::bundling::css::group_at(caps.last(), 1) {
            Some(n) => set_add(rest, n),
            None => rest,
        }
    }
}

/// The custom properties referenced through `var()` in `d`, in order of
/// first reference.
pub open spec fn var_refs(d: Seq<char>) -> Seq<Seq<char>> {
    if regex_compiles(var_pattern()) {
        add_group_names(seq![], regex_all_capture_groups(var_pattern(), d))
    } else {
        seq![]
    }
}

/// The global dependencies of a declaration block: fonts of the first
/// `font-family`, names of the first `animation-name` (else of the first
/// `animation` shorthand), and every `var(--name)` reference.
pub open spec fn global_deps_of(d: Seq<char>) -> (Seq<Seq<char>>, Seq<Seq<char>>, Seq<Seq<char>>) {
    let fonts = match first_group(decl_pattern("font-family"@), d) {
        Some(v) => add_families(seq![], comma_parts(v)),
        None => seq![],
    };
    let names = match first_group(decl_pattern("animation-name"@), d) {
        Some(v) => add_anim_names(seq![], comma_parts(v)),
        None => seq![],
    };
    let names2 = match first_group(decl_pattern("animation"@), d) {
        Some(v) => if names.len() == 0 { add_shorthand_names(names, comma_parts(v)) } else { names },
        None => names,
    };
    (fonts, names2, var_refs(d))
}

/// Group 1 of the first match of `pattern` in `d`.
fn first_group_exec(pattern: &str, d: &str) -> (r: Option<String>)
    ensures
        opt_view(r) == first_group(pattern@, d@),
{
    match regex_captures(pattern, d) {
        Some(Some(g)) => {
            if 1 < g.len() {
                match &g[1] {
                    Some(v) => Some(v.clone()),
                    None => None,
                }
            } else {
                None
            }
        },
        _ => None,
    }
}

/// The comma-separated parts of `v`.
fn comma_parts_exec(v: &[char]) -> (r: Vec<Vec<char>>)
    ensures
        r@.map_values(|x: Vec<char>| x@) == comma_parts(v@),
{
    let mut out: Vec<Vec<char>> = Vec::new();
    let mut start: usize = 0;
    let mut j: usize = 0;
    while j < v.len()
        invariant
            start <= j <= v@.len(),
            out@.map_values(|x: Vec<char>| x@) + comma_parts_from(v@, start as int, j as int) == comma_parts(v@),
        decreases v@.len() - j,
    {
        if v[j] == ',' {
            let ghost before = out@.map_values(|x: Vec<char>| x@);
            let part = sub_chars(v, start, j);
            let ghost pv = part@;
            out.push(part);
            assert(out@.map_values(|x: Vec<char>| x@) =~= before.push(pv));
            start = j + 1;
        }
        j = j + 1;
    }
    let ghost before = out@.map_values(|x: Vec<char>| x@);
    let last = sub_chars(v, start, v.len());
    let ghost lv = last@;
    out.push(last);
    assert(out@.map_values(|x: Vec<char>| x@) =~= before.push(lv));
    out
}

/// `s` with leading and trailing `c` removed.
fn trim_char_exec(s: &str, c: char) -> (r: String)
    ensures
        r@ == trim_char(s@, c),
{
    let a = crate::text::trim_start_char_exec(s, c);
    crate::text::trim_end_char_exec(a.as_str(), c)
}

/// `s` in ASCII lowercase.
fn ascii_lower_exec(s: &str) -> (r: String)
    ensures
        r@ == ascii_lower(s@),
{
    let v = chars_of(s);
    let mut out: Vec<char> = Vec::new();
    let mut i: usize = 0;
    while i < v.len()
        invariant
            i <= v@.len(),
            out@ == ascii_lower(v@.subrange(0, i as int)),
        decreases v@.len() - i,
    {
        let c = v[i];
        let l = if 'A' <= c && c <= 'Z' { ((c as u32) + 32) as u8 as char } else { c };
        assert(l == lower_char(c)) by {
            if 'A' <= c && c <= 'Z' {
                assert(((c as u32) + 32) < 256);
            }
        }
        out.push(l);
        i = i + 1;
        assert(out@ =~= ascii_lower(v@.subrange(0, i as int)));
    }
    assert(v@.subrange(0, v@.len() as int) =~= v@);
    string_of(&out)
}

/// Add `x` to the name list unless present.
fn add_name(acc: &mut Vec<String>, x: String)
    ensures
        strs_view(final(acc)@) == set_add(strs_view(old(acc)@), x@),
{
    if !list_contains(acc.as_slice(), x.as_str()) {
        let ghost before = strs_view(acc@);
        let ghost xv = x@;
        acc.push(x);
        assert(strs_view(acc@) =~= before.push(xv));
    }
}

/// Check if a font family name is a generic CSS family keyword.
pub fn is_generic_font_family(name: &str) -> (r: bool)
    ensures
        r == generic_family(name@),
{
    let l = lowercase_of(name);
    let list: Vec<String> = vec![
        owned("serif"), owned("sans-serif"), owned("monospace"), owned("cursive"), owned("fantasy"),
        owned("system-ui"), owned("ui-serif"), owned("ui-sans-serif"), owned("ui-monospace"), owned("ui-rounded"),
        owned("emoji"), owned("math"), owned("fangsong"), owned("inherit"), owned("initial"), owned("unset"),
        owned("revert"),
    ];
    assert(strs_view(list@) =~= generic_families());
    list_contains(list.as_slice(), l.as_str())
}

/// The tokens of `v` separated by whitespace.
fn ws_tokens_exec(v: &[char]) -> (r: Vec<Vec<char>>)
    ensures
        r@.map_values(|x: Vec<char>| x@) == ws_tokens(v@),
{
    let mut out: Vec<Vec<char>> = Vec::new();
    let mut cur: Vec<char> = Vec::new();
    let mut j: usize = 0;
    while j < v.len()
        invariant
            j <= v@.len(),
            out@.map_values(|x: Vec<char>| x@) + ws_tokens_from(v@, j as int, cur@) == ws_tokens(v@),
        decreases v@.len() - j,
    {
        let ghost before = out@.map_values(|x: Vec<char>| x@);
        let ghost c0 = cur@;
        if is_ws_exec(v[j]) {
            if cur.len() > 0 {
                let t = cur;
                out.push(t);
                cur = Vec::new();
                assert(out@.map_values(|x: Vec<char>| x@) =~= before.push(c0));
            } else {
                assert(cur@ =~= Seq::<char>::empty());
                assert(out@.map_values(|x: Vec<char>| x@) =~= before);
            }
            assert(out@.map_values(|x: Vec<char>| x@) + ws_tokens_from(v@, j + 1, cur@) =~= before + ws_tokens_from(v@, j as int, c0));
        } else {
            cur.push(v[j]);
        }
        j = j + 1;
    }
    let ghost before = out@.map_values(|x: Vec<char>| x@);
    if cur.len() > 0 {
        let ghost c0 = cur@;
        out.push(cur);
        assert(out@.map_values(|x: Vec<char>| x@) =~= before.push(c0));
    } else {
        assert(out@.map_values(|x: Vec<char>| x@) + Seq::<Seq<char>>::empty() =~= before);
    }
    out
}

/// The length of the run of ASCII digits of `b` from `j` on.
fn digit_run(b: &[char], j: usize) -> (n: usize)
    ensures
        n == run_len(b@, j as int, |c: char| is_digit(c)),
        n == 0 || j + n <= b@.len(),
{
    let mut k = j;
    while k < b.len() && '0' <= b[k] && b[k] <= '9'
        invariant
            j <= k,
            k <= b@.len() || k == j,
            run_len(b@, j as int, |c: char| is_digit(c)) == (k - j) + run_len(b@, k as int, |c: char| is_digit(c)),
        decreases b@.len() - k,
    {
        k = k + 1;
    }
    k - j
}

/// Whether `t` has the syntax of an `f64`.
fn is_float_syntax(t: &[char]) -> (r: bool)
    ensures
        r == float_syntax(t@),
{
    let start: usize = if t.len() > 0 && (t[0] == '+' || t[0] == '-') { 1 } else { 0 };
    let b = sub_chars(t, start, t.len());
    assert(b@ == (if t@.len() > 0 && (t@[0] == '+' || t@[0] == '-') { t@.skip(1) } else { t@ }));
    let bs = string_of(&b);
    let l = ascii_lower_exec(bs.as_str());
    if str_eq(l.as_str(), "inf") || str_eq(l.as_str(), "infinity") || str_eq(l.as_str(), "nan") {
        return true;
    }
    let m = digit_run(&b, 0);
    let (frac_end, digits) = if m < b.len() && b[m] == '.' {
        let f = digit_run(&b, m + 1);
        (m + 1 + f, m + f)
    } else {
        (m, m)
    };
    if digits == 0 {
        return false;
    }
    if frac_end == b.len() {
        return true;
    }
    if !(frac_end < b.len() && (b[frac_end] == 'e' || b[frac_end] == 'E')) {
        return false;
    }
    let e = frac_end + 1;
    let e2 = if e < b.len() && (b[e] == '+' || b[e] == '-') { e + 1 } else { e };
    let k = digit_run(&b, e2);
    k > 0 && e2 + k == b.len()
}

/// Whether `t` has an ASCII digit.
fn has_digit(t: &[char]) -> (r: bool)
    ensures
        r == exists|i: int| 0 <= i < t@.len() && is_digit(#[trigger] t@[i]),
{
    let mut i: usize = 0;
    while i < t.len()
        invariant
            i <= t@.len(),
            forall|j: int| 0 <= j < i ==> !is_digit(#[trigger] t@[j]),
        decreases t@.len() - i,
    {
        if '0' <= t[i] && t[i] <= '9' {
            assert(is_digit(t@[i as int]));
            return true;
        }
        i = i + 1;
    }
    false
}

/// Whether `t` is a number with a digit.
fn is_numeric(t: &[char]) -> (r: bool)
    ensures
        r == numeric(t@),
{
    is_float_syntax(t) && has_digit(t)
}

/// Whether `t` is a duration.
fn is_duration_exec(t: &[char]) -> (r: bool)
    ensures
        r == is_duration(t@),
{
    let s = string_of(t);
    proof {
        reveal_strlit("ms");
        reveal_strlit("s");
    }
    let n = t.len();
    let ms = ends_with(s.as_str(), "ms") && {
        let p = sub_chars(t, 0, n - 2);
        is_numeric(&p)
    };
    if ms {
        return true;
    }
    ends_with(s.as_str(), "s") && {
        let p = sub_chars(t, 0, n - 1);
        is_numeric(&p)
    }
}

/// Whether a shorthand token cannot be an animation name.
fn skip_token_exec(t: &[char]) -> (r: bool)
    ensures
        r == skip_token(t@),
{
    let s = string_of(t);
    if is_duration_exec(t) || is_float_syntax(t) {
        return true;
    }
    let l = lowercase_of(s.as_str());
    let list: Vec<String> = vec![
        owned("ease"), owned("ease-in"), owned("ease-out"), owned("ease-in-out"), owned("linear"),
        owned("step-start"), owned("step-end"), owned("infinite"), owned("none"), owned("normal"), owned("reverse"),
        owned("alternate"), owned("alternate-reverse"), owned("forwards"), owned("backwards"), owned("both"),
        owned("running"), owned("paused"), owned("initial"), owned("inherit"), owned("unset"),
    ];
    assert(strs_view(list@) =~= timing_keywords());
    list_contains(list.as_slice(), l.as_str()) || starts_with(s.as_str(), "cubic-bezier") || starts_with(s.as_str(), "steps(")
}

/// Add the animation names of an `animation` shorthand value to `names`:
/// per comma-separated animation, the first token that is not a
/// duration, a number, a timing keyword or a timing function.
pub fn extract_animation_names_from_shorthand(value: &str, names: &mut Vec<String>)
    ensures
        strs_view(final(names)@) == add_shorthand_names(strs_view(old(names)@), comma_parts(value@)),
{
    let v = chars_of(value);
    let parts = comma_parts_exec(&v);
    let ghost pv = parts@.map_values(|x: Vec<char>| x@);
    let ghost start = strs_view(names@);
    let mut i: usize = 0;
    while i < parts.len()
        invariant
            i <= parts@.len(),
            pv == parts@.map_values(|x: Vec<char>| x@),
            strs_view(names@) == add_shorthand_names(start, pv.subrange(0, i as int)),
        decreases parts@.len() - i,
    {
        assert(pv.subrange(0, i + 1).drop_last() =~= pv.subrange(0, i as int));
        assert(pv.subrange(0, i + 1).last() == parts@[i as int]@);
        let tokens = ws_tokens_exec(&parts[i]);
        let ghost tv = tokens@.map_values(|x: Vec<char>| x@);
        let mut j: usize = 0;
        let mut found: Option<usize> = None;
        assert(tv.skip(0) =~= tv);
        while j < tokens.len()
            invariant_except_break
                found is None,
            invariant
                j <= tokens@.len(),
                tv == tokens@.map_values(|x: Vec<char>| x@),
                first_name_token(tv) == first_name_token(tv.skip(j as int)),
            ensures
                match found {
                    Some(k) => k < tokens@.len() && first_name_token(tv) == Some(tv[k as int]),
                    None => first_name_token(tv) is None,
                },
            decreases tokens@.len() - j,
        {
            let tok = &tokens[j];
            assert(tv.skip(j as int)[0] == tok@);
            assert(tv.skip(j as int).skip(1) =~= tv.skip(j + 1));
            if !skip_token_exec(tok) && tok.len() > 0 {
                found = Some(j);
                break;
            } else {
                j = j + 1;
            }
            proof {
                if j >= tokens@.len() {
                    assert(tv.skip(j as int) =~= Seq::<Seq<char>>::empty());
                }
            }
        }
        match found {
            Some(k) => {
                add_name(names, string_of(&tokens[k]));
            },
            None => {},
        }
        i = i + 1;
    }
    assert(pv.subrange(0, pv.len() as int) =~= pv);
}

/// Add the custom properties referenced through `var()` in `d`.
fn var_refs_exec(d: &str, names: &mut Vec<String>)
    requires
        old(names)@.len() == 0,
    ensures
        strs_view(final(names)@) == var_refs(d@),
{
    let caps = match regex_captures_all("var\\(\\s*(--[a-zA-Z0-9_-]+)", d) {
        Some(c) => c,
        None => {
            assert(strs_view(names@) =~= Seq::<Seq<char>>::empty());
            return;
        },
    };
    let ghost cv = groups_view(caps@);
    let mut i: usize = 0;
    assert(strs_view(names@) =~= Seq::<Seq<char>>::empty());
    while i < caps.len()
        invariant
            i <= caps@.len(),
            cv == groups_view(caps@),
            cv == regex_all_capture_groups(var_pattern(), d@),
            regex_compiles(var_pattern()),
            strs_view(names@) == add_group_names(seq![], cv.subrange(0, i as int)),
        decreases caps@.len() - i,
    {
        assert(cv.subrange(0, i + 1).drop_last() =~= cv.subrange(0, i as int));
        assert(cv.subrange(0, i + 1).last() == opt_strs_view(caps@[i as int]@));
        let g = &caps[i];
        if 1 < g.len() {
            match &g[1] {
                Some(n) => add_name(names, n.clone()),
                None => {},
            }
        }
        i = i + 1;
    }
    assert(cv.subrange(0, caps@.len() as int) =~= cv);
}

/// Scan a declaration block for references to font families, animation
/// names and custom properties.
pub fn collect_global_deps(declarations: &str) -> (r: GlobalDependencies)
    ensures
        (strs_view(r.font_families@), strs_view(r.animation_names@), strs_view(r.custom_properties@)) == global_deps_of(
            declarations@,
        ),
{
    proof {
        reveal_strlit("(?i)font-family\\s*:\\s*([^;]+)");
        reveal_strlit("(?i)animation-name\\s*:\\s*([^;]+)");
        reveal_strlit("(?i)animation\\s*:\\s*([^;]+)");
        reveal_strlit("(?i)");
        reveal_strlit("font-family");
        reveal_strlit("animation-name");
        reveal_strlit("animation");
        reveal_strlit("\\s*:\\s*([^;]+)");
        assert("(?i)font-family\\s*:\\s*([^;]+)"@ =~= decl_pattern("font-family"@));
        assert("(?i)animation-name\\s*:\\s*([^;]+)"@ =~= decl_pattern("animation-name"@));
        assert("(?i)animation\\s*:\\s*([^;]+)"@ =~= decl_pattern("animation"@));
    }
    let mut fonts: Vec<String> = Vec::new();
    let mut anims: Vec<String> = Vec::new();
    let mut props: Vec<String> = Vec::new();
    assert(strs_view(fonts@) =~= Seq::<Seq<char>>::empty());
    assert(strs_view(anims@) =~= Seq::<Seq<char>>::empty());
    assert(strs_view(props@) =~= Seq::<Seq<char>>::empty());
    match first_group_exec("(?i)font-family\\s*:\\s*([^;]+)", declarations) {
        Some(val_s) => {
            let val = chars_of(val_s.as_str());
            let parts = comma_parts_exec(&val);
            let ghost pv = parts@.map_values(|x: Vec<char>| x@);
            let mut i: usize = 0;
            while i < parts.len()
                invariant
                    i <= parts@.len(),
                    pv == parts@.map_values(|x: Vec<char>| x@),
                    strs_view(fonts@) == add_families(seq![], pv.subrange(0, i as int)),
                decreases parts@.len() - i,
            {
                assert(pv.subrange(0, i + 1).drop_last() =~= pv.subrange(0, i as int));
                assert(pv.subrange(0, i + 1).last() == parts@[i as int]@);
                let p = string_of(&parts[i]);
                let t1 = crate::text::trim_exec(p.as_str());
                let t2 = trim_char_exec(t1.as_str(), '"');
                let t3 = trim_char_exec(t2.as_str(), '\'');
                let name = crate::text::trim_exec(t3.as_str());
                if !name.as_str().is_empty() && !is_generic_font_family(name.as_str()) {
                    add_name(&mut fonts, name);
                }
                i = i + 1;
            }
            assert(pv.subrange(0, pv.len() as int) =~= pv);
        },
        None => {},
    }
    assert(strs_view(fonts@) == global_deps_of(declarations@).0);
    match first_group_exec("(?i)animation-name\\s*:\\s*([^;]+)", declarations) {
        Some(val_s) => {
            let val = chars_of(val_s.as_str());
            let parts = comma_parts_exec(&val);
            let ghost pv = parts@.map_values(|x: Vec<char>| x@);
            let mut i: usize = 0;
            while i < parts.len()
                invariant
                    i <= parts@.len(),
                    pv == parts@.map_values(|x: Vec<char>| x@),
                    strs_view(anims@) == add_anim_names(seq![], pv.subrange(0, i as int)),
                decreases parts@.len() - i,
            {
                assert(pv.subrange(0, i + 1).drop_last() =~= pv.subrange(0, i as int));
                assert(pv.subrange(0, i + 1).last() == parts@[i as int]@);
                let p = string_of(&parts[i]);
                let name = crate::text::trim_exec(p.as_str());
                if !name.as_str().is_empty() && !str_eq(name.as_str(), "none") && !str_eq(name.as_str(), "initial")
                    && !str_eq(name.as_str(), "inherit") {
                    add_name(&mut anims, name);
                }
                i = i + 1;
            }
            assert(pv.subrange(0, pv.len() as int) =~= pv);
        },
        None => {},
    }
    let ghost names1 = strs_view(anims@);
    match first_group_exec("(?i)animation\\s*:\\s*([^;]+)", declarations) {
        Some(val_s) => {
            if anims.len() == 0 {
                extract_animation_names_from_shorthand(val_s.as_str(), &mut anims);
            }
        },
        None => {},
    }
    assert(strs_view(anims@) == global_deps_of(declarations@).1);
    var_refs_exec(declarations, &mut props);
    assert(strs_view(props@) == global_deps_of(declarations@).2);
    GlobalDependencies { font_families: fonts, animation_names: anims, custom_properties: props }
}

// ---------------------------------------------------------------------------
// Matching selectors against a page
// ---------------------------------------------------------------------------

/// An HTML document parsed by `scraper`.
#[verifier::external_type_specification]
#[verifier::external_body]
pub struct ExHtml(scraper::Html);

/// A page parsed for selector matching, together with its source text.
/// The tree is only ever built from the source, by `HtmlDocument::parse`.
pub struct HtmlDocument {
    source: String,
    dom: scraper::Html,
}

/// The source text of a parsed page.
pub closed spec fn html_source(d: HtmlDocument) -> Seq<char> {
    d.source@
}

/// Parse an HTML document.
///
/// Trusted: calls `scraper::Html::parse_document`, which accepts any text.
#[verifier::external_body]
fn parse_dom(source: &str) -> scraper::Html {
    scraper::Html::parse_document(source)
}

impl HtmlDocument {
    /// Parse a page for selector matching.
    pub fn parse(source: &str) -> (r: HtmlDocument)
        ensures
            html_source(r) == source@,
    {
        HtmlDocument { source: owned(source), dom: parse_dom(source) }
    }
}

/// Whether `scraper::Selector::parse` accepts a selector.
pub uninterp spec fn selector_valid(sel: Seq<char>) -> bool;

/// Whether some element of the document `scraper` parses from `html`
/// matches the selector `sel`.
pub uninterp spec fn selector_in_html(sel: Seq<char>, html: Seq<char>) -> bool;

/// Whether a selector matches an element of a page; `None` when the
/// selector does not parse.
///
/// Trusted: calls `scraper::Selector::parse` and, when it succeeds,
/// `Html::select(..).next().is_some()` on the page's tree, which was
/// parsed from the page's source.
#[verifier::external_body]
fn select_any(selector: &str, document: &HtmlDocument) -> (r: Option<bool>)
    ensures
        r is Some <==> selector_valid(selector@),
        r matches Some(b) ==> b == selector_in_html(selector@, html_source(*document)),
{
    match scraper::Selector::parse(selector) {
        Ok(sel) => Some(document.dom.select(&sel).next().is_some()),
        Err(_) => None,
    }
}

/// Whether a selector counts as matching a page: it matches an element,
/// or it cannot be parsed (such a rule is kept rather than risk dropping
/// it).
pub open spec fn selector_hits(sel: Seq<char>, html: Seq<char>) -> bool {
    !selector_valid(sel) || selector_in_html(sel, html)
}

/// Test whether a CSS selector matches any element of the page; a
/// selector that cannot be parsed counts as matching.
pub fn selector_matches(selector: &str, document: &HtmlDocument) -> (r: bool)
    ensures
        r == selector_hits(selector@, html_source(*document)),
{
    match select_any(selector, document) {
        Some(b) => b,
        None => true,
    }
}

/// The critical CSS of a page: the rules of `css` that the page uses (see
/// `crate::build::css_rules::rule_step`), one per line, with the
/// `@font-face`, `@keyframes` and custom property rules they refer to
/// first; empty when no style rule matches. Fails when the stylesheet
/// cannot be parsed.
pub fn extract_critical_css(css: &str, document: &HtmlDocument) -> (r: Result<String, String>)
    ensures
        match crate::build::css_rules::stylesheet_rules(css@, false) {
            None => r is Err,
            Some(rules) => r matches Ok(t) && t@ == crate::build::css_rules::kept_css(
                crate::build::css_rules::walk_rules_spec(rules, seq![html_source(*document)], crate::build::css_rules::empty_walk()),
            ),
        },
{
    let docs = vec![document];
    assert(crate::build::css_rules::docs_view(docs@) =~= seq![html_source(*document)]);
    match crate::build::css_rules::keep_used_rules(css, docs.as_slice(), false) {
        Ok(t) => Ok(t),
        Err(e) => {
            let mut m = owned("CSS parse error: ");
            m.append(e.as_str());
            Err(m)
        },
    }
}

} // verus!


