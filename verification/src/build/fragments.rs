//! Fragment extraction from rendered HTML.
//!
//! After rendering a full page, the content between the injected
//! `<!--FRAG:name:START-->` and `<!--FRAG:name:END-->` markers is
//! extracted and written as standalone HTML fragments for HTMX partial
//! loading. The markers are stripped from the full page output.
//!
//! A marker is `<!--FRAG:`, a non-empty run of regex word characters
//! (`\w`), `:`, `START` or `END`, and `-->`. Markers are found left to
//! right without overlap, as a regex search would find them.

use vstd::prelude::*;
use crate::text::{
    chars_of, find_from, find_from_exec, has_suffix, ends_with, occurs_at, occurs_at_exec, owned, push_chars,
    string_of, sub_chars, trim_start_char, trim_start_char_exec, trim_ws_start, trim_start_exec,
};

verus! {

/// A single extracted fragment.
pub struct Fragment {
    /// The block name, e.g. `"content"`.
    pub block_name: String,
    /// The HTML content between the markers.
    pub html: String,
}

// ---------------------------------------------------------------------------
// Marker grammar
// ---------------------------------------------------------------------------

/// Whether `c` is a word character of the regex syntax (`\w`).
pub uninterp spec fn regex_word_char(c: char) -> bool;

/// Whether `c` is a word character (`\w`) of the `regex` crate.
///
/// Trusted: matches the one-character string `c` against the `regex`
/// pattern `^\w$`; the answer is named, not stated.
#[verifier::external_body]
fn is_word_char(c: char) -> (r: bool)
    ensures
        r == regex_word_char(c),
{
    let mut buf = [0u8; 4];
    match regex::Regex::new(r"^\w$") {
        Ok(re) => re.is_match(c.encode_utf8(&mut buf)),
        Err(_) => false,
    }
}

/// The opening of every marker.
pub open spec fn marker_open() -> Seq<char> {
    "<!--FRAG:"@
}

/// The close of a start marker after the block name.
pub open spec fn start_close() -> Seq<char> {
    ":START-->"@
}

/// The close of an end marker after the block name.
pub open spec fn end_close() -> Seq<char> {
    ":END-->"@
}

/// The number of word characters in `s` from position `j` on.
pub open spec fn word_run(s: Seq<char>, j: int) -> nat
    decreases s.len() - j,
{
    if j < 0 || j >= s.len() || !regex_word_char(s[j]) {
        0
    } else {
        1 + word_run(s, j + 1)
    }
}

/// The length of the name of a marker opening at `i` whose close is
/// `close`, if one opens there.
pub open spec fn marker_name_len(s: Seq<char>, i: int, close: Seq<char>) -> Option<nat> {
    let n = word_run(s, i + 9);
    if occurs_at(s, marker_open(), i) && n > 0 && occurs_at(s, close, i + 9 + n) {
        Some(n)
    } else {
        None
    }
}

/// The start markers of `s` at or after `from`: their positions and block
/// names, left to right.
pub open spec fn start_markers(s: Seq<char>, from: int) -> Seq<(int, Seq<char>)>
    decreases (if from < s.len() { s.len() - from } else { 0 }),
{
    if from < 0 || from >= s.len() {
        seq![]
    } else {
        match marker_name_len(s, from, start_close()) {
            Some(n) => seq![(from, s.subrange(from + 9, from + 9 + n))] + start_markers(s, from + 18 + n),
            None => start_markers(s, from + 1),
        }
    }
}

/// `s[from..]` without its markers.
pub open spec fn stripped_from(s: Seq<char>, from: int) -> Seq<char>
    decreases (if from < s.len() { s.len() - from } else { 0 }),
{
    if from < 0 || from >= s.len() {
        seq![]
    } else {
        match marker_name_len(s, from, start_close()) {
            Some(n) => stripped_from(s, from + 18 + n),
            None => match marker_name_len(s, from, end_close()) {
                Some(n) => stripped_from(s, from + 16 + n),
                None => seq![s[from]] + stripped_from(s, from + 1),
            },
        }
    }
}

/// `s` without its markers.
pub open spec fn stripped(s: Seq<char>) -> Seq<char> {
    stripped_from(s, 0)
}

/// No start or end marker begins anywhere in `s`.
pub open spec fn marker_free(s: Seq<char>) -> bool {
    forall|i: int| #![trigger marker_name_len(s, i, start_close())] #![trigger marker_name_len(s, i, end_close())]
        marker_name_len(s, i, start_close()) is None && marker_name_len(s, i, end_close()) is None
}

/// The part of a marker-free text from `from` on is kept as it is.
proof fn lemma_stripped_from_free(s: Seq<char>, from: int)
    requires
        marker_free(s),
        0 <= from <= s.len(),
    ensures
        stripped_from(s, from) == s.subrange(from, s.len() as int),
    decreases s.len() - from,
{
    if from < s.len() {
        assert(marker_name_len(s, from, start_close()) is None);
        assert(marker_name_len(s, from, end_close()) is None);
        lemma_stripped_from_free(s, from + 1);
        assert(seq![s[from]] + s.subrange(from + 1, s.len() as int) =~= s.subrange(from, s.len() as int));
    } else {
        assert(s.subrange(from, s.len() as int) =~= Seq::<char>::empty());
    }
}

/// A page without fragment markers is served exactly as rendered:
/// stripping the markers leaves it unchanged.
pub proof fn law_strip_keeps_marker_free(s: Seq<char>)
    requires
        marker_free(s),
    ensures
        stripped(s) == s,
{
    lemma_stripped_from_free(s, 0);
    assert(s.subrange(0, s.len() as int) =~= s);
}

/// The text `stripped_from` makes of `s[from..]` is never longer, and is
/// as long only when no marker begins at or after `from`.
proof fn lemma_stripped_from_len(s: Seq<char>, from: int)
    requires
        0 <= from <= s.len(),
    ensures
        stripped_from(s, from).len() <= s.len() - from,
        stripped_from(s, from).len() == s.len() - from ==> forall|i: int|
            from <= i < s.len() ==> #[trigger] marker_name_len(s, i, start_close()) is None && marker_name_len(
                s,
                i,
                end_close(),
            ) is None,
    decreases s.len() - from,
{
    reveal_strlit(":START-->");
    reveal_strlit(":END-->");
    reveal_strlit("<!--FRAG:");
    if from < s.len() {
        match marker_name_len(s, from, start_close()) {
            Some(n) => {
                assert(occurs_at(s, start_close(), from + 9 + n));
                if from + 18 + n <= s.len() {
                    lemma_stripped_from_len(s, from + 18 + n);
                }
            },
            None => match marker_name_len(s, from, end_close()) {
                Some(n) => {
                    assert(occurs_at(s, end_close(), from + 9 + n));
                    if from + 16 + n <= s.len() {
                        lemma_stripped_from_len(s, from + 16 + n);
                    }
                },
                None => {
                    lemma_stripped_from_len(s, from + 1);
                },
            },
        }
    }
}

/// Stripping markers never lengthens a text, and keeps its length only
/// when it has no marker.
proof fn lemma_stripped_len(s: Seq<char>)
    ensures
        stripped(s).len() <= s.len(),
        stripped(s).len() == s.len() ==> marker_free(s),
{
    lemma_stripped_from_len(s, 0);
    if stripped(s).len() == s.len() {
        assert forall|i: int| #![trigger marker_name_len(s, i, start_close())] #![trigger marker_name_len(s, i, end_close())]
            marker_name_len(s, i, start_close()) is None && marker_name_len(s, i, end_close()) is None by {
            if !(0 <= i < s.len()) {
                reveal_strlit("<!--FRAG:");
            }
        }
    }
}

/// `s` with markers stripped until none is left: stripping can join the
/// pieces around a marker into a new one, which is stripped in turn.
pub open spec fn strip_all(s: Seq<char>) -> Seq<char>
    decreases s.len(),
{
    let t = stripped(s);
    if t.len() >= s.len() {
        t
    } else {
        strip_all(t)
    }
}

/// Markers never appear in what the stripping serves: the result of
/// `strip_all` has no marker, and a text without markers is kept as it is.
pub proof fn law_strip_all_marker_free(s: Seq<char>)
    ensures
        marker_free(strip_all(s)),
        marker_free(s) ==> strip_all(s) == s,
    decreases s.len(),
{
    lemma_stripped_len(s);
    let t = stripped(s);
    if t.len() >= s.len() {
        law_strip_keeps_marker_free(s);
    } else {
        law_strip_all_marker_free(t);
        if marker_free(s) {
            law_strip_keeps_marker_free(s);
        }
    }
}

/// The end marker of a block.
pub open spec fn end_marker(name: Seq<char>) -> Seq<char> {
    marker_open() + name + end_close()
}

/// The fragments of `s` for the start markers `ms`: each start marker
/// whose end marker follows it, with the content in between (markers
/// stripped).
pub open spec fn fragments_for(s: Seq<char>, ms: Seq<(int, Seq<char>)>) -> Seq<(Seq<char>, Seq<char>)>
    decreases ms.len(),
{
    if ms.len() == 0 {
        seq![]
    } else {
        let (start, name) = ms.last();
        let content_start = start + 18 + name.len();
        let rest = fragments_for(s, ms.drop_last());
        match find_from(s, end_marker(name), content_start) {
            Some(p) => rest.push((name, strip_all(s.subrange(content_start, p)))),
            None => rest,
        }
    }
}

/// The views of a list of fragments: block name and HTML.
pub open spec fn fragments_view(v: Seq<Fragment>) -> Seq<(Seq<char>, Seq<char>)> {
    v.map_values(|f: Fragment| (f.block_name@, f.html@))
}

// ---------------------------------------------------------------------------
// Scanning
// ---------------------------------------------------------------------------

/// The number of word characters of `v` from `j` on.
fn word_run_exec(v: &[char], j: usize) -> (n: usize)
    ensures
        n == word_run(v@, j as int),
        j + n <= v@.len() || n == 0,
{
    let mut k = j;
    while k < v.len() && is_word_char(v[k])
        invariant
            j <= k,
            k <= v@.len() || k == j,
            word_run(v@, j as int) == (k - j) + word_run(v@, k as int),
        decreases v@.len() - k,
    {
        k = k + 1;
    }
    k - j
}

/// The length of the name of a marker at `i` with close `close`.
fn marker_name_len_exec(v: &[char], i: usize, close: &[char]) -> (r: Option<usize>)
    requires
        i < v@.len(),
    ensures
        match r {
            Some(n) => marker_name_len(v@, i as int, close@) == Some(n as nat) && i + 9 + n + close@.len() <= v@.len(),
            None => marker_name_len(v@, i as int, close@) is None,
        },
{
    let open = chars_of("<!--FRAG:");
    proof {
        reveal_strlit("<!--FRAG:");
    }
    assert(open@.len() == 9);
    let len = v.len();
    if !occurs_at_exec(v, &open, i) {
        return None;
    }
    let n = word_run_exec(v, i + 9);
    if n > 0 && occurs_at_exec(v, close, i + 9 + n) {
        Some(n)
    } else {
        None
    }
}

/// The start markers of `v` at or after `from`.
fn start_markers_exec(v: &[char]) -> (r: Vec<(usize, Vec<char>)>)
    ensures
        r@.map_values(|m: (usize, Vec<char>)| (m.0 as int, m.1@)) == start_markers(v@, 0),
{
    let close = chars_of(":START-->");
    proof {
        reveal_strlit(":START-->");
    }
    assert(close@.len() == 9);
    let mut out: Vec<(usize, Vec<char>)> = Vec::new();
    let mut i: usize = 0;
    while i < v.len()
        invariant
            close@ == start_close(),
            close@.len() == 9,
            out@.map_values(|m: (usize, Vec<char>)| (m.0 as int, m.1@)) + start_markers(v@, i as int) == start_markers(v@, 0),
        decreases v@.len() - i,
    {
        let ghost before = out@.map_values(|m: (usize, Vec<char>)| (m.0 as int, m.1@));
        match marker_name_len_exec(v, i, &close) {
            Some(n) => {
                let name = sub_chars(v, i + 9, i + 9 + n);
                out.push((i, name));
                assert(out@.map_values(|m: (usize, Vec<char>)| (m.0 as int, m.1@)) =~= before.push((i as int, v@.subrange(i + 9, i + 9 + n))));
                assert(start_markers(v@, i as int) == seq![(i as int, v@.subrange(i + 9, i + 9 + n))] + start_markers(v@, i + 18 + n));
                i = i + 18 + n;
            },
            None => {
                i = i + 1;
            },
        }
    }
    assert(start_markers(v@, i as int) =~= Seq::<(int, Seq<char>)>::empty());
    out
}

/// `v[from..]` without its markers.
fn strip_exec(v: &[char]) -> (r: Vec<char>)
    ensures
        r@ == stripped(v@),
{
    let start_c = chars_of(":START-->");
    let end_c = chars_of(":END-->");
    proof {
        reveal_strlit(":START-->");
        reveal_strlit(":END-->");
    }
    assert(start_c@.len() == 9);
    assert(end_c@.len() == 7);
    let mut out: Vec<char> = Vec::new();
    let mut i: usize = 0;
    while i < v.len()
        invariant
            start_c@ == start_close(),
            end_c@ == end_close(),
            start_c@.len() == 9,
            end_c@.len() == 7,
            out@ + stripped_from(v@, i as int) == stripped(v@),
        decreases v@.len() - i,
    {
        match marker_name_len_exec(v, i, &start_c) {
            Some(n) => {
                i = i + 18 + n;
            },
            None => match marker_name_len_exec(v, i, &end_c) {
                Some(n) => {
                    i = i + 16 + n;
                },
                None => {
                    let ghost before = out@;
                    out.push(v[i]);
                    assert(out@ + stripped_from(v@, i + 1) =~= before + stripped_from(v@, i as int));
                    i = i + 1;
                },
            },
        }
    }
    assert(out@ + Seq::<char>::empty() =~= out@);
    out
}

// ---------------------------------------------------------------------------
// Public operations
// ---------------------------------------------------------------------------

/// Extract all fragments from rendered HTML: for each
/// `<!--FRAG:name:START-->` marker whose `<!--FRAG:name:END-->` follows it,
/// the content in between, with nested markers stripped.
pub fn extract_fragments(html: &str) -> (r: Vec<Fragment>)
    ensures
        fragments_view(r@) == fragments_for(html@, start_markers(html@, 0)),
{
    let v = chars_of(html);
    let vlen = v.len();
    let ms = start_markers_exec(&v);
    let ghost msv = ms@.map_values(|m: (usize, Vec<char>)| (m.0 as int, m.1@));
    let end_c = chars_of(":END-->");
    let open = chars_of("<!--FRAG:");
    proof {
        reveal_strlit(":END-->");
        reveal_strlit("<!--FRAG:");
    }
    let mut fragments: Vec<Fragment> = Vec::new();
    let mut k: usize = 0;
    while k < ms.len()
        invariant
            k <= ms@.len(),
            v@ == html@,
            vlen == v@.len(),
            msv == ms@.map_values(|m: (usize, Vec<char>)| (m.0 as int, m.1@)),
            msv == start_markers(html@, 0),
            end_c@ == end_close(),
            open@ == marker_open(),
            fragments_view(fragments@) == fragments_for(html@, msv.subrange(0, k as int)),
        decreases ms@.len() - k,
    {
        let start = ms[k].0;
        let name: &Vec<char> = &ms[k].1;
        assert(msv.subrange(0, k + 1).drop_last() =~= msv.subrange(0, k as int));
        assert(msv.subrange(0, k + 1).last() == (start as int, name@));
        proof {
            lemma_marker_bounds(html@, 0, k as int);
        }
        let content_start = start + 18 + name.len();
        let mut marker = open.clone();
        let mut j: usize = 0;
        let ghost m0 = marker@;
        while j < name.len()
            invariant
                j <= name@.len(),
                marker@ == m0 + name@.subrange(0, j as int),
            decreases name@.len() - j,
        {
            marker.push(name[j]);
            j = j + 1;
            assert(marker@ =~= m0 + name@.subrange(0, j as int));
        }
        assert(name@.subrange(0, name@.len() as int) =~= name@);
        let ghost m1 = marker@;
        let mut j: usize = 0;
        while j < end_c.len()
            invariant
                j <= end_c@.len(),
                marker@ == m1 + end_c@.subrange(0, j as int),
            decreases end_c@.len() - j,
        {
            marker.push(end_c[j]);
            j = j + 1;
            assert(marker@ =~= m1 + end_c@.subrange(0, j as int));
        }
        assert(end_c@.subrange(0, end_c@.len() as int) =~= end_c@);
        assert(marker@ == end_marker(name@));
        let ghost before = fragments_view(fragments@);
        match find_from_exec(&v, &marker, content_start) {
            Some(p) => {
                proof {
                    crate::text::lemma_find_from_iff(v@, marker@, content_start as int);
                }
                let content = sub_chars(&v, content_start, p);
                let clean = strip_all_exec(&content);
                let f = Fragment { block_name: string_of(name), html: string_of(&clean) };
                fragments.push(f);
                assert(fragments_view(fragments@) =~= before.push((name@, strip_all(v@.subrange(content_start as int, p as int)))));
            },
            None => {},
        }
        k = k + 1;
    }
    assert(msv.subrange(0, msv.len() as int) =~= msv);
    fragments
}

/// Every start marker found lies inside the text, with its name.
proof fn lemma_marker_bounds(s: Seq<char>, from: int, k: int)
    requires
        0 <= from,
        0 <= k < start_markers(s, from).len(),
    ensures
        from <= start_markers(s, from)[k].0,
        start_markers(s, from)[k].0 + 18 + start_markers(s, from)[k].1.len() <= s.len(),
    decreases (if from < s.len() { s.len() - from } else { 0 }),
{
    reveal_strlit(":START-->");
    if from < s.len() {
        match marker_name_len(s, from, start_close()) {
            Some(n) => {
                if k > 0 {
                    lemma_marker_bounds(s, from + 18 + n, k - 1);
                }
            },
            None => {
                lemma_marker_bounds(s, from + 1, k);
            },
        }
    }
}

/// Strip markers until none is left.
fn strip_all_exec(v: &[char]) -> (r: Vec<char>)
    ensures
        r@ == strip_all(v@),
{
    let mut cur = strip_exec(v);
    let ghost start = v@;
    let mut prev_len = v.len();
    proof {
        lemma_stripped_len(v@);
    }
    while cur.len() < prev_len
        invariant
            cur@.len() <= prev_len,
            prev_len <= start.len(),
            strip_all(start) == (if cur@.len() >= prev_len { cur@ } else { strip_all(cur@) }),
        decreases prev_len,
    {
        let next = strip_exec(&cur);
        proof {
            lemma_stripped_len(cur@);
        }
        prev_len = cur.len();
        cur = next;
    }
    cur
}

/// Strip all fragment markers from the full page HTML, until none is
/// left (see `strip_all`).
pub fn strip_fragment_markers(html: &str) -> (r: String)
    ensures
        r@ == strip_all(html@),
{
    let v = chars_of(html);
    let w = strip_all_exec(&v);
    string_of(&w)
}

/// The block names of the start markers of `html` (before marker
/// stripping), left to right.
pub fn extract_block_names(html: &str) -> (r: Vec<String>)
    ensures
        crate::text::strs_view(r@) == start_markers(html@, 0).map_values(|m: (int, Seq<char>)| m.1),
{
    let v = chars_of(html);
    let ms = start_markers_exec(&v);
    let ghost msv = ms@.map_values(|m: (usize, Vec<char>)| (m.0 as int, m.1@));
    let mut names: Vec<String> = Vec::new();
    let mut k: usize = 0;
    while k < ms.len()
        invariant
            k <= ms@.len(),
            msv == ms@.map_values(|m: (usize, Vec<char>)| (m.0 as int, m.1@)),
            crate::text::strs_view(names@) == msv.subrange(0, k as int).map_values(|m: (int, Seq<char>)| m.1),
        decreases ms@.len() - k,
    {
        let ghost before = crate::text::strs_view(names@);
        let nm = string_of(&ms[k].1);
        let ghost nv = nm@;
        names.push(nm);
        assert(crate::text::strs_view(names@) =~= before.push(nv));
        k = k + 1;
        assert(crate::text::strs_view(names@) =~= msv.subrange(0, k as int).map_values(|m: (int, Seq<char>)| m.1));
    }
    assert(msv.subrange(0, msv.len() as int) =~= msv);
    names
}

// ---------------------------------------------------------------------------
// Output paths
// ---------------------------------------------------------------------------

/// `dir` joined with the relative path `p` (`Path::join`).
pub open spec fn path_join(dir: Seq<char>, p: Seq<char>) -> Seq<char> {
    if dir.len() == 0 {
        p
    } else if dir.last() == '/' {
        dir + p
    } else {
        dir + seq!['/'] + p
    }
}

/// The page path without leading slashes.
pub open spec fn page_clean(page: Seq<char>) -> Seq<char> {
    trim_start_char(page, '/')
}

/// The stem of a page output path: the directory of a clean URL
/// (`about/index.html`), else the file name without `.html`.
pub open spec fn page_stem(clean: Seq<char>) -> Seq<char> {
    if has_suffix(clean, "/index.html"@) {
        trim_index_suffix(clean)
    } else if has_suffix(clean, ".html"@) {
        clean.subrange(0, clean.len() - 5)
    } else {
        clean
    }
}

/// `s` with every trailing `/index.html` removed
/// (`trim_end_matches("/index.html")`).
pub open spec fn trim_index_suffix(s: Seq<char>) -> Seq<char>
    decreases s.len(),
{
    if s.len() >= 11 && has_suffix(s, "/index.html"@) {
        trim_index_suffix(s.subrange(0, s.len() - 11))
    } else {
        s
    }
}

/// The output path of a fragment file.
pub open spec fn fragment_path(page: Seq<char>, block: Seq<char>, content_block: Seq<char>, dir: Seq<char>) -> Seq<char> {
    if block == content_block {
        path_join(dir, page_clean(page))
    } else {
        path_join(dir, page_stem(page_clean(page)) + seq!['/'] + block + ".html"@)
    }
}

/// `dir` joined with `p`.
fn join_path(dir: &str, p: &str) -> (r: String)
    ensures
        r@ == path_join(dir@, p@),
{
    let d = chars_of(dir);
    let mut r = owned(dir);
    if d.len() > 0 && d[d.len() - 1] != '/' {
        crate::text::push_char(&mut r, '/');
    }
    r.append(p);
    r
}

/// `s` with every trailing `/index.html` removed.
fn trim_index_suffix_exec(s: &str) -> (r: String)
    ensures
        r@ == trim_index_suffix(s@),
{
    let v = chars_of(s);
    let suffix = chars_of("/index.html");
    proof {
        reveal_strlit("/index.html");
    }
    let mut n = v.len();
    assert(suffix@.len() == 11);
    assert(v@.subrange(0, n as int) =~= v@);
    while n >= 11 && occurs_at_exec(&v, &suffix, n - 11)
        invariant
            n <= v@.len(),
            suffix@ == "/index.html"@,
            suffix@.len() == 11,
            trim_index_suffix(v@) == trim_index_suffix(v@.subrange(0, n as int)),
        decreases n,
    {
        let ghost w = v@.subrange(0, n as int);
        assert(w.subrange(w.len() - 11, w.len() as int) =~= v@.subrange(n - 11, n as int));
        assert(w.subrange(0, w.len() - 11) =~= v@.subrange(0, n - 11));
        assert(has_suffix(w, "/index.html"@));
        n = n - 11;
    }
    let ghost w = v@.subrange(0, n as int);
    assert(n >= 11 ==> w.subrange(w.len() - 11, w.len() as int) =~= v@.subrange(n - 11, n as int));
    assert(!(n >= 11 && has_suffix(w, "/index.html"@)));
    let out = sub_chars(&v, 0, n);
    string_of(&out)
}

/// Compute the output path of a fragment file: the content block mirrors
/// the page path (`about.html` gives `_fragments/about.html`); another
/// block gets a subdirectory (`_fragments/about/sidebar.html`).
pub fn fragment_output_path(page_output_path: &str, block_name: &str, content_block: &str, fragment_dir: &str) -> (r: String)
    ensures
        r@ == fragment_path(page_output_path@, block_name@, content_block@, fragment_dir@),
{
    let clean = trim_start_char_exec(page_output_path, '/');
    if crate::text::str_eq(block_name, content_block) {
        return join_path(fragment_dir, clean.as_str());
    }
    let stem = if ends_with(clean.as_str(), "/index.html") {
        trim_index_suffix_exec(clean.as_str())
    } else if ends_with(clean.as_str(), ".html") {
        let v = chars_of(clean.as_str());
        proof {
            reveal_strlit(".html");
        }
        let w = sub_chars(&v, 0, v.len() - 5);
        string_of(&w)
    } else {
        clean.clone()
    };
    let mut rel = stem;
    crate::text::push_char(&mut rel, '/');
    rel.append(block_name);
    rel.append(".html");
    join_path(fragment_dir, rel.as_str())
}

// ---------------------------------------------------------------------------
// Out-of-band swaps
// ---------------------------------------------------------------------------

/// The attribute that marks an out-of-band swap.
pub open spec fn oob_attr() -> Seq<char> {
    " hx-swap-oob=\"outerHTML\""@
}

/// `html` with the out-of-band attribute inserted into its first tag:
/// leading whitespace is dropped and the attribute goes before the first
/// `>` (before `/>` for a self-closing tag); unchanged when there is no
/// `>`.
pub open spec fn with_oob_attr(html: Seq<char>) -> Seq<char> {
    let t = trim_ws_start(html);
    match find_from(t, seq!['>'], 0) {
        Some(pos) => {
            let at = if pos > 0 && t[pos - 1] == '/' { pos - 1 } else { pos };
            t.subrange(0, at) + oob_attr() + t.subrange(at, t.len() as int)
        },
        None => html,
    }
}

/// Inject `hx-swap-oob="outerHTML"` into the first HTML element of a
/// fragment.
pub fn inject_oob_attr(html: &str) -> (r: String)
    ensures
        r@ == with_oob_attr(html@),
{
    let trimmed = trim_start_exec(html);
    let t = chars_of(trimmed.as_str());
    let gt = vec!['>'];
    assert(gt@ =~= seq!['>']);
    match find_from_exec(&t, &gt, 0) {
        Some(pos) => {
            proof {
                crate::text::lemma_find_from_iff(t@, gt@, 0);
            }
            let at = if pos > 0 && t[pos - 1] == '/' { pos - 1 } else { pos };
            let head = sub_chars(&t, 0, at);
            let tail = sub_chars(&t, at, t.len());
            let mut r = string_of(&head);
            r.append(" hx-swap-oob=\"outerHTML\"");
            push_chars(&mut r, &tail);
            r
        },
        None => owned(html),
    }
}

/// Whether `name` is one of `names`.
fn name_listed(names: &[String], name: &String) -> (r: bool)
    ensures
        r == crate::text::strs_view(names@).contains(name@),
{
    crate::text::list_contains(names, name.as_str())
}

/// The HTML of the out-of-band fragments (those named in `oob`), each
/// with the out-of-band attribute, concatenated in order.
pub open spec fn oob_html(frags: Seq<(Seq<char>, Seq<char>)>, oob: Seq<Seq<char>>) -> Seq<char>
    decreases frags.len(),
{
    if frags.len() == 0 {
        seq![]
    } else {
        let (name, html) = frags.last();
        oob_html(frags.drop_last(), oob) + if oob.contains(name) { with_oob_attr(html) } else { seq![] }
    }
}

/// The fragment files of a page, in order: each fragment not named in
/// `oob` at its output path, the content block followed by the
/// out-of-band HTML.
pub open spec fn fragment_files_of(
    page: Seq<char>,
    frags: Seq<(Seq<char>, Seq<char>)>,
    content_block: Seq<char>,
    dir: Seq<char>,
    oob: Seq<Seq<char>>,
    all: Seq<(Seq<char>, Seq<char>)>,
) -> Seq<(Seq<char>, Seq<char>)>
    decreases frags.len(),
{
    if frags.len() == 0 {
        seq![]
    } else {
        let (name, html) = frags.last();
        let rest = fragment_files_of(page, frags.drop_last(), content_block, dir, oob, all);
        if oob.contains(name) {
            rest
        } else {
            let body = if name == content_block { html + oob_html(all, oob) } else { html };
            rest.push((fragment_path(page, name, content_block, dir), body))
        }
    }
}

/// The files to write for a page's fragments: (path relative to `dist/`,
/// HTML). Fragments named in `oob_blocks` are not written on their own:
/// they are appended to the content block's fragment with
/// `hx-swap-oob="outerHTML"` on their root element.
pub fn fragment_files(
    page_output_path: &str,
    fragments: &[Fragment],
    content_block: &str,
    fragment_dir: &str,
    oob_blocks: &[String],
) -> (r: Vec<(String, String)>)
    ensures
        r@.map_values(|p: (String, String)| (p.0@, p.1@)) == fragment_files_of(
            page_output_path@,
            fragments_view(fragments@),
            content_block@,
            fragment_dir@,
            crate::text::strs_view(oob_blocks@),
            fragments_view(fragments@),
        ),
{
    let ghost fv = fragments_view(fragments@);
    let ghost oob = crate::text::strs_view(oob_blocks@);
    let mut oob_text = String::new();
    let mut i: usize = 0;
    while i < fragments.len()
        invariant
            i <= fragments@.len(),
            fv == fragments_view(fragments@),
            oob == crate::text::strs_view(oob_blocks@),
            oob_text@ == oob_html(fv.subrange(0, i as int), oob),
        decreases fragments@.len() - i,
    {
        assert(fv.subrange(0, i + 1).drop_last() =~= fv.subrange(0, i as int));
        assert(fv.subrange(0, i + 1).last() == (fragments@[i as int].block_name@, fragments@[i as int].html@));
        if name_listed(oob_blocks, &fragments[i].block_name) {
            let s = inject_oob_attr(fragments[i].html.as_str());
            oob_text.append(s.as_str());
        }
        i = i + 1;
    }
    assert(fv.subrange(0, fv.len() as int) =~= fv);
    let mut files: Vec<(String, String)> = Vec::new();
    let mut i: usize = 0;
    while i < fragments.len()
        invariant
            i <= fragments@.len(),
            fv == fragments_view(fragments@),
            oob == crate::text::strs_view(oob_blocks@),
            oob_text@ == oob_html(fv, oob),
            files@.map_values(|p: (String, String)| (p.0@, p.1@)) == fragment_files_of(
                page_output_path@, fv.subrange(0, i as int), content_block@, fragment_dir@, oob, fv),
        decreases fragments@.len() - i,
    {
        let f = &fragments[i];
        assert(fv.subrange(0, i + 1).drop_last() =~= fv.subrange(0, i as int));
        assert(fv.subrange(0, i + 1).last() == (f.block_name@, f.html@));
        if !name_listed(oob_blocks, &f.block_name) {
            let ghost before = files@.map_values(|p: (String, String)| (p.0@, p.1@));
            let mut html = f.html.clone();
            if crate::text::str_eq(f.block_name.as_str(), content_block) {
                html.append(oob_text.as_str());
            }
            let path = fragment_output_path(page_output_path, f.block_name.as_str(), content_block, fragment_dir);
            let ghost hv = html@;
            let ghost pv = path@;
            files.push((path, html));
            assert(files@.map_values(|p: (String, String)| (p.0@, p.1@)) =~= before.push((pv, hv)));
        }
        i = i + 1;
    }
    assert(fv.subrange(0, fv.len() as int) =~= fv);
    files
}

} // verus!
