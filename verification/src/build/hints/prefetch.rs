//! Navigation prefetch: the local URLs a page links to (`hx-get` targets
//! with fragments, `<a href>` otherwise), without external, anchor-only,
//! self, excluded and repeated ones.

use vstd::prelude::*;
use crate::build::content_hash::{excluded_by, is_excluded};
use crate::html::{attr_of, get_attr, scan_tags, scanned_tags, tags_view, HtmlTag};
use crate::text::{
    concat2, has_prefix, has_suffix, list_contains, owned, starts_with, strs_view, trim_exec, trim_start_char,
    trim_start_char_exec, trim_ws,
};

verus! {

/// `url` normalised for comparison: trimmed, with a trailing `/` read as
/// `/index.html`.
pub open spec fn normalized_url(url: Seq<char>) -> Seq<char> {
    let u = trim_ws(url);
    if u == "/"@ || u.len() == 0 {
        "/index.html"@
    } else if has_suffix(u, "/"@) {
        u + "index.html"@
    } else {
        u
    }
}

/// Normalize a URL for comparison: treat a trailing `/` as `/index.html`.
pub fn normalize_url(url: &str) -> (r: String)
    ensures
        r@ == normalized_url(url@),
{
    let u = trim_exec(url);
    proof {
        reveal_strlit("/");
    }
    if crate::text::str_eq(u.as_str(), "/") || u.as_str().is_empty() {
        return owned("/index.html");
    }
    if crate::text::ends_with(u.as_str(), "/") {
        return concat2(u.as_str(), "index.html");
    }
    u
}

/// The URL of the page itself: its fragment path when fragments are on,
/// its normalised URL otherwise.
pub open spec fn self_url(current_url: Seq<char>, fragment_dir: Seq<char>, fragments_enabled: bool) -> Seq<char> {
    let n = normalized_url(current_url);
    if fragments_enabled {
        "/"@ + fragment_dir + "/"@ + trim_start_char(n, '/')
    } else {
        n
    }
}

/// Compute the URL that stands for "this page" in the self-reference
/// check.
pub fn compute_self_url(current_url: &str, fragment_dir: &str, fragments_enabled: bool) -> (r: String)
    ensures
        r@ == self_url(current_url@, fragment_dir@, fragments_enabled),
{
    let normalized = normalize_url(current_url);
    if fragments_enabled {
        let clean = trim_start_char_exec(normalized.as_str(), '/');
        let mut out = owned("/");
        out.append(fragment_dir);
        out.append("/");
        out.append(clean.as_str());
        out
    } else {
        normalized
    }
}

/// The `hx-get` values of the scanned tags, in document order.
pub open spec fn hx_get_values(tags: Seq<(Seq<char>, Seq<(Seq<char>, Seq<char>)>)>) -> Seq<Seq<char>>
    decreases tags.len(),
{
    if tags.len() == 0 {
        seq![]
    } else {
        let rest = hx_get_values(tags.drop_last());
        match attr_of(tags.last().1, "hx-get"@) {
            Some(v) => rest.push(v),
            None => rest,
        }
    }
}

/// The `href` values of the scanned links, skipping `target="_blank"`.
pub open spec fn href_values(tags: Seq<(Seq<char>, Seq<(Seq<char>, Seq<char>)>)>) -> Seq<Seq<char>>
    decreases tags.len(),
{
    if tags.len() == 0 {
        seq![]
    } else {
        let rest = href_values(tags.drop_last());
        let attrs = tags.last().1;
        if attr_of(attrs, "target"@) == Some("_blank"@) {
            rest
        } else {
            match attr_of(attrs, "href"@) {
                Some(v) => rest.push(v),
                None => rest,
            }
        }
    }
}

/// The values of attribute `name` of the tags, or the `href` values of the
/// links not opened in a new window.
fn attr_values(tags: &Vec<HtmlTag>, hx: bool) -> (r: Vec<String>)
    ensures
        strs_view(r@) == (if hx { hx_get_values(tags_view(tags@)) } else { href_values(tags_view(tags@)) }),
{
    let ghost tv = tags_view(tags@);
    let mut out: Vec<String> = Vec::new();
    let mut i: usize = 0;
    assert(strs_view(out@) =~= Seq::<Seq<char>>::empty());
    while i < tags.len()
        invariant
            i <= tags@.len(),
            tv == tags_view(tags@),
            strs_view(out@) == (if hx { hx_get_values(tv.subrange(0, i as int)) } else { href_values(tv.subrange(0, i as int)) }),
        decreases tags@.len() - i,
    {
        let ghost before = strs_view(out@);
        assert(tv.subrange(0, i + 1).drop_last() =~= tv.subrange(0, i as int));
        assert(tv.subrange(0, i + 1).last() == tv[i as int]);
        let attrs = &tags[i].attrs;
        if hx {
            match get_attr(attrs, "hx-get") {
                Some(v) => {
                    out.push(v.clone());
                    assert(strs_view(out@) =~= before.push(v@));
                },
                None => {},
            }
        } else {
            let blank = match get_attr(attrs, "target") {
                Some(t) => crate::text::str_eq(t.as_str(), "_blank"),
                None => false,
            };
            if !blank {
                match get_attr(attrs, "href") {
                    Some(v) => {
                        out.push(v.clone());
                        assert(strs_view(out@) =~= before.push(v@));
                    },
                    None => {},
                }
            }
        }
        i = i + 1;
    }
    assert(tv.subrange(0, tv.len() as int) =~= tv);
    out
}

/// The `hx-get` values of the elements that have one, in document order
/// (those found before a rewriter failure).
pub fn collect_hx_get_urls(html: &str) -> (r: Vec<String>)
    ensures
        strs_view(r@) == hx_get_values(scanned_tags(html@, "*[hx-get]"@).0),
{
    let (tags, _ok) = scan_tags(html, "*[hx-get]");
    attr_values(&tags, true)
}

/// The `href` values of the links, except those opened in a new window
/// (`target="_blank"`), in document order.
pub fn collect_href_urls(html: &str) -> (r: Vec<String>)
    ensures
        strs_view(r@) == href_values(scanned_tags(html@, "a[href]"@).0),
{
    let (tags, _ok) = scan_tags(html, "a[href]");
    attr_values(&tags, false)
}

/// Whether a link is worth prefetching, given those already kept: local,
/// not anchor-only, not empty, not the page itself, not excluded, and not
/// kept already.
pub open spec fn prefetch_keep(url: Seq<char>, self_u: Seq<char>, patterns: Seq<Seq<char>>, kept: Seq<Seq<char>>) -> bool {
    &&& !has_prefix(url, "http://"@)
    &&& !has_prefix(url, "https://"@)
    &&& !has_prefix(url, "#"@)
    &&& url.len() > 0
    &&& normalized_url(url) != self_u
    &&& !excluded_by(patterns, url, patterns.len() as int)
    &&& !kept.contains(url)
}

/// The URLs kept from `urls`, in order, at most `max`.
pub open spec fn prefetch_fold(urls: Seq<Seq<char>>, self_u: Seq<char>, patterns: Seq<Seq<char>>, max: nat) -> Seq<Seq<char>>
    decreases urls.len(),
{
    if urls.len() == 0 {
        seq![]
    } else {
        let kept = prefetch_fold(urls.drop_last(), self_u, patterns, max);
        if kept.len() < max && prefetch_keep(urls.last(), self_u, patterns, kept) {
            kept.push(urls.last())
        } else {
            kept
        }
    }
}

/// The candidate links of a page: `hx-get` targets with fragments, `<a
/// href>` values (not opened in a new window) otherwise.
pub open spec fn candidate_urls(html: Seq<char>, fragments_enabled: bool) -> Seq<Seq<char>> {
    if fragments_enabled {
        hx_get_values(scanned_tags(html, "*[hx-get]"@).0)
    } else {
        href_values(scanned_tags(html, "a[href]"@).0)
    }
}

/// The prefetch URLs of a page.
pub open spec fn prefetch_urls(
    html: Seq<char>,
    current_url: Seq<char>,
    fragment_dir: Seq<char>,
    fragments_enabled: bool,
    max: nat,
    patterns: Seq<Seq<char>>,
) -> Seq<Seq<char>> {
    if max == 0 {
        seq![]
    } else {
        prefetch_fold(candidate_urls(html, fragments_enabled), self_url(current_url, fragment_dir, fragments_enabled), patterns, max)
    }
}

/// Scan a page for the navigation URLs worth prefetching: `hx-get` values
/// when fragments are on, `<a href>` values otherwise; external,
/// anchor-only, empty, self, excluded (glob; invalid patterns skipped) and
/// repeated URLs are left out, and at most `max_prefetch` are returned in
/// document order.
pub fn collect_prefetch_urls(
    html: &str,
    current_url: &str,
    fragment_dir: &str,
    fragments_enabled: bool,
    max_prefetch: usize,
    exclude_patterns: &[String],
) -> (r: Vec<String>)
    ensures
        strs_view(r@) == prefetch_urls(html@, current_url@, fragment_dir@, fragments_enabled, max_prefetch as nat,
            strs_view(exclude_patterns@)),
{
    if max_prefetch == 0 {
        let v: Vec<String> = Vec::new();
        assert(strs_view(v@) =~= Seq::<Seq<char>>::empty());
        return v;
    }
    let self_u = compute_self_url(current_url, fragment_dir, fragments_enabled);
    let urls = if fragments_enabled {
        collect_hx_get_urls(html)
    } else {
        collect_href_urls(html)
    };
    let ghost uv = strs_view(urls@);
    let ghost ps = strs_view(exclude_patterns@);
    let mut result: Vec<String> = Vec::new();
    let mut i: usize = 0;
    assert(strs_view(result@) =~= Seq::<Seq<char>>::empty());
    while i < urls.len()
        invariant
            i <= urls@.len(),
            uv == strs_view(urls@),
            ps == strs_view(exclude_patterns@),
            strs_view(result@) == prefetch_fold(uv.subrange(0, i as int), self_u@, ps, max_prefetch as nat),
        decreases urls@.len() - i,
    {
        let ghost kept = strs_view(result@);
        assert(uv.subrange(0, i + 1).drop_last() =~= uv.subrange(0, i as int));
        assert(uv.subrange(0, i + 1).last() == urls@[i as int]@);
        let url = urls[i].as_str();
        if result.len() < max_prefetch {
            let keep = !starts_with(url, "http://") && !starts_with(url, "https://") && !starts_with(url, "#")
                && !url.is_empty() && !crate::text::str_eq(normalize_url(url).as_str(), self_u.as_str())
                && !is_excluded(url, exclude_patterns) && !list_contains(result.as_slice(), url);
            if keep {
                result.push(owned(url));
                assert(strs_view(result@) =~= kept.push(url@));
            }
        }
        i = i + 1;
    }
    assert(uv.subrange(0, uv.len() as int) =~= uv);
    result
}


/// Pushing an item not yet present keeps a list free of repeats.
proof fn lemma_push_new_distinct(s: Seq<Seq<char>>, x: Seq<char>)
    requires
        s.no_duplicates(),
        !s.contains(x),
    ensures
        s.push(x).no_duplicates(),
{
    assert forall|i: int, j: int| 0 <= i < s.push(x).len() && 0 <= j < s.push(x).len() && i != j implies s.push(x)[i]
        != s.push(x)[j] by {
        if i < s.len() && j < s.len() {
        } else if i < s.len() {
            assert(s.push(x)[i] == s[i]);
        } else {
            assert(s.push(x)[j] == s[j]);
        }
    }
}

/// The URLs kept from a list are at most `max` and free of repeats.
proof fn lemma_prefetch_fold(urls: Seq<Seq<char>>, self_u: Seq<char>, patterns: Seq<Seq<char>>, max: nat)
    ensures
        prefetch_fold(urls, self_u, patterns, max).len() <= max,
        prefetch_fold(urls, self_u, patterns, max).no_duplicates(),
    decreases urls.len(),
{
    if urls.len() > 0 {
        lemma_prefetch_fold(urls.drop_last(), self_u, patterns, max);
        let kept = prefetch_fold(urls.drop_last(), self_u, patterns, max);
        if kept.len() < max && prefetch_keep(urls.last(), self_u, patterns, kept) {
            lemma_push_new_distinct(kept, urls.last());
        }
    }
}

/// A page never gets more than `max_prefetch` prefetch URLs, and never the
/// same URL twice.
pub proof fn law_prefetch_bounded_distinct(
    html: Seq<char>,
    current_url: Seq<char>,
    fragment_dir: Seq<char>,
    fragments_enabled: bool,
    max: nat,
    patterns: Seq<Seq<char>>,
)
    ensures
        prefetch_urls(html, current_url, fragment_dir, fragments_enabled, max, patterns).len() <= max,
        prefetch_urls(html, current_url, fragment_dir, fragments_enabled, max, patterns).no_duplicates(),
{
    if max > 0 {
        lemma_prefetch_fold(candidate_urls(html, fragments_enabled), self_url(current_url, fragment_dir, fragments_enabled),
            patterns, max);
    }
}

/// No prefetch URL is the page itself, external, anchor-only or excluded.
pub proof fn law_prefetch_excludes(
    html: Seq<char>,
    current_url: Seq<char>,
    fragment_dir: Seq<char>,
    fragments_enabled: bool,
    max: nat,
    patterns: Seq<Seq<char>>,
    i: int,
)
    requires
        0 <= i < prefetch_urls(html, current_url, fragment_dir, fragments_enabled, max, patterns).len(),
    ensures
        ({
            let u = prefetch_urls(html, current_url, fragment_dir, fragments_enabled, max, patterns)[i];
            &&& !has_prefix(u, "http://"@) && !has_prefix(u, "https://"@) && !has_prefix(u, "#"@) && u.len() > 0
            &&& normalized_url(u) != self_url(current_url, fragment_dir, fragments_enabled)
            &&& !excluded_by(patterns, u, patterns.len() as int)
        }),
{
    lemma_prefetch_fold_kept(candidate_urls(html, fragments_enabled), self_url(current_url, fragment_dir, fragments_enabled),
        patterns, max, i);
}

/// Every URL kept passes the checks.
proof fn lemma_prefetch_fold_kept(urls: Seq<Seq<char>>, self_u: Seq<char>, patterns: Seq<Seq<char>>, max: nat, i: int)
    requires
        0 <= i < prefetch_fold(urls, self_u, patterns, max).len(),
    ensures
        ({
            let u = prefetch_fold(urls, self_u, patterns, max)[i];
            &&& !has_prefix(u, "http://"@) && !has_prefix(u, "https://"@) && !has_prefix(u, "#"@) && u.len() > 0
            &&& normalized_url(u) != self_u
            &&& !excluded_by(patterns, u, patterns.len() as int)
        }),
    decreases urls.len(),
{
    if urls.len() > 0 {
        let kept = prefetch_fold(urls.drop_last(), self_u, patterns, max);
        if i < kept.len() {
            lemma_prefetch_fold_kept(urls.drop_last(), self_u, patterns, max, i);
        }
    }
}

} // verus!
