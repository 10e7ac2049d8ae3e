//! Critical CSS: the rules a page needs for its first render, inlined in
//! the page, with its full stylesheets loaded without blocking it.

pub mod extract;
pub mod rewrite;

use vstd::prelude::*;
use crate::build::bundling::collect::page_css_refs;
use crate::build::bundling::css::{resolve_imports, resolved_css};
use crate::build::content_hash::{resolved, AssetManifest};
use crate::build::critical_css::extract::{extract_critical_css, HtmlDocument};
use crate::build::critical_css::rewrite::{extract_stylesheet_hrefs, rewrite_html, with_critical_css};
use crate::build::css_rules::{kept_css, stylesheet_rules, walk_rules_spec, empty_walk};
use crate::build::dist_files::{file_content, files_view, normalize_path, normalized, read_file, DistFiles};
use crate::config::CriticalCssConfig;
use crate::html::attrs_view;
use crate::text::{concat2, has_prefix, opt_view, owned, push_char, starts_with, str_eq, strs_view, trim_start_char, trim_start_char_exec};

verus! {

/// The view of an optional manifest.
pub open spec fn manifest_opt(m: Option<&AssetManifest>) -> Option<Map<Seq<char>, Seq<char>>> {
    match m {
        Some(a) => Some(a@),
        None => None,
    }
}

/// The file at the URL path `href` and its content.
pub open spec fn file_at_href(files: Seq<(Seq<char>, Seq<char>)>, href: Seq<char>) -> Option<(Seq<char>, Seq<char>)> {
    match normalized(trim_start_char(href, '/')) {
        Some(p) => match file_content(files, p) {
            Some(c) => Some((p, c)),
            None => None,
        },
        None => None,
    }
}

/// The stylesheet at `href`, its `@import`s resolved: the file itself, or,
/// when there is none, the file the manifest renamed it to.
pub open spec fn stylesheet_at(
    files: Seq<(Seq<char>, Seq<char>)>,
    href: Seq<char>,
    manifest: Option<Map<Seq<char>, Seq<char>>>,
) -> Option<Seq<char>> {
    match file_at_href(files, href) {
        Some((p, c)) => Some(resolved_css(files, c, p, 0)),
        None => match manifest {
            None => None,
            Some(m) => {
                let url = if has_prefix(href, "/"@) {
                    href
                } else {
                    seq!['/'] + href
                };
                let res = resolved(m, url);
                if res == url {
                    None
                } else {
                    match file_at_href(files, res) {
                        Some((p, c)) => Some(resolved_css(files, c, p, 0)),
                        None => None,
                    }
                }
            },
        },
    }
}

/// Load the stylesheet at `href` from the files of `dist/`, falling back
/// to the manifest's renamed file; `None` when neither exists.
fn load_stylesheet(href: &str, files: &DistFiles, manifest: Option<&AssetManifest>) -> (r: Option<String>)
    ensures
        opt_view(r) == stylesheet_at(files_view(*files), href@, manifest_opt(manifest)),
{
    let relative = trim_start_char_exec(href, '/');
    if let Some(path) = normalize_path(relative.as_str()) {
        if let Some(css) = read_file(files, path.as_str()) {
            return Some(resolve_imports(files, css.as_str(), path.as_str(), 0));
        }
    }
    let m = match manifest {
        Some(m) => m,
        None => return None,
    };
    proof {
        reveal_strlit("/");
        assert("/"@ =~= seq!['/']);
    }
    let url = if starts_with(href, "/") {
        owned(href)
    } else {
        concat2("/", href)
    };
    let res = m.resolve(url.as_str());
    if str_eq(res, url.as_str()) {
        return None;
    }
    let rel2 = trim_start_char_exec(res, '/');
    if let Some(path) = normalize_path(rel2.as_str()) {
        if let Some(css) = read_file(files, path.as_str()) {
            return Some(resolve_imports(files, css.as_str(), path.as_str(), 0));
        }
    }
    None
}

/// Stylesheets already loaded, by href, so that each is read once per
/// build.
pub struct StylesheetCache {
    cache: Vec<(String, String)>,
}

/// The loaded stylesheets of a cache, by href.
pub closed spec fn cache_entries(c: StylesheetCache) -> Seq<(Seq<char>, Seq<char>)> {
    attrs_view(c.cache@)
}

/// The first content cached for `href`.
pub open spec fn cached(entries: Seq<(Seq<char>, Seq<char>)>, href: Seq<char>) -> Option<Seq<char>>
    decreases entries.len(),
{
    if entries.len() == 0 {
        None
    } else if entries[0].0 == href {
        Some(entries[0].1)
    } else {
        cached(entries.skip(1), href)
    }
}

/// What a cache gives for `href`: the cached content, else the stylesheet
/// loaded from the files.
pub open spec fn cached_or_loaded(
    entries: Seq<(Seq<char>, Seq<char>)>,
    href: Seq<char>,
    files: Seq<(Seq<char>, Seq<char>)>,
    manifest: Option<Map<Seq<char>, Seq<char>>>,
) -> Option<Seq<char>> {
    match cached(entries, href) {
        Some(c) => Some(c),
        None => stylesheet_at(files, href, manifest),
    }
}

/// Whether a cache holds for each href what loading it gives.
pub open spec fn cache_agrees(
    entries: Seq<(Seq<char>, Seq<char>)>,
    files: Seq<(Seq<char>, Seq<char>)>,
    manifest: Option<Map<Seq<char>, Seq<char>>>,
) -> bool {
    forall|h: Seq<char>| #[trigger] cached(entries, h) is Some ==> cached(entries, h) == stylesheet_at(files, h, manifest)
}

/// `cached` on a suffix, one step on.
proof fn lemma_cached_step(e: Seq<(Seq<char>, Seq<char>)>, i: int, h: Seq<char>)
    requires
        0 <= i < e.len(),
    ensures
        cached(e.skip(i), h) == if e[i].0 == h {
            Some(e[i].1)
        } else {
            cached(e.skip(i + 1), h)
        },
{
    assert(e.skip(i)[0] == e[i]);
    assert(e.skip(i).skip(1) =~= e.skip(i + 1));
}

/// Appending an entry for an href not cached keeps every other lookup.
proof fn lemma_cached_push(e: Seq<(Seq<char>, Seq<char>)>, x: (Seq<char>, Seq<char>), h: Seq<char>)
    requires
        cached(e, x.0) is None,
    ensures
        cached(e.push(x), h) == if h == x.0 {
            Some(x.1)
        } else {
            cached(e, h)
        },
    decreases e.len(),
{
    if e.len() == 0 {
        assert(e.push(x)[0] == x);
        assert(e.push(x).skip(1) =~= Seq::<(Seq<char>, Seq<char>)>::empty());
    } else {
        assert(e.push(x)[0] == e[0]);
        assert(e.push(x).skip(1) =~= e.skip(1).push(x));
        if e[0].0 != h && e[0].0 != x.0 {
            lemma_cached_push(e.skip(1), x, h);
        } else if e[0].0 != x.0 {
        }
    }
}

/// A cache that agrees with the files gives what loading gives: the
/// cache never changes what a stylesheet reads as.
pub proof fn law_agreeing_cache_is_transparent(
    entries: Seq<(Seq<char>, Seq<char>)>,
    files: Seq<(Seq<char>, Seq<char>)>,
    manifest: Option<Map<Seq<char>, Seq<char>>>,
    href: Seq<char>,
)
    requires
        cache_agrees(entries, files, manifest),
    ensures
        cached_or_loaded(entries, href, files, manifest) == stylesheet_at(files, href, manifest),
{
    if cached(entries, href) is Some {
    }
}

/// An empty cache agrees with any files.
pub proof fn law_empty_cache_agrees(files: Seq<(Seq<char>, Seq<char>)>, manifest: Option<Map<Seq<char>, Seq<char>>>)
    ensures
        cache_agrees(Seq::<(Seq<char>, Seq<char>)>::empty(), files, manifest),
{
}

/// Every stylesheet cached in `a` is still cached, unchanged, in `b`.
pub open spec fn keeps_cached(a: Seq<(Seq<char>, Seq<char>)>, b: Seq<(Seq<char>, Seq<char>)>) -> bool {
    forall|h: Seq<char>| #[trigger] cached(a, h) is Some ==> cached(b, h) == cached(a, h)
}

/// Along a run of calls of `StylesheetCache::get_or_load` (the caches
/// `states[0]`, `states[1]`, ..., each call keeping what was cached), a
/// stylesheet cached at the start is what every later lookup of its href
/// gives, whatever the files and the manifest are by then.
pub proof fn law_cache_reuse_across_calls(
    states: Seq<Seq<(Seq<char>, Seq<char>)>>,
    href: Seq<char>,
    content: Seq<char>,
    files: Seq<(Seq<char>, Seq<char>)>,
    manifest: Option<Map<Seq<char>, Seq<char>>>,
)
    requires
        states.len() > 0,
        cached(states[0], href) == Some(content),
        forall|i: int| 0 <= i < states.len() - 1 ==> keeps_cached(#[trigger] states[i], states[i + 1]),
    ensures
        forall|i: int| 0 <= i < states.len() ==> cached(#[trigger] states[i], href) == Some(content),
        forall|i: int| 0 <= i < states.len() ==> cached_or_loaded(#[trigger] states[i], href, files, manifest) == Some(content),
    decreases states.len(),
{
    if states.len() > 1 {
        let t = states.drop_last();
        assert forall|i: int| 0 <= i < t.len() - 1 implies keeps_cached(#[trigger] t[i], t[i + 1]) by {
            assert(keeps_cached(states[i], states[i + 1]));
        }
        law_cache_reuse_across_calls(t, href, content, files, manifest);
        assert forall|i: int| 0 <= i < states.len() implies cached(#[trigger] states[i], href) == Some(content) by {
            if i < states.len() - 1 {
                assert(cached(t[i], href) == Some(content));
            } else {
                let j = states.len() - 2;
                assert(cached(t[j], href) == Some(content));
                assert(keeps_cached(states[j], states[j + 1]));
                assert(cached(states[j], href) is Some);
            }
        }
    }
    assert forall|i: int| 0 <= i < states.len() implies cached_or_loaded(#[trigger] states[i], href, files, manifest)
        == Some(content) by {
        assert(cached(states[i], href) == Some(content));
    }
}

/// A stylesheet once cached is what every later lookup of its href gives,
/// whatever the files and the manifest are then: the cache is read before
/// any file.
pub proof fn law_cached_stylesheet_is_reused(
    entries: Seq<(Seq<char>, Seq<char>)>,
    href: Seq<char>,
    content: Seq<char>,
    files: Seq<(Seq<char>, Seq<char>)>,
    manifest: Option<Map<Seq<char>, Seq<char>>>,
)
    requires
        cached(entries, href) == Some(content),
    ensures
        cached_or_loaded(entries, href, files, manifest) == Some(content),
{
}

impl StylesheetCache {
    /// An empty cache.
    pub fn new() -> (r: StylesheetCache)
        ensures
            cache_entries(r) == Seq::<(Seq<char>, Seq<char>)>::empty(),
    {
        let r = StylesheetCache { cache: Vec::new() };
        assert(attrs_view(r.cache@) =~= Seq::<(Seq<char>, Seq<char>)>::empty());
        r
    }

    /// The stylesheet at `href`: the cached one, else loaded (and cached
    /// when it exists); `None` when it cannot be loaded.
    pub fn get_or_load(&mut self, href: &str, files: &DistFiles, manifest: Option<&AssetManifest>) -> (r: Option<String>)
        ensures
            opt_view(r) == cached_or_loaded(cache_entries(*old(self)), href@, files_view(*files), manifest_opt(manifest)),
            forall|h: Seq<char>|
                #![trigger cached(cache_entries(*final(self)), h)]
                cached_or_loaded(cache_entries(*final(self)), h, files_view(*files), manifest_opt(manifest))
                    == cached_or_loaded(cache_entries(*old(self)), h, files_view(*files), manifest_opt(manifest)),
            r is Some ==> cached(cache_entries(*final(self)), href@) == opt_view(r),
            keeps_cached(cache_entries(*old(self)), cache_entries(*final(self))),
            r is None ==> cache_entries(*final(self)) == cache_entries(*old(self)),
            cache_agrees(cache_entries(*old(self)), files_view(*files), manifest_opt(manifest)) ==> cache_agrees(
                cache_entries(*final(self)),
                files_view(*files),
                manifest_opt(manifest),
            ),
    {
        let ghost e0 = attrs_view(self.cache@);
        let mut i: usize = 0;
        assert(e0.skip(0) =~= e0);
        while i < self.cache.len()
            invariant
                i <= self.cache@.len(),
                e0 == attrs_view(self.cache@),
                e0.len() == self.cache@.len(),
                cached(e0.skip(i as int), href@) == cached(e0, href@),
            decreases self.cache@.len() - i,
        {
            proof {
                lemma_cached_step(e0, i as int, href@);
            }
            if str_eq(self.cache[i].0.as_str(), href) {
                return Some(self.cache[i].1.clone());
            }
            i = i + 1;
        }
        assert(e0.skip(i as int).len() == 0);
        let loaded = load_stylesheet(href, files, manifest);
        match loaded {
            Some(css) => {
                let ghost x = (href@, css@);
                proof {
                    assert forall|h: Seq<char>| #[trigger] cached(e0.push(x), h) == (if h == x.0 {
                        Some(x.1)
                    } else {
                        cached(e0, h)
                    }) by {
                        lemma_cached_push(e0, x, h);
                    }
                }
                self.cache.push((owned(href), css.clone()));
                assert(attrs_view(self.cache@) =~= e0.push(x));
                Some(css)
            },
            None => None,
        }
    }
}

/// The critical CSS gathered from the stylesheets of `hrefs`, in order,
/// with the hrefs that gave some: each stylesheet the cache gives is reduced
/// to the rules the page uses; empty reductions and stylesheets that are
/// missing or cannot be parsed are skipped.
pub open spec fn gathered_css(
    hrefs: Seq<Seq<char>>,
    entries: Seq<(Seq<char>, Seq<char>)>,
    files: Seq<(Seq<char>, Seq<char>)>,
    manifest: Option<Map<Seq<char>, Seq<char>>>,
    page: Seq<char>,
) -> (Seq<char>, Seq<Seq<char>>)
    decreases hrefs.len(),
{
    if hrefs.len() == 0 {
        (seq![], seq![])
    } else {
        let prev = gathered_css(hrefs.drop_last(), entries, files, manifest, page);
        let h = hrefs.last();
        match cached_or_loaded(entries, h, files, manifest) {
            None => prev,
            Some(css) => match stylesheet_rules(css, false) {
                None => prev,
                Some(rules) => {
                    let c = kept_css(walk_rules_spec(rules, seq![page], empty_walk()));
                    if c.len() == 0 {
                        prev
                    } else if prev.0.len() == 0 {
                        (c, prev.1.push(h))
                    } else {
                        (prev.0 + seq!['\n'] + c, prev.1.push(h))
                    }
                },
            },
        }
    }
}

/// The page with its critical CSS inlined (see `gathered_css` and
/// `with_critical_css`); the page unchanged when critical CSS is off, it
/// has no local stylesheet, nothing was gathered, the gathered CSS is
/// longer than `max_inline_size` bytes, or the rewriter fails.
pub open spec fn inlined_page(
    html: Seq<char>,
    config: CriticalCssConfig,
    entries: Seq<(Seq<char>, Seq<char>)>,
    files: Seq<(Seq<char>, Seq<char>)>,
    manifest: Option<Map<Seq<char>, Seq<char>>>,
) -> Seq<char> {
    let hrefs = page_css_refs(html, strs_view(config.exclude@));
    if !config.enabled || hrefs.len() == 0 {
        html
    } else {
        let g = gathered_css(hrefs, entries, files, manifest, html);
        if g.0.len() == 0 || (vstd::utf8::encode_utf8(g.0).len() as usize) > config.max_inline_size {
            html
        } else {
            match with_critical_css(html, g.0, g.1, config.preload_full) {
                Some(r) => r,
                None => html,
            }
        }
    }
}

/// Extract the critical CSS of a page and inline it: the rules of its
/// local stylesheets (read through the cache from the files of `dist/`,
/// or from the manifest's renamed files) that the page uses go into a
/// `<style>` block, and the stylesheet links are deferred or removed.
/// Any failure leaves the page unchanged.
pub fn inline_critical_css(
    html: &str,
    config: &CriticalCssConfig,
    files: &DistFiles,
    css_cache: &mut StylesheetCache,
    manifest: Option<&AssetManifest>,
) -> (r: String)
    ensures
        r@ == inlined_page(html@, *config, cache_entries(*old(css_cache)), files_view(*files), manifest_opt(manifest)),
        forall|h: Seq<char>|
            #![trigger cached(cache_entries(*final(css_cache)), h)]
            cached_or_loaded(cache_entries(*final(css_cache)), h, files_view(*files), manifest_opt(manifest))
                == cached_or_loaded(cache_entries(*old(css_cache)), h, files_view(*files), manifest_opt(manifest)),
{
    let ghost e0 = cache_entries(*old(css_cache));
    let ghost fv = files_view(*files);
    let ghost mv = manifest_opt(manifest);
    if !config.enabled {
        return owned(html);
    }
    let hrefs = extract_stylesheet_hrefs(html, config.exclude.as_slice());
    if hrefs.len() == 0 {
        return owned(html);
    }
    let document = HtmlDocument::parse(html);
    let ghost hv = strs_view(hrefs@);
    let mut combined = String::new();
    let mut processed: Vec<String> = Vec::new();
    let mut i: usize = 0;
    while i < hrefs.len()
        invariant
            i <= hrefs@.len(),
            hv == strs_view(hrefs@),
            crate::build::critical_css::extract::html_source(document) == html@,
            forall|h: Seq<char>|
                #![trigger cached(cache_entries(*css_cache), h)]
                cached_or_loaded(cache_entries(*css_cache), h, files_view(*files), manifest_opt(manifest))
                    == cached_or_loaded(cache_entries(*old(css_cache)), h, files_view(*files), manifest_opt(manifest)),
            e0 == cache_entries(*old(css_cache)),
            fv == files_view(*files),
            mv == manifest_opt(manifest),
            (combined@, strs_view(processed@)) == gathered_css(hv.subrange(0, i as int), e0, fv, mv, html@),
        decreases hrefs@.len() - i,
    {
        assert(hv.subrange(0, i + 1).drop_last() =~= hv.subrange(0, i as int));
        assert(hv.subrange(0, i + 1).last() == hrefs@[i as int]@);
        let href = hrefs[i].as_str();
        let ghost before = cached(cache_entries(*css_cache), href@);
        match css_cache.get_or_load(href, files, manifest) {
            None => {},
            Some(css) => {
                match extract_critical_css(css.as_str(), &document) {
                    Err(_) => {},
                    Ok(critical) => {
                        if !critical.as_str().is_empty() {
                            if !combined.as_str().is_empty() {
                                push_char(&mut combined, '\n');
                            }
                            combined.append(critical.as_str());
                            let ghost pb = strs_view(processed@);
                            processed.push(owned(href));
                            assert(strs_view(processed@) =~= pb.push(href@));
                        }
                    },
                }
            },
        }
        i = i + 1;
    }
    assert(hv.subrange(0, hrefs@.len() as int) =~= hv);
    if combined.as_str().is_empty() {
        return owned(html);
    }
    if combined.as_str().len() > config.max_inline_size {
        return owned(html);
    }
    match rewrite_html(html, combined.as_str(), processed.as_slice(), config.preload_full) {
        Some(r) => r,
        None => owned(html),
    }
}

} // verus!
