//! CSS and JS bundling: the local stylesheets and scripts of the pages
//! merged into one file each, and the pages rewritten to reference them.

pub mod collect;
pub mod css;
pub mod js;
pub mod rewrite;

use lightningcss::stylesheet::{ParserOptions, PrinterOptions, StyleSheet};
use vstd::prelude::*;
use crate::build::bundling::collect::{collect_references, pages_refs, pages_view};
use crate::build::bundling::css::{merge_css_files, merged_css, tree_shake_css};
use crate::build::bundling::js::{merge_js_files, merged_js};
use crate::build::bundling::rewrite::{rewrite_single_html, rewritten_for_bundles};
use crate::build::css_rules::{empty_walk, kept_css, stylesheet_rules, walk_rules_spec};
use crate::build::dist_files::{files_view, DistFiles};
use crate::config::BundlingConfig;
use crate::html::attrs_view;
use crate::text::{concat2, opt_view, owned, strs_view};

verus! {

/// Why a stylesheet could not be minified: the parser's or the
/// printer's message.
pub enum MinifyFailure {
    Parse(String),
    Print(String),
}

/// Why bundling failed.
pub enum BundleError {
    /// The merged stylesheet could not be tree-shaken (the parser's
    /// message).
    TreeShake(String),
    /// The merged stylesheet could not be minified.
    Minify(MinifyFailure),
    /// A page could not be read (its path).
    ReadPage(String),
    /// A page could not be rewritten (its path).
    RewritePage(String),
}

impl BundleError {
    /// The message reported for the error.
    pub fn message(&self) -> (r: String)
        ensures
            r@ == bundle_error_message(*self),
    {
        match self {
            BundleError::TreeShake(e) => concat2("CSS tree-shaking failed: ", e.as_str()),
            BundleError::Minify(MinifyFailure::Parse(e)) => concat2("CSS parse error during minification: ", e.as_str()),
            BundleError::Minify(MinifyFailure::Print(e)) => concat2("CSS serialization error: ", e.as_str()),
            BundleError::ReadPage(p) => {
                let mut m = owned("Bundling rewrite: failed to read '");
                m.append(p.as_str());
                m.append("'");
                m
            },
            BundleError::RewritePage(p) => {
                let mut m = owned("Bundling rewrite: failed to rewrite '");
                m.append(p.as_str());
                m.append("'");
                m
            },
        }
    }
}

/// The message of a bundling error.
pub open spec fn bundle_error_message(e: BundleError) -> Seq<char> {
    match e {
        BundleError::TreeShake(m) => "CSS tree-shaking failed: "@ + m@,
        BundleError::Minify(MinifyFailure::Parse(m)) => "CSS parse error during minification: "@ + m@,
        BundleError::Minify(MinifyFailure::Print(m)) => "CSS serialization error: "@ + m@,
        BundleError::ReadPage(p) => "Bundling rewrite: failed to read '"@ + p@ + "'"@,
        BundleError::RewritePage(p) => "Bundling rewrite: failed to rewrite '"@ + p@ + "'"@,
    }
}

/// What a stylesheet is once minified by `lightningcss` (parsed with
/// error recovery, printed minified); `None` when that fails.
pub uninterp spec fn minified_stylesheet(css: Seq<char>) -> Option<Seq<char>>;

/// Minify a stylesheet without tree-shaking.
///
/// Trusted: calls `StyleSheet::parse` with error recovery, then
/// `to_css` with a minifying printer, keeping the code; a failure of
/// either is turned into its message, which is not stated, under the
/// stage that failed.
#[verifier::external_body]
fn minify_css_string(css: &str) -> (r: Result<String, MinifyFailure>)
    ensures
        match r {
            Ok(t) => minified_stylesheet(css@) == Some(t@),
            Err(_) => minified_stylesheet(css@) is None,
        },
{
    let options = ParserOptions { error_recovery: true, ..ParserOptions::default() };
    match StyleSheet::parse(css, options) {
        Err(e) => Err(MinifyFailure::Parse(e.to_string())),
        Ok(sheet) => match sheet.to_css(PrinterOptions { minify: true, ..PrinterOptions::default() }) {
            Ok(res) => Ok(res.code),
            Err(e) => Err(MinifyFailure::Print(e.to_string())),
        },
    }
}

/// The contents of the pages that could be read, in order.
pub open spec fn readable_pages(pages: Seq<(Seq<char>, Option<Seq<char>>)>) -> Seq<Seq<char>>
    decreases pages.len(),
{
    if pages.len() == 0 {
        seq![]
    } else {
        match pages.last().1 {
            Some(h) => readable_pages(pages.drop_last()).push(h),
            None => readable_pages(pages.drop_last()),
        }
    }
}

/// The merged stylesheet reduced to the rules some page uses (all of it
/// when no page could be read); `None` when it cannot be parsed.
pub open spec fn shaken_css(merged: Seq<char>, pages: Seq<Seq<char>>, minify: bool) -> Option<Seq<char>> {
    if pages.len() == 0 {
        Some(merged)
    } else {
        match stylesheet_rules(merged, minify) {
            Some(rules) => Some(kept_css(walk_rules_spec(rules, pages, empty_walk()))),
            None => None,
        }
    }
}

/// The CSS bundle: `Ok(None)` when CSS bundling is off, no stylesheet is
/// referenced or the merged stylesheets are empty; else the merged
/// stylesheets, tree-shaken or minified as configured; `Err` with
/// whether tree-shaking (else minification) failed.
pub open spec fn css_bundle(
    pages: Seq<(Seq<char>, Option<Seq<char>>)>,
    files: Seq<(Seq<char>, Seq<char>)>,
    config: BundlingConfig,
    minify: bool,
) -> Result<Option<Seq<char>>, bool> {
    let hrefs = pages_refs(pages, strs_view(config.exclude@), true);
    let merged = merged_css(files, hrefs);
    if !config.css || hrefs.len() == 0 || merged.len() == 0 {
        Ok(None)
    } else if config.tree_shake_css {
        match shaken_css(merged, readable_pages(pages), minify) {
            Some(t) => Ok(Some(t)),
            None => Err(true),
        }
    } else if minify {
        match minified_stylesheet(merged) {
            Some(t) => Ok(Some(t)),
            None => Err(false),
        }
    } else {
        Ok(Some(merged))
    }
}

/// The JS bundle: `None` when JS bundling is off, no script is
/// referenced or the merged scripts are empty.
pub open spec fn js_bundle(
    pages: Seq<(Seq<char>, Option<Seq<char>>)>,
    files: Seq<(Seq<char>, Seq<char>)>,
    config: BundlingConfig,
) -> Option<Seq<char>> {
    let srcs = pages_refs(pages, strs_view(config.exclude@), false);
    let merged = merged_js(files, srcs);
    if !config.js || srcs.len() == 0 || merged.len() == 0 {
        None
    } else {
        Some(merged)
    }
}

/// The pages rewritten for the bundles, in order; the first page that
/// cannot be read (`Err((false, path))`) or rewritten (`Err((true,
/// path))`) fails the whole.
pub open spec fn pages_for_bundles(
    pages: Seq<(Seq<char>, Option<Seq<char>>)>,
    css_bundle: Option<Seq<char>>,
    js_bundle: Option<Seq<char>>,
    css: Seq<Seq<char>>,
    js: Seq<Seq<char>>,
) -> Result<Seq<(Seq<char>, Seq<char>)>, (bool, Seq<char>)>
    decreases pages.len(),
{
    if pages.len() == 0 {
        Ok(seq![])
    } else {
        match pages_for_bundles(pages.drop_last(), css_bundle, js_bundle, css, js) {
            Err(e) => Err(e),
            Ok(done) => {
                let (path, content) = pages.last();
                match content {
                    None => Err((false, path)),
                    Some(h) => match rewritten_for_bundles(h, css_bundle, js_bundle, css, js) {
                        None => Err((true, path)),
                        Some(t) => Ok(done.push((path, t))),
                    },
                }
            },
        }
    }
}

/// Rewrite every page (path and content, `None` when it could not be
/// read) to reference the bundles; the rewritten pages in order, or the
/// first page that could not be read or rewritten.
pub fn rewrite_html_for_bundles(
    pages: &[(String, Option<String>)],
    css_bundle_href: Option<&str>,
    js_bundle_src: Option<&str>,
    css_hrefs: &[String],
    js_srcs: &[String],
) -> (r: Result<Vec<(String, String)>, BundleError>)
    ensures
        match pages_for_bundles(
            pages_view(pages@),
            match css_bundle_href {
                Some(b) => Some(b@),
                None => None,
            },
            match js_bundle_src {
                Some(b) => Some(b@),
                None => None,
            },
            strs_view(css_hrefs@),
            strs_view(js_srcs@),
        ) {
            Ok(done) => r matches Ok(v) && attrs_view(v@) == done,
            Err((false, p)) => r matches Err(BundleError::ReadPage(q)) && q@ == p,
            Err((true, p)) => r matches Err(BundleError::RewritePage(q)) && q@ == p,
        },
{
    let ghost cb = match css_bundle_href {
        Some(b) => Some(b@),
        None => None,
    };
    let ghost jb = match js_bundle_src {
        Some(b) => Some(b@),
        None => None,
    };
    let ghost pv = pages_view(pages@);
    let mut out: Vec<(String, String)> = Vec::new();
    let mut i: usize = 0;
    assert(attrs_view(out@) =~= Seq::<(Seq<char>, Seq<char>)>::empty());
    while i < pages.len()
        invariant
            i <= pages@.len(),
            pv == pages_view(pages@),
            pages_for_bundles(pv.subrange(0, i as int), cb, jb, strs_view(css_hrefs@), strs_view(js_srcs@)) == Ok::<
                Seq<(Seq<char>, Seq<char>)>,
                (bool, Seq<char>),
            >(attrs_view(out@)),
            cb == match css_bundle_href {
                Some(b) => Some(b@),
                None => None::<Seq<char>>,
            },
            jb == match js_bundle_src {
                Some(b) => Some(b@),
                None => None::<Seq<char>>,
            },
        decreases pages@.len() - i,
    {
        assert(pv.subrange(0, i + 1).drop_last() =~= pv.subrange(0, i as int));
        assert(pv.subrange(0, i + 1).last() == pv[i as int]);
        let path = &pages[i].0;
        let html = match &pages[i].1 {
            Some(h) => h,
            None => {
                proof {
                    lemma_failure_stays(pv, cb, jb, strs_view(css_hrefs@), strs_view(js_srcs@), i as int + 1);
                }
                return Err(BundleError::ReadPage(path.clone()));
            },
        };
        match rewrite_single_html(html.as_str(), css_bundle_href, js_bundle_src, css_hrefs, js_srcs) {
            None => {
                proof {
                    lemma_failure_stays(pv, cb, jb, strs_view(css_hrefs@), strs_view(js_srcs@), i as int + 1);
                }
                return Err(BundleError::RewritePage(path.clone()));
            },
            Some(t) => {
                let ghost before = attrs_view(out@);
                out.push((path.clone(), t));
                assert(attrs_view(out@) =~= before.push((path@, t@)));
            },
        }
        i = i + 1;
    }
    assert(pv.subrange(0, pages@.len() as int) =~= pv);
    Ok(out)
}

/// Once a prefix of the pages fails, the whole fails the same way.
proof fn lemma_failure_stays(
    pages: Seq<(Seq<char>, Option<Seq<char>>)>,
    cb: Option<Seq<char>>,
    jb: Option<Seq<char>>,
    css: Seq<Seq<char>>,
    js: Seq<Seq<char>>,
    k: int,
)
    requires
        0 <= k <= pages.len(),
        pages_for_bundles(pages.subrange(0, k), cb, jb, css, js) is Err,
    ensures
        pages_for_bundles(pages, cb, jb, css, js) == pages_for_bundles(pages.subrange(0, k), cb, jb, css, js),
    decreases pages.len() - k,
{
    if k == pages.len() {
        assert(pages.subrange(0, k) =~= pages);
    } else {
        assert(pages.subrange(0, k + 1).drop_last() =~= pages.subrange(0, k));
        lemma_failure_stays(pages, cb, jb, css, js, k + 1);
    }
}

/// What bundling produces: the bundle files written (path relative to
/// `dist/` and content, CSS first), and the pages rewritten to use them.
pub struct BundleOutput {
    /// The bundle files, CSS bundle first.
    pub bundles: Vec<(String, String)>,
    /// The rewritten pages; empty when no bundle was made.
    pub pages: Vec<(String, String)>,
}

/// The contents of pages that could be read.
fn readable_contents(pages: &[(String, Option<String>)]) -> (r: Vec<String>)
    ensures
        strs_view(r@) == readable_pages(pages_view(pages@)),
{
    let ghost pv = pages_view(pages@);
    let mut r: Vec<String> = Vec::new();
    let mut i: usize = 0;
    assert(strs_view(r@) =~= Seq::<Seq<char>>::empty());
    while i < pages.len()
        invariant
            i <= pages@.len(),
            pv == pages_view(pages@),
            strs_view(r@) == readable_pages(pv.subrange(0, i as int)),
        decreases pages@.len() - i,
    {
        assert(pv.subrange(0, i + 1).drop_last() =~= pv.subrange(0, i as int));
        assert(pv.subrange(0, i + 1).last() == pv[i as int]);
        match &pages[i].1 {
            Some(h) => {
                let ghost before = strs_view(r@);
                r.push(h.clone());
                assert(strs_view(r@) =~= before.push(h@));
            },
            None => {},
        }
        i = i + 1;
    }
    assert(pv.subrange(0, pages@.len() as int) =~= pv);
    r
}

/// Bundle the local stylesheets and scripts of the pages (path and
/// content of every HTML file of `dist/`, `None` for one that could not
/// be read) from the files of `dist/`: nothing when bundling is off or no
/// page references a local file; otherwise the CSS bundle and JS bundle
/// (see `css_bundle` and `js_bundle`) at their configured paths, and,
/// when there is one, every page rewritten to reference them.
pub fn bundle_assets(
    pages: &[(String, Option<String>)],
    files: &DistFiles,
    config: &BundlingConfig,
    minify_css: bool,
) -> (r: Result<BundleOutput, BundleError>)
    ensures
        ({
            let pv = pages_view(pages@);
            let fv = files_view(*files);
            let css = pages_refs(pv, strs_view(config.exclude@), true);
            let js = pages_refs(pv, strs_view(config.exclude@), false);
            if !config.enabled || (css.len() == 0 && js.len() == 0) {
                r matches Ok(o) && o.bundles@.len() == 0 && o.pages@.len() == 0
            } else {
                match css_bundle(pv, fv, *config, minify_css) {
                    Err(true) => r matches Err(BundleError::TreeShake(_)),
                    Err(false) => r matches Err(BundleError::Minify(_)),
                    Ok(cb) => {
                        let jb = js_bundle(pv, fv, *config);
                        let bundles = (match cb {
                            Some(c) => seq![(config.css_output@, c)],
                            None => seq![],
                        }) + (match jb {
                            Some(j) => seq![(config.js_output@, j)],
                            None => seq![],
                        });
                        let cref = match cb {
                            Some(_) => Some(seq!['/'] + config.css_output@),
                            None => None,
                        };
                        let jref = match jb {
                            Some(_) => Some(seq!['/'] + config.js_output@),
                            None => None,
                        };
                        if cb is None && jb is None {
                            r matches Ok(o) && o.bundles@.len() == 0 && o.pages@.len() == 0
                        } else {
                            match pages_for_bundles(pv, cref, jref, css, js) {
                                Ok(done) => r matches Ok(o) && attrs_view(o.bundles@) == bundles && attrs_view(o.pages@)
                                    == done,
                                Err((false, p)) => r matches Err(BundleError::ReadPage(q)) && q@ == p,
                                Err((true, p)) => r matches Err(BundleError::RewritePage(q)) && q@ == p,
                            }
                        }
                    },
                }
            }
        }),
{
    let empty = BundleOutput { bundles: Vec::new(), pages: Vec::new() };
    if !config.enabled {
        return Ok(empty);
    }
    let refs = collect_references(pages, config.exclude.as_slice());
    if refs.css_hrefs.len() == 0 && refs.js_srcs.len() == 0 {
        return Ok(empty);
    }
    let ghost pv = pages_view(pages@);
    let ghost fv = files_view(*files);
    let ghost cb = css_bundle(pv, fv, *config, minify_css);
    let ghost jb = js_bundle(pv, fv, *config);
    proof {
        reveal_strlit("/");
        assert("/"@ =~= seq!['/']);
    }
    let mut bundles: Vec<(String, String)> = Vec::new();
    let mut css_href: Option<String> = None;
    let mut js_src: Option<String> = None;
    if config.css && refs.css_hrefs.len() > 0 {
        let merged = merge_css_files(refs.css_hrefs.as_slice(), files);
        if !merged.as_str().is_empty() {
            let output = if config.tree_shake_css {
                let texts = readable_contents(pages);
                assert(strs_view(texts@).len() == texts@.len());
                match tree_shake_css(merged.as_str(), texts.as_slice(), minify_css) {
                    Ok(t) => t,
                    Err(e) => return Err(BundleError::TreeShake(e)),
                }
            } else if minify_css {
                match minify_css_string(merged.as_str()) {
                    Ok(t) => t,
                    Err(e) => return Err(BundleError::Minify(e)),
                }
            } else {
                merged
            };
            assert(cb == Ok::<Option<Seq<char>>, bool>(Some(output@)));
            bundles.push((config.css_output.clone(), output));
            css_href = Some(concat2("/", config.css_output.as_str()));
        }
    }
    assert(cb is Ok);
    let ghost c0 = match cb {
        Ok(Some(c)) => seq![(config.css_output@, c)],
        _ => seq![],
    };
    assert(attrs_view(bundles@) =~= c0);
    if config.js && refs.js_srcs.len() > 0 {
        let merged = merge_js_files(refs.js_srcs.as_slice(), files);
        if !merged.as_str().is_empty() {
            let ghost before = attrs_view(bundles@);
            bundles.push((config.js_output.clone(), merged));
            assert(attrs_view(bundles@) =~= before.push((config.js_output@, merged@)));
            js_src = Some(concat2("/", config.js_output.as_str()));
        }
    }
    assert(attrs_view(bundles@) =~= c0 + (match jb {
        Some(j) => seq![(config.js_output@, j)],
        None => seq![],
    }));
    if css_href.is_none() && js_src.is_none() {
        return Ok(BundleOutput { bundles, pages: Vec::new() });
    }
    let css_ref: Option<&str> = match &css_href {
        Some(h) => Some(h.as_str()),
        None => None,
    };
    let js_ref: Option<&str> = match &js_src {
        Some(s) => Some(s.as_str()),
        None => None,
    };
    match rewrite_html_for_bundles(pages, css_ref, js_ref, refs.css_hrefs.as_slice(), refs.js_srcs.as_slice()) {
        Ok(rewritten) => Ok(BundleOutput { bundles, pages: rewritten }),
        Err(e) => Err(e),
    }
}

} // verus!
