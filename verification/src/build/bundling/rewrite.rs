//! Rewriting a page for the bundles: the first link (stylesheet or style
//! preload) of a bundled CSS file points to the CSS bundle and the others
//! go; the same for scripts and the JS bundle; stylesheet links written in
//! `<noscript>` (text to the rewriter) are rewritten as text.

use vstd::prelude::*;
use crate::html::{
    attr_of, attrs_view, edit_lists_view, edits_view, get_attr, has_attr, has_attr_exec, rewrite_noscript_links,
    rewrite_tags, scan_tags, scanned_tags, tags_rewritten, tags_view, chunks_rewritten, EditView, HtmlTag, TagEdit,
};
use crate::text::{contains_seq, list_contains, owned, replace_all, str_contains, str_eq, str_replace, strs_view};

verus! {

/// The selector of the stylesheet links and style preloads.
pub open spec fn link_selector() -> Seq<char> {
    "link[rel='stylesheet'], link[rel='preload'][as='style']"@
}

/// Whether a link or script refers to a bundled file: its `href` (or a
/// non-empty `src` of a script that is not `defer`, `async` or a module)
/// is in `set`.
pub open spec fn refers_bundled(attrs: Seq<(Seq<char>, Seq<char>)>, set: Seq<Seq<char>>, js: bool) -> bool {
    if js {
        match attr_of(attrs, "src"@) {
            Some(s) => s.len() > 0 && !has_attr(attrs, "defer"@) && !has_attr(attrs, "async"@) && attr_of(attrs, "type"@)
                != Some("module"@) && set.contains(s),
            None => false,
        }
    } else {
        match attr_of(attrs, "href"@) {
            Some(h) => set.contains(h),
            None => false,
        }
    }
}

/// The edits of the tags, in order, and whether the bundle reference was
/// placed: the first tag referring to a bundled file gets the bundle's URL
/// (when there is a bundle), every later one is removed.
pub open spec fn bundle_edits(
    tags: Seq<(Seq<char>, Seq<(Seq<char>, Seq<char>)>)>,
    set: Seq<Seq<char>>,
    bundle: Option<Seq<char>>,
    js: bool,
) -> (Seq<Seq<EditView>>, bool)
    decreases tags.len(),
{
    if tags.len() == 0 {
        (seq![], false)
    } else {
        let (edits, placed) = bundle_edits(tags.drop_last(), set, bundle, js);
        if !refers_bundled(tags.last().1, set, js) {
            (edits.push(seq![]), placed)
        } else if !placed {
            (edits.push(match bundle {
                Some(b) => seq![EditView::SetAttr(if js { "src"@ } else { "href"@ }, b)],
                None => seq![],
            }), true)
        } else {
            (edits.push(seq![EditView::Replace(seq![])]), true)
        }
    }
}

/// The text of a `<noscript>` chunk with its stylesheet links rewritten
/// (the bundled hrefs taken in order): the first bundled href found is
/// replaced everywhere by the bundle's URL, and the links of the later
/// ones are removed; the flag tells that none was found yet.
pub open spec fn noscript_fold(t: Seq<char>, bundle: Seq<char>, hrefs: Seq<Seq<char>>) -> (Seq<char>, bool)
    decreases hrefs.len(),
{
    if hrefs.len() == 0 {
        (t, true)
    } else {
        let (m, first) = noscript_fold(t, bundle, hrefs.drop_last());
        let h = hrefs.last();
        if !contains_seq(m, h) {
            (m, first)
        } else if first {
            (replace_all(m, h, bundle), false)
        } else {
            (replace_all(m, "<link rel=\"stylesheet\" href=\""@ + h + "\">"@, seq![]), false)
        }
    }
}

/// The new text of a `<noscript>` chunk, when it changes.
pub open spec fn noscript_fix(t: Seq<char>, bundle: Seq<char>, hrefs: Seq<Seq<char>>) -> Option<Seq<char>> {
    let m = noscript_fold(t, bundle, hrefs).0;
    if m == t {
        None
    } else {
        Some(m)
    }
}

/// Rewrite the stylesheet links of a `<noscript>` text chunk; `None` when
/// nothing changes.
pub fn noscript_chunk(text: &str, bundle: &str, hrefs: &[String]) -> (r: Option<String>)
    ensures
        crate::text::opt_view(r) == noscript_fix(text@, bundle@, strs_view(hrefs@)),
{
    let ghost hv = strs_view(hrefs@);
    let mut modified = owned(text);
    let mut first = true;
    let mut i: usize = 0;
    assert(hv.subrange(0, 0) =~= Seq::<Seq<char>>::empty());
    while i < hrefs.len()
        invariant
            i <= hrefs@.len(),
            hv == strs_view(hrefs@),
            (modified@, first) == noscript_fold(text@, bundle@, hv.subrange(0, i as int)),
        decreases hrefs@.len() - i,
    {
        assert(hv.subrange(0, i + 1).drop_last() =~= hv.subrange(0, i as int));
        assert(hv.subrange(0, i + 1).last() == hrefs@[i as int]@);
        let h = hrefs[i].as_str();
        if str_contains(modified.as_str(), h) {
            if first {
                modified = str_replace(modified.as_str(), h, bundle);
                first = false;
            } else {
                let mut pattern = owned("<link rel=\"stylesheet\" href=\"");
                pattern.append(h);
                pattern.append("\">");
                modified = str_replace(modified.as_str(), pattern.as_str(), "");
                proof {
                    reveal_strlit("");
                }
                assert(""@ =~= Seq::<char>::empty());
            }
        }
        i = i + 1;
    }
    assert(hv.subrange(0, hv.len() as int) =~= hv);
    if str_eq(modified.as_str(), text) {
        None
    } else {
        Some(modified)
    }
}

/// Whether a tag refers to a bundled file.
fn refers_bundled_exec(attrs: &Vec<(String, String)>, set: &[String], js: bool) -> (r: bool)
    ensures
        r == refers_bundled(attrs_view(attrs@), strs_view(set@), js),
{
    proof {
        reveal_strlit("module");
    }
    if js {
        match get_attr(attrs, "src") {
            Some(s) => {
                let module = match get_attr(attrs, "type") {
                    Some(t) => str_eq(t.as_str(), "module"),
                    None => false,
                };
                !s.as_str().is_empty() && !has_attr_exec(attrs, "defer") && !has_attr_exec(attrs, "async") && !module
                    && list_contains(set, s.as_str())
            },
            None => false,
        }
    } else {
        match get_attr(attrs, "href") {
            Some(h) => list_contains(set, h.as_str()),
            None => false,
        }
    }
}

/// The edits of the scanned tags.
fn edits_for(tags: &Vec<HtmlTag>, set: &[String], bundle: Option<&str>, js: bool) -> (r: Vec<Vec<TagEdit>>)
    ensures
        edit_lists_view(r@) == bundle_edits(tags_view(tags@), strs_view(set@), match bundle {
            Some(b) => Some(b@),
            None => None,
        }, js).0,
{
    let ghost tv = tags_view(tags@);
    let ghost bv: Option<Seq<char>> = match bundle {
        Some(b) => Some(b@),
        None => None,
    };
    let mut out: Vec<Vec<TagEdit>> = Vec::new();
    let mut placed = false;
    let mut i: usize = 0;
    assert(edit_lists_view(out@) =~= Seq::<Seq<EditView>>::empty());
    while i < tags.len()
        invariant
            i <= tags@.len(),
            tv == tags_view(tags@),
            bv == (match bundle {
                Some(b) => Some(b@),
                None => None,
            }),
            (edit_lists_view(out@), placed) == bundle_edits(tv.subrange(0, i as int), strs_view(set@), bv, js),
        decreases tags@.len() - i,
    {
        assert(tv.subrange(0, i + 1).drop_last() =~= tv.subrange(0, i as int));
        assert(tv.subrange(0, i + 1).last() == tv[i as int]);
        let ghost before = edit_lists_view(out@);
        let edits: Vec<TagEdit> = if !refers_bundled_exec(&tags[i].attrs, set, js) {
            Vec::new()
        } else if !placed {
            placed = true;
            match bundle {
                Some(b) => vec![TagEdit::SetAttr(owned(if js { "src" } else { "href" }), owned(b))],
                None => Vec::new(),
            }
        } else {
            vec![TagEdit::Replace(String::new())]
        };
        let ghost ev = edits_view(edits@);
        out.push(edits);
        assert(edit_lists_view(out@) =~= before.push(ev));
        proof {
            reveal_strlit("src");
            reveal_strlit("href");
            assert(ev =~= (if !refers_bundled(tv[i as int].1, strs_view(set@), js) {
                Seq::<EditView>::empty()
            } else if !bundle_edits(tv.subrange(0, i as int), strs_view(set@), bv, js).1 {
                match bv {
                    Some(b) => seq![EditView::SetAttr(if js { "src"@ } else { "href"@ }, b)],
                    None => Seq::<EditView>::empty(),
                }
            } else {
                seq![EditView::Replace(Seq::<char>::empty())]
            }));
        }
        i = i + 1;
    }
    assert(tv.subrange(0, tv.len() as int) =~= tv);
    out
}

/// One pass: the tags matched by `selector` edited for a bundle.
pub open spec fn bundle_pass(html: Seq<char>, selector: Seq<char>, set: Seq<Seq<char>>, bundle: Option<Seq<char>>, js: bool) -> Option<Seq<char>> {
    tags_rewritten(html, selector, bundle_edits(scanned_tags(html, selector).0, set, bundle, js).0, seq![])
}

/// The page rewritten for the bundles: stylesheet links and style
/// preloads, then scripts, then the `<noscript>` links (when there is a
/// CSS bundle); `None` when the rewriter fails.
pub open spec fn rewritten_for_bundles(
    html: Seq<char>,
    css_bundle: Option<Seq<char>>,
    js_bundle: Option<Seq<char>>,
    css: Seq<Seq<char>>,
    js: Seq<Seq<char>>,
) -> Option<Seq<char>> {
    match bundle_pass(html, link_selector(), css, css_bundle, false) {
        Some(h1) => match bundle_pass(h1, "script"@, js, js_bundle, true) {
            Some(h2) => match css_bundle {
                Some(b) => chunks_rewritten(h2, "noscript"@, b, css),
                None => Some(h2),
            },
            None => None,
        },
        None => None,
    }
}

/// One bundle pass over a page.
fn run_pass(html: &str, selector: &str, set: &[String], bundle: Option<&str>, js: bool) -> (r: Option<String>)
    ensures
        crate::text::opt_view(r) == bundle_pass(html@, selector@, strs_view(set@), match bundle {
            Some(b) => Some(b@),
            None => None,
        }, js),
{
    let (tags, _ok) = scan_tags(html, selector);
    let edits = edits_for(&tags, set, bundle, js);
    let rest: Vec<TagEdit> = Vec::new();
    assert(edits_view(rest@) =~= Seq::<EditView>::empty());
    rewrite_tags(html, selector, &edits, &rest)
}

/// Rewrite one page to reference the bundles: the first link (stylesheet
/// or style preload) of a bundled CSS file gets the CSS bundle's URL and
/// later ones are removed; likewise for scripts (not `defer`, `async` or
/// modules) and the JS bundle; `<noscript>` stylesheet links are
/// rewritten as text. `None` when the rewriter fails.
pub fn rewrite_single_html(
    html: &str,
    css_bundle_href: Option<&str>,
    js_bundle_src: Option<&str>,
    css_hrefs: &[String],
    js_srcs: &[String],
) -> (r: Option<String>)
    ensures
        crate::text::opt_view(r) == rewritten_for_bundles(html@, match css_bundle_href {
            Some(b) => Some(b@),
            None => None,
        }, match js_bundle_src {
            Some(b) => Some(b@),
            None => None,
        }, strs_view(css_hrefs@), strs_view(js_srcs@)),
{
    let h1 = run_pass(html, "link[rel='stylesheet'], link[rel='preload'][as='style']", css_hrefs, css_bundle_href, false)?;
    let h2 = run_pass(h1.as_str(), "script", js_srcs, js_bundle_src, true)?;
    match css_bundle_href {
        Some(b) => rewrite_noscript_links(h2.as_str(), "noscript", b, css_hrefs),
        None => Some(h2),
    }
}

} // verus!
