//! Rewriting a page for its critical CSS: a `<style>` block before the
//! first processed stylesheet link, and each processed link deferred
//! (preload with a `<noscript>` fallback) or removed.

use vstd::prelude::*;
use crate::build::bundling::collect::{page_css_refs, refs_of_page_links};
use crate::html::{
    attr_of, edit_lists_view, edits_view, get_attr, rewrite_tags, scan_tags, scanned_tags, tags_rewritten, tags_view,
    EditView, HtmlTag, TagEdit,
};
use crate::text::{list_contains, owned, strs_view};

verus! {

/// The local stylesheet hrefs of a page: links with a non-empty `href`,
/// not external, without `media`, and not excluded, in document order.
pub fn extract_stylesheet_hrefs(html: &str, exclude: &[String]) -> (r: Vec<String>)
    ensures
        strs_view(r@) == page_css_refs(html@, strs_view(exclude@)),
{
    refs_of_page_links(html, exclude)
}

/// The deferred form of a stylesheet link: a style preload that turns
/// into a stylesheet on load, and the link itself in `<noscript>`.
pub open spec fn preload_link(href: Seq<char>) -> Seq<char> {
    "<link rel=\"preload\" href=\""@ + href + "\" as=\"style\" onload=\"this.onload=null;this.rel='stylesheet'\"><noscript><link rel=\"stylesheet\" href=\""@
        + href + "\"></noscript>"@
}

/// The edits of the stylesheet links, in order, and whether the style
/// block was placed: a processed link gets the `<style>` block before it
/// when it is the first, then is deferred or removed.
pub open spec fn critical_edits(
    tags: Seq<(Seq<char>, Seq<(Seq<char>, Seq<char>)>)>,
    css: Seq<char>,
    processed: Seq<Seq<char>>,
    preload_full: bool,
) -> (Seq<Seq<EditView>>, bool)
    decreases tags.len(),
{
    if tags.len() == 0 {
        (seq![], false)
    } else {
        let (edits, placed) = critical_edits(tags.drop_last(), css, processed, preload_full);
        match attr_of(tags.last().1, "href"@) {
            Some(h) => if processed.contains(h) {
                let before: Seq<EditView> = if placed {
                    seq![]
                } else {
                    seq![EditView::Before("<style>"@ + css + "</style>"@)]
                };
                let change = if preload_full {
                    EditView::Replace(preload_link(h))
                } else {
                    EditView::Replace(seq![])
                };
                (edits.push(before.push(change)), true)
            } else {
                (edits.push(seq![]), placed)
            },
            None => (edits.push(seq![]), placed),
        }
    }
}

/// The page with its critical CSS: the stylesheet links are edited as
/// `critical_edits` says; `None` when the rewriter fails.
pub open spec fn with_critical_css(html: Seq<char>, css: Seq<char>, processed: Seq<Seq<char>>, preload_full: bool) -> Option<Seq<char>> {
    tags_rewritten(
        html,
        "link[rel='stylesheet']"@,
        critical_edits(scanned_tags(html, "link[rel='stylesheet']"@).0, css, processed, preload_full).0,
        seq![],
    )
}

/// The edits of the scanned stylesheet links.
fn critical_edits_exec(tags: &Vec<HtmlTag>, css: &str, processed: &[String], preload_full: bool) -> (r: Vec<Vec<TagEdit>>)
    ensures
        edit_lists_view(r@) == critical_edits(tags_view(tags@), css@, strs_view(processed@), preload_full).0,
{
    let ghost tv = tags_view(tags@);
    let ghost pv = strs_view(processed@);
    let mut out: Vec<Vec<TagEdit>> = Vec::new();
    let mut placed = false;
    let mut i: usize = 0;
    assert(edit_lists_view(out@) =~= Seq::<Seq<EditView>>::empty());
    while i < tags.len()
        invariant
            i <= tags@.len(),
            tv == tags_view(tags@),
            pv == strs_view(processed@),
            (edit_lists_view(out@), placed) == critical_edits(tv.subrange(0, i as int), css@, pv, preload_full),
        decreases tags@.len() - i,
    {
        assert(tv.subrange(0, i + 1).drop_last() =~= tv.subrange(0, i as int));
        assert(tv.subrange(0, i + 1).last() == tv[i as int]);
        assert(tv[i as int].1 == crate::html::attrs_view(tags@[i as int].attrs@));
        let ghost before = edit_lists_view(out@);
        let ghost was_placed = placed;
        let mut edits: Vec<TagEdit> = Vec::new();
        match get_attr(&tags[i].attrs, "href") {
            Some(h) => {
                if list_contains(processed, h.as_str()) {
                    if !placed {
                        let mut style = owned("<style>");
                        style.append(css);
                        style.append("</style>");
                        edits.push(TagEdit::Before(style));
                        placed = true;
                    }
                    if preload_full {
                        let mut p = owned("<link rel=\"preload\" href=\"");
                        p.append(h.as_str());
                        p.append("\" as=\"style\" onload=\"this.onload=null;this.rel='stylesheet'\"><noscript><link rel=\"stylesheet\" href=\"");
                        p.append(h.as_str());
                        p.append("\"></noscript>");
                        edits.push(TagEdit::Replace(p));
                    } else {
                        edits.push(TagEdit::Replace(String::new()));
                    }
                    proof {
                        let pre: Seq<EditView> = if was_placed {
                            seq![]
                        } else {
                            seq![EditView::Before("<style>"@ + css@ + "</style>"@)]
                        };
                        let change = if preload_full {
                            EditView::Replace(preload_link(h@))
                        } else {
                            EditView::Replace(seq![])
                        };
                        assert(edits_view(edits@) =~= pre.push(change));
                    }
                }
            },
            None => {},
        }
        let ghost ev = edits_view(edits@);
        if edits.len() == 0 {
            assert(ev =~= Seq::<EditView>::empty());
        }
        out.push(edits);
        assert(edit_lists_view(out@) =~= before.push(ev));
        i = i + 1;
    }
    assert(tv.subrange(0, tv.len() as int) =~= tv);
    out
}

/// Rewrite a page to inline its critical CSS and defer its full
/// stylesheets: a `<style>` block goes before the first processed
/// `<link>`, and each processed link becomes a preload with a
/// `<noscript>` fallback (`preload_full`) or is removed; other links stay.
/// `None` when the rewriter fails.
pub fn rewrite_html(html: &str, critical_css: &str, processed_hrefs: &[String], preload_full: bool) -> (r: Option<String>)
    ensures
        crate::text::opt_view(r) == with_critical_css(html@, critical_css@, strs_view(processed_hrefs@), preload_full),
{
    let (tags, _ok) = scan_tags(html, "link[rel='stylesheet']");
    let edits = critical_edits_exec(&tags, critical_css, processed_hrefs, preload_full);
    let rest: Vec<TagEdit> = Vec::new();
    assert(edits_view(rest@) =~= Seq::<EditView>::empty());
    rewrite_tags(html, "link[rel='stylesheet']", &edits, &rest)
}

} // verus!
