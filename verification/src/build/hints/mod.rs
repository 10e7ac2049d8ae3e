//! Resource hints: a preload `<link>` for the hero image and prefetch
//! `<link>`s for the pages a page links to, early in `<head>`.
//!
//! `inject_resource_hints` resolves the hero image (frontmatter or
//! detection), describes its preload with responsive variant data,
//! collects the navigation URLs worth prefetching, and prepends the
//! `<link>` tags to `<head>`.

pub mod prefetch;
pub mod preload;

use vstd::prelude::*;
use crate::build::hints::prefetch::{collect_prefetch_urls, prefetch_urls};
use crate::build::hints::preload::{
    build_hero_preload, hero_image, hero_preload, preload_view, resolve_hero_image, HeroPreload, PreloadView,
};
use crate::config::HintsConfig;
use crate::html::{
    attr_of, edit_lists_view, edits_view, get_attr, rewrite_tags, scan_tags, scanned_tags, tags_rewritten, tags_view,
    EditView, TagEdit,
};
use crate::text::{owned, str_eq, strs_view};

verus! {

/// A resource hint for the page's `<head>`.
#[derive(Debug, Clone, PartialEq)]
pub enum ResourceHint {
    /// `<link rel="preload">` for the hero image.
    HeroPreload(HeroPreload),
    /// `<link rel="prefetch">` for a likely next navigation.
    NavigationPrefetch {
        /// The fragment or page URL to prefetch.
        href: String,
        /// Whether this targets a full document (vs a fragment).
        is_document: bool,
    },
}

/// The content of a resource hint.
pub enum HintView {
    Preload(PreloadView),
    Prefetch(Seq<char>, bool),
}

/// The content of a resource hint.
pub open spec fn hint_view(h: ResourceHint) -> HintView {
    match h {
        ResourceHint::HeroPreload(p) => HintView::Preload(preload_view(p)),
        ResourceHint::NavigationPrefetch { href, is_document } => HintView::Prefetch(href@, is_document),
    }
}

/// The contents of resource hints.
pub open spec fn hints_view(v: Seq<ResourceHint>) -> Seq<HintView> {
    v.map_values(|h: ResourceHint| hint_view(h))
}

/// An optional attribute ` name="value"`.
pub open spec fn opt_attr(name: Seq<char>, v: Option<Seq<char>>) -> Seq<char> {
    match v {
        Some(x) => " "@ + name + "=\""@ + x + "\""@,
        None => seq![],
    }
}

/// The `<link>` tag of one hint (values written as given).
pub open spec fn hint_html(h: HintView) -> Seq<char> {
    match h {
        HintView::Preload(p) => "<link rel=\"preload\" as=\"image\" href=\""@ + p.href + "\""@ + opt_attr("imagesrcset"@,
            p.imagesrcset) + opt_attr("imagesizes"@, p.imagesizes) + " type=\""@ + p.mime_type + "\">"@,
        HintView::Prefetch(href, doc) => "<link rel=\"prefetch\" href=\""@ + href + "\""@ + (if doc {
            " as=\"document\""@
        } else {
            seq![]
        }) + ">"@,
    }
}

/// The `<link>` tags of the hints, one per line.
pub open spec fn hints_html(hs: Seq<HintView>) -> Seq<char>
    decreases hs.len(),
{
    if hs.len() == 0 {
        seq![]
    } else if hs.len() == 1 {
        hint_html(hs[0])
    } else {
        hints_html(hs.drop_last()) + "\n"@ + hint_html(hs.last())
    }
}

/// Append ` name="value"` when there is a value.
fn push_opt_attr(out: &mut String, name: &str, v: &Option<String>)
    ensures
        final(out)@ == old(out)@ + opt_attr(name@, crate::text::opt_view(*v)),
{
    match v {
        Some(x) => {
            let ghost before = out@;
            out.append(" ");
            out.append(name);
            out.append("=\"");
            out.append(x.as_str());
            out.append("\"");
            assert(out@ =~= before + opt_attr(name@, crate::text::opt_view(*v)));
        },
        None => {
            assert(old(out)@ + opt_attr(name@, crate::text::opt_view(*v)) =~= old(out)@);
        },
    }
}

/// Append the `<link>` tag of one hint.
fn push_hint(out: &mut String, h: &ResourceHint)
    ensures
        final(out)@ == old(out)@ + hint_html(hint_view(*h)),
{
    let ghost before = out@;
    match h {
        ResourceHint::HeroPreload(p) => {
            out.append("<link rel=\"preload\" as=\"image\" href=\"");
            out.append(p.href.as_str());
            out.append("\"");
            push_opt_attr(out, "imagesrcset", &p.imagesrcset);
            push_opt_attr(out, "imagesizes", &p.imagesizes);
            out.append(" type=\"");
            out.append(p.mime_type.as_str());
            out.append("\">");
        },
        ResourceHint::NavigationPrefetch { href, is_document } => {
            out.append("<link rel=\"prefetch\" href=\"");
            out.append(href.as_str());
            out.append("\"");
            if *is_document {
                out.append(" as=\"document\"");
            }
            out.append(">");
        },
    }
    assert(out@ =~= before + hint_html(hint_view(*h)));
}

/// Serialize resource hints into `<link>` tags, one per line.
pub fn hints_to_html(hints: &[ResourceHint]) -> (r: String)
    ensures
        r@ == hints_html(hints_view(hints@)),
{
    let ghost hv = hints_view(hints@);
    let mut out = String::new();
    let mut i: usize = 0;
    assert(out@ =~= hints_html(hv.subrange(0, 0)));
    while i < hints.len()
        invariant
            i <= hints@.len(),
            hv == hints_view(hints@),
            out@ == hints_html(hv.subrange(0, i as int)),
        decreases hints@.len() - i,
    {
        assert(hv.subrange(0, i + 1).drop_last() =~= hv.subrange(0, i as int));
        assert(hv.subrange(0, i + 1).last() == hv[i as int]);
        if i > 0 {
            out.append("\n");
        } else {
            assert(hv.subrange(0, 1)[0] == hv[0]);
            assert(out@ =~= Seq::<char>::empty());
        }
        push_hint(&mut out, &hints[i]);
        i = i + 1;
    }
    assert(hv.subrange(0, hv.len() as int) =~= hv);
    out
}

/// Some tag among `tags` has `href` equal to `href`.
pub open spec fn some_href(tags: Seq<(Seq<char>, Seq<(Seq<char>, Seq<char>)>)>, href: Seq<char>) -> bool {
    exists|i: int| 0 <= i < tags.len() && attr_of(#[trigger] tags[i].1, "href"@) == Some(href)
}

/// Whether the page already preloads `href` (a `<link rel="preload">`
/// with that `href`, among those found before a rewriter failure).
pub open spec fn preloads(html: Seq<char>, href: Seq<char>) -> bool {
    some_href(scanned_tags(html, "link[rel='preload']"@).0, href)
}

/// Check whether the HTML already has a `<link rel="preload">` for the
/// given href.
pub fn has_existing_preload(html: &str, href: &str) -> (r: bool)
    ensures
        r == preloads(html@, href@),
{
    let (tags, _ok) = scan_tags(html, "link[rel='preload']");
    let ghost tv = tags_view(tags@);
    let mut i: usize = 0;
    while i < tags.len()
        invariant
            i <= tags@.len(),
            tv == tags_view(tags@),
            scanned_tags(html@, "link[rel='preload']"@).0 == tv,
            forall|j: int| 0 <= j < i ==> attr_of(#[trigger] tv[j].1, "href"@) != Some(href@),
        decreases tags@.len() - i,
    {
        assert(tv[i as int].1 == crate::html::attrs_view(tags@[i as int].attrs@));
        match get_attr(&tags[i].attrs, "href") {
            Some(h) => {
                if str_eq(h.as_str(), href) {
                    return true;
                }
            },
            None => {},
        }
        i = i + 1;
    }
    false
}

/// The document with `snippet` prepended inside `<head>`, on lines of
/// its own; `None` when the rewriter fails.
pub open spec fn prepended_to_head(html: Seq<char>, snippet: Seq<char>) -> Option<Seq<char>> {
    tags_rewritten(html, "head"@, seq![], seq![EditView::Prepend("\n"@ + snippet + "\n"@)])
}

/// Prepend the hint tags to `<head>` (as its first children); `None` when
/// the rewriter fails. A document without `<head>` comes back unchanged.
pub fn inject_into_head(html: &str, hint_html: &str) -> (r: Option<String>)
    ensures
        crate::text::opt_view(r) == prepended_to_head(html@, hint_html@),
{
    let mut snippet = owned("\n");
    snippet.append(hint_html);
    snippet.append("\n");
    let ghost sv = snippet@;
    let edits: Vec<Vec<TagEdit>> = Vec::new();
    let rest = vec![TagEdit::Prepend(snippet)];
    assert(edit_lists_view(edits@) =~= Seq::<Seq<EditView>>::empty());
    assert(edits_view(rest@) =~= seq![EditView::Prepend(sv)]);
    rewrite_tags(html, "head", &edits, &rest)
}

/// The hints of a page: the hero preload (unless the page preloads the
/// hero already), then one prefetch per navigation URL.
pub open spec fn page_hints(
    html: Seq<char>,
    config: HintsConfig,
    listing: Option<Seq<Seq<char>>>,
    hero: Option<Seq<char>>,
    current_url: Seq<char>,
    fragment_dir: Seq<char>,
    fragments_enabled: bool,
) -> Seq<HintView> {
    let pre: Seq<HintView> = match hero_image(html, hero, config.auto_detect_hero) {
        Some(h) => if preloads(html, h) {
            seq![]
        } else {
            seq![HintView::Preload(hero_preload(h, html, listing, config.hero_image_sizes@))]
        },
        None => seq![],
    };
    let nav: Seq<HintView> = if config.prefetch_links {
        prefetch_urls(html, current_url, fragment_dir, fragments_enabled, config.max_prefetch as nat,
            strs_view(config.exclude_prefetch@)).map_values(|u: Seq<char>| HintView::Prefetch(u, !fragments_enabled))
    } else {
        seq![]
    };
    pre + nav
}

/// The page with its resource hints: unchanged when hints are off, when
/// there is none, or when the rewriter fails.
pub open spec fn with_resource_hints(
    html: Seq<char>,
    config: HintsConfig,
    listing: Option<Seq<Seq<char>>>,
    hero: Option<Seq<char>>,
    current_url: Seq<char>,
    fragment_dir: Seq<char>,
    fragments_enabled: bool,
) -> Seq<char> {
    let hs = page_hints(html, config, listing, hero, current_url, fragment_dir, fragments_enabled);
    if !config.enabled || hs.len() == 0 {
        html
    } else {
        match prepended_to_head(html, hints_html(hs)) {
            Some(r) => r,
            None => html,
        }
    }
}

/// Inject preload and prefetch resource hints into a page.
///
/// `variant_listing` is the list of file names in the `dist/` directory
/// of the hero image (see `preload::variant_search_dir`), `None` when it
/// is missing or cannot be read. Any failure leaves the page unchanged.
pub fn inject_resource_hints(
    html: &str,
    config: &HintsConfig,
    variant_listing: Option<&[String]>,
    hero_image: Option<&str>,
    current_url: &str,
    fragment_dir: &str,
    fragments_enabled: bool,
) -> (r: String)
    ensures
        r@ == with_resource_hints(html@, *config, match variant_listing {
            Some(l) => Some(strs_view(l@)),
            None => None,
        }, match hero_image {
            Some(h) => Some(h@),
            None => None,
        }, current_url@, fragment_dir@, fragments_enabled),
{
    if !config.enabled {
        return owned(html);
    }
    let mut hints: Vec<ResourceHint> = Vec::new();
    assert(hints_view(hints@) =~= Seq::<HintView>::empty());
    match resolve_hero_image(html, hero_image, config.auto_detect_hero) {
        Some(hero) => {
            if !has_existing_preload(html, hero.as_str()) {
                let p = build_hero_preload(hero.as_str(), html, variant_listing, config.hero_image_sizes.as_str());
                hints.push(ResourceHint::HeroPreload(p));
                assert(hints_view(hints@) =~= seq![HintView::Preload(preload_view(p))]);
            }
        },
        None => {},
    }
    let ghost pre = hints_view(hints@);
    if config.prefetch_links {
        let urls = collect_prefetch_urls(html, current_url, fragment_dir, fragments_enabled, config.max_prefetch,
            config.exclude_prefetch.as_slice());
        let ghost uv = strs_view(urls@);
        let mut i: usize = 0;
        while i < urls.len()
            invariant
                i <= urls@.len(),
                uv == strs_view(urls@),
                hints_view(hints@) == pre + uv.subrange(0, i as int).map_values(|u: Seq<char>| HintView::Prefetch(u, !fragments_enabled)),
            decreases urls@.len() - i,
        {
            let ghost before = hints_view(hints@);
            hints.push(ResourceHint::NavigationPrefetch { href: urls[i].clone(), is_document: !fragments_enabled });
            assert(hints_view(hints@) =~= before.push(HintView::Prefetch(urls@[i as int]@, !fragments_enabled)));
            assert(uv.subrange(0, i + 1).map_values(|u: Seq<char>| HintView::Prefetch(u, !fragments_enabled))
                =~= uv.subrange(0, i as int).map_values(|u: Seq<char>| HintView::Prefetch(u, !fragments_enabled)).push(
                HintView::Prefetch(uv[i as int], !fragments_enabled)));
            i = i + 1;
        }
        assert(uv.subrange(0, uv.len() as int) =~= uv);
    } else {
        assert(pre + Seq::<HintView>::empty() =~= pre);
    }
    if hints.len() == 0 {
        return owned(html);
    }
    let hint_html = hints_to_html(hints.as_slice());
    match inject_into_head(html, hint_html.as_str()) {
        Some(r) => r,
        None => owned(html),
    }
}

} // verus!
