//! Page rendering decisions: where each page is written, which slugs a
//! dynamic template produces, output collisions, and which fragments of
//! a rendered page are kept. Rendering and writing are done by the
//! caller.

use std::path::Path;
use vstd::prelude::*;
use crate::build::feed::{get_field, item_view, field_of, FeedItem, FeedValue, ValueView};
use crate::build::fragments::{extract_fragments, fragments_for, fragments_view, path_join, start_markers, Fragment};
use crate::html::attrs_view;
use crate::text::{
    chars_of, concat2, contains_seq, ends_with, has_prefix, has_suffix, last_index_of, owned, push_char, rfind_char, starts_with,
    str_eq, string_of, strs_view, sub_chars,
};

verus! {

/// A record of a rendered page, used for sitemap generation and the
/// audit.
pub struct RenderedPage {
    /// URL path relative to the site root, e.g. `/about.html`.
    pub url_path: String,
    /// Whether this is an index page (gets higher sitemap priority).
    pub is_index: bool,
    /// Whether this page was generated from a dynamic template.
    pub is_dynamic: bool,
    /// The template the page was rendered from, when known.
    pub template_path: Option<String>,
}

/// Whether a page is rendered once or once per item of a collection.
pub enum PageType {
    Static,
    Dynamic { param_name: String },
}

/// A discovered page template, as far as rendering decisions read it.
pub struct PageDef {
    /// The template's path, relative to `templates/`.
    pub template_path: String,
    /// The output directory, relative to `dist/`.
    pub output_dir: String,
    pub page_type: PageType,
    /// The blocks to write as fragments; all blocks when absent.
    pub fragment_blocks: Option<Vec<String>>,
    /// The item field that names a dynamic page.
    pub slug_field: String,
}

/// Why a page cannot be written.
pub enum RenderError {
    /// Two pages write to the same URL path.
    /// Two pages write to the same URL path: the template being
    /// registered, and the one that produced the path first.
    OutputCollision { url_path: String, template: String, existing_template: String },
    /// Two items of a dynamic template have the same slug.
    DuplicateSlug { slug: String, template: String },
}

impl RenderError {
    /// The message reported for the error.
    pub fn message(&self) -> (r: String)
        ensures
            r@ == render_error_message(*self),
    {
        match self {
            RenderError::OutputCollision { url_path, template, existing_template } => {
                let mut m = owned("Output path collision: '");
                m.append(url_path.as_str());
                m.append("' is produced by template '");
                m.append(template.as_str());
                m.append("' but template '");
                m.append(existing_template.as_str());
                m.append("' already outputs to this path. Check for conflicting static and dynamic page definitions.");
                m
            },
            RenderError::DuplicateSlug { slug, template } => {
                let mut m = owned("Duplicate slug '");
                m.append(slug.as_str());
                m.append("' in dynamic template '");
                m.append(template.as_str());
                m.append("'. Multiple items produced the same slug. Consider using a different slug_field.");
                m
            },
        }
    }
}

/// The message of a render error.
pub open spec fn render_error_message(e: RenderError) -> Seq<char> {
    match e {
        RenderError::OutputCollision { url_path, template, existing_template } => "Output path collision: '"@
            + url_path@ + "' is produced by template '"@ + template@ + "' but template '"@ + existing_template@
            + "' already outputs to this path. Check for conflicting static and dynamic page definitions."@,
        RenderError::DuplicateSlug { slug, template } => "Duplicate slug '"@ + slug@ + "' in dynamic template '"@
            + template@ + "'. Multiple items produced the same slug. Consider using a different slug_field."@,
    }
}

// ---------------------------------------------------------------------------
// Counting pages
// ---------------------------------------------------------------------------

/// The number of static pages among `pages`.
pub open spec fn static_count(pages: Seq<PageDef>) -> nat
    decreases pages.len(),
{
    if pages.len() == 0 {
        0
    } else {
        static_count(pages.drop_last()) + if pages.last().page_type is Static {
            1nat
        } else {
            0nat
        }
    }
}

/// Count static and dynamic pages.
pub fn count_page_types(pages: &[PageDef]) -> (r: (usize, usize))
    ensures
        r.0 == static_count(pages@),
        r.0 + r.1 == pages@.len(),
{
    let mut static_n: usize = 0;
    let mut dynamic_n: usize = 0;
    let mut i: usize = 0;
    while i < pages.len()
        invariant
            i <= pages@.len(),
            static_n == static_count(pages@.subrange(0, i as int)),
            static_n + dynamic_n == i,
        decreases pages@.len() - i,
    {
        assert(pages@.subrange(0, i + 1).drop_last() =~= pages@.subrange(0, i as int));
        match pages[i].page_type {
            PageType::Static => static_n = static_n + 1,
            PageType::Dynamic { .. } => dynamic_n = dynamic_n + 1,
        }
        i = i + 1;
    }
    assert(pages@.subrange(0, pages@.len() as int) =~= pages@);
    (static_n, dynamic_n)
}

// ---------------------------------------------------------------------------
// Output paths
// ---------------------------------------------------------------------------

/// The last component of a path (`Path::file_name`), as text.
pub uninterp spec fn file_name_of(p: Seq<char>) -> Option<Seq<char>>;

/// The file name of a path.
///
/// Trusted: calls `Path::file_name` on the path of `p`; the name of a path
/// made from text is text.
#[verifier::external_body]
pub(crate) fn path_file_name(p: &str) -> (r: Option<String>)
    ensures
        crate::text::opt_view(r) == file_name_of(p@),
{
    Path::new(p).file_name().map(|s| s.to_string_lossy().to_string())
}

/// The URL path of an output path: a leading `/`, with backslashes
/// turned into `/`.
pub open spec fn url_of(output_path: Seq<char>) -> Seq<char> {
    seq!['/'] + output_path.map_values(|c: char| if c == '\\' { '/' } else { c })
}

/// The URL path of an output path.
pub fn url_path_of(output_path: &str) -> (r: String)
    ensures
        r@ == url_of(output_path@),
{
    let v = chars_of(output_path);
    let mut r = owned("/");
    proof {
        reveal_strlit("/");
    }
    let mut i: usize = 0;
    while i < v.len()
        invariant
            i <= v@.len(),
            v@ == output_path@,
            r@ == url_of(v@.subrange(0, i as int)),
        decreases v@.len() - i,
    {
        let c = v[i];
        if c == '\\' {
            push_char(&mut r, '/');
        } else {
            push_char(&mut r, c);
        }
        assert(url_of(v@.subrange(0, i + 1)) =~= url_of(v@.subrange(0, i as int)) + seq![
            if c == '\\' { '/' } else { c }
        ]);
        i = i + 1;
    }
    assert(v@.subrange(0, v@.len() as int) =~= v@);
    r
}

/// `dir` joined with the relative path `p`.
fn join(dir: &str, p: &str) -> (r: String)
    ensures
        r@ == path_join(dir@, p@),
{
    let d = chars_of(dir);
    let mut r = owned(dir);
    if d.len() > 0 && d[d.len() - 1] != '/' {
        push_char(&mut r, '/');
    }
    r.append(p);
    r
}

/// Where a page is written.
pub struct PageTarget {
    /// The path relative to `dist/`.
    pub output_path: String,
    /// The URL path, from the site root.
    pub url_path: String,
    pub is_index: bool,
}

/// The output path of a static page: its output directory joined with the
/// template's file name.
pub open spec fn static_output_path(output_dir: Seq<char>, template_path: Seq<char>) -> Seq<char> {
    path_join(
        output_dir,
        match file_name_of(template_path) {
            Some(n) => n,
            None => seq![],
        },
    )
}

/// Where a static page is written: `{output_dir}/{template file name}`,
/// an index page when that file is `index.html`.
pub fn static_page_target(page: &PageDef) -> (r: PageTarget)
    ensures
        r.output_path@ == static_output_path(page.output_dir@, page.template_path@),
        r.url_path@ == url_of(r.output_path@),
        r.is_index == (file_name_of(r.output_path@) == Some("index.html"@)),
{
    let name = match path_file_name(page.template_path.as_str()) {
        Some(n) => n,
        None => String::new(),
    };
    let output_path = join(page.output_dir.as_str(), name.as_str());
    let url_path = url_path_of(output_path.as_str());
    let is_index = match path_file_name(output_path.as_str()) {
        Some(f) => str_eq(f.as_str(), "index.html"),
        None => false,
    };
    PageTarget { output_path, url_path, is_index }
}

/// Whether `x` is in `v`.
fn contains_str(v: &Vec<String>, x: &str) -> (r: bool)
    ensures
        r == strs_view(v@).contains(x@),
{
    let mut i: usize = 0;
    while i < v.len()
        invariant
            i <= v@.len(),
            forall|j: int| 0 <= j < i ==> v@[j]@ != x@,
        decreases v@.len() - i,
    {
        if str_eq(v[i].as_str(), x) {
            assert(strs_view(v@)[i as int] == x@);
            return true;
        }
        i = i + 1;
    }
    assert forall|k: int| 0 <= k < strs_view(v@).len() implies strs_view(v@)[k] != x@ by {
        assert(strs_view(v@)[k] == v@[k]@);
    }
    false
}

/// The template that produced `url_path` first among the recorded
/// (URL path, template) pairs.
pub open spec fn producer_of(paths: Seq<(Seq<char>, Seq<char>)>, url_path: Seq<char>) -> Option<Seq<char>>
    decreases paths.len(),
{
    if paths.len() == 0 {
        None
    } else if paths[0].0 == url_path {
        Some(paths[0].1)
    } else {
        producer_of(paths.skip(1), url_path)
    }
}

/// Record the URL path of a page with the template that produces it,
/// failing when another template already writes to that path; the error
/// names both templates.
pub fn register_output_path(url_path: &str, template_name: &str, output_paths: &mut Vec<(String, String)>) -> (r: Result<
    (),
    RenderError,
>)
    ensures
        match r {
            Ok(()) => producer_of(attrs_view(old(output_paths)@), url_path@) is None && attrs_view(final(output_paths)@)
                == attrs_view(old(output_paths)@).push((url_path@, template_name@)),
            Err(RenderError::OutputCollision { url_path: u, template: t, existing_template: e }) => producer_of(
                attrs_view(old(output_paths)@),
                url_path@,
            ) == Some(e@) && final(output_paths)@ == old(output_paths)@ && u@ == url_path@ && t@ == template_name@,
            Err(_) => false,
        },
{
    let ghost pv = attrs_view(output_paths@);
    let mut i: usize = 0;
    assert(pv.skip(0) =~= pv);
    while i < output_paths.len()
        invariant
            i <= output_paths@.len(),
            pv == attrs_view(output_paths@),
            pv.len() == output_paths@.len(),
            producer_of(pv.skip(i as int), url_path@) == producer_of(pv, url_path@),
        decreases output_paths@.len() - i,
    {
        assert(pv.skip(i as int)[0] == pv[i as int]);
        assert(pv.skip(i as int).skip(1) =~= pv.skip(i + 1));
        if str_eq(output_paths[i].0.as_str(), url_path) {
            return Err(
                RenderError::OutputCollision {
                    url_path: owned(url_path),
                    template: owned(template_name),
                    existing_template: output_paths[i].1.clone(),
                },
            );
        }
        i = i + 1;
    }
    assert(pv.skip(i as int).len() == 0);
    output_paths.push((owned(url_path), owned(template_name)));
    assert(attrs_view(output_paths@) =~= pv.push((url_path@, template_name@)));
    Ok(())
}

// ---------------------------------------------------------------------------
// Dynamic pages
// ---------------------------------------------------------------------------

/// The slug that `slug::slugify` makes of a text.
pub uninterp spec fn slug_of_text(s: Seq<char>) -> Seq<char>;

/// A slug character: `a`-`z`, `0`-`9` or `-`.
pub open spec fn slug_char(c: char) -> bool {
    ('a' <= c && c <= 'z') || ('0' <= c && c <= '9') || c == '-'
}

/// The form of a slug: slug characters only, never two `-` in a row, and
/// no `-` at either end.
pub open spec fn slug_form(s: Seq<char>) -> bool {
    &&& forall|i: int| 0 <= i < s.len() ==> slug_char(#[trigger] s[i])
    &&& forall|i: int| 0 <= i < s.len() - 1 ==> !(#[trigger] s[i] == '-' && s[i + 1] == '-')
    &&& s.len() > 0 ==> s[0] != '-' && s.last() != '-'
}

/// Turn a text into a URL slug.
///
/// Trusted: calls `slug::slugify`, whose documentation promises a result
/// of `a`-`z`, `0`-`9` and `-` only, with no two `-` in a row and none at
/// either end.
#[verifier::external_body]
fn slugify_text(s: &str) -> (r: String)
    ensures
        r@ == slug_of_text(s@),
        slug_form(r@),
{
    slug::slugify(s)
}

/// The raw slug of an item: the text of its slug field when that is a
/// string or a number.
pub open spec fn raw_slug(item: Seq<(Seq<char>, ValueView)>, slug_field: Seq<char>) -> Option<Seq<char>> {
    match field_of(item, slug_field) {
        Some(ValueView::Str(s)) => Some(s),
        Some(ValueView::Num(n)) => Some(n),
        _ => None,
    }
}

/// What becomes of an item of a dynamic template with the slugs `seen`
/// taken: skipped (`Ok(None)`) without a usable slug, an error for a slug
/// already taken, else its slug.
pub open spec fn item_slug_outcome(item: Seq<(Seq<char>, ValueView)>, slug_field: Seq<char>, seen: Seq<Seq<char>>) -> Result<Option<Seq<char>>, Seq<char>> {
    match raw_slug(item, slug_field) {
        None => Ok(None),
        Some(raw) => {
            let s = slug_of_text(raw);
            if s.len() == 0 {
                Ok(None)
            } else if seen.contains(s) {
                Err(s)
            } else {
                Ok(Some(s))
            }
        },
    }
}

/// The output path of a dynamic page: `{output_dir}/{slug}.html`.
pub open spec fn dynamic_output_path(output_dir: Seq<char>, slug: Seq<char>) -> Seq<char> {
    path_join(output_dir, slug + ".html"@)
}

/// Where an item of a dynamic template is written. An item whose slug
/// field is missing, not a string or number, or empty once slugified is
/// skipped (`Ok(None)`); a slug already in `seen_slugs` is an error; else
/// the slug is added to `seen_slugs` and the page goes to
/// `{output_dir}/{slug}.html`.
pub fn dynamic_page_target(item: &FeedItem, page: &PageDef, seen_slugs: &mut Vec<String>) -> (r: Result<Option<PageTarget>, RenderError>)
    ensures
        match item_slug_outcome(item_view(*item), page.slug_field@, strs_view(old(seen_slugs)@)) {
            Ok(None) => r matches Ok(None) && final(seen_slugs)@ == old(seen_slugs)@,
            Ok(Some(s)) => r matches Ok(Some(t)) && strs_view(final(seen_slugs)@) == strs_view(old(seen_slugs)@).push(s)
                && t.output_path@ == dynamic_output_path(page.output_dir@, s) && t.url_path@ == url_of(t.output_path@)
                && !t.is_index,
            Err(s) => r matches Err(RenderError::DuplicateSlug { slug, template }) && slug@ == s
                && template@ == page.template_path@ && final(seen_slugs)@ == old(seen_slugs)@,
        },
{
    let raw = match get_field(item, page.slug_field.as_str()) {
        Some(FeedValue::Str(s)) => s,
        Some(FeedValue::Num(n)) => n,
        _ => return Ok(None),
    };
    let slug = slugify_text(raw.as_str());
    if slug.as_str().is_empty() {
        return Ok(None);
    }
    if contains_str(seen_slugs, slug.as_str()) {
        return Err(RenderError::DuplicateSlug { slug, template: page.template_path.clone() });
    }
    let ghost before = strs_view(seen_slugs@);
    seen_slugs.push(slug.clone());
    assert(strs_view(seen_slugs@) =~= before.push(slug@));
    let file = concat2(slug.as_str(), ".html");
    let output_path = join(page.output_dir.as_str(), file.as_str());
    let url_path = url_path_of(output_path.as_str());
    Ok(Some(PageTarget { output_path, url_path, is_index: false }))
}

// ---------------------------------------------------------------------------
// Fragments
// ---------------------------------------------------------------------------

/// The fragments of `frags` kept for a page: those whose block is listed,
/// or all of them when the page lists none.
pub open spec fn kept_fragments(frags: Seq<(Seq<char>, Seq<char>)>, blocks: Option<Seq<Seq<char>>>) -> Seq<(Seq<char>, Seq<char>)> {
    match blocks {
        Some(b) => frags.filter(|f: (Seq<char>, Seq<char>)| b.contains(f.0)),
        None => frags,
    }
}

/// The blocks a page lists for its fragments.
pub open spec fn blocks_view(b: Option<Vec<String>>) -> Option<Seq<Seq<char>>> {
    match b {
        Some(v) => Some(strs_view(v@)),
        None => None,
    }
}

/// Extract the fragments of a rendered page to write: those of the blocks
/// its frontmatter lists, or all of them when it lists none.
pub fn extract_page_fragments(rendered_html: &str, page: &PageDef, content_block: &str) -> (r: Vec<Fragment>)
    ensures
        fragments_view(r@) == kept_fragments(
            fragments_for(rendered_html@, start_markers(rendered_html@, 0)),
            blocks_view(page.fragment_blocks),
        ),
{
    let all = extract_fragments(rendered_html);
    match &page.fragment_blocks {
        None => all,
        Some(blocks) => {
            let ghost fv = fragments_view(all@);
            let ghost b = strs_view(blocks@);
            let ghost pred = |f: (Seq<char>, Seq<char>)| b.contains(f.0);
            let mut out: Vec<Fragment> = Vec::new();
            let mut i: usize = 0;
            while i < all.len()
                invariant
                    i <= all@.len(),
                    fv == fragments_view(all@),
                    b == strs_view(blocks@),
                    pred == (|f: (Seq<char>, Seq<char>)| b.contains(f.0)),
                    fragments_view(out@) == fv.subrange(0, i as int).filter(pred),
                decreases all@.len() - i,
            {
                let ghost before = fragments_view(out@);
                assert(fv.subrange(0, i + 1).drop_last() =~= fv.subrange(0, i as int));
                reveal(Seq::filter);
                if contains_str(blocks, all[i].block_name.as_str()) {
                    out.push(
                        Fragment { block_name: all[i].block_name.clone(), html: all[i].html.clone() },
                    );
                    assert(fragments_view(out@) =~= before.push(fv[i as int]));
                }
                i = i + 1;
            }
            assert(fv.subrange(0, all@.len() as int) =~= fv);
            out
        },
    }
}

/// The slugs taken by a dynamic template stay distinct: a slug is only
/// taken when no earlier item took it.
pub proof fn law_slugs_stay_distinct(item: Seq<(Seq<char>, ValueView)>, slug_field: Seq<char>, seen: Seq<Seq<char>>)
    requires
        seen.no_duplicates(),
    ensures
        match item_slug_outcome(item, slug_field, seen) {
            Ok(Some(s)) => seen.push(s).no_duplicates(),
            _ => true,
        },
{
    match item_slug_outcome(item, slug_field, seen) {
        Ok(Some(s)) => {
            assert(!seen.contains(s));
            assert forall|i: int, j: int| 0 <= i < j < seen.push(s).len() implies seen.push(s)[i] != seen.push(s)[j] by {
                if j == seen.len() {
                    assert(seen.push(s)[i] == seen[i]);
                }
            }
        },
        _ => {},
    }
}

/// Registered URL paths stay distinct: a path is only recorded when no
/// template produces it yet.
pub proof fn law_output_paths_stay_distinct(paths: Seq<(Seq<char>, Seq<char>)>, url_path: Seq<char>, template: Seq<char>)
    requires
        forall|i: int, j: int| 0 <= i < j < paths.len() ==> #[trigger] paths[i].0 != #[trigger] paths[j].0,
        producer_of(paths, url_path) is None,
    ensures
        forall|i: int, j: int|
            0 <= i < j < paths.push((url_path, template)).len() ==> #[trigger] paths.push((url_path, template))[i].0
                != #[trigger] paths.push((url_path, template))[j].0,
{
    lemma_producer_none(paths, url_path);
    let q = paths.push((url_path, template));
    assert forall|i: int, j: int| 0 <= i < j < q.len() implies #[trigger] q[i].0 != #[trigger] q[j].0 by {
        if j == paths.len() {
            assert(q[i] == paths[i]);
        } else {
            assert(q[i] == paths[i] && q[j] == paths[j]);
        }
    }
}

/// No recorded pair has a path without a producer.
proof fn lemma_producer_none(paths: Seq<(Seq<char>, Seq<char>)>, url_path: Seq<char>)
    requires
        producer_of(paths, url_path) is None,
    ensures
        forall|i: int| 0 <= i < paths.len() ==> #[trigger] paths[i].0 != url_path,
    decreases paths.len(),
{
    if paths.len() > 0 {
        lemma_producer_none(paths.skip(1), url_path);
        assert forall|i: int| 0 <= i < paths.len() implies #[trigger] paths[i].0 != url_path by {
            if i > 0 {
                assert(paths.skip(1)[i - 1] == paths[i]);
            }
        }
    }
}

// ---------------------------------------------------------------------------
// Template discovery
// ---------------------------------------------------------------------------

/// Whether a template (its path relative to `templates/`) is a layout or
/// partial: some `/`-separated component of its path starts with `_`.
pub open spec fn is_partial_template(rel: Seq<char>) -> bool {
    has_prefix(rel, "_"@) || contains_seq(rel, "/_"@)
}

/// The file name of a template path: what follows its last `/`.
pub open spec fn template_file(rel: Seq<char>) -> Seq<char> {
    match last_index_of(rel, '/') {
        Some(i) => rel.subrange(i + 1, rel.len() as int),
        None => rel,
    }
}

/// The directory of a template path: what precedes its last `/`, empty
/// at the top level.
pub open spec fn template_dir(rel: Seq<char>) -> Seq<char> {
    match last_index_of(rel, '/') {
        Some(i) => rel.subrange(0, i),
        None => Seq::empty(),
    }
}

/// The page a template path defines: none for a partial or a file that is
/// not `.html`; a dynamic page for a file named `[param].html`, with that
/// parameter; a static page otherwise. The page is written to the
/// template's directory, with all blocks as fragments and items named by
/// their `slug` field.
pub open spec fn page_of_template(rel: Seq<char>) -> Option<(Seq<char>, Option<Seq<char>>)> {
    let file = template_file(rel);
    if is_partial_template(rel) || !has_suffix(rel, ".html"@) {
        None
    } else if has_prefix(file, "["@) && has_suffix(file, "].html"@) {
        Some((template_dir(rel), Some(file.subrange(1, file.len() - 6))))
    } else {
        Some((template_dir(rel), None))
    }
}

/// The view of a page definition: its output directory and, for a
/// dynamic page, its parameter.
pub open spec fn page_def_shape(d: PageDef) -> (Seq<char>, Option<Seq<char>>) {
    (d.output_dir@, match d.page_type {
        PageType::Static => None,
        PageType::Dynamic { param_name } => Some(param_name@),
    })
}

/// The page a template defines (see `page_of_template`).
pub fn page_def_for_template(rel: &str) -> (r: Option<PageDef>)
    ensures
        match r {
            Some(d) => page_of_template(rel@) == Some(page_def_shape(d)) && d.template_path@ == rel@
                && d.fragment_blocks is None && d.slug_field@ == "slug"@,
            None => page_of_template(rel@) is None,
        },
{
    proof {
        reveal_strlit("_");
        reveal_strlit("/_");
        reveal_strlit(".html");
        reveal_strlit("[");
        reveal_strlit("].html");
        reveal_strlit("slug");
    }
    if starts_with(rel, "_") || crate::text::str_contains(rel, "/_") || !ends_with(rel, ".html") {
        return None;
    }
    let v = chars_of(rel);
    proof {
        crate::build::content_hash::lemma_last_index_bounds(v@, '/');
    }
    let (dir, file) = match rfind_char(v.as_slice(), '/') {
        Some(i) => {
            assert(last_index_of(v@, '/') == Some(i as int));
            assert(i < v@.len());
            (sub_chars(v.as_slice(), 0, i), sub_chars(v.as_slice(), i + 1, v.len()))
        },
        None => (Vec::new(), sub_chars(v.as_slice(), 0, v.len())),
    };
    assert(v@.subrange(0, v@.len() as int) =~= v@);
    assert(dir@ =~= template_dir(rel@));
    assert(file@ =~= template_file(rel@));
    let fname = string_of(file.as_slice());
    let page_type = if starts_with(fname.as_str(), "[") && ends_with(fname.as_str(), "].html") {
        proof {
            if file@.len() < 7 {
                assert(file@.subrange(0, 1)[0] == "["@[0]);
                assert(file@.subrange(file@.len() - 6, file@.len() as int)[0] == "].html"@[0]);
            }
        }
        let p = sub_chars(file.as_slice(), 1, file.len() - 6);
        PageType::Dynamic { param_name: string_of(p.as_slice()) }
    } else {
        PageType::Static
    };
    Some(PageDef {
        template_path: owned(rel),
        output_dir: string_of(dir.as_slice()),
        page_type,
        fragment_blocks: None,
        slug_field: owned("slug"),
    })
}

} // verus!
