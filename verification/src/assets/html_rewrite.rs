//! HTML rewriting for responsive images.
//!
//! Transforms `<img>` tags into `<picture>` elements with `<source
//! srcset>` for the optimized variants of an image, and sets
//! `loading`/`decoding` attributes: the first qualifying image, the hero
//! image and images marked `data-eager` load eagerly, the others lazily.

use vstd::prelude::*;
use crate::config::ImageOptimConfig;
use crate::html::{
    attr_of, attrs_view, copy_attrs, edit_lists_view, edits_view, get_attr, has_attr, has_attr_exec, rewrite_tags, scan_tags,
    scanned_tags, tags_rewritten, tags_view, EditView, HtmlTag, TagEdit,
};
use crate::text::{
    decimal, decimal_string, has_prefix, opt_view, owned, parse_u32, parse_u32_spec, push_char, starts_with, str_eq,
    strs_view, trim_start_char, trim_start_char_exec,
};

pub use crate::build::seo::escape_attr;

verus! {

/// One optimized variant of an image.
pub struct ImageVariant {
    /// URL path of the variant file.
    pub url_path: String,
    /// Width in pixels.
    pub width: u32,
    /// MIME type of the variant's format.
    pub mime_type: String,
}

/// The optimized variants of one image.
pub struct ImageVariants {
    pub original_width: u32,
    pub original_height: u32,
    /// Variants per format name (e.g. `"webp"`), smallest first.
    pub by_format: Vec<(String, Vec<ImageVariant>)>,
    /// Format name of the original file (e.g. `"jpeg"`).
    pub original_format: String,
}

/// Errors of the image rewriting pipeline.
#[derive(Debug, Clone, Copy, PartialEq, Eq, Structural)]
pub enum ImageRewriteError {
    /// The HTML rewriter failed.
    Rewriter,
}

// ---------------------------------------------------------------------------
// Lazy loading decisions
// ---------------------------------------------------------------------------

/// Tracks first-image state and the hero image while the images of a page
/// are visited in document order.
pub struct LazyLoadContext {
    /// Path of the hero image from frontmatter, if any.
    pub hero_image: Option<String>,
    /// Whether the first qualifying image has been seen.
    pub first_seen: bool,
}

/// The parsed value of the first attribute named `name`, if it parses.
pub open spec fn dim_of(attrs: Seq<(Seq<char>, Seq<char>)>, name: Seq<char>) -> Option<u32> {
    match attr_of(attrs, name) {
        Some(v) => parse_u32_spec(v),
        None => None,
    }
}

/// Whether an attribute marks the image as decorative: `role="presentation"`
/// or an empty `alt`.
pub open spec fn decorative_attr(a: (Seq<char>, Seq<char>)) -> bool {
    (a.0 == "role"@ && a.1 == "presentation"@) || (a.0 == "alt"@ && a.1.len() == 0)
}

/// Whether an image may be the above-the-fold image: not decorative, not
/// a small icon (both dimensions under 100), not a `data:` URI.
pub open spec fn qualifying(attrs: Seq<(Seq<char>, Seq<char>)>) -> bool {
    &&& !(exists|i: int| 0 <= i < attrs.len() && #[trigger] decorative_attr(attrs[i]))
    &&& !(match (dim_of(attrs, "width"@), dim_of(attrs, "height"@)) {
        (Some(w), Some(h)) => w < 100 && h < 100,
        _ => false,
    })
    &&& !(match attr_of(attrs, "src"@) {
        Some(s) => has_prefix(s, "data:"@),
        None => false,
    })
}

/// The eagerness decision for one image and the new first-image flag.
pub open spec fn eager_step(hero: Option<Seq<char>>, first: bool, src: Seq<char>, attrs: Seq<(Seq<char>, Seq<char>)>) -> (bool, bool) {
    if has_attr(attrs, "data-eager"@) {
        (true, first)
    } else if hero == Some(src) {
        (true, true)
    } else if !first && qualifying(attrs) {
        (true, true)
    } else {
        (false, first)
    }
}

/// The `loading` value, `decoding` value and whether to drop `data-eager`,
/// for one image; and the new first-image flag.
pub open spec fn loading_step(hero: Option<Seq<char>>, first: bool, src: Seq<char>, attrs: Seq<(Seq<char>, Seq<char>)>) -> (
    (Option<Seq<char>>, Option<Seq<char>>, bool),
    bool,
) {
    let (eager, first2) = eager_step(hero, first, src, attrs);
    let data_eager = has_attr(attrs, "data-eager"@);
    let loading = if data_eager {
        Some("eager"@)
    } else if has_attr(attrs, "loading"@) {
        None
    } else if eager {
        Some("eager"@)
    } else {
        Some("lazy"@)
    };
    let decoding = if has_attr(attrs, "decoding"@) {
        None
    } else if loading == Some("lazy"@) {
        Some("async"@)
    } else {
        None
    };
    ((loading, decoding, data_eager), first2)
}

/// The view of an optional static string.
pub open spec fn sopt(o: Option<&'static str>) -> Option<Seq<char>> {
    match o {
        Some(s) => Some(s@),
        None => None,
    }
}

impl LazyLoadContext {
    /// A context with the page's hero image, before any image.
    pub fn new(hero_image: Option<&str>) -> (r: Self)
        ensures
            opt_view(r.hero_image) == match hero_image {
                Some(h) => Some(h@),
                None => None,
            },
            !r.first_seen,
    {
        let hero = match hero_image {
            Some(h) => Some(owned(h)),
            None => None,
        };
        LazyLoadContext { hero_image: hero, first_seen: false }
    }

    /// Whether this image should load eagerly (not lazily). The hero image
    /// and the first qualifying image take the first-image slot;
    /// `data-eager` does not.
    pub fn is_eager(&mut self, src: &str, attrs: &[(String, String)]) -> (r: bool)
        ensures
            (r, final(self).first_seen) == eager_step(opt_view(old(self).hero_image), old(self).first_seen, src@, attrs_view(attrs@)),
            final(self).hero_image == old(self).hero_image,
    {
        if attrs_has(attrs, "data-eager") {
            return true;
        }
        match &self.hero_image {
            Some(hero) => {
                if str_eq(src, hero.as_str()) {
                    self.first_seen = true;
                    return true;
                }
            },
            None => {},
        }
        if !self.first_seen && is_qualifying_image(attrs) {
            self.first_seen = true;
            return true;
        }
        false
    }
}

/// Whether `attrs` has an attribute named `name`.
fn attrs_has(attrs: &[(String, String)], name: &str) -> (r: bool)
    ensures
        r == has_attr(attrs_view(attrs@), name@),
{
    let v: Vec<(String, String)> = copy_attrs(attrs);
    has_attr_exec(&v, name)
}

/// Check if an image qualifies as a potential hero / above-the-fold
/// image: not decorative (`role="presentation"`, empty `alt`), not a small
/// icon (both `width` and `height` under 100), not a `data:` URI.
pub fn is_qualifying_image(attrs: &[(String, String)]) -> (r: bool)
    ensures
        r == qualifying(attrs_view(attrs@)),
{
    let ghost av = attrs_view(attrs@);
    let mut i: usize = 0;
    while i < attrs.len()
        invariant
            i <= attrs@.len(),
            av == attrs_view(attrs@),
            forall|j: int| 0 <= j < i ==> !#[trigger] decorative_attr(av[j]),
        decreases attrs@.len() - i,
    {
        let k = &attrs[i].0;
        let v = &attrs[i].1;
        assert(av[i as int] == (k@, v@));
        if str_eq(k.as_str(), "role") && str_eq(v.as_str(), "presentation") {
            assert(decorative_attr(av[i as int]));
            return false;
        }
        if str_eq(k.as_str(), "alt") && v.as_str().is_empty() {
            assert(decorative_attr(av[i as int]));
            return false;
        }
        i = i + 1;
    }
    let owned_attrs = copy_attrs(attrs);
    let width = match get_attr(&owned_attrs, "width") {
        Some(w) => parse_u32(w.as_str()),
        None => None,
    };
    let height = match get_attr(&owned_attrs, "height") {
        Some(h) => parse_u32(h.as_str()),
        None => None,
    };
    match (width, height) {
        (Some(w), Some(h)) => {
            if w < 100 && h < 100 {
                return false;
            }
        },
        _ => {},
    }
    match get_attr(&owned_attrs, "src") {
        Some(src) => {
            if starts_with(src.as_str(), "data:") {
                return false;
            }
        },
        None => {},
    }
    true
}

/// Determine the `loading` and `decoding` values to set on an image, and
/// whether to strip its `data-eager` marker: `data-eager` forces
/// `loading="eager"`; an explicit `loading` is kept; otherwise eager or
/// lazy by `is_eager`. Lazy images get `decoding="async"` unless they have
/// an explicit `decoding`.
pub fn resolve_loading_attrs(
    src: &str,
    attrs: &[(String, String)],
    ctx: &mut LazyLoadContext,
) -> (r: (Option<&'static str>, Option<&'static str>, bool))
    ensures
        ((sopt(r.0), sopt(r.1), r.2), final(ctx).first_seen) == loading_step(
            opt_view(old(ctx).hero_image),
            old(ctx).first_seen,
            src@,
            attrs_view(attrs@),
        ),
        final(ctx).hero_image == old(ctx).hero_image,
{
    let has_data_eager = attrs_has(attrs, "data-eager");
    let has_explicit_loading = attrs_has(attrs, "loading");
    let has_explicit_decoding = attrs_has(attrs, "decoding");
    let eager = ctx.is_eager(src, attrs);
    let loading: Option<&'static str> = if has_data_eager {
        Some("eager")
    } else if has_explicit_loading {
        None
    } else if eager {
        Some("eager")
    } else {
        Some("lazy")
    };
    proof {
        reveal_strlit("eager");
        reveal_strlit("lazy");
    }
    let is_lazy = !has_data_eager && !has_explicit_loading && !eager;
    assert("eager"@.len() == 5);
    assert("lazy"@.len() == 4);
    assert(is_lazy == (sopt(loading) == Some("lazy"@))) by {
        if !is_lazy {
            assert(sopt(loading) != Some("lazy"@)) by {
                if loading is Some {
                    assert(loading->0@ == "eager"@);
                }
            }
        }
    }
    let decoding: Option<&'static str> = if has_explicit_decoding {
        None
    } else if is_lazy {
        Some("async")
    } else {
        None
    };
    (loading, decoding, has_data_eager)
}

// ---------------------------------------------------------------------------
// Planning the edits of a page
// ---------------------------------------------------------------------------

/// The attribute edits of one image that keeps its `<img>` tag.
pub open spec fn attr_edits(loading: Option<Seq<char>>, decoding: Option<Seq<char>>, strip: bool) -> Seq<EditView> {
    (match loading {
        Some(l) => seq![EditView::SetAttr("loading"@, l)],
        None => seq![],
    }) + (match decoding {
        Some(d) => seq![EditView::SetAttr("decoding"@, d)],
        None => seq![],
    }) + (if strip { seq![EditView::RemoveAttr("data-eager"@)] } else { seq![] })
}

/// The view of an image's variants: per format, the (URL, width, MIME
/// type) of each variant; and the original format.
pub open spec fn variants_view(v: ImageVariants) -> (Seq<(Seq<char>, Seq<(Seq<char>, u32, Seq<char>)>)>, Seq<char>) {
    (
        v.by_format@.map_values(|f: (String, Vec<ImageVariant>)| (
            f.0@,
            f.1@.map_values(|x: ImageVariant| (x.url_path@, x.width, x.mime_type@)),
        )),
        v.original_format@,
    )
}

/// The variants of the first entry of `fmts` named `name`.
pub open spec fn format_entry(
    fmts: Seq<(Seq<char>, Seq<(Seq<char>, u32, Seq<char>)>)>,
    name: Seq<char>,
    i: int,
) -> Option<Seq<(Seq<char>, u32, Seq<char>)>>
    decreases fmts.len() - i,
{
    if i < 0 || i >= fmts.len() {
        None
    } else if fmts[i].0 == name {
        Some(fmts[i].1)
    } else {
        format_entry(fmts, name, i + 1)
    }
}

/// The format names of `fmts[i..]` other than `orig` and not in `acc`,
/// appended to `acc` in order.
pub open spec fn other_formats(keys: Seq<Seq<char>>, orig: Seq<char>, acc: Seq<Seq<char>>) -> Seq<Seq<char>>
    decreases keys.len(),
{
    if keys.len() == 0 {
        acc
    } else {
        let k = keys[0];
        let acc2 = if k != orig && !acc.contains(k) { acc.push(k) } else { acc };
        other_formats(keys.skip(1), orig, acc2)
    }
}

/// The order of the `<source>` formats: AVIF, then WebP (unless either is
/// the original format), then the other formats in order, and the
/// original format last.
pub open spec fn format_order(fmts: Seq<(Seq<char>, Seq<(Seq<char>, u32, Seq<char>)>)>, orig: Seq<char>) -> Seq<Seq<char>> {
    let keys = fmts.map_values(|f: (Seq<char>, Seq<(Seq<char>, u32, Seq<char>)>)| f.0);
    let a = if keys.contains("avif"@) && orig != "avif"@ { seq!["avif"@] } else { seq![] };
    let b = if keys.contains("webp"@) && orig != "webp"@ { a.push("webp"@) } else { a };
    let c = other_formats(keys, orig, b);
    if keys.contains(orig) { c.push(orig) } else { c }
}

/// Whether `fmts` has an entry named `name`.
fn has_format(fmts: &Vec<(String, Vec<ImageVariant>)>, name: &str) -> (r: bool)
    ensures
        r == fmts@.map_values(|f: (String, Vec<ImageVariant>)| f.0@).contains(name@),
{
    let ghost keys = fmts@.map_values(|f: (String, Vec<ImageVariant>)| f.0@);
    let mut i: usize = 0;
    while i < fmts.len()
        invariant
            i <= fmts@.len(),
            keys == fmts@.map_values(|f: (String, Vec<ImageVariant>)| f.0@),
            forall|j: int| 0 <= j < i ==> keys[j] != name@,
        decreases fmts@.len() - i,
    {
        if str_eq(fmts[i].0.as_str(), name) {
            assert(keys[i as int] == name@);
            return true;
        }
        i = i + 1;
    }
    false
}

/// Order the formats of an image's variants: AVIF first (best
/// compression), then WebP, then the rest, the original format last.
pub fn determine_format_order(variants: &ImageVariants) -> (r: Vec<String>)
    ensures
        strs_view(r@) == format_order(variants_view(*variants).0, variants_view(*variants).1),
{
    let fmts = &variants.by_format;
    let orig = &variants.original_format;
    let ghost keys = fmts@.map_values(|f: (String, Vec<ImageVariant>)| f.0@);
    assert(keys == variants_view(*variants).0.map_values(|f: (Seq<char>, Seq<(Seq<char>, u32, Seq<char>)>)| f.0));
    let mut order: Vec<String> = Vec::new();
    if has_format(fmts, "avif") && !str_eq(orig.as_str(), "avif") {
        order.push(owned("avif"));
    }
    assert(strs_view(order@) =~= (if keys.contains("avif"@) && orig@ != "avif"@ { seq!["avif"@] } else { Seq::<Seq<char>>::empty() }));
    let ghost b0 = strs_view(order@);
    if has_format(fmts, "webp") && !str_eq(orig.as_str(), "webp") {
        order.push(owned("webp"));
    }
    assert(strs_view(order@) =~= (if keys.contains("webp"@) && orig@ != "webp"@ { b0.push("webp"@) } else { b0 }));
    let ghost b = strs_view(order@);
    let mut i: usize = 0;
    assert(keys.skip(0) =~= keys);
    while i < fmts.len()
        invariant
            i <= fmts@.len(),
            keys == fmts@.map_values(|f: (String, Vec<ImageVariant>)| f.0@),
            other_formats(keys.skip(i as int), orig@, strs_view(order@)) == other_formats(keys, orig@, b),
        decreases fmts@.len() - i,
    {
        let k = &fmts[i].0;
        let ghost acc = strs_view(order@);
        assert(keys.skip(i as int)[0] == k@);
        assert(keys.skip(i as int).skip(1) =~= keys.skip(i + 1));
        if !str_eq(k.as_str(), orig.as_str()) && !crate::text::list_contains(order.as_slice(), k.as_str()) {
            order.push(k.clone());
            assert(strs_view(order@) =~= acc.push(k@));
        }
        i = i + 1;
    }
    assert(keys.skip(i as int) =~= Seq::<Seq<char>>::empty());
    if has_format(fmts, orig.as_str()) {
        let ghost c = strs_view(order@);
        order.push(orig.clone());
        assert(strs_view(order@) =~= c.push(orig@));
    }
    order
}

/// The `srcset` of a list of variants: `url widthw`, joined by `, `.
pub open spec fn srcset_of(vs: Seq<(Seq<char>, u32, Seq<char>)>) -> Seq<char>
    decreases vs.len(),
{
    if vs.len() == 0 {
        seq![]
    } else if vs.len() == 1 {
        vs[0].0 + seq![' '] + decimal(vs[0].1 as nat) + seq!['w']
    } else {
        srcset_of(vs.drop_last()) + ", "@ + vs.last().0 + seq![' '] + decimal(vs.last().1 as nat) + seq!['w']
    }
}

/// The `<source>` lines for the formats `order`.
pub open spec fn sources_html(fmts: Seq<(Seq<char>, Seq<(Seq<char>, u32, Seq<char>)>)>, order: Seq<Seq<char>>) -> Seq<char>
    decreases order.len(),
{
    if order.len() == 0 {
        seq![]
    } else {
        sources_html(fmts, order.drop_last()) + match format_entry(fmts, order.last(), 0) {
            Some(vs) => if vs.len() == 0 {
                seq![]
            } else {
                "  <source srcset=\""@ + srcset_of(vs) + "\" type=\""@ + vs[0].2 + "\">\n"@
            },
            None => seq![],
        }
    }
}

/// The attributes of the fallback `<img>` of a picture: the original ones
/// except a stripped `data-eager` and a `loading`/`decoding` that is being
/// set anew.
pub open spec fn img_attrs_html(
    attrs: Seq<(Seq<char>, Seq<char>)>,
    loading: Option<Seq<char>>,
    decoding: Option<Seq<char>>,
    strip: bool,
) -> Seq<char>
    decreases attrs.len(),
{
    if attrs.len() == 0 {
        seq![]
    } else {
        let (name, value) = attrs.last();
        let skip = (strip && name == "data-eager"@) || (name == "loading"@ && loading is Some) || (name == "decoding"@
            && decoding is Some);
        img_attrs_html(attrs.drop_last(), loading, decoding, strip) + if skip {
            seq![]
        } else {
            seq![' '] + name + "=\""@ + crate::build::seo::attr_escaped(value) + seq!['"']
        }
    }
}

/// The `<picture>` element of an image with variants.
pub open spec fn picture_html(
    attrs: Seq<(Seq<char>, Seq<char>)>,
    fmts: Seq<(Seq<char>, Seq<(Seq<char>, u32, Seq<char>)>)>,
    orig: Seq<char>,
    loading: Option<Seq<char>>,
    decoding: Option<Seq<char>>,
    strip: bool,
) -> Seq<char> {
    "<picture>\n"@ + sources_html(fmts, format_order(fmts, orig)) + "  <img"@ + img_attrs_html(attrs, loading, decoding, strip)
        + (match loading {
        Some(l) => " loading=\""@ + l + seq!['"'],
        None => seq![],
    }) + (match decoding {
        Some(d) => " decoding=\""@ + d + seq!['"'],
        None => seq![],
    }) + ">\n</picture>"@
}

/// The variants of the first format entry named `name`.
fn find_format<'a>(fmts: &'a Vec<(String, Vec<ImageVariant>)>, name: &str) -> (r: Option<&'a Vec<ImageVariant>>)
    ensures
        match r {
            Some(vs) => format_entry(variants_fmts(fmts@), name@, 0) == Some(vs@.map_values(|x: ImageVariant| (x.url_path@, x.width, x.mime_type@))),
            None => format_entry(variants_fmts(fmts@), name@, 0) is None,
        },
{
    let ghost f = variants_fmts(fmts@);
    let mut i: usize = 0;
    while i < fmts.len()
        invariant
            i <= fmts@.len(),
            f == variants_fmts(fmts@),
            format_entry(f, name@, 0) == format_entry(f, name@, i as int),
        decreases fmts@.len() - i,
    {
        assert(f[i as int].0 == fmts@[i as int].0@);
        if str_eq(fmts[i].0.as_str(), name) {
            return Some(&fmts[i].1);
        }
        i = i + 1;
    }
    None
}

/// The view of a list of format entries.
pub open spec fn variants_fmts(v: Seq<(String, Vec<ImageVariant>)>) -> Seq<(Seq<char>, Seq<(Seq<char>, u32, Seq<char>)>)> {
    v.map_values(|f: (String, Vec<ImageVariant>)| (
        f.0@,
        f.1@.map_values(|x: ImageVariant| (x.url_path@, x.width, x.mime_type@)),
    ))
}

/// Append the `srcset` of `vs` to `out`.
fn push_srcset(out: &mut String, vs: &Vec<ImageVariant>)
    requires
        vs@.len() > 0,
    ensures
        final(out)@ == old(out)@ + srcset_of(vs@.map_values(|x: ImageVariant| (x.url_path@, x.width, x.mime_type@))),
{
    let ghost vv = vs@.map_values(|x: ImageVariant| (x.url_path@, x.width, x.mime_type@));
    let ghost start = out@;
    let mut i: usize = 0;
    while i < vs.len()
        invariant
            i <= vs@.len(),
            vv == vs@.map_values(|x: ImageVariant| (x.url_path@, x.width, x.mime_type@)),
            out@ == start + srcset_of(vv.subrange(0, i as int)),
        decreases vs@.len() - i,
    {
        let v = &vs[i];
        assert(vv.subrange(0, i + 1).drop_last() =~= vv.subrange(0, i as int));
        assert(vv.subrange(0, i + 1).last() == vv[i as int]);
        if i > 0 {
            out.append(", ");
        }
        out.append(v.url_path.as_str());
        push_char(out, ' ');
        let w = decimal_string(v.width as u64);
        out.append(w.as_str());
        push_char(out, 'w');
        proof {
            if i == 0 {
                assert(vv.subrange(0, 1)[0] == vv[0]);
            }
        }
        i = i + 1;
    }
    assert(vv.subrange(0, vs@.len() as int) =~= vv);
}

/// Build the `<picture>` element for one `<img>` from its attributes and
/// its variants.
pub fn build_picture_html(
    attrs: &[(String, String)],
    variants: &ImageVariants,
    loading: Option<&str>,
    decoding: Option<&str>,
    strip_data_eager: bool,
) -> (r: String)
    ensures
        r@ == picture_html(
            attrs_view(attrs@),
            variants_view(*variants).0,
            variants_view(*variants).1,
            match loading { Some(l) => Some(l@), None => None },
            match decoding { Some(d) => Some(d@), None => None },
            strip_data_eager,
        ),
{
    let ghost fmts = variants_view(*variants).0;
    let ghost lv: Option<Seq<char>> = match loading { Some(l) => Some(l@), None => None };
    let ghost dv: Option<Seq<char>> = match decoding { Some(d) => Some(d@), None => None };
    let mut html = owned("<picture>\n");
    let order = determine_format_order(variants);
    let ghost ov = strs_view(order@);
    let ghost head = html@;
    let mut i: usize = 0;
    while i < order.len()
        invariant
            i <= order@.len(),
            ov == strs_view(order@),
            fmts == variants_view(*variants).0,
            fmts == variants_fmts(variants.by_format@),
            html@ == head + sources_html(fmts, ov.subrange(0, i as int)),
        decreases order@.len() - i,
    {
        assert(ov.subrange(0, i + 1).drop_last() =~= ov.subrange(0, i as int));
        assert(ov.subrange(0, i + 1).last() == order@[i as int]@);
        match find_format(&variants.by_format, order[i].as_str()) {
            Some(vs) => {
                if vs.len() > 0 {
                    html.append("  <source srcset=\"");
                    push_srcset(&mut html, vs);
                    html.append("\" type=\"");
                    html.append(vs[0].mime_type.as_str());
                    html.append("\">\n");
                }
            },
            None => {},
        }
        i = i + 1;
    }
    assert(ov.subrange(0, ov.len() as int) =~= ov);
    html.append("  <img");
    let ghost av = attrs_view(attrs@);
    let ghost mid = html@;
    let mut j: usize = 0;
    while j < attrs.len()
        invariant
            j <= attrs@.len(),
            av == attrs_view(attrs@),
            html@ == mid + img_attrs_html(av.subrange(0, j as int), lv, dv, strip_data_eager),
            lv == match loading { Some(l) => Some(l@), None => None },
            dv == match decoding { Some(d) => Some(d@), None => None },
        decreases attrs@.len() - j,
    {
        let name = &attrs[j].0;
        let value = &attrs[j].1;
        assert(av.subrange(0, j + 1).drop_last() =~= av.subrange(0, j as int));
        assert(av.subrange(0, j + 1).last() == (name@, value@));
        let skip = (strip_data_eager && str_eq(name.as_str(), "data-eager")) || (str_eq(name.as_str(), "loading")
            && loading.is_some()) || (str_eq(name.as_str(), "decoding") && decoding.is_some());
        if !skip {
            push_char(&mut html, ' ');
            html.append(name.as_str());
            html.append("=\"");
            let esc = escape_attr(value.as_str());
            html.append(esc.as_str());
            push_char(&mut html, '"');
        }
        j = j + 1;
    }
    assert(av.subrange(0, av.len() as int) =~= av);
    match loading {
        Some(l) => {
            html.append(" loading=\"");
            html.append(l);
            push_char(&mut html, '"');
        },
        None => {},
    }
    match decoding {
        Some(d) => {
            html.append(" decoding=\"");
            html.append(d);
            push_char(&mut html, '"');
        },
        None => {},
    }
    html.append(">\n</picture>");
    html
}

/// The variants recorded for `src`, if any.
pub open spec fn variants_for(map: Seq<(String, ImageVariants)>, src: Seq<char>, i: int) -> Option<ImageVariants>
    decreases map.len() - i,
{
    if i < 0 || i >= map.len() {
        None
    } else if map[i].0@ == src {
        Some(map[i].1)
    } else {
        variants_for(map, src, i + 1)
    }
}

/// The edits of the images `tags[i..]` (in document order), starting with
/// the first-image flag `first`: a `<picture>` replacement for an image
/// with variants in `map`, else attribute edits.
pub open spec fn image_plan(
    tags: Seq<(Seq<char>, Seq<(Seq<char>, Seq<char>)>)>,
    i: int,
    hero: Option<Seq<char>>,
    first: bool,
    map: Seq<(String, ImageVariants)>,
) -> Seq<Seq<EditView>>
    decreases tags.len() - i,
{
    if i < 0 || i >= tags.len() {
        seq![]
    } else {
        let attrs = tags[i].1;
        match attr_of(attrs, "src"@) {
            None => seq![seq![]] + image_plan(tags, i + 1, hero, first, map),
            Some(src) => {
                let ((l, d, strip), first2) = loading_step(hero, first, src, attrs);
                let edit = match variants_for(map, src, 0) {
                    Some(v) => seq![EditView::Replace(picture_html(attrs, variants_view(v).0, variants_view(v).1, l, d, strip))],
                    None => attr_edits(l, d, strip),
                };
                seq![edit] + image_plan(tags, i + 1, hero, first2, map)
            },
        }
    }
}

/// The page with its images rewritten by the plan for the images that
/// `lol_html` matches with `img[src]`.
pub open spec fn images_rewritten(html: Seq<char>, hero: Option<Seq<char>>, map: Seq<(String, ImageVariants)>) -> Option<Seq<char>> {
    tags_rewritten(html, "img[src]"@, image_plan(scanned_tags(html, "img[src]"@).0, 0, hero, false, map), seq![])
}

/// The variants recorded for `src`.
fn lookup_variants<'a>(map: &'a Vec<(String, ImageVariants)>, src: &str) -> (r: Option<&'a ImageVariants>)
    ensures
        match r {
            Some(v) => variants_for(map@, src@, 0) == Some(*v),
            None => variants_for(map@, src@, 0) is None,
        },
{
    let mut i: usize = 0;
    while i < map.len()
        invariant
            i <= map@.len(),
            variants_for(map@, src@, 0) == variants_for(map@, src@, i as int),
        decreases map@.len() - i,
    {
        if str_eq(map[i].0.as_str(), src) {
            return Some(&map[i].1);
        }
        i = i + 1;
    }
    None
}

/// The attribute edits of one image.
fn attr_edits_exec(loading: Option<&'static str>, decoding: Option<&'static str>, strip: bool) -> (r: Vec<TagEdit>)
    ensures
        edits_view(r@) == attr_edits(sopt(loading), sopt(decoding), strip),
{
    let mut r: Vec<TagEdit> = Vec::new();
    match loading {
        Some(l) => r.push(TagEdit::SetAttr(owned("loading"), owned(l))),
        None => {},
    }
    let ghost a = edits_view(r@);
    assert(a =~= (match sopt(loading) { Some(l) => seq![EditView::SetAttr("loading"@, l)], None => Seq::<EditView>::empty() }));
    match decoding {
        Some(d) => r.push(TagEdit::SetAttr(owned("decoding"), owned(d))),
        None => {},
    }
    let ghost b = edits_view(r@);
    assert(b =~= a + (match sopt(decoding) { Some(d) => seq![EditView::SetAttr("decoding"@, d)], None => Seq::<EditView>::empty() }));
    if strip {
        r.push(TagEdit::RemoveAttr(owned("data-eager")));
    }
    assert(edits_view(r@) =~= b + (if strip { seq![EditView::RemoveAttr("data-eager"@)] } else { Seq::<EditView>::empty() }));
    r
}

/// Plan the edits of the scanned images.
fn plan_images(tags: &Vec<HtmlTag>, hero_image: Option<&str>, map: &Vec<(String, ImageVariants)>) -> (r: Vec<Vec<TagEdit>>)
    ensures
        edit_lists_view(r@) == image_plan(
            tags_view(tags@),
            0,
            match hero_image { Some(h) => Some(h@), None => None },
            false,
            map@,
        ),
{
    let ghost tv = tags_view(tags@);
    let ghost hero = match hero_image { Some(h) => Some(h@), None => None };
    let mut ctx = LazyLoadContext::new(hero_image);
    let mut plan: Vec<Vec<TagEdit>> = Vec::new();
    let mut k: usize = 0;
    while k < tags.len()
        invariant
            k <= tags@.len(),
            tv == tags_view(tags@),
            opt_view(ctx.hero_image) == hero,
            edit_lists_view(plan@) + image_plan(tv, k as int, hero, ctx.first_seen, map@) == image_plan(tv, 0, hero, false, map@),
        decreases tags@.len() - k,
    {
        let attrs = &tags[k].attrs;
        assert(tv[k as int].1 == attrs_view(attrs@));
        let ghost before = edit_lists_view(plan@);
        let ghost first0 = ctx.first_seen;
        match get_attr(attrs, "src") {
            None => {
                let e: Vec<TagEdit> = Vec::new();
                assert(edits_view(e@) =~= Seq::<EditView>::empty());
                plan.push(e);
                assert(edit_lists_view(plan@) =~= before.push(seq![]));
            },
            Some(src) => {
                let (loading, decoding, strip) = resolve_loading_attrs(src.as_str(), attrs.as_slice(), &mut ctx);
                let edit = match lookup_variants(map, src.as_str()) {
                    Some(v) => {
                        let pic = build_picture_html(attrs.as_slice(), v, loading, decoding, strip);
                        let ghost pv = pic@;
                        let e = vec![TagEdit::Replace(pic)];
                        assert(edits_view(e@) =~= seq![EditView::Replace(pv)]);
                        proof {
                            assert(sopt(loading) == match loading { Some(l) => Some(l@), None => None::<Seq<char>> });
                            assert(sopt(decoding) == match decoding { Some(d) => Some(d@), None => None::<Seq<char>> });
                        }
                        e
                    },
                    None => attr_edits_exec(loading, decoding, strip),
                };
                let ghost ev = edits_view(edit@);
                plan.push(edit);
                assert(edit_lists_view(plan@) =~= before.push(ev));
            },
        }
        assert(image_plan(tv, k as int, hero, first0, map@) == seq![edit_lists_view(plan@).last()] + image_plan(tv, k + 1, hero, ctx.first_seen, map@));
        assert(edit_lists_view(plan@) + image_plan(tv, k + 1, hero, ctx.first_seen, map@) =~= before + image_plan(tv, k as int, hero, first0, map@));
        k = k + 1;
    }
    assert(image_plan(tv, k as int, hero, ctx.first_seen, map@) =~= Seq::<Seq<EditView>>::empty());
    assert(edit_lists_view(plan@) + Seq::<Seq<EditView>>::empty() =~= edit_lists_view(plan@));
    plan
}

/// Rewrite the `<img src>` tags of a page: an image with variants in
/// `variant_map` becomes a `<picture>`, the others get their
/// `loading`/`decoding` attributes in place.
pub fn rewrite_img_to_picture(
    html: &str,
    variant_map: &Vec<(String, ImageVariants)>,
    hero_image: Option<&str>,
) -> (r: Result<String, ImageRewriteError>)
    ensures
        match r {
            Ok(s) => images_rewritten(html@, match hero_image { Some(h) => Some(h@), None => None }, variant_map@) == Some(s@),
            Err(_) => images_rewritten(html@, match hero_image { Some(h) => Some(h@), None => None }, variant_map@) is None,
        },
{
    let (tags, _ok) = scan_tags(html, "img[src]");
    let plan = plan_images(&tags, hero_image, variant_map);
    let none: Vec<TagEdit> = Vec::new();
    assert(edits_view(none@) =~= Seq::<EditView>::empty());
    match rewrite_tags(html, "img[src]", &plan, &none) {
        Some(out) => Ok(out),
        None => Err(ImageRewriteError::Rewriter),
    }
}

/// Apply lazy loading attributes to all `<img>` tags, the path taken when
/// image optimization is disabled: `loading="lazy" decoding="async"` on
/// every image except the first qualifying one, the hero image and
/// `data-eager` images (`loading="eager"`), and those with an explicit
/// `loading` (left as they are).
pub fn apply_lazy_loading(html: &str, hero_image: Option<&str>) -> (r: Result<String, ImageRewriteError>)
    ensures
        match r {
            Ok(s) => images_rewritten(html@, match hero_image { Some(h) => Some(h@), None => None }, seq![]) == Some(s@),
            Err(_) => images_rewritten(html@, match hero_image { Some(h) => Some(h@), None => None }, seq![]) is None,
        },
{
    let empty: Vec<(String, ImageVariants)> = Vec::new();
    assert(empty@ =~= Seq::<(String, ImageVariants)>::empty());
    rewrite_img_to_picture(html, &empty, hero_image)
}

// ---------------------------------------------------------------------------
// Choosing the images to optimize
// ---------------------------------------------------------------------------

/// The `src` values of the `<img src>` tags of `html`, in order, or `None`
/// when the rewriter fails.
pub open spec fn img_srcs(html: Seq<char>) -> Option<Seq<Seq<char>>> {
    let (tags, ok) = scanned_tags(html, "img[src]"@);
    if ok {
        Some(srcs_of(tags))
    } else {
        None
    }
}

/// The `src` values of scanned tags that have one.
pub open spec fn srcs_of(tags: Seq<(Seq<char>, Seq<(Seq<char>, Seq<char>)>)>) -> Seq<Seq<char>>
    decreases tags.len(),
{
    if tags.len() == 0 {
        seq![]
    } else {
        srcs_of(tags.drop_last()) + match attr_of(tags.last().1, "src"@) {
            Some(s) => seq![s],
            None => seq![],
        }
    }
}

/// Whether an image URL is a local file that optimization may touch: not
/// absolute, not a `data:` URI, not excluded by the image config.
pub open spec fn optimizable(src: Seq<char>, exclude: Seq<Seq<char>>) -> bool {
    &&& !has_prefix(src, "http://"@)
    &&& !has_prefix(src, "https://"@)
    &&& !has_prefix(src, "data:"@)
    &&& !crate::build::content_hash::excluded_by(exclude, trim_start_char(src, '/'), exclude.len() as int)
}

/// The distinct optimizable sources of `srcs`, first occurrences first.
pub open spec fn to_optimize(srcs: Seq<Seq<char>>, exclude: Seq<Seq<char>>) -> Seq<Seq<char>>
    decreases srcs.len(),
{
    if srcs.len() == 0 {
        seq![]
    } else {
        let rest = to_optimize(srcs.drop_last(), exclude);
        let s = srcs.last();
        if optimizable(s, exclude) && !rest.contains(s) {
            rest.push(s)
        } else {
            rest
        }
    }
}

/// Collect all `<img src="...">` values of a page, in document order.
pub fn collect_img_srcs(html: &str) -> (r: Result<Vec<String>, ImageRewriteError>)
    ensures
        match r {
            Ok(v) => img_srcs(html@) == Some(strs_view(v@)),
            Err(_) => img_srcs(html@) is None,
        },
{
    let (tags, ok) = scan_tags(html, "img[src]");
    if !ok {
        return Err(ImageRewriteError::Rewriter);
    }
    let ghost tv = tags_view(tags@);
    let mut srcs: Vec<String> = Vec::new();
    let mut k: usize = 0;
    while k < tags.len()
        invariant
            k <= tags@.len(),
            tv == tags_view(tags@),
            strs_view(srcs@) == srcs_of(tv.subrange(0, k as int)),
        decreases tags@.len() - k,
    {
        assert(tv.subrange(0, k + 1).drop_last() =~= tv.subrange(0, k as int));
        assert(tv.subrange(0, k + 1).last().1 == attrs_view(tags@[k as int].attrs@));
        let ghost before = strs_view(srcs@);
        match get_attr(&tags[k].attrs, "src") {
            Some(s) => {
                srcs.push(s.clone());
                assert(strs_view(srcs@) =~= before.push(s@));
            },
            None => {},
        }
        k = k + 1;
    }
    assert(tv.subrange(0, tv.len() as int) =~= tv);
    Ok(srcs)
}

/// The images of a page to hand to the optimizer: the distinct local
/// `<img src>` values not excluded by `config.exclude` (matched without
/// leading slashes).
pub fn images_to_optimize(html: &str, config: &ImageOptimConfig) -> (r: Result<Vec<String>, ImageRewriteError>)
    ensures
        match r {
            Ok(v) => img_srcs(html@) matches Some(s) && strs_view(v@) == to_optimize(s, strs_view(config.exclude@)),
            Err(_) => img_srcs(html@) is None,
        },
{
    let srcs = match collect_img_srcs(html) {
        Ok(s) => s,
        Err(e) => return Err(e),
    };
    let ghost sv = strs_view(srcs@);
    let ghost ex = strs_view(config.exclude@);
    let mut out: Vec<String> = Vec::new();
    let mut i: usize = 0;
    while i < srcs.len()
        invariant
            i <= srcs@.len(),
            sv == strs_view(srcs@),
            ex == strs_view(config.exclude@),
            strs_view(out@) == to_optimize(sv.subrange(0, i as int), ex),
        decreases srcs@.len() - i,
    {
        let s = &srcs[i];
        assert(sv.subrange(0, i + 1).drop_last() =~= sv.subrange(0, i as int));
        assert(sv.subrange(0, i + 1).last() == s@);
        let local = !starts_with(s.as_str(), "http://") && !starts_with(s.as_str(), "https://") && !starts_with(s.as_str(), "data:");
        if local {
            let check = trim_start_char_exec(s.as_str(), '/');
            if !crate::build::content_hash::is_excluded(check.as_str(), config.exclude.as_slice())
                && !crate::text::list_contains(out.as_slice(), s.as_str()) {
                let ghost before = strs_view(out@);
                out.push(s.clone());
                assert(strs_view(out@) =~= before.push(s@));
            }
        }
        i = i + 1;
    }
    assert(sv.subrange(0, sv.len() as int) =~= sv);
    Ok(out)
}

/// Rewrite the images of a page. With optimization disabled only lazy
/// loading is applied; otherwise each image with variants in
/// `variant_map` (the optimizer's results for `images_to_optimize`)
/// becomes a `<picture>`, and every image gets its loading attributes.
pub fn optimize_and_rewrite_images(
    html: &str,
    config: &ImageOptimConfig,
    variant_map: &Vec<(String, ImageVariants)>,
    hero_image: Option<&str>,
) -> (r: Result<String, ImageRewriteError>)
    ensures
        ({
            let hero = match hero_image { Some(h) => Some(h@), None => None };
            let expected = if config.optimize { images_rewritten(html@, hero, variant_map@) } else { images_rewritten(html@, hero, seq![]) };
            match r {
                Ok(s) => expected == Some(s@),
                Err(_) => expected is None,
            }
        }),
{
    if !config.optimize {
        return apply_lazy_loading(html, hero_image);
    }
    rewrite_img_to_picture(html, variant_map, hero_image)
}


// ---------------------------------------------------------------------------
// CSS background images
// ---------------------------------------------------------------------------

/// The pattern of a CSS background declaration with a `url(...)`; group 1
/// is the URL.
pub open spec fn background_pattern() -> Seq<char> {
    "(?i)background(?:-image)?\\s*:[^;]*url\\(\\s*['\"]?([^'\")\\s]+)['\"]?\\s*\\)"@
}

/// The first group of each match.
pub open spec fn first_groups(ms: Seq<Seq<Option<Seq<char>>>>) -> Seq<Seq<char>>
    decreases ms.len(),
{
    if ms.len() == 0 {
        seq![]
    } else {
        let rest = first_groups(ms.drop_last());
        let g = ms.last();
        if g.len() > 1 {
            match g[1] {
                Some(u) => rest.push(u),
                None => rest,
            }
        } else {
            rest
        }
    }
}

/// The images referenced by CSS backgrounds of a page (in `<style>`
/// blocks and `style` attributes) to hand to the optimizer: the distinct
/// local URLs not excluded, first occurrences first; none when
/// optimization is off.
pub open spec fn background_images(html: Seq<char>, config: ImageOptimConfig) -> Seq<Seq<char>> {
    if !config.optimize || !crate::regexp::regex_compiles(background_pattern()) {
        seq![]
    } else {
        to_optimize(first_groups(crate::regexp::regex_all_capture_groups(background_pattern(), html)), strs_view(config.exclude@))
    }
}

/// Collect the images referenced by CSS `background`/`background-image`
/// `url(...)` declarations of a page that the optimizer should handle.
pub fn css_background_images(html: &str, config: &ImageOptimConfig) -> (r: Vec<String>)
    ensures
        strs_view(r@) == background_images(html@, *config),
{
    if !config.optimize {
        let v: Vec<String> = Vec::new();
        assert(strs_view(v@) =~= Seq::<Seq<char>>::empty());
        return v;
    }
    let pattern = "(?i)background(?:-image)?\\s*:[^;]*url\\(\\s*['\"]?([^'\")\\s]+)['\"]?\\s*\\)";
    let matches = match crate::regexp::regex_captures_all(pattern, html) {
        Some(m) => m,
        None => {
            let v: Vec<String> = Vec::new();
            assert(strs_view(v@) =~= Seq::<Seq<char>>::empty());
            return v;
        },
    };
    let ghost mv = crate::regexp::groups_view(matches@);
    let ghost ex = strs_view(config.exclude@);
    let mut urls: Vec<String> = Vec::new();
    let mut i: usize = 0;
    assert(strs_view(urls@) =~= to_optimize(first_groups(mv.subrange(0, 0)), ex));
    while i < matches.len()
        invariant
            i <= matches@.len(),
            mv == crate::regexp::groups_view(matches@),
            ex == strs_view(config.exclude@),
            strs_view(urls@) == to_optimize(first_groups(mv.subrange(0, i as int)), ex),
        decreases matches@.len() - i,
    {
        assert(mv.subrange(0, i + 1).drop_last() =~= mv.subrange(0, i as int));
        assert(mv.subrange(0, i + 1).last() == crate::regexp::opt_strs_view(matches@[i as int]@));
        let g = &matches[i];
        if g.len() > 1 {
            assert(crate::regexp::opt_strs_view(g@)[1] == opt_view(g@[1]));
            match &g[1] {
                Some(u) => {
                    let ghost fg = first_groups(mv.subrange(0, i as int));
                    assert(first_groups(mv.subrange(0, i + 1)) == fg.push(u@));
                    assert(fg.push(u@).drop_last() =~= fg);
                    let s = u.as_str();
                    let local = !starts_with(s, "http://") && !starts_with(s, "https://") && !starts_with(s, "data:");
                    if local {
                        let check = trim_start_char_exec(s, '/');
                        if !crate::build::content_hash::is_excluded(check.as_str(), config.exclude.as_slice())
                            && !crate::text::list_contains(urls.as_slice(), s) {
                            let ghost before = strs_view(urls@);
                            urls.push(u.clone());
                            assert(strs_view(urls@) =~= before.push(u@));
                        }
                    }
                },
                None => {},
            }
        }
        i = i + 1;
    }
    assert(mv.subrange(0, mv.len() as int) =~= mv);
    urls
}

/// The URL that replaces an image in CSS: the largest variant of its WebP
/// variants, else of its AVIF variants.
pub open spec fn background_replacement(v: ImageVariants) -> Option<Seq<char>> {
    let fmts = variants_view(v).0;
    let chosen = match format_entry(fmts, "webp"@, 0) {
        Some(vs) => Some(vs),
        None => format_entry(fmts, "avif"@, 0),
    };
    match chosen {
        Some(vs) => if vs.len() > 0 {
            Some(vs.last().0)
        } else {
            None
        },
        None => None,
    }
}

/// The page with each optimized image's URL replaced, in the order of the
/// map, by its replacement.
pub open spec fn backgrounds_rewritten(html: Seq<char>, map: Seq<(String, ImageVariants)>) -> Seq<char>
    decreases map.len(),
{
    if map.len() == 0 {
        html
    } else {
        let h = backgrounds_rewritten(html, map.drop_last());
        match background_replacement(map.last().1) {
            Some(u) => crate::text::replace_all(h, map.last().0@, u),
            None => h,
        }
    }
}

/// Rewrite CSS background image URLs of a page to the optimized variants
/// (`variant_map`, the optimizer's results for `css_background_images`):
/// every occurrence of an image's URL becomes the URL of its largest WebP
/// variant, else of its largest AVIF variant. Unchanged when optimization
/// is off.
pub fn rewrite_css_background_images(html: &str, config: &ImageOptimConfig, variant_map: &Vec<(String, ImageVariants)>) -> (r: String)
    ensures
        r@ == (if config.optimize { backgrounds_rewritten(html@, variant_map@) } else { html@ }),
{
    if !config.optimize {
        return owned(html);
    }
    let mut result = owned(html);
    let mut i: usize = 0;
    while i < variant_map.len()
        invariant
            i <= variant_map@.len(),
            result@ == backgrounds_rewritten(html@, variant_map@.subrange(0, i as int)),
        decreases variant_map@.len() - i,
    {
        assert(variant_map@.subrange(0, i + 1).drop_last() =~= variant_map@.subrange(0, i as int));
        assert(variant_map@.subrange(0, i + 1).last() == variant_map@[i as int]);
        let (url, variants) = (&variant_map[i].0, &variant_map[i].1);
        assert(variants_fmts(variants.by_format@) == variants_view(*variants).0);
        let chosen = match find_format(&variants.by_format, "webp") {
            Some(vs) => Some(vs),
            None => find_format(&variants.by_format, "avif"),
        };
        match chosen {
            Some(vs) => {
                if vs.len() > 0 {
                    let last = &vs[vs.len() - 1];
                    result = crate::text::str_replace(result.as_str(), url.as_str(), last.url_path.as_str());
                }
            },
            None => {},
        }
        i = i + 1;
    }
    assert(variant_map@.subrange(0, variant_map@.len() as int) =~= variant_map@);
    result
}

} // verus!
