//! Hero image preload: find the hero image of a page, take its responsive
//! variants from a `<picture>` element or from the variant files beside it
//! in `dist/`, and describe the `<link rel="preload">` for it.

use std::path::Path;
use vstd::prelude::*;
use crate::build::content_hash::{glob_match, glob_pattern_matches, glob_pattern_valid};
use crate::regexp::{opt_strs_view, regex_capture_groups, regex_captures, regex_compiles, regex_escape, regex_escaped};
use crate::html::{attr_of, attrs_view, get_attr, has_attr, has_attr_exec, scan_tags, scanned_tags, tags_view, HtmlTag};
use crate::text::{
    ascii_lower, ascii_lower_exec, concat2, lowercase_of, unicode_lower, decimal, decimal_string, owned, parse_u32, parse_u32_spec, str_eq, strs_view,
    trim_exec, trim_start_char, trim_start_char_exec, trim_ws,
};

verus! {

/// What a hero image `<link rel="preload">` says.
#[derive(Debug, Clone, PartialEq)]
pub struct HeroPreload {
    /// The image URL path (e.g. `/assets/hero.jpg`).
    pub href: String,
    /// MIME type of the image (e.g. `image/avif`).
    pub mime_type: String,
    /// The srcset of the responsive variants, if any.
    pub imagesrcset: Option<String>,
    /// The `imagesizes` value (e.g. `100vw`).
    pub imagesizes: Option<String>,
}

/// The content of a preload hint.
pub struct PreloadView {
    pub href: Seq<char>,
    pub mime_type: Seq<char>,
    pub imagesrcset: Option<Seq<char>>,
    pub imagesizes: Option<Seq<char>>,
}

/// The content of a preload hint.
pub open spec fn preload_view(p: HeroPreload) -> PreloadView {
    PreloadView {
        href: p.href@,
        mime_type: p.mime_type@,
        imagesrcset: crate::text::opt_view(p.imagesrcset),
        imagesizes: crate::text::opt_view(p.imagesizes),
    }
}

/// The optional content of a preload hint.
pub open spec fn opt_preload_view(p: Option<HeroPreload>) -> Option<PreloadView> {
    match p {
        Some(x) => Some(preload_view(x)),
        None => None,
    }
}

// ---------------------------------------------------------------------------
// Paths
// ---------------------------------------------------------------------------

/// The file stem of a path (`Path::file_stem`), as text.
pub uninterp spec fn file_stem_of(p: Seq<char>) -> Option<Seq<char>>;

/// The parent of a path (`Path::parent`), as text.
pub uninterp spec fn parent_of(p: Seq<char>) -> Option<Seq<char>>;

/// The extension of a path (`Path::extension`), as text.
pub uninterp spec fn extension_of(p: Seq<char>) -> Option<Seq<char>>;

/// The file stem of a path.
///
/// Trusted: calls `Path::file_stem` on the path of `p`; the stem of a path
/// made from text is text.
#[verifier::external_body]
fn path_file_stem(p: &str) -> (r: Option<String>)
    ensures
        crate::text::opt_view(r) == file_stem_of(p@),
{
    Path::new(p).file_stem().and_then(|s| s.to_str()).map(|s| s.to_string())
}

/// The parent of a path.
///
/// Trusted: calls `Path::parent` on the path of `p`; the parent of a path
/// made from text is text.
#[verifier::external_body]
fn path_parent(p: &str) -> (r: Option<String>)
    ensures
        crate::text::opt_view(r) == parent_of(p@),
{
    Path::new(p).parent().and_then(|s| s.to_str()).map(|s| s.to_string())
}

/// The extension of a path.
///
/// Trusted: calls `Path::extension` on the path of `p`; the extension of a
/// path made from text is text.
#[verifier::external_body]
pub(crate) fn path_extension(p: &str) -> (r: Option<String>)
    ensures
        crate::text::opt_view(r) == extension_of(p@),
{
    Path::new(p).extension().and_then(|s| s.to_str()).map(|s| s.to_string())
}

// ---------------------------------------------------------------------------
// MIME types
// ---------------------------------------------------------------------------

/// The MIME type of an image file by its lowercased extension,
/// JPEG when the extension is unknown or missing.
pub open spec fn mime_of(path: Seq<char>) -> Seq<char> {
    let ext = match extension_of(path) {
        Some(e) => unicode_lower(e),
        None => seq![],
    };
    if ext == "jpg"@ || ext == "jpeg"@ {
        "image/jpeg"@
    } else if ext == "png"@ {
        "image/png"@
    } else if ext == "webp"@ {
        "image/webp"@
    } else if ext == "avif"@ {
        "image/avif"@
    } else if ext == "gif"@ {
        "image/gif"@
    } else if ext == "svg"@ {
        "image/svg+xml"@
    } else if ext == "bmp"@ {
        "image/bmp"@
    } else if ext == "tiff"@ || ext == "tif"@ {
        "image/tiff"@
    } else {
        "image/jpeg"@
    }
}

/// Infer the MIME type of an image from its path's extension.
pub fn infer_mime_type(path: &str) -> (r: String)
    ensures
        r@ == mime_of(path@),
{
    let ext = match path_extension(path) {
        Some(e) => lowercase_of(e.as_str()),
        None => String::new(),
    };
    let e = ext.as_str();
    let m = if str_eq(e, "jpg") || str_eq(e, "jpeg") {
        "image/jpeg"
    } else if str_eq(e, "png") {
        "image/png"
    } else if str_eq(e, "webp") {
        "image/webp"
    } else if str_eq(e, "avif") {
        "image/avif"
    } else if str_eq(e, "gif") {
        "image/gif"
    } else if str_eq(e, "svg") {
        "image/svg+xml"
    } else if str_eq(e, "bmp") {
        "image/bmp"
    } else if str_eq(e, "tiff") || str_eq(e, "tif") {
        "image/tiff"
    } else {
        "image/jpeg"
    };
    owned(m)
}

// ---------------------------------------------------------------------------
// Hero detection
// ---------------------------------------------------------------------------

/// The value of an attribute, or the empty text.
pub open spec fn attr_or_empty(attrs: Seq<(Seq<char>, Seq<char>)>, name: Seq<char>) -> Seq<char> {
    match attr_of(attrs, name) {
        Some(v) => v,
        None => seq![],
    }
}

/// An attribute parsed as a `u32`.
pub open spec fn attr_u32(attrs: Seq<(Seq<char>, Seq<char>)>, name: Seq<char>) -> Option<u32> {
    match attr_of(attrs, name) {
        Some(v) => parse_u32_spec(v),
        None => None,
    }
}

/// The `src` of an image that can be the hero: not lazy-loaded, not a
/// small icon (both dimensions under 100), not decorative
/// (`role="presentation"` or empty `alt`), with a non-empty `src`.
pub open spec fn hero_candidate(attrs: Seq<(Seq<char>, Seq<char>)>) -> Option<Seq<char>> {
    let lazy = match attr_of(attrs, "loading"@) {
        Some(l) => ascii_lower(l) == "lazy"@,
        None => false,
    };
    let small = match (attr_u32(attrs, "width"@), attr_u32(attrs, "height"@)) {
        (Some(w), Some(h)) => w < 100 && h < 100,
        _ => false,
    };
    let decorative = attr_of(attrs, "role"@) == Some("presentation"@) || attr_of(attrs, "alt"@) == Some(Seq::<char>::empty());
    if lazy || small || decorative {
        None
    } else {
        match attr_of(attrs, "src"@) {
            Some(s) => if s.len() > 0 { Some(s) } else { None },
            None => None,
        }
    }
}

/// The first image of `tags` that can be the hero.
pub open spec fn first_hero(tags: Seq<(Seq<char>, Seq<(Seq<char>, Seq<char>)>)>) -> Option<Seq<char>>
    decreases tags.len(),
{
    if tags.len() == 0 {
        None
    } else {
        match first_hero(tags.drop_last()) {
            Some(x) => Some(x),
            None => hero_candidate(tags.last().1),
        }
    }
}

/// The automatically detected hero image of a page.
pub open spec fn detected_hero(html: Seq<char>) -> Option<Seq<char>> {
    first_hero(scanned_tags(html, "img[src]"@).0)
}

/// Whether an attribute equals `lazy` ignoring ASCII case.
fn is_lazy(attrs: &Vec<(String, String)>) -> (r: bool)
    ensures
        r == (match attr_of(attrs_view(attrs@), "loading"@) {
            Some(l) => ascii_lower(l) == "lazy"@,
            None => false,
        }),
{
    match get_attr(attrs, "loading") {
        Some(l) => {
            let low = ascii_lower_exec(l.as_str());
            str_eq(low.as_str(), "lazy")
        },
        None => false,
    }
}

/// An attribute parsed as a `u32`.
fn attr_u32_exec(attrs: &Vec<(String, String)>, name: &str) -> (r: Option<u32>)
    ensures
        r == attr_u32(attrs_view(attrs@), name@),
{
    match get_attr(attrs, name) {
        Some(v) => parse_u32(v.as_str()),
        None => None,
    }
}

/// The hero candidate of one image.
fn hero_candidate_exec(attrs: &Vec<(String, String)>) -> (r: Option<String>)
    ensures
        crate::text::opt_view(r) == hero_candidate(attrs_view(attrs@)),
{
    let lazy = is_lazy(attrs);
    let small = match (attr_u32_exec(attrs, "width"), attr_u32_exec(attrs, "height")) {
        (Some(w), Some(h)) => w < 100 && h < 100,
        _ => false,
    };
    let role = match get_attr(attrs, "role") {
        Some(r) => str_eq(r.as_str(), "presentation"),
        None => false,
    };
    let empty_alt = match get_attr(attrs, "alt") {
        Some(a) => {
            let e = a.as_str().is_empty();
            if e {
                assert(a@ =~= Seq::<char>::empty());
            }
            e
        },
        None => false,
    };
    proof {
        reveal_strlit("presentation");
    }
    if lazy || small || role || empty_alt {
        return None;
    }
    match get_attr(attrs, "src") {
        Some(s) => if s.as_str().is_empty() {
            None
        } else {
            Some(s.clone())
        },
        None => None,
    }
}

/// Auto-detect the hero image: the first `<img>` that is not lazy-loaded,
/// not a small icon and not decorative, and has a non-empty `src`.
pub fn auto_detect_hero_image(html: &str) -> (r: Option<String>)
    ensures
        crate::text::opt_view(r) == detected_hero(html@),
{
    let (tags, _ok) = scan_tags(html, "img[src]");
    let ghost tv = tags_view(tags@);
    let mut i: usize = 0;
    while i < tags.len()
        invariant
            i <= tags@.len(),
            tv == tags_view(tags@),
            scanned_tags(html@, "img[src]"@).0 == tv,
            first_hero(tv.subrange(0, i as int)) is None,
        decreases tags@.len() - i,
    {
        assert(tv.subrange(0, i + 1).drop_last() =~= tv.subrange(0, i as int));
        assert(tv.subrange(0, i + 1).last() == tv[i as int]);
        match hero_candidate_exec(&tags[i].attrs) {
            Some(s) => {
                proof {
                    assert(tv[i as int].1 == attrs_view(tags@[i as int].attrs@));
                    assert(first_hero(tv.subrange(0, i + 1)) == Some(s@));
                    lemma_first_hero_prefix(tv, i as int + 1);
                }
                return Some(s);
            },
            None => {},
        }
        i = i + 1;
    }
    assert(tv.subrange(0, tv.len() as int) =~= tv);
    None
}

/// Once a prefix of the tags has a hero, every longer prefix has the same.
pub proof fn lemma_first_hero_prefix(tv: Seq<(Seq<char>, Seq<(Seq<char>, Seq<char>)>)>, n: int)
    requires
        0 <= n <= tv.len(),
        first_hero(tv.subrange(0, n)) is Some,
    ensures
        first_hero(tv) == first_hero(tv.subrange(0, n)),
    decreases tv.len() - n,
{
    if n < tv.len() {
        assert(tv.subrange(0, n + 1).drop_last() =~= tv.subrange(0, n));
        lemma_first_hero_prefix(tv, n + 1);
    } else {
        assert(tv.subrange(0, n) =~= tv);
    }
}

/// The hero image of a page: the frontmatter's (trimmed, when not empty),
/// else the detected one when detection is on.
pub open spec fn hero_image(html: Seq<char>, frontmatter_hero: Option<Seq<char>>, auto_detect: bool) -> Option<Seq<char>> {
    match frontmatter_hero {
        Some(h) if trim_ws(h).len() > 0 => Some(trim_ws(h)),
        _ => if auto_detect {
            detected_hero(html)
        } else {
            None
        },
    }
}

/// Determine the hero image URL for a page: the frontmatter's first, then
/// (when enabled) the first qualifying `<img>`.
pub fn resolve_hero_image(html: &str, frontmatter_hero: Option<&str>, auto_detect: bool) -> (r: Option<String>)
    ensures
        crate::text::opt_view(r) == hero_image(html@, match frontmatter_hero {
            Some(h) => Some(h@),
            None => None,
        }, auto_detect),
{
    match frontmatter_hero {
        Some(h) => {
            let t = trim_exec(h);
            if !t.as_str().is_empty() {
                return Some(t);
            }
        },
        None => {},
    }
    if auto_detect {
        auto_detect_hero_image(html)
    } else {
        None
    }
}

// ---------------------------------------------------------------------------
// Variants from a <picture> element
// ---------------------------------------------------------------------------

/// What the scan of `<picture>` elements has gathered: inside a picture,
/// the hero's `<img>` seen, the first `<source>` (srcset, type) of the
/// current picture, and the `sizes` of the hero's `<img>`.
pub struct PictureState {
    pub in_picture: bool,
    pub found: bool,
    pub source: Option<(Seq<char>, Seq<char>)>,
    pub sizes: Option<Seq<char>>,
}

/// The state after one start tag.
pub open spec fn picture_step(s: PictureState, hero: Seq<char>, name: Seq<char>, attrs: Seq<(Seq<char>, Seq<char>)>) -> PictureState {
    if name == "picture"@ {
        PictureState { in_picture: true, source: None, sizes: None, ..s }
    } else if name == "source"@ && has_attr(attrs, "srcset"@) {
        let srcset = attr_or_empty(attrs, "srcset"@);
        let ty = attr_or_empty(attrs, "type"@);
        if s.in_picture && s.source is None && srcset.len() > 0 && ty.len() > 0 {
            PictureState { source: Some((srcset, ty)), ..s }
        } else {
            s
        }
    } else if name == "img"@ && has_attr(attrs, "src"@) && s.in_picture {
        if attr_of(attrs, "src"@) == Some(hero) {
            PictureState {
                in_picture: false,
                found: true,
                sizes: if has_attr(attrs, "sizes"@) { attr_of(attrs, "sizes"@) } else { s.sizes },
                ..s
            }
        } else {
            PictureState { in_picture: false, ..s }
        }
    } else {
        s
    }
}

/// The state after the tags.
pub open spec fn picture_fold(hero: Seq<char>, tags: Seq<(Seq<char>, Seq<(Seq<char>, Seq<char>)>)>) -> PictureState
    decreases tags.len(),
{
    if tags.len() == 0 {
        PictureState { in_picture: false, found: false, source: None, sizes: None }
    } else {
        let s = picture_fold(hero, tags.drop_last());
        picture_step(s, hero, tags.last().0, tags.last().1)
    }
}

/// The preload read from the `<picture>` holding the hero image: the
/// first `<source>`'s srcset and type, and the `<img>`'s `sizes` (or the
/// fallback); `None` when no picture holds it or it has no such source.
pub open spec fn picture_preload(hero: Seq<char>, html: Seq<char>, fallback: Seq<char>) -> Option<PreloadView> {
    let s = picture_fold(hero, scanned_tags(html, "picture, source[srcset], img[src]"@).0);
    if !s.found {
        None
    } else {
        match s.source {
            Some((srcset, ty)) => Some(PreloadView {
                href: hero,
                mime_type: ty,
                imagesrcset: Some(srcset),
                imagesizes: Some(match s.sizes {
                    Some(z) => z,
                    None => fallback,
                }),
            }),
            None => None,
        }
    }
}

/// The state of the picture scan, executable.
struct PictureScan {
    in_picture: bool,
    found: bool,
    source: Option<(String, String)>,
    sizes: Option<String>,
}

/// The content of a picture scan state.
spec fn picture_scan_view(p: PictureScan) -> PictureState {
    PictureState {
        in_picture: p.in_picture,
        found: p.found,
        source: match p.source {
            Some((a, b)) => Some((a@, b@)),
            None => None,
        },
        sizes: crate::text::opt_view(p.sizes),
    }
}

/// An attribute's value, or the empty text.
fn attr_or_empty_exec(attrs: &Vec<(String, String)>, name: &str) -> (r: String)
    ensures
        r@ == attr_or_empty(attrs_view(attrs@), name@),
{
    match get_attr(attrs, name) {
        Some(v) => v.clone(),
        None => String::new(),
    }
}

/// One start tag of the picture scan.
fn picture_scan_step(st: &mut PictureScan, hero: &str, t: &HtmlTag)
    ensures
        picture_scan_view(*final(st)) == picture_step(picture_scan_view(*old(st)), hero@, t.name@, attrs_view(t.attrs@)),
{
    let name = t.name.as_str();
    let attrs = &t.attrs;
    if str_eq(name, "picture") {
        st.in_picture = true;
        st.source = None;
        st.sizes = None;
    } else if str_eq(name, "source") && has_attr_exec(attrs, "srcset") {
        let srcset = attr_or_empty_exec(attrs, "srcset");
        let ty = attr_or_empty_exec(attrs, "type");
        if st.in_picture && st.source.is_none() && !srcset.as_str().is_empty() && !ty.as_str().is_empty() {
            st.source = Some((srcset, ty));
        }
    } else if str_eq(name, "img") && has_attr_exec(attrs, "src") && st.in_picture {
        let is_hero = match get_attr(attrs, "src") {
            Some(s) => str_eq(s.as_str(), hero),
            None => false,
        };
        if is_hero {
            st.found = true;
            match get_attr(attrs, "sizes") {
                Some(z) => {
                    st.sizes = Some(z.clone());
                },
                None => {},
            }
        }
        st.in_picture = false;
    }
}

/// Extract preload data from a `<picture>` element whose `<img>` has the
/// hero's `src`: the srcset and type of the picture's first `<source>`.
pub fn extract_from_picture(hero_src: &str, html: &str, image_sizes_fallback: &str) -> (r: Option<HeroPreload>)
    ensures
        opt_preload_view(r) == picture_preload(hero_src@, html@, image_sizes_fallback@),
{
    let (tags, _ok) = scan_tags(html, "picture, source[srcset], img[src]");
    let ghost tv = tags_view(tags@);
    let mut st = PictureScan { in_picture: false, found: false, source: None, sizes: None };
    let mut i: usize = 0;
    assert(tv.subrange(0, 0) =~= Seq::<(Seq<char>, Seq<(Seq<char>, Seq<char>)>)>::empty());
    while i < tags.len()
        invariant
            i <= tags@.len(),
            tv == tags_view(tags@),
            picture_scan_view(st) == picture_fold(hero_src@, tv.subrange(0, i as int)),
        decreases tags@.len() - i,
    {
        assert(tv.subrange(0, i + 1).drop_last() =~= tv.subrange(0, i as int));
        assert(tv.subrange(0, i + 1).last() == tv[i as int]);
        picture_scan_step(&mut st, hero_src, &tags[i]);
        i = i + 1;
    }
    assert(tv.subrange(0, tv.len() as int) =~= tv);
    if !st.found {
        return None;
    }
    match st.source {
        Some((srcset, ty)) => {
            let sizes = match st.sizes {
                Some(z) => z,
                None => owned(image_sizes_fallback),
            };
            Some(HeroPreload { href: owned(hero_src), mime_type: ty, imagesrcset: Some(srcset), imagesizes: Some(sizes) })
        },
        None => None,
    }
}


// ---------------------------------------------------------------------------
// Variants beside the image in dist/
// ---------------------------------------------------------------------------

/// The glob that variant file names of an image with stem `stem` match.
pub open spec fn variant_glob(stem: Seq<char>) -> Seq<char> {
    stem + "-*w-*.*"@
}

/// The regex of variant file names: stem, width, hash and format.
pub open spec fn variant_regex(stem: Seq<char>) -> Seq<char> {
    "^"@ + regex_escaped(stem) + "-(\\d+)w-[a-f0-9]+\\.(\\w+)$"@
}

/// The URL, width and format of a variant file name, when the regex
/// matches and the width parses.
pub open spec fn variant_entry(re: Seq<char>, parent: Seq<char>, name: Seq<char>) -> Option<(Seq<char>, u32, Seq<char>)> {
    match regex_capture_groups(re, name) {
        Some(g) => if g.len() > 2 {
            match (g[1], g[2]) {
                (Some(w), Some(f)) => match parse_u32_spec(w) {
                    Some(n) => Some((parent + "/"@ + name, n, f)),
                    None => None,
                },
                _ => None,
            }
        } else {
            None
        },
        None => None,
    }
}

/// The variants found so far, by format.
pub struct VariantGroups {
    pub avif: Seq<(Seq<char>, u32)>,
    pub webp: Seq<(Seq<char>, u32)>,
    pub other: Seq<(Seq<char>, u32)>,
}

/// The variants of the listed names that match the glob and the regex, by
/// format, in listing order.
pub open spec fn variant_groups(names: Seq<Seq<char>>, glob: Seq<char>, re: Seq<char>, parent: Seq<char>) -> VariantGroups
    decreases names.len(),
{
    if names.len() == 0 {
        VariantGroups { avif: seq![], webp: seq![], other: seq![] }
    } else {
        let g = variant_groups(names.drop_last(), glob, re, parent);
        let n = names.last();
        if glob_pattern_valid(glob) && glob_pattern_matches(glob, n) {
            match variant_entry(re, parent, n) {
                Some((url, w, f)) => if f == "avif"@ {
                    VariantGroups { avif: g.avif.push((url, w)), ..g }
                } else if f == "webp"@ {
                    VariantGroups { webp: g.webp.push((url, w)), ..g }
                } else {
                    VariantGroups { other: g.other.push((url, w)), ..g }
                },
                None => g,
            }
        } else {
            g
        }
    }
}

/// `s` with `x` inserted after the trailing elements of smaller or equal
/// width (so that equal widths keep their order).
pub open spec fn insert_by_width(s: Seq<(Seq<char>, u32)>, x: (Seq<char>, u32)) -> Seq<(Seq<char>, u32)>
    decreases s.len(),
{
    if s.len() == 0 {
        seq![x]
    } else if x.1 < s.last().1 {
        insert_by_width(s.drop_last(), x).push(s.last())
    } else {
        s.push(x)
    }
}

/// `s` stably sorted by width.
pub open spec fn sort_by_width(s: Seq<(Seq<char>, u32)>) -> Seq<(Seq<char>, u32)>
    decreases s.len(),
{
    if s.len() == 0 {
        seq![]
    } else {
        insert_by_width(sort_by_width(s.drop_last()), s.last())
    }
}

/// One srcset entry: `url widthw`.
pub open spec fn srcset_entry(v: (Seq<char>, u32)) -> Seq<char> {
    v.0 + " "@ + decimal(v.1 as nat) + "w"@
}

/// The srcset of the variants: their entries joined by `, `.
pub open spec fn srcset_of(s: Seq<(Seq<char>, u32)>) -> Seq<char>
    decreases s.len(),
{
    if s.len() == 0 {
        seq![]
    } else if s.len() == 1 {
        srcset_entry(s[0])
    } else {
        srcset_of(s.drop_last()) + ", "@ + srcset_entry(s.last())
    }
}

/// The directory of an image (its parent, without leading `/`), relative
/// to `dist/`, where its variants would be; `None` when the path has no
/// stem or no parent.
pub open spec fn variant_dir(hero: Seq<char>) -> Option<Seq<char>> {
    match (file_stem_of(hero), parent_of(hero)) {
        (Some(_), Some(p)) => Some(trim_start_char(p, '/')),
        _ => None,
    }
}

/// The preload built from the variant files listed beside the image
/// (`listing`, `None` when that directory cannot be read): the variants of
/// the best format (AVIF, then WebP, then the others) sorted by width.
pub open spec fn listing_preload(hero: Seq<char>, listing: Option<Seq<Seq<char>>>, fallback: Seq<char>) -> Option<PreloadView> {
    match (file_stem_of(hero), parent_of(hero), listing) {
        (Some(stem), Some(parent), Some(names)) => if !regex_compiles(variant_regex(stem)) {
            None
        } else {
            let g = variant_groups(names, variant_glob(stem), variant_regex(stem), parent);
            let best: Option<(Seq<(Seq<char>, u32)>, Seq<char>)> = if g.avif.len() > 0 {
                Some((g.avif, "image/avif"@))
            } else if g.webp.len() > 0 {
                Some((g.webp, "image/webp"@))
            } else if g.other.len() > 0 {
                Some((g.other, mime_of(g.other[0].0)))
            } else {
                None
            };
            match best {
                Some((vs, mime)) => Some(PreloadView {
                    href: hero,
                    mime_type: mime,
                    imagesrcset: Some(srcset_of(sort_by_width(vs))),
                    imagesizes: Some(fallback),
                }),
                None => None,
            }
        },
        _ => None,
    }
}

/// The directory (relative to `dist/`) whose files may be variants of the
/// image.
pub fn variant_search_dir(hero_src: &str) -> (r: Option<String>)
    ensures
        crate::text::opt_view(r) == variant_dir(hero_src@),
{
    let stem = path_file_stem(hero_src);
    let parent = path_parent(hero_src);
    match (stem, parent) {
        (Some(_), Some(p)) => Some(trim_start_char_exec(p.as_str(), '/')),
        _ => None,
    }
}

/// The views of (url, width) pairs.
pub open spec fn widths_view(v: Seq<(String, u32)>) -> Seq<(Seq<char>, u32)> {
    v.map_values(|p: (String, u32)| (p.0@, p.1))
}

/// The variant of one listed name, if it is one.
fn variant_entry_exec(re: &str, parent: &str, name: &str) -> (r: Option<Option<(String, u32, String)>>)
    ensures
        r is Some <==> regex_compiles(re@),
        match r {
            Some(Some((url, w, f))) => variant_entry(re@, parent@, name@) == Some((url@, w, f@)),
            Some(None) => variant_entry(re@, parent@, name@) is None,
            None => true,
        },
{
    let caps = match regex_captures(re, name) {
        Some(c) => c,
        None => return None,
    };
    let groups = match caps {
        Some(g) => g,
        None => return Some(None),
    };
    let ghost gv = opt_strs_view(groups@);
    if groups.len() <= 2 {
        return Some(None);
    }
    assert(gv[1] == crate::text::opt_view(groups@[1]));
    assert(gv[2] == crate::text::opt_view(groups@[2]));
    match (&groups[1], &groups[2]) {
        (Some(w), Some(f)) => match parse_u32(w.as_str()) {
            Some(n) => {
                let mut url = owned(parent);
                url.append("/");
                url.append(name);
                Some(Some((url, n, f.clone())))
            },
            None => Some(None),
        },
        _ => Some(None),
    }
}

/// Insert a variant into a width-sorted list, after the trailing entries
/// of greater width.
fn insert_variant(v: &mut Vec<(String, u32)>, x: (String, u32))
    ensures
        widths_view(final(v)@) == insert_by_width(widths_view(old(v)@), (x.0@, x.1)),
{
    let ghost s = widths_view(v@);
    let ghost xv = (x.0@, x.1);
    let mut j: usize = v.len();
    assert(s.subrange(j as int, s.len() as int) =~= Seq::<(Seq<char>, u32)>::empty());
    assert(s.subrange(0, j as int) =~= s);
    while j > 0 && x.1 < v[j - 1].1
        invariant
            j <= v@.len(),
            s == widths_view(v@),
            xv == (x.0@, x.1),
            insert_by_width(s, xv) == insert_by_width(s.subrange(0, j as int), xv) + s.subrange(j as int, s.len() as int),
        decreases j,
    {
        let ghost pre = s.subrange(0, j as int);
        assert(pre.drop_last() =~= s.subrange(0, j - 1));
        assert(pre.last() == s[j - 1]);
        assert(s.subrange(j - 1, s.len() as int) =~= seq![s[j - 1]] + s.subrange(j as int, s.len() as int));
        assert(insert_by_width(pre, xv) == insert_by_width(s.subrange(0, j - 1), xv).push(s[j - 1]));
        assert(insert_by_width(s.subrange(0, j - 1), xv).push(s[j - 1]) + s.subrange(j as int, s.len() as int)
            =~= insert_by_width(s.subrange(0, j - 1), xv) + s.subrange(j - 1, s.len() as int));
        j = j - 1;
    }
    let ghost pre = s.subrange(0, j as int);
    assert(insert_by_width(pre, xv) == pre.push(xv)) by {
        if j > 0 {
            assert(pre.last() == s[j - 1]);
        } else {
            assert(pre =~= Seq::<(Seq<char>, u32)>::empty());
        }
    }
    v.insert(j, x);
    assert(widths_view(v@) =~= pre.push(xv) + s.subrange(j as int, s.len() as int));
}

/// The variants stably sorted by width.
fn sort_variants(v: Vec<(String, u32)>) -> (r: Vec<(String, u32)>)
    ensures
        widths_view(r@) == sort_by_width(widths_view(v@)),
{
    let ghost s = widths_view(v@);
    let mut out: Vec<(String, u32)> = Vec::new();
    let mut rest = v;
    let mut i: usize = 0;
    assert(widths_view(out@) =~= Seq::<(Seq<char>, u32)>::empty());
    assert(s.subrange(0, 0) =~= Seq::<(Seq<char>, u32)>::empty());
    while i < rest.len()
        invariant
            i <= rest@.len(),
            s == widths_view(rest@),
            widths_view(out@) == sort_by_width(s.subrange(0, i as int)),
        decreases rest@.len() - i,
    {
        assert(s.subrange(0, i + 1).drop_last() =~= s.subrange(0, i as int));
        assert(s.subrange(0, i + 1).last() == s[i as int]);
        let e = (rest[i].0.clone(), rest[i].1);
        insert_variant(&mut out, e);
        i = i + 1;
    }
    assert(s.subrange(0, s.len() as int) =~= s);
    out
}

/// The srcset of sorted variants.
fn srcset_string(v: &Vec<(String, u32)>) -> (r: String)
    ensures
        r@ == srcset_of(widths_view(v@)),
{
    let ghost s = widths_view(v@);
    let mut out = String::new();
    let mut i: usize = 0;
    assert(out@ =~= srcset_of(s.subrange(0, 0)));
    while i < v.len()
        invariant
            i <= v@.len(),
            s == widths_view(v@),
            out@ == srcset_of(s.subrange(0, i as int)),
        decreases v@.len() - i,
    {
        assert(s.subrange(0, i + 1).drop_last() =~= s.subrange(0, i as int));
        assert(s.subrange(0, i + 1).last() == s[i as int]);
        if i > 0 {
            out.append(", ");
        } else {
            assert(s.subrange(0, 1)[0] == s[0]);
        }
        let ghost before = out@;
        out.append(v[i].0.as_str());
        out.append(" ");
        let d = decimal_string(v[i].1 as u64);
        out.append(d.as_str());
        out.append("w");
        assert(out@ =~= before + srcset_entry(s[i as int]));
        i = i + 1;
    }
    assert(s.subrange(0, s.len() as int) =~= s);
    out
}

/// Build the preload from the variant files listed beside the image in
/// `dist/` (`listing`, `None` when that directory is missing or cannot be
/// read): file names `{stem}-{width}w-{hash}.{format}`, grouped by
/// format, preferring AVIF, then WebP, then the original format.
pub fn preload_from_listing(hero_src: &str, listing: Option<&[String]>, image_sizes_fallback: &str) -> (r: Option<HeroPreload>)
    ensures
        opt_preload_view(r) == listing_preload(hero_src@, match listing {
            Some(l) => Some(strs_view(l@)),
            None => None,
        }, image_sizes_fallback@),
{
    let stem = match path_file_stem(hero_src) {
        Some(s) => s,
        None => return None,
    };
    let parent = match path_parent(hero_src) {
        Some(p) => p,
        None => return None,
    };
    let names = match listing {
        Some(l) => l,
        None => return None,
    };
    let glob = concat2(stem.as_str(), "-*w-*.*");
    let esc = regex_escape(stem.as_str());
    let mut re = owned("^");
    re.append(esc.as_str());
    re.append("-(\\d+)w-[a-f0-9]+\\.(\\w+)$");
    assert(re@ =~= variant_regex(stem@));
    // The pattern is compiled (and tried on the empty text) before any
    // name is read: one that does not compile gives no preload.
    if regex_captures(re.as_str(), "").is_none() {
        return None;
    }
    let ghost nv = strs_view(names@);
    let mut avif: Vec<(String, u32)> = Vec::new();
    let mut webp: Vec<(String, u32)> = Vec::new();
    let mut other: Vec<(String, u32)> = Vec::new();
    let mut i: usize = 0;
    assert(widths_view(avif@) =~= Seq::<(Seq<char>, u32)>::empty());
    assert(widths_view(webp@) =~= Seq::<(Seq<char>, u32)>::empty());
    assert(widths_view(other@) =~= Seq::<(Seq<char>, u32)>::empty());
    assert(nv.subrange(0, 0) =~= Seq::<Seq<char>>::empty());
    while i < names.len()
        invariant
            i <= names@.len(),
            nv == strs_view(names@),
            regex_compiles(re@),
            (VariantGroups { avif: widths_view(avif@), webp: widths_view(webp@), other: widths_view(other@) })
                == variant_groups(nv.subrange(0, i as int), glob@, re@, parent@),
        decreases names@.len() - i,
    {
        assert(nv.subrange(0, i + 1).drop_last() =~= nv.subrange(0, i as int));
        assert(nv.subrange(0, i + 1).last() == names@[i as int]@);
        let name = names[i].as_str();
        if glob_match(glob.as_str(), name) == Some(true) {
            match variant_entry_exec(re.as_str(), parent.as_str(), name) {
                None => {},
                Some(None) => {},
                Some(Some((url, w, f))) => {
                    let ghost g = (url@, w);
                    if str_eq(f.as_str(), "avif") {
                        let ghost b = widths_view(avif@);
                        avif.push((url, w));
                        assert(widths_view(avif@) =~= b.push(g));
                    } else if str_eq(f.as_str(), "webp") {
                        let ghost b = widths_view(webp@);
                        webp.push((url, w));
                        assert(widths_view(webp@) =~= b.push(g));
                    } else {
                        let ghost b = widths_view(other@);
                        other.push((url, w));
                        assert(widths_view(other@) =~= b.push(g));
                    }
                },
            }
        }
        i = i + 1;
    }
    assert(nv.subrange(0, nv.len() as int) =~= nv);
    let (vs, mime) = if avif.len() > 0 {
        (avif, owned("image/avif"))
    } else if webp.len() > 0 {
        (webp, owned("image/webp"))
    } else if other.len() > 0 {
        let m = infer_mime_type(other[0].0.as_str());
        (other, m)
    } else {
        return None;
    };
    let sorted = sort_variants(vs);
    let srcset = srcset_string(&sorted);
    Some(HeroPreload {
        href: owned(hero_src),
        mime_type: mime,
        imagesrcset: Some(srcset),
        imagesizes: Some(owned(image_sizes_fallback)),
    })
}

/// The preload hint of the hero image: from its `<picture>`, else from
/// its variant files, else a plain one with the type inferred from the
/// extension.
pub open spec fn hero_preload(hero: Seq<char>, html: Seq<char>, listing: Option<Seq<Seq<char>>>, fallback: Seq<char>) -> PreloadView {
    match picture_preload(hero, html, fallback) {
        Some(p) => p,
        None => match listing_preload(hero, listing, fallback) {
            Some(p) => p,
            None => PreloadView { href: hero, mime_type: mime_of(hero), imagesrcset: None, imagesizes: None },
        },
    }
}

/// Build the hero preload hint: variant data from a `<picture>` holding
/// the image, else from the variant files listed beside it in `dist/`,
/// else a plain preload with the inferred type.
pub fn build_hero_preload(hero_src: &str, html: &str, listing: Option<&[String]>, image_sizes_fallback: &str) -> (r: HeroPreload)
    ensures
        preload_view(r) == hero_preload(hero_src@, html@, match listing {
            Some(l) => Some(strs_view(l@)),
            None => None,
        }, image_sizes_fallback@),
{
    if let Some(p) = extract_from_picture(hero_src, html, image_sizes_fallback) {
        return p;
    }
    if let Some(p) = preload_from_listing(hero_src, listing, image_sizes_fallback) {
        return p;
    }
    HeroPreload { href: owned(hero_src), mime_type: infer_mime_type(hero_src), imagesrcset: None, imagesizes: None }
}

} // verus!
