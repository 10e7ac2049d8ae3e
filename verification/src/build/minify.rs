//! HTML minification with `minify-html`: the final transformation of a
//! rendered page before it is written (inline CSS and JavaScript included).

use vstd::prelude::*;
use vstd::utf8::{decode_utf8, valid_utf8};

verus! {

/// The settings handed to the minifier; every setting not named here is
/// off.
#[derive(Clone, Copy, PartialEq, Eq, Structural)]
pub struct MinifyOptions {
    pub minify_css: bool,
    pub minify_js: bool,
    pub minify_doctype: bool,
    pub keep_comments: bool,
    pub keep_ssi_comments: bool,
    pub allow_noncompliant_unquoted_attribute_values: bool,
    pub allow_optimal_entities: bool,
    pub allow_removing_spaces_between_attributes: bool,
}

/// The settings for production output: CSS, JavaScript and the doctype
/// minified, comments removed, and none of the optimisations that could
/// produce non-compliant HTML.
pub open spec fn production_options() -> MinifyOptions {
    MinifyOptions {
        minify_css: true,
        minify_js: true,
        minify_doctype: true,
        keep_comments: false,
        keep_ssi_comments: false,
        allow_noncompliant_unquoted_attribute_values: false,
        allow_optimal_entities: false,
        allow_removing_spaces_between_attributes: false,
    }
}

/// What `minify_html::minify` makes of the bytes `src` with the settings
/// `opts`.
pub uninterp spec fn minified(src: Seq<u8>, opts: MinifyOptions) -> Seq<u8>;

/// Minify an HTML text, by its UTF-8 bytes.
///
/// Trusted: calls `minify_html::minify` on the text's bytes with a
/// configuration whose named fields are copied from `opts` and whose other
/// fields keep their default (`false`); its result is taken to depend on
/// these alone. The input is text, so the bytes are valid UTF-8 (the CSS
/// minifier panics on style content that is not).
#[verifier::external_body]
fn minify_bytes(src: &str, opts: &MinifyOptions) -> (r: Vec<u8>)
    ensures
        r@ == minified(vstd::utf8::encode_utf8(src@), *opts),
{
    let mut cfg = minify_html::Cfg::new();
    cfg.minify_css = opts.minify_css;
    cfg.minify_js = opts.minify_js;
    cfg.minify_doctype = opts.minify_doctype;
    cfg.keep_comments = opts.keep_comments;
    cfg.keep_ssi_comments = opts.keep_ssi_comments;
    cfg.allow_noncompliant_unquoted_attribute_values = opts.allow_noncompliant_unquoted_attribute_values;
    cfg.allow_optimal_entities = opts.allow_optimal_entities;
    cfg.allow_removing_spaces_between_attributes = opts.allow_removing_spaces_between_attributes;
    minify_html::minify(src.as_bytes(), &cfg)
}

/// Decode UTF-8 bytes.
///
/// Trusted: calls `String::from_utf8`, which std documents as failing
/// exactly when the bytes are not valid UTF-8, and otherwise returning the
/// decoded string.
#[verifier::external_body]
fn string_from_utf8(bytes: Vec<u8>) -> (r: Option<String>)
    ensures
        match r {
            Some(s) => valid_utf8(bytes@) && s@ == decode_utf8(bytes@),
            None => !valid_utf8(bytes@),
        },
{
    String::from_utf8(bytes).ok()
}

/// The settings for production output.
pub fn build_cfg() -> (r: MinifyOptions)
    ensures
        r == production_options(),
{
    MinifyOptions {
        minify_css: true,
        minify_js: true,
        minify_doctype: true,
        keep_comments: false,
        keep_ssi_comments: false,
        allow_noncompliant_unquoted_attribute_values: false,
        allow_optimal_entities: false,
        allow_removing_spaces_between_attributes: false,
    }
}

/// The text of the minified bytes, or the input when they are not valid
/// UTF-8.
pub open spec fn text_or_input(input: Seq<char>, out: Seq<u8>) -> Seq<char> {
    if valid_utf8(out) {
        decode_utf8(out)
    } else {
        input
    }
}

/// The minified page: the minifier's output with the production settings,
/// or the input unchanged when that output is not valid UTF-8.
pub open spec fn minify_result(html: Seq<char>) -> Seq<char> {
    text_or_input(html, minified(vstd::utf8::encode_utf8(html), production_options()))
}

/// Turn the minifier's output back into text: the decoded bytes, or the
/// original `html` when they are not valid UTF-8.
pub fn minified_text(html: &str, out: Vec<u8>) -> (r: String)
    ensures
        r@ == text_or_input(html@, out@),
{
    match string_from_utf8(out) {
        Some(s) => s,
        None => crate::text::owned(html),
    }
}

/// Minify an HTML page (inline CSS and JavaScript included) with the
/// production settings; a result that is not valid UTF-8 gives the input
/// back unchanged.
pub fn minify_html(html: &str) -> (r: String)
    ensures
        r@ == minify_result(html@),
{
    let cfg = build_cfg();
    let out = minify_bytes(html, &cfg);
    minified_text(html, out)
}

} // verus!
