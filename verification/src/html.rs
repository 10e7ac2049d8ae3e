//! Start tags of an HTML document, as the streaming rewriter reports them,
//! and the few rewrites the pipeline asks of it.
//!
//! Every call into `lol_html` stands behind one of the trusted functions of
//! this module. Scans return the matched start tags (name and attributes,
//! in document order); rewrites apply an edit that was decided beforehand
//! by verified code. What `lol_html` returns is named by an uninterpreted
//! spec function of the call's arguments.

use std::borrow::Cow;
use std::cell::RefCell;
use std::rc::Rc;
use lol_html::html_content::ContentType::Html;
use lol_html::html_content::{Element, TextChunk};
use self::TagEdit::{Append, Before, Prepend, RemoveAttr, Replace, SetAttr};
use lol_html::{rewrite_str, ElementContentHandlers, RewriteStrSettings, Selector};
use vstd::prelude::*;

verus! {

/// One start tag: its lowercase name and its attributes in source order
/// (names lowercase, values as written).
pub struct HtmlTag {
    pub name: String,
    pub attrs: Vec<(String, String)>,
}

/// The view of an attribute list.
pub open spec fn attrs_view(a: Seq<(String, String)>) -> Seq<(Seq<char>, Seq<char>)> {
    a.map_values(|p: (String, String)| (p.0@, p.1@))
}

/// The view of a start tag: its name and attribute list.
pub open spec fn tag_view(t: HtmlTag) -> (Seq<char>, Seq<(Seq<char>, Seq<char>)>) {
    (t.name@, attrs_view(t.attrs@))
}

/// The views of a list of start tags.
pub open spec fn tags_view(v: Seq<HtmlTag>) -> Seq<(Seq<char>, Seq<(Seq<char>, Seq<char>)>)> {
    v.map_values(|t: HtmlTag| tag_view(t))
}

/// The start tags of `html` matched by the CSS selector `selector`, in
/// document order, as `lol_html` reports them, and whether the rewriter
/// finished without error (the tags seen before an error are kept).
pub uninterp spec fn scanned_tags(html: Seq<char>, selector: Seq<char>) -> (
    Seq<(Seq<char>, Seq<(Seq<char>, Seq<char>)>)>,
    bool,
);

/// One edit of a matched element.
pub enum TagEdit {
    /// Set an attribute (`Element::set_attribute`).
    SetAttr(String, String),
    /// Remove an attribute (`Element::remove_attribute`).
    RemoveAttr(String),
    /// Append HTML inside the element, before its end tag.
    Append(String),
    /// Prepend HTML inside the element, after its start tag.
    Prepend(String),
    /// Replace the whole element with HTML.
    Replace(String),
    /// Insert HTML before the element.
    Before(String),
}

/// The view of a `TagEdit`.
pub enum EditView {
    SetAttr(Seq<char>, Seq<char>),
    RemoveAttr(Seq<char>),
    Append(Seq<char>),
    Prepend(Seq<char>),
    Replace(Seq<char>),
    Before(Seq<char>),
}

/// The view of one edit.
pub open spec fn edit_view(e: TagEdit) -> EditView {
    match e {
        TagEdit::SetAttr(n, v) => EditView::SetAttr(n@, v@),
        TagEdit::RemoveAttr(n) => EditView::RemoveAttr(n@),
        TagEdit::Append(h) => EditView::Append(h@),
        TagEdit::Prepend(h) => EditView::Prepend(h@),
        TagEdit::Replace(h) => EditView::Replace(h@),
        TagEdit::Before(h) => EditView::Before(h@),
    }
}

/// The views of a list of edits.
pub open spec fn edits_view(v: Seq<TagEdit>) -> Seq<EditView> {
    v.map_values(|e: TagEdit| edit_view(e))
}

/// The views of the edit lists of successive matches.
pub open spec fn edit_lists_view(v: Seq<Vec<TagEdit>>) -> Seq<Seq<EditView>> {
    v.map_values(|l: Vec<TagEdit>| edits_view(l@))
}

/// The document that `lol_html` produces from `html` when the k-th
/// element matched by `selector` gets the edits `edits[k]` (in order), and
/// every match past the end of `edits` gets `rest`; `None` when the
/// selector does not parse or the rewriter fails.
pub uninterp spec fn tags_rewritten(
    html: Seq<char>,
    selector: Seq<char>,
    edits: Seq<Seq<EditView>>,
    rest: Seq<EditView>,
) -> Option<Seq<char>>;

/// A tag built from the parts the rewriter hands out.
pub fn make_tag(name: String, attrs: Vec<(String, String)>) -> (t: HtmlTag)
    ensures
        t.name == name,
        t.attrs == attrs,
{
    HtmlTag { name, attrs }
}

/// Start tags of `html` matched by `selector`, and whether the rewriter
/// finished without error.
///
/// Trusted: runs `lol_html::rewrite_str` with one element handler that
/// records each matched element's `tag_name()` and `attributes()`
/// (converted to owned strings); the contract says only that the result
/// is the named outcome of those arguments.
#[verifier::external_body]
pub fn scan_tags(html: &str, selector: &str) -> (r: (Vec<HtmlTag>, bool))
    ensures
        scanned_tags(html@, selector@) == (tags_view(r.0@), r.1),
{
    let found = Rc::new(RefCell::new(Vec::new()));
    let sink = found.clone();
    let handler = ElementContentHandlers::default().element(move |el: &mut Element| {
        let attrs = el.attributes().iter().map(|a| (a.name(), a.value())).collect();
        sink.borrow_mut().push(make_tag(el.tag_name(), attrs));
        Ok(())
    });
    let Ok(sel) = selector.parse::<Selector>() else { return (Vec::new(), false) };
    let settings = RewriteStrSettings { element_content_handlers: vec![(Cow::Owned(sel), handler)], ..RewriteStrSettings::new() };
    let ok = rewrite_str(html, settings).is_ok();
    (found.take(), ok)
}

/// One event of a scan: a matched start tag or a text chunk.
pub enum ScanEvent {
    Tag(HtmlTag),
    Text(String),
}

/// The view of a scan event.
pub enum EventView {
    Tag(Seq<char>, Seq<(Seq<char>, Seq<char>)>),
    Text(Seq<char>),
}

/// The views of a list of scan events.
pub open spec fn events_view(v: Seq<ScanEvent>) -> Seq<EventView> {
    v.map_values(|e: ScanEvent| match e {
        ScanEvent::Tag(t) => EventView::Tag(t.name@, attrs_view(t.attrs@)),
        ScanEvent::Text(s) => EventView::Text(s@),
    })
}

/// A tag event.
pub fn tag_event(name: String, attrs: Vec<(String, String)>) -> (e: ScanEvent)
    ensures
        e == ScanEvent::Tag(HtmlTag { name, attrs }),
{
    ScanEvent::Tag(HtmlTag { name, attrs })
}

/// A text event.
pub fn text_event(s: &str) -> (e: ScanEvent)
    ensures
        e matches ScanEvent::Text(t) && t@ == s@,
{
    ScanEvent::Text(crate::text::owned(s))
}

/// The start tags of the elements of `html` matched by `selector` and the
/// text chunks inside them, in document order, as `lol_html` reports
/// them; `None` when the selector is refused or the rewriter fails.
pub uninterp spec fn scanned_events(html: Seq<char>, selector: Seq<char>) -> Option<Seq<EventView>>;

/// The views of the events, if any.
pub open spec fn opt_events_view(r: Option<Vec<ScanEvent>>) -> Option<Seq<EventView>> {
    match r {
        Some(v) => Some(events_view(v@)),
        None => None,
    }
}

/// Start tags and text chunks of the elements matched by `selector`, in
/// document order.
///
/// Trusted: runs `lol_html::rewrite_str` with handlers for `selector`
/// recording each element's `tag_name()` and `attributes()` and each text
/// chunk's `as_str()`; `None` when the selector does not parse or the
/// rewrite fails.
#[verifier::external_body]
pub fn scan_events(html: &str, selector: &str) -> (r: Option<Vec<ScanEvent>>)
    ensures
        scanned_events(html@, selector@) == opt_events_view(r),
{
    let found = Rc::new(RefCell::new(Vec::new()));
    let tags = found.clone();
    let texts = found.clone();
    let handlers = ElementContentHandlers::default()
        .element(move |el: &mut Element| Ok(tags.borrow_mut().push(tag_event(el.tag_name(), el.attributes().iter().map(|a| (a.name(), a.value())).collect()))))
        .text(move |t: &mut TextChunk| Ok(texts.borrow_mut().push(text_event(t.as_str()))));
    rewrite_str(html, RewriteStrSettings { element_content_handlers: vec![(Cow::Owned(selector.parse().ok()?), handlers)], ..RewriteStrSettings::new() }).ok()?;
    Some(found.take())
}

/// `html` with the k-th element matched by `selector` edited by
/// `edits[k]`, and later matches by `rest`.
///
/// Trusted: runs `lol_html::rewrite_str` with one element handler that
/// applies each edit of the element's list in order through
/// `Element::set_attribute`, `remove_attribute`, `append`, `prepend`,
/// `replace` or `before` (HTML content); a refused attribute name fails the
/// rewrite.
#[verifier::external_body]
pub fn rewrite_tags(html: &str, selector: &str, edits: &Vec<Vec<TagEdit>>, rest: &Vec<TagEdit>) -> (r: Option<String>)
    ensures
        tags_rewritten(html@, selector@, edit_lists_view(edits@), edits_view(rest@)) == crate::text::opt_view(r),
{
    let mut k: usize = 0;
    let handler = ElementContentHandlers::default().element(move |el: &mut Element| {
        k += 1;
        for e in edits.get(k - 1).unwrap_or(rest) {
            match e {
                SetAttr(n, v) => el.set_attribute(n, v)?,
                RemoveAttr(n) => el.remove_attribute(n),
                Append(h) => el.append(h, Html), Prepend(h) => el.prepend(h, Html),
                Replace(h) => el.replace(h, Html),
                Before(h) => el.before(h, Html),
            }
        }
        Ok(())
    });
    rewrite_str(html, RewriteStrSettings { element_content_handlers: vec![(Cow::Owned(selector.parse::<Selector>().ok()?), handler)], ..RewriteStrSettings::new() }).ok()
}

/// The value of the first attribute at or after position `i` of `attrs`
/// named `name`.
pub open spec fn attr_from(attrs: Seq<(Seq<char>, Seq<char>)>, name: Seq<char>, i: int) -> Option<Seq<char>>
    decreases attrs.len() - i,
{
    if i < 0 || i >= attrs.len() {
        None
    } else if attrs[i].0 == name {
        Some(attrs[i].1)
    } else {
        attr_from(attrs, name, i + 1)
    }
}

/// The value of the first attribute of `attrs` named `name`
/// (`Element::get_attribute`).
pub open spec fn attr_of(attrs: Seq<(Seq<char>, Seq<char>)>, name: Seq<char>) -> Option<Seq<char>> {
    attr_from(attrs, name, 0)
}

/// Whether `attrs` holds an attribute named `name`.
pub open spec fn has_attr(attrs: Seq<(Seq<char>, Seq<char>)>, name: Seq<char>) -> bool {
    attr_of(attrs, name) is Some
}

/// The value of the first attribute of `attrs` named `name`.
pub fn get_attr<'a>(attrs: &'a Vec<(String, String)>, name: &str) -> (r: Option<&'a String>)
    ensures
        match r {
            Some(v) => attr_of(attrs_view(attrs@), name@) == Some(v@),
            None => attr_of(attrs_view(attrs@), name@) is None,
        },
{
    let mut i: usize = 0;
    while i < attrs.len()
        invariant
            i <= attrs@.len(),
            attr_of(attrs_view(attrs@), name@) == attr_from(attrs_view(attrs@), name@, i as int),
        decreases attrs@.len() - i,
    {
        if crate::text::str_eq(attrs[i].0.as_str(), name) {
            return Some(&attrs[i].1);
        }
        i = i + 1;
    }
    None
}

/// Whether `attrs` holds an attribute named `name`.
pub fn has_attr_exec(attrs: &Vec<(String, String)>, name: &str) -> (r: bool)
    ensures
        r == has_attr(attrs_view(attrs@), name@),
{
    get_attr(attrs, name).is_some()
}


/// What `lol_html` produces from `html` when every text chunk inside the
/// elements matched by `selector` is replaced (as HTML) by
/// `noscript_fix(chunk, bundle, hrefs)` (the spec of `noscript_chunk`,
/// which the handler calls) where that gives a new text; `None` when the selector does not parse or the rewriter fails.
pub uninterp spec fn chunks_rewritten(html: Seq<char>, selector: Seq<char>, bundle: Seq<char>, hrefs: Seq<Seq<char>>) -> Option<Seq<char>>;

/// Rewrite the stylesheet links written as text inside the elements
/// matched by `selector` (`<noscript>` content is text to the rewriter).
///
/// Trusted: runs `lol_html::rewrite_str` with a text handler for
/// `selector` that replaces a chunk by `noscript_chunk(chunk, bundle,
/// hrefs)` (as HTML) when that function gives a new text.
#[verifier::external_body]
pub fn rewrite_noscript_links(html: &str, selector: &str, bundle: &str, hrefs: &[String]) -> (r: Option<String>)
    ensures
        crate::text::opt_view(r) == chunks_rewritten(html@, selector@, bundle@, crate::text::strs_view(hrefs@)),
{
    let handler = ElementContentHandlers::default().text(move |t: &mut TextChunk| {
        if let Some(m) = crate::build::bundling::rewrite::noscript_chunk(t.as_str(), bundle, hrefs) {
            t.replace(&m, Html);
        }
        Ok(())
    });
    let sel = Cow::Owned(selector.parse::<Selector>().ok()?);
    rewrite_str(html, RewriteStrSettings { element_content_handlers: vec![(sel, handler)], ..RewriteStrSettings::new() }).ok()
}

/// A copy of an attribute list.
pub(crate) fn copy_attrs(attrs: &[(String, String)]) -> (r: Vec<(String, String)>)
    ensures
        attrs_view(r@) == attrs_view(attrs@),
{
    let mut r: Vec<(String, String)> = Vec::new();
    let mut i: usize = 0;
    while i < attrs.len()
        invariant
            i <= attrs@.len(),
            attrs_view(r@) == attrs_view(attrs@.subrange(0, i as int)),
        decreases attrs@.len() - i,
    {
        let ghost before = attrs_view(r@);
        let a = attrs[i].0.clone();
        let b = attrs[i].1.clone();
        r.push((a, b));
        assert(attrs_view(r@) =~= before.push((attrs@[i as int].0@, attrs@[i as int].1@)));
        i = i + 1;
        assert(attrs_view(attrs@.subrange(0, i as int)) =~= before.push((attrs@[i - 1].0@, attrs@[i - 1].1@)));
    }
    assert(attrs@.subrange(0, attrs@.len() as int) =~= attrs@);
    r
}

} // verus!
