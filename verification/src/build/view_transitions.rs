//! View Transitions API injection.
//!
//! Injects a `<meta name="view-transition">` tag and an inline script that
//! enables `htmx.config.globalViewTransitions` into `<head>`, and adds a
//! `view-transition-name` style to elements whose `id` is a fragment block
//! name, so that HTMX partial swaps animate through the browser's View
//! Transitions API.

use vstd::prelude::*;
use crate::html::{
    attr_of, attrs_view, edit_lists_view, edits_view, get_attr, rewrite_tags, scan_tags, scanned_tags, tags_rewritten,
    tags_view, EditView, TagEdit,
};
use crate::text::{
    chars_of, concat3, contains_seq, opt_view, owned, push_chars, str_contains, strs_view,
    trim_end_char, trim_end_char_exec, trim_end_exec, trim_ws_end,
};

verus! {

/// The meta tag for cross-document view transitions.
pub const VIEW_TRANSITION_META: &'static str = "<meta name=\"view-transition\" content=\"same-origin\">";

/// The inline script that enables HTMX's built-in view transitions once
/// the document is loaded, where both HTMX and the API are available.
pub const VIEW_TRANSITION_SCRIPT: &'static str = "<script>
document.addEventListener(\"DOMContentLoaded\", function() {
  if (typeof htmx !== \"undefined\" && document.startViewTransition) {
    htmx.config.globalViewTransitions = true;
  }
});
</script>";

/// The HTML injected into `<head>`: the meta tag unless the page has one,
/// then the script, each on its own line.
pub open spec fn head_injection(has_meta: bool) -> Seq<char> {
    (if has_meta { seq![] } else { VIEW_TRANSITION_META@.push('\n') }) + VIEW_TRANSITION_SCRIPT@.push('\n')
}

/// The new `style` value of an element with attributes `attrs`: `None`
/// unless its `id` is one of `names` and its style names no transition
/// yet.
pub open spec fn transition_style(attrs: Seq<(Seq<char>, Seq<char>)>, names: Seq<Seq<char>>) -> Option<Seq<char>> {
    match attr_of(attrs, "id"@) {
        Some(id) => if !names.contains(id) {
            None
        } else {
            let existing = match attr_of(attrs, "style"@) {
                Some(s) => s,
                None => seq![],
            };
            if contains_seq(existing, "view-transition-name"@) {
                None
            } else if existing.len() == 0 {
                Some("view-transition-name: "@ + id + ";"@)
            } else {
                Some(trim_end_char(trim_ws_end(existing), ';') + "; view-transition-name: "@ + id + ";"@)
            }
        },
        None => None,
    }
}

/// The edit of one scanned element: set its new `style`, if any.
pub open spec fn style_edit(attrs: Seq<(Seq<char>, Seq<char>)>, names: Seq<Seq<char>>) -> Seq<EditView> {
    match transition_style(attrs, names) {
        Some(s) => seq![EditView::SetAttr("style"@, s)],
        None => seq![],
    }
}

/// The edits of a list of scanned elements.
pub open spec fn transition_edits(
    tags: Seq<(Seq<char>, Seq<(Seq<char>, Seq<char>)>)>,
    names: Seq<Seq<char>>,
) -> Seq<Seq<EditView>> {
    tags.map_values(|t: (Seq<char>, Seq<(Seq<char>, Seq<char>)>)| style_edit(t.1, names))
}

/// Whether `html` already has a `<meta name="view-transition">` tag.
pub open spec fn has_transition_meta(html: Seq<char>) -> bool {
    scanned_tags(html, "meta[name='view-transition']"@).0.len() > 0
}

/// The result of `inject_view_transitions`.
pub open spec fn with_view_transitions(html: Seq<char>, names: Seq<Seq<char>>) -> Seq<char> {
    match tags_rewritten(html, "head"@, seq![], seq![EditView::Append(head_injection(has_transition_meta(html)))]) {
        Some(h) => match tags_rewritten(h, "*[id]"@, transition_edits(scanned_tags(h, "*[id]"@).0, names), seq![]) {
            Some(out) => out,
            None => html,
        },
        None => html,
    }
}

/// Whether the HTML already contains a `<meta name="view-transition">` tag.
pub fn has_view_transition_meta(html: &str) -> (r: bool)
    ensures
        r == has_transition_meta(html@),
{
    let (tags, _ok) = scan_tags(html, "meta[name='view-transition']");
    tags.len() > 0
}

/// Build the HTML to inject into `<head>`.
pub fn build_head_injection(has_meta: bool) -> (r: String)
    ensures
        r@ == head_injection(has_meta),
{
    let mut out = String::new();
    if !has_meta {
        out.append(VIEW_TRANSITION_META);
        crate::text::push_char(&mut out, '\n');
    }
    out.append(VIEW_TRANSITION_SCRIPT);
    crate::text::push_char(&mut out, '\n');
    out
}

/// The edit of one element.
fn edit_for(attrs: &Vec<(String, String)>, names: &[String]) -> (r: Vec<TagEdit>)
    ensures
        edits_view(r@) == style_edit(attrs_view(attrs@), strs_view(names@)),
{
    match style_for(attrs, names) {
        Some(s) => {
            let ghost sv = s@;
            let r = vec![TagEdit::SetAttr(owned("style"), s)];
            assert(edits_view(r@) =~= seq![EditView::SetAttr("style"@, sv)]);
            r
        },
        None => {
            let r: Vec<TagEdit> = Vec::new();
            assert(edits_view(r@) =~= Seq::<EditView>::empty());
            r
        },
    }
}

/// The new `style` value of one element.
fn style_for(attrs: &Vec<(String, String)>, names: &[String]) -> (r: Option<String>)
    ensures
        opt_view(r) == transition_style(attrs_view(attrs@), strs_view(names@)),
{
    let id = match get_attr(attrs, "id") {
        Some(id) => id,
        None => return None,
    };
    if !crate::text::list_contains(names, id.as_str()) {
        return None;
    }
    let existing = match get_attr(attrs, "style") {
        Some(s) => s.clone(),
        None => String::new(),
    };
    if str_contains(existing.as_str(), "view-transition-name") {
        return None;
    }
    if existing.as_str().is_empty() {
        Some(concat3("view-transition-name: ", id.as_str(), ";"))
    } else {
        let trimmed = trim_end_exec(existing.as_str());
        let trimmed = trim_end_char_exec(trimmed.as_str(), ';');
        let mut out = trimmed;
        out.append("; view-transition-name: ");
        out.append(id.as_str());
        out.append(";");
        Some(out)
    }
}

/// Inject the view transition meta tag, the HTMX script, and transition
/// names on the elements whose `id` is a fragment block name.
///
/// Never fails: on a rewriter error the HTML comes back unchanged.
pub fn inject_view_transitions(html: &str, fragment_block_names: &[String]) -> (r: String)
    ensures
        r@ == with_view_transitions(html@, strs_view(fragment_block_names@)),
{
    let has_meta = has_view_transition_meta(html);
    let head_html = build_head_injection(has_meta);
    let ghost hv = head_html@;
    let none: Vec<Vec<TagEdit>> = Vec::new();
    let append = vec![TagEdit::Append(head_html)];
    assert(edit_lists_view(none@) =~= Seq::<Seq<EditView>>::empty());
    assert(edits_view(append@) =~= seq![EditView::Append(hv)]);
    let first = match rewrite_tags(html, "head", &none, &append) {
        Some(h) => h,
        None => return owned(html),
    };
    let (tags, _ok) = scan_tags(first.as_str(), "*[id]");
    let ghost names = strs_view(fragment_block_names@);
    let mut edits: Vec<Vec<TagEdit>> = Vec::new();
    let mut k: usize = 0;
    while k < tags.len()
        invariant
            k <= tags@.len(),
            names == strs_view(fragment_block_names@),
            edit_lists_view(edits@) =~= transition_edits(tags_view(tags@), names).subrange(0, k as int),
        decreases tags@.len() - k,
    {
        let e = edit_for(&tags[k].attrs, fragment_block_names);
        let ghost before = edit_lists_view(edits@);
        let ghost ev = edits_view(e@);
        edits.push(e);
        assert(tags_view(tags@)[k as int].1 == attrs_view(tags@[k as int].attrs@));
        assert(edit_lists_view(edits@) =~= before.push(ev));
        k = k + 1;
    }
    assert(transition_edits(tags_view(tags@), names).subrange(0, k as int) =~= transition_edits(tags_view(tags@), names));
    let no_rest: Vec<TagEdit> = Vec::new();
    assert(edits_view(no_rest@) =~= Seq::<EditView>::empty());
    match rewrite_tags(first.as_str(), "*[id]", &edits, &no_rest) {
        Some(out) => out,
        None => owned(html),
    }
}

} // verus!
