//! Accessibility audit checks.

use vstd::prelude::*;
use crate::build::audit::{
    extend_findings, finding_view, findings_view, fv, new_finding, push_finding, Category, Finding, FindingView, Scope,
    Severity,
};
use crate::build::audit::checks::seo::finding_if;
use crate::html::{
    attr_of, attrs_view, events_view, get_attr, has_attr, has_attr_exec, scan_events, scan_tags, scanned_events, scanned_tags,
    tags_view, EventView, HtmlTag, ScanEvent,
};
use crate::text::{concat2, contains_seq, owned, str_contains, str_eq, trim_ws};

verus! {

/// The advisory site-level accessibility finding.
pub open spec fn a11y_site_findings() -> Seq<FindingView> {
    seq![fv("a11y/color-contrast-hint"@, Category::Accessibility, Severity::Low, Scope::Site,
        "Remember to verify color contrast ratios meet WCAG AA (4.5:1 for text)."@, "templates/**/*.html"@,
        "Use a contrast checker to verify all text meets WCAG AA ratios."@)]
}

/// Site-level accessibility checks (advisory).
pub fn site_checks() -> (r: Vec<Finding>)
    ensures
        findings_view(r@) == a11y_site_findings(),
{
    let f = new_finding("a11y/color-contrast-hint", Category::Accessibility, Severity::Low, Scope::Site,
        owned("Remember to verify color contrast ratios meet WCAG AA (4.5:1 for text)."), owned("templates/**/*.html"),
        owned("Use a contrast checker to verify all text meets WCAG AA ratios."));
    let mut v: Vec<Finding> = Vec::new();
    assert(findings_view(v@) =~= Seq::<FindingView>::empty());
    push_finding(&mut v, f);
    v
}

/// What the scan has gathered so far: `lang` seen, viewport seen, images
/// without `alt` (their `src`), links without text (their `href`), and
/// the open link's `href`, text and `aria-label` presence.
pub struct A11yState {
    pub lang: bool,
    pub viewport: bool,
    pub imgs: Seq<Seq<char>>,
    pub links: Seq<Seq<char>>,
    pub href: Option<Seq<char>>,
    pub text: Seq<char>,
    pub aria: bool,
}

/// The state after closing the open link: it is recorded when it has no
/// text (after trimming) and no `aria-label`.
pub open spec fn flush(s: A11yState) -> A11yState {
    let links = match s.href {
        Some(h) => if trim_ws(s.text).len() == 0 && !s.aria { s.links.push(h) } else { s.links },
        None => s.links,
    };
    A11yState { links, href: None, text: seq![], ..s }
}

/// The state after one scan event.
pub open spec fn a11y_step(s: A11yState, e: EventView) -> A11yState {
    match e {
        EventView::Tag(name, attrs) => if name == "html"@ {
            A11yState { lang: s.lang || has_attr(attrs, "lang"@), ..s }
        } else if name == "meta"@ {
            let vp = match attr_of(attrs, "content"@) {
                Some(c) => contains_seq(c, "width=device-width"@),
                None => false,
            };
            A11yState { viewport: s.viewport || vp, ..s }
        } else if name == "img"@ {
            if has_attr(attrs, "alt"@) {
                s
            } else {
                let src = match attr_of(attrs, "src"@) {
                    Some(x) => x,
                    None => seq![],
                };
                A11yState { imgs: s.imgs.push(src), ..s }
            }
        } else if name == "a"@ && has_attr(attrs, "href"@) {
            let f = flush(s);
            A11yState { href: attr_of(attrs, "href"@), aria: has_attr(attrs, "aria-label"@), text: seq![], ..f }
        } else {
            s
        },
        EventView::Text(t) => A11yState { text: s.text + t, ..s },
    }
}

/// The state after the events `evs`.
pub open spec fn a11y_fold(s: A11yState, evs: Seq<EventView>) -> A11yState
    decreases evs.len(),
{
    if evs.len() == 0 {
        s
    } else {
        a11y_step(a11y_fold(s, evs.drop_last()), evs.last())
    }
}

/// The state before any event.
pub open spec fn a11y_start() -> A11yState {
    A11yState { lang: false, viewport: false, imgs: seq![], links: seq![], href: None, text: seq![], aria: false }
}

/// A page-level accessibility finding.
pub open spec fn a11y_pf(page: Seq<char>, template: Seq<char>, id: Seq<char>, sev: Severity, msg: Seq<char>, instr: Seq<char>) -> FindingView {
    fv(id, Category::Accessibility, sev, Scope::Page, page + msg, template, instr)
}

/// The findings for images without `alt`.
pub open spec fn img_findings(page: Seq<char>, template: Seq<char>, srcs: Seq<Seq<char>>) -> Seq<FindingView>
    decreases srcs.len(),
{
    if srcs.len() == 0 {
        seq![]
    } else {
        let src = srcs.last();
        img_findings(page, template, srcs.drop_last()).push(a11y_pf(page, template, "a11y/img-alt-text"@, Severity::High,
            ": <img src=\""@ + src + "\"> is missing an `alt` attribute."@,
            "Add alt text: <img src=\""@ + src + "\" alt=\"descriptive text\">. Use alt=\"\" for decorative images."@))
    }
}

/// The findings for links without accessible text.
pub open spec fn link_findings(page: Seq<char>, template: Seq<char>, hrefs: Seq<Seq<char>>) -> Seq<FindingView>
    decreases hrefs.len(),
{
    if hrefs.len() == 0 {
        seq![]
    } else {
        link_findings(page, template, hrefs.drop_last()).push(a11y_pf(page, template, "a11y/link-text"@, Severity::Medium,
            ": <a href=\""@ + hrefs.last() + "\"> has no accessible text content."@,
            "Add visible link text or an aria-label attribute."@))
    }
}

/// The selector of the elements whose start tags the page checks read.
pub open spec fn a11y_tags() -> Seq<char> {
    "html, meta[name='viewport'], img"@
}

/// Start tags as scan events.
pub open spec fn tag_events(tv: Seq<(Seq<char>, Seq<(Seq<char>, Seq<char>)>)>) -> Seq<EventView> {
    tv.map_values(|t: (Seq<char>, Seq<(Seq<char>, Seq<char>)>)| EventView::Tag(t.0, t.1))
}

/// The page-level accessibility findings of `html`: the start tags of
/// `<html>`, viewport `<meta>` and `<img>` elements, then the links (start
/// tags and text of `<a>` elements) are folded; none when the rewriter
/// fails.
pub open spec fn a11y_page_findings(html: Seq<char>, page: Seq<char>, template: Seq<char>) -> Seq<FindingView> {
    let (tags, ok) = scanned_tags(html, a11y_tags());
    match scanned_events(html, "a"@) {
        Some(evs) => if !ok {
            seq![]
        } else {
            let s = flush(a11y_fold(a11y_start(), tag_events(tags) + evs));
            finding_if(!s.lang, a11y_pf(page, template, "a11y/html-lang"@, Severity::Critical,
                ": <html> element is missing the `lang` attribute."@, "Add lang attribute: <html lang=\"en\">"@))
            + finding_if(!s.viewport, a11y_pf(page, template, "a11y/viewport-meta"@, Severity::Critical,
                ": missing <meta name=\"viewport\"> with width=device-width."@,
                "Add to <head>: <meta name=\"viewport\" content=\"width=device-width, initial-scale=1\">"@))
            + img_findings(page, template, s.imgs) + link_findings(page, template, s.links)
        },
        None => seq![],
    }
}

/// The scan state of the page checks.
pub struct A11yScan {
    pub lang: bool,
    pub viewport: bool,
    pub imgs: Vec<String>,
    pub links: Vec<String>,
    pub href: Option<String>,
    pub text: String,
    pub aria: bool,
}

/// The content of a scan state.
pub open spec fn scan_state(st: A11yScan) -> A11yState {
    A11yState {
        lang: st.lang,
        viewport: st.viewport,
        imgs: crate::text::strs_view(st.imgs@),
        links: crate::text::strs_view(st.links@),
        href: crate::text::opt_view(st.href),
        text: st.text@,
        aria: st.aria,
    }
}

/// Close the open link: record it when it has no text and no
/// `aria-label`.
fn flush_link(st: &mut A11yScan)
    ensures
        scan_state(*final(st)) == flush(scan_state(*old(st))),
{
    let ghost lb = crate::text::strs_view(st.links@);
    match &st.href {
        Some(h) => {
            let trimmed = crate::text::trim_exec(st.text.as_str());
            if trimmed.as_str().is_empty() && !st.aria {
                let ghost hv = h@;
                let h2 = h.clone();
                st.links.push(h2);
                assert(crate::text::strs_view(st.links@) =~= lb.push(hv));
            }
        },
        None => {},
    }
    st.href = None;
    st.text = String::new();
    assert(st.text@ =~= Seq::<char>::empty());
}

/// One start tag of the scan.
fn tag_step(st: &mut A11yScan, t: &HtmlTag)
    ensures
        scan_state(*final(st)) == a11y_step(scan_state(*old(st)), EventView::Tag(t.name@, attrs_view(t.attrs@))),
{
    let attrs = &t.attrs;
    let name = t.name.as_str();
    if str_eq(name, "html") {
        st.lang = st.lang || has_attr_exec(attrs, "lang");
    } else if str_eq(name, "meta") {
        let vp = match get_attr(attrs, "content") {
            Some(c) => str_contains(c.as_str(), "width=device-width"),
            None => false,
        };
        st.viewport = st.viewport || vp;
    } else if str_eq(name, "img") {
        if !has_attr_exec(attrs, "alt") {
            let ghost ib = crate::text::strs_view(st.imgs@);
            let src = match get_attr(attrs, "src") {
                Some(x) => x.clone(),
                None => String::new(),
            };
            let ghost sv = src@;
            st.imgs.push(src);
            assert(crate::text::strs_view(st.imgs@) =~= ib.push(sv));
        }
    } else if str_eq(name, "a") && has_attr_exec(attrs, "href") {
        flush_link(st);
        st.href = match get_attr(attrs, "href") {
            Some(h) => Some(h.clone()),
            None => None,
        };
        st.aria = has_attr_exec(attrs, "aria-label");
    }
}

/// Page-level accessibility checks: `lang` on `<html>`, a viewport meta
/// tag, `alt` on images, and accessible text on links.
pub fn page_checks(html: &str, page_path: &str, template_path: &str) -> (r: Vec<Finding>)
    ensures
        findings_view(r@) == a11y_page_findings(html@, page_path@, template_path@),
{
    let (tags, ok) = scan_tags(html, "html, meta[name='viewport'], img");
    let events = match scan_events(html, "a") {
        Some(events) => events,
        None => {
            let v: Vec<Finding> = Vec::new();
            assert(findings_view(v@) =~= Seq::<FindingView>::empty());
            return v;
        },
    };
    if !ok {
        let v: Vec<Finding> = Vec::new();
        assert(findings_view(v@) =~= Seq::<FindingView>::empty());
        return v;
    }
    let ghost tv = tag_events(tags_view(tags@));
    let ghost ev = events_view(events@);
    let mut st = A11yScan {
        lang: false,
        viewport: false,
        imgs: Vec::new(),
        links: Vec::new(),
        href: None,
        text: String::new(),
        aria: false,
    };
    assert(crate::text::strs_view(st.imgs@) =~= Seq::<Seq<char>>::empty());
    assert(crate::text::strs_view(st.links@) =~= Seq::<Seq<char>>::empty());
    assert(st.text@ =~= Seq::<char>::empty());
    assert(tv.subrange(0, 0) =~= Seq::<EventView>::empty());
    let mut i: usize = 0;
    while i < tags.len()
        invariant
            i <= tags@.len(),
            tv == tag_events(tags_view(tags@)),
            a11y_fold(a11y_start(), tv.subrange(0, i as int)) == scan_state(st),
        decreases tags@.len() - i,
    {
        assert(tv.subrange(0, i + 1).drop_last() =~= tv.subrange(0, i as int));
        assert(tv.subrange(0, i + 1).last() == EventView::Tag(tags@[i as int].name@, attrs_view(tags@[i as int].attrs@)));
        tag_step(&mut st, &tags[i]);
        i = i + 1;
    }
    assert(tv.subrange(0, tv.len() as int) =~= tv);
    assert(tv + ev.subrange(0, 0) =~= tv);
    let mut j: usize = 0;
    while j < events.len()
        invariant
            j <= events@.len(),
            ev == events_view(events@),
            a11y_fold(a11y_start(), tv + ev.subrange(0, j as int)) == scan_state(st),
        decreases events@.len() - j,
    {
        assert((tv + ev.subrange(0, j + 1)).drop_last() =~= tv + ev.subrange(0, j as int));
        assert((tv + ev.subrange(0, j + 1)).last() == ev[j as int]);
        match &events[j] {
            ScanEvent::Tag(t) => tag_step(&mut st, t),
            ScanEvent::Text(s) => st.text.append(s.as_str()),
        }
        j = j + 1;
    }
    assert(ev.subrange(0, ev.len() as int) =~= ev);
    flush_link(&mut st);
    let lang = st.lang;
    let viewport = st.viewport;
    let imgs = st.imgs;
    let links = st.links;
    let mut findings: Vec<Finding> = Vec::new();
    assert(findings_view(findings@) =~= Seq::<FindingView>::empty());
    if !lang {
        push_finding(&mut findings, new_finding("a11y/html-lang", Category::Accessibility, Severity::Critical, Scope::Page,
            concat2(page_path, ": <html> element is missing the `lang` attribute."), owned(template_path),
            owned("Add lang attribute: <html lang=\"en\">")));
    }
    if !viewport {
        push_finding(&mut findings, new_finding("a11y/viewport-meta", Category::Accessibility, Severity::Critical, Scope::Page,
            concat2(page_path, ": missing <meta name=\"viewport\"> with width=device-width."), owned(template_path),
            owned("Add to <head>: <meta name=\"viewport\" content=\"width=device-width, initial-scale=1\">")));
    }
    let ghost head = findings_view(findings@);
    let mut k: usize = 0;
    while k < imgs.len()
        invariant
            k <= imgs@.len(),
            findings_view(findings@) == head + img_findings(page_path@, template_path@, crate::text::strs_view(imgs@).subrange(0, k as int)),
        decreases imgs@.len() - k,
    {
        let src = imgs[k].as_str();
        let ghost sv = crate::text::strs_view(imgs@);
        assert(sv.subrange(0, k + 1).drop_last() =~= sv.subrange(0, k as int));
        assert(sv.subrange(0, k + 1).last() == src@);
        let mut m = owned(page_path);
        m.append(": <img src=\"");
        m.append(src);
        m.append("\"> is missing an `alt` attribute.");
        let mut ins = owned("Add alt text: <img src=\"");
        ins.append(src);
        ins.append("\" alt=\"descriptive text\">. Use alt=\"\" for decorative images.");
        assert(m@ =~= page_path@ + (": <img src=\""@ + src@ + "\"> is missing an `alt` attribute."@));
        push_finding(&mut findings, new_finding("a11y/img-alt-text", Category::Accessibility, Severity::High, Scope::Page, m,
            owned(template_path), ins));
        k = k + 1;
    }
    assert(crate::text::strs_view(imgs@).subrange(0, imgs@.len() as int) =~= crate::text::strs_view(imgs@));
    let ghost mid = findings_view(findings@);
    let mut k: usize = 0;
    while k < links.len()
        invariant
            k <= links@.len(),
            findings_view(findings@) == mid + link_findings(page_path@, template_path@, crate::text::strs_view(links@).subrange(0, k as int)),
        decreases links@.len() - k,
    {
        let h = links[k].as_str();
        let ghost sv = crate::text::strs_view(links@);
        assert(sv.subrange(0, k + 1).drop_last() =~= sv.subrange(0, k as int));
        assert(sv.subrange(0, k + 1).last() == h@);
        let mut m = owned(page_path);
        m.append(": <a href=\"");
        m.append(h);
        m.append("\"> has no accessible text content.");
        assert(m@ =~= page_path@ + (": <a href=\""@ + h@ + "\"> has no accessible text content."@));
        push_finding(&mut findings, new_finding("a11y/link-text", Category::Accessibility, Severity::Medium, Scope::Page, m,
            owned(template_path), owned("Add visible link text or an aria-label attribute.")));
        k = k + 1;
    }
    assert(crate::text::strs_view(links@).subrange(0, links@.len() as int) =~= crate::text::strs_view(links@));
    findings
}

} // verus!
