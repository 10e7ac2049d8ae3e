//! Keeping the rules of a stylesheet that the pages use: style rules
//! whose selectors match some page, the at-rule blocks around them, other
//! statements as they are, and the `@font-face`, `@keyframes` and custom
//! property rules that kept rules refer to. Critical CSS extraction (one
//! page) and tree-shaking of a bundle (all pages) share this walk.

use lightningcss::rules::{CssRule, CssRuleList};
use lightningcss::stylesheet::{ParserOptions, PrinterOptions, StyleSheet};
use lightningcss::traits::ToCss;
use vstd::prelude::*;
use crate::build::bundling::css::group_at;
use crate::build::critical_css::extract::{
    collect_global_deps, global_deps_of, html_source, selector_hits, selector_matches, set_add, strip_pseudo_for_matching,
    stripped_selector, GlobalDependencies, HtmlDocument,
};
use crate::regexp::{groups_view, opt_strs_view, regex_all_capture_groups, regex_captures_all, regex_compiles};
use crate::text::{contains_seq, list_contains, opt_view, owned, push_char, split_char, split_on, str_contains, strs_view, trim_exec, trim_ws};

verus! {

/// A parsed stylesheet's rule list. (`CssRuleList`'s default at-rule
/// type is private to `lightningcss`, so the list cannot be declared to
/// Verus; it is held here, out of Verus's sight.)
#[verifier::external_body]
pub struct ParsedRules<'i> {
    list: CssRuleList<'i>,
}

/// A rule list within a parsed stylesheet: the top level or the block of
/// an at-rule.
#[verifier::external_body]
pub struct RuleList<'a, 'i> {
    list: &'a CssRuleList<'i>,
}

/// The at-rules that hold a block of rules.
pub enum GroupKind {
    Media,
    Supports,
    Layer,
}

/// The rules kept or collected as a whole.
pub enum SingleKind {
    FontFace,
    Keyframes,
    /// `@layer` statements, `@import`, `@namespace` and any other rule.
    Other,
}

/// The shape of a rule.
pub enum RuleKind {
    Style,
    Group(GroupKind),
    Single(SingleKind),
}

/// A rule, as the walk reads it, with its text as the printer writes it.
pub enum RuleView {
    /// A style rule: its selector list and its text (`None` when it
    /// cannot be written).
    Style { selectors: Seq<char>, style_text: Option<Seq<char>> },
    /// An at-rule with a block: its prelude (media query, supports
    /// condition or layer name, empty when there is none) and its rules.
    Group { group_kind: GroupKind, prelude: Seq<char>, children: Seq<RuleView> },
    /// Any other rule and its text (`None` when it cannot be written).
    Single { single_kind: SingleKind, single_text: Option<Seq<char>> },
}

/// The shape of a rule view.
pub open spec fn shape_of(v: RuleView) -> RuleKind {
    match v {
        RuleView::Style { .. } => RuleKind::Style,
        RuleView::Group { group_kind, .. } => RuleKind::Group(group_kind),
        RuleView::Single { single_kind, .. } => RuleKind::Single(single_kind),
    }
}

/// The text of a rule that is not a group.
pub open spec fn text_of(v: RuleView) -> Option<Seq<char>> {
    match v {
        RuleView::Style { style_text, .. } => style_text,
        RuleView::Single { single_text, .. } => single_text,
        RuleView::Group { .. } => None,
    }
}

/// The rules of a rule list, written by a printer that minifies or not.
pub uninterp spec fn css_rules(list: RuleList<'_, '_>, minify: bool) -> Seq<RuleView>;

/// The rules of a parsed stylesheet, written by a printer that minifies
/// or not.
pub uninterp spec fn parsed_rules(p: ParsedRules<'_>, minify: bool) -> Seq<RuleView>;

/// The rules that `lightningcss` parses from a stylesheet (with error
/// recovery), written by a printer that minifies or not; `None` when it
/// cannot parse it.
pub uninterp spec fn stylesheet_rules(css: Seq<char>, minify: bool) -> Option<Seq<RuleView>>;

/// Parse a stylesheet into its rules.
///
/// Trusted: calls `StyleSheet::parse` with error recovery and keeps the
/// sheet's rule list; the error is turned into its message, which is not
/// stated.
#[verifier::external_body]
fn parse_css_rules<'i>(css: &'i str) -> (r: Result<ParsedRules<'i>, String>)
    ensures
        match r {
            Ok(l) => stylesheet_rules(css@, false) == Some(parsed_rules(l, false)) && stylesheet_rules(css@, true) == Some(
                parsed_rules(l, true),
            ),
            Err(_) => stylesheet_rules(css@, false) is None && stylesheet_rules(css@, true) is None,
        },
{
    let options = ParserOptions { error_recovery: true, ..ParserOptions::default() };
    StyleSheet::parse(css, options).map(|s| ParsedRules { list: s.rules }).map_err(|e| e.to_string())
}

/// The top-level rule list of a parsed stylesheet.
///
/// Trusted: borrows the list that `ParsedRules` holds.
#[verifier::external_body]
fn top_rules<'a, 'i>(p: &'a ParsedRules<'i>) -> (r: RuleList<'a, 'i>)
    ensures
        css_rules(r, false) == parsed_rules(*p, false),
        css_rules(r, true) == parsed_rules(*p, true),
{
    RuleList { list: &p.list }
}

/// The number of rules of a list.
///
/// Trusted: the length of the list's vector.
#[verifier::external_body]
fn rule_count(l: &RuleList<'_, '_>) -> (r: usize)
    ensures
        r == css_rules(*l, false).len(),
        r == css_rules(*l, true).len(),
{
    l.list.0.len()
}

/// The shape of rule `i` of a list.
///
/// Trusted: tells the variants of `CssRule` apart: style rules, the
/// `@media`, `@supports` and `@layer` blocks, `@font-face`, `@keyframes`,
/// and all the others.
#[verifier::external_body]
fn rule_kind(l: &RuleList<'_, '_>, i: usize) -> (r: RuleKind)
    requires
        i < css_rules(*l, false).len(),
    ensures
        shape_of(css_rules(*l, false)[i as int]) == r,
        shape_of(css_rules(*l, true)[i as int]) == r,
{
    match &l.list.0[i] {
        CssRule::Style(_) => RuleKind::Style,
        CssRule::Media(_) => RuleKind::Group(GroupKind::Media),
        CssRule::Supports(_) => RuleKind::Group(GroupKind::Supports),
        CssRule::LayerBlock(_) => RuleKind::Group(GroupKind::Layer),
        CssRule::FontFace(_) => RuleKind::Single(SingleKind::FontFace),
        CssRule::Keyframes(_) => RuleKind::Single(SingleKind::Keyframes),
        _ => RuleKind::Single(SingleKind::Other),
    }
}

/// The text of rule `i` of a list, which is not a group.
///
/// Trusted: `to_css_string` of the style rule, or of the rule, with the
/// printer's defaults and the given minification.
#[verifier::external_body]
fn rule_text(l: &RuleList<'_, '_>, i: usize, minify: bool) -> (r: Option<String>)
    requires
        i < css_rules(*l, minify).len(),
        !(css_rules(*l, minify)[i as int] is Group),
    ensures
        opt_view(r) == text_of(css_rules(*l, minify)[i as int]),
{
    let p = PrinterOptions { minify, ..PrinterOptions::default() };
    match &l.list.0[i] {
        CssRule::Style(s) => s.to_css_string(p).ok(),
        other => other.to_css_string(p).ok(),
    }
}

/// The selector list of style rule `i` of a list.
///
/// Trusted: `to_css_string` of the rule's selectors, empty when they
/// cannot be written.
#[verifier::external_body]
fn style_selectors(l: &RuleList<'_, '_>, i: usize, minify: bool) -> (r: String)
    requires
        i < css_rules(*l, minify).len(),
        css_rules(*l, minify)[i as int] is Style,
    ensures
        r@ == css_rules(*l, minify)[i as int]->selectors,
{
    let p = PrinterOptions { minify, ..PrinterOptions::default() };
    match &l.list.0[i] {
        CssRule::Style(s) => s.selectors.to_css_string(p).unwrap_or_default(),
        _ => String::new(),
    }
}

/// The prelude of block rule `i` of a list.
///
/// Trusted: `to_css_string` of the media query, the supports condition
/// or the layer name, empty when there is none or it cannot be written.
#[verifier::external_body]
fn group_prelude(l: &RuleList<'_, '_>, i: usize, minify: bool) -> (r: String)
    requires
        i < css_rules(*l, minify).len(),
        css_rules(*l, minify)[i as int] is Group,
    ensures
        r@ == css_rules(*l, minify)[i as int]->prelude,
{
    let p = PrinterOptions { minify, ..PrinterOptions::default() };
    match &l.list.0[i] {
        CssRule::Media(m) => m.query.to_css_string(p).unwrap_or_default(),
        CssRule::Supports(s) => s.condition.to_css_string(p).unwrap_or_default(),
        CssRule::LayerBlock(b) => match &b.name {
            Some(n) => n.to_css_string(p).unwrap_or_default(),
            None => String::new(),
        },
        _ => String::new(),
    }
}

/// The rules inside block rule `i` of a list.
///
/// Trusted: the `rules` field of the `@media`, `@supports` or `@layer`
/// rule.
#[verifier::external_body]
fn group_children<'a, 'i>(l: &RuleList<'a, 'i>, i: usize) -> (r: RuleList<'a, 'i>)
    requires
        i < css_rules(*l, false).len(),
        css_rules(*l, false)[i as int] is Group,
        css_rules(*l, true)[i as int] is Group,
    ensures
        css_rules(r, false) == css_rules(*l, false)[i as int]->children,
        css_rules(r, true) == css_rules(*l, true)[i as int]->children,
{
    match &l.list.0[i] {
        CssRule::Media(m) => RuleList { list: &m.rules },
        CssRule::Supports(s) => RuleList { list: &s.rules },
        CssRule::LayerBlock(b) => RuleList { list: &b.rules },
        _ => RuleList { list: l.list },
    }
}

// ---------------------------------------------------------------------------
// The walk
// ---------------------------------------------------------------------------

/// What the walk has gathered: the kept rules, the names the kept style
/// rules refer to, and the global rules seen so far.
pub struct WalkState {
    pub matched: Vec<String>,
    pub deps: GlobalDependencies,
    pub font_faces: Vec<String>,
    pub keyframes: Vec<String>,
    /// Custom property definitions: the property and the rule's text.
    pub custom_defs: Vec<(String, String)>,
}

/// The content of a walk state.
pub struct WalkView {
    pub matched: Seq<Seq<char>>,
    pub families: Seq<Seq<char>>,
    pub anims: Seq<Seq<char>>,
    pub props: Seq<Seq<char>>,
    pub font_faces: Seq<Seq<char>>,
    pub keyframes: Seq<Seq<char>>,
    pub custom_defs: Seq<(Seq<char>, Seq<char>)>,
}

/// The content of a walk state.
pub open spec fn walk_view(s: WalkState) -> WalkView {
    WalkView {
        matched: strs_view(s.matched@),
        families: strs_view(s.deps.font_families@),
        anims: strs_view(s.deps.animation_names@),
        props: strs_view(s.deps.custom_properties@),
        font_faces: strs_view(s.font_faces@),
        keyframes: strs_view(s.keyframes@),
        custom_defs: crate::html::attrs_view(s.custom_defs@),
    }
}

/// A walk that has gathered nothing.
pub open spec fn empty_walk() -> WalkView {
    WalkView {
        matched: seq![],
        families: seq![],
        anims: seq![],
        props: seq![],
        font_faces: seq![],
        keyframes: seq![],
        custom_defs: seq![],
    }
}

/// `acc` with the names of `xs` added, in order, unless present.
pub open spec fn union_add(acc: Seq<Seq<char>>, xs: Seq<Seq<char>>) -> Seq<Seq<char>>
    decreases xs.len(),
{
    if xs.len() == 0 {
        acc
    } else {
        set_add(union_add(acc, xs.drop_last()), xs.last())
    }
}

/// The pattern of a custom property definition (`--name:`).
pub open spec fn custom_prop_pattern() -> Seq<char> {
    "(--[a-zA-Z0-9_-]+)\\s*:"@
}

/// The custom properties a rule's text defines, each with the text.
pub open spec fn prop_defs(t: Seq<char>) -> Seq<(Seq<char>, Seq<char>)> {
    if regex_compiles(custom_prop_pattern()) {
        regex_all_capture_groups(custom_prop_pattern(), t).map_values(
            |g: Seq<Option<Seq<char>>>|
                (
                    match group_at(g, 1) {
                        Some(n) => n,
                        None => seq![],
                    },
                    t,
                ),
        )
    } else {
        seq![]
    }
}

/// Whether a selector of a selector list counts as matching one of the
/// pages: a non-empty selector that is empty once stripped of dynamic
/// pseudo-classes and pseudo-elements, or whose stripped form matches.
pub open spec fn piece_matches(p: Seq<char>, docs: Seq<Seq<char>>) -> bool {
    let s = trim_ws(p);
    s.len() > 0 && match stripped_selector(s) {
        None => true,
        Some(st) => exists|k: int| 0 <= k < docs.len() && selector_hits(st, #[trigger] docs[k]),
    }
}

/// Whether some selector of a comma-separated list counts as matching.
pub open spec fn selectors_match(selectors: Seq<char>, docs: Seq<Seq<char>>) -> bool {
    exists|k: int| 0 <= k < split_on(selectors, ',').len() && piece_matches(#[trigger] split_on(selectors, ',')[k], docs)
}

/// The state after a style rule.
pub open spec fn style_step(selectors: Seq<char>, text: Option<Seq<char>>, docs: Seq<Seq<char>>, st: WalkView) -> WalkView {
    match text {
        None => st,
        Some(t) => {
            let defs = st.custom_defs + prop_defs(t);
            if selectors_match(selectors, docs) {
                let d = global_deps_of(t);
                WalkView {
                    matched: st.matched.push(t),
                    families: union_add(st.families, d.0),
                    anims: union_add(st.anims, d.1),
                    props: union_add(st.props, d.2),
                    font_faces: st.font_faces,
                    keyframes: st.keyframes,
                    custom_defs: defs,
                }
            } else {
                WalkView { custom_defs: defs, ..st }
            }
        },
    }
}

/// Lines joined with newlines.
pub open spec fn join_lines(v: Seq<Seq<char>>) -> Seq<char>
    decreases v.len(),
{
    if v.len() == 0 {
        seq![]
    } else if v.len() == 1 {
        v[0]
    } else {
        join_lines(v.drop_last()) + seq!['\n'] + v.last()
    }
}

/// A block rule written around its kept rules.
pub open spec fn group_text(kind: GroupKind, prelude: Seq<char>, inner: Seq<char>) -> Seq<char> {
    match kind {
        GroupKind::Media => "@media "@ + prelude + " {\n"@ + inner + "\n}"@,
        GroupKind::Supports => "@supports "@ + prelude + " {\n"@ + inner + "\n}"@,
        GroupKind::Layer => if prelude.len() == 0 {
            "@layer {\n"@ + inner + "\n}"@
        } else {
            "@layer "@ + prelude + " {\n"@ + inner + "\n}"@
        },
    }
}

/// The state after the rules of a list, in order.
pub open spec fn walk_rules_spec(rules: Seq<RuleView>, docs: Seq<Seq<char>>, st: WalkView) -> WalkView
    decreases rules, 0int,
{
    if rules.len() == 0 {
        st
    } else {
        walk_rules_spec(rules.subrange(1, rules.len() as int), docs, rule_step(rules[0], docs, st))
    }
}

/// The state after one rule: a style rule as `style_step`; a block walks
/// its rules and is kept around those it keeps; `@font-face` and
/// `@keyframes` rules are collected; any other rule is kept.
pub open spec fn rule_step(rule: RuleView, docs: Seq<Seq<char>>, st: WalkView) -> WalkView
    decreases rule, 1int,
{
    match rule {
        RuleView::Style { selectors, style_text } => style_step(selectors, style_text, docs, st),
        RuleView::Group { group_kind, prelude, children } => {
            let inner = walk_rules_spec(children, docs, WalkView { matched: seq![], ..st });
            if inner.matched.len() == 0 {
                WalkView { matched: st.matched, ..inner }
            } else {
                WalkView { matched: st.matched.push(group_text(group_kind, prelude, join_lines(inner.matched))), ..inner }
            }
        },
        RuleView::Single { single_kind, single_text } => match single_text {
            None => st,
            Some(t) => match single_kind {
                SingleKind::FontFace => WalkView { font_faces: st.font_faces.push(t), ..st },
                SingleKind::Keyframes => WalkView { keyframes: st.keyframes.push(t), ..st },
                SingleKind::Other => WalkView { matched: st.matched.push(t), ..st },
            },
        },
    }
}

/// The sources of parsed pages.
pub open spec fn docs_view(docs: Seq<&HtmlDocument>) -> Seq<Seq<char>> {
    docs.map_values(|d: &HtmlDocument| html_source(*d))
}

/// Whether a stripped selector counts as matching one of the pages.
fn any_doc_hits(sel: &str, docs: &[&HtmlDocument]) -> (r: bool)
    ensures
        r == exists|k: int| 0 <= k < docs_view(docs@).len() && selector_hits(sel@, #[trigger] docs_view(docs@)[k]),
{
    let ghost dv = docs_view(docs@);
    let mut i: usize = 0;
    while i < docs.len()
        invariant
            i <= docs@.len(),
            dv == docs_view(docs@),
            forall|k: int| 0 <= k < i ==> !selector_hits(sel@, #[trigger] dv[k]),
        decreases docs@.len() - i,
    {
        if selector_matches(sel, docs[i]) {
            assert(selector_hits(sel@, dv[i as int]));
            return true;
        }
        i = i + 1;
    }
    false
}

/// Whether a selector of a list counts as matching one of the pages.
fn piece_matches_exec(p: &str, docs: &[&HtmlDocument]) -> (r: bool)
    ensures
        r == piece_matches(p@, docs_view(docs@)),
{
    let s = trim_exec(p);
    if s.as_str().is_empty() {
        return false;
    }
    match strip_pseudo_for_matching(s.as_str()) {
        None => true,
        Some(st) => any_doc_hits(st.as_str(), docs),
    }
}

/// Whether some selector of a comma-separated list counts as matching.
fn selectors_match_exec(selectors: &str, docs: &[&HtmlDocument]) -> (r: bool)
    ensures
        r == selectors_match(selectors@, docs_view(docs@)),
{
    let pieces = split_char(selectors, ',');
    let ghost pv = strs_view(pieces@);
    let mut i: usize = 0;
    while i < pieces.len()
        invariant
            i <= pieces@.len(),
            pv == strs_view(pieces@),
            pv == split_on(selectors@, ','),
            forall|k: int| 0 <= k < i ==> !piece_matches(#[trigger] pv[k], docs_view(docs@)),
        decreases pieces@.len() - i,
    {
        if piece_matches_exec(pieces[i].as_str(), docs) {
            assert(piece_matches(pv[i as int], docs_view(docs@)));
            return true;
        }
        i = i + 1;
    }
    false
}

/// The custom properties a rule's text defines, each with the text.
fn prop_defs_exec(t: &str) -> (r: Vec<(String, String)>)
    ensures
        crate::html::attrs_view(r@) == prop_defs(t@),
{
    let mut r: Vec<(String, String)> = Vec::new();
    let caps = match regex_captures_all("(--[a-zA-Z0-9_-]+)\\s*:", t) {
        Some(c) => c,
        None => return r,
    };
    let ghost cv = groups_view(caps@);
    let ghost want = prop_defs(t@);
    let mut i: usize = 0;
    while i < caps.len()
        invariant
            i <= caps@.len(),
            cv == groups_view(caps@),
            regex_compiles(custom_prop_pattern()),
            cv == regex_all_capture_groups(custom_prop_pattern(), t@),
            want == prop_defs(t@),
            want.len() == cv.len(),
            crate::html::attrs_view(r@) == want.subrange(0, i as int),
        decreases caps@.len() - i,
    {
        let g = &caps[i];
        assert(cv[i as int] == opt_strs_view(g@));
        let name = if 1 < g.len() {
            match &g[1] {
                Some(n) => n.clone(),
                None => String::new(),
            }
        } else {
            String::new()
        };
        let ghost before = crate::html::attrs_view(r@);
        r.push((name, owned(t)));
        assert(crate::html::attrs_view(r@) =~= before.push((name@, t@)));
        assert(want.subrange(0, i + 1) =~= want.subrange(0, i as int).push(want[i as int]));
        i = i + 1;
    }
    assert(want.subrange(0, caps@.len() as int) =~= want);
    r
}

/// Add the names of `xs` to `acc`, in order, unless present.
fn union_into(acc: &mut Vec<String>, xs: &Vec<String>)
    ensures
        strs_view(final(acc)@) == union_add(strs_view(old(acc)@), strs_view(xs@)),
{
    let ghost a0 = strs_view(acc@);
    let ghost xv = strs_view(xs@);
    let mut i: usize = 0;
    while i < xs.len()
        invariant
            i <= xs@.len(),
            xv == strs_view(xs@),
            strs_view(acc@) == union_add(a0, xv.subrange(0, i as int)),
        decreases xs@.len() - i,
    {
        assert(xv.subrange(0, i + 1).drop_last() =~= xv.subrange(0, i as int));
        let x = xs[i].as_str();
        if !list_contains(acc.as_slice(), x) {
            let ghost before = strs_view(acc@);
            acc.push(owned(x));
            assert(strs_view(acc@) =~= before.push(x@));
        }
        i = i + 1;
    }
    assert(xv.subrange(0, xs@.len() as int) =~= xv);
}

/// The state after style rule `i` of a list.
fn style_step_exec(l: &RuleList<'_, '_>, i: usize, docs: &[&HtmlDocument], minify: bool, st: WalkState) -> (r: WalkState)
    requires
        i < css_rules(*l, minify).len(),
        css_rules(*l, minify)[i as int] is Style,
    ensures
        walk_view(r) == style_step(
            css_rules(*l, minify)[i as int]->selectors,
            css_rules(*l, minify)[i as int]->style_text,
            docs_view(docs@),
            walk_view(st),
        ),
{
    let selectors = style_selectors(l, i, minify);
    let text = match rule_text(l, i, minify) {
        Some(t) => t,
        None => return st,
    };
    let mut st = st;
    let ghost s0 = walk_view(st);
    let defs = prop_defs_exec(text.as_str());
    let mut k: usize = 0;
    while k < defs.len()
        invariant
            k <= defs@.len(),
            crate::html::attrs_view(st.custom_defs@) == s0.custom_defs + crate::html::attrs_view(defs@.subrange(0, k as int)),
            strs_view(st.matched@) == s0.matched,
            strs_view(st.deps.font_families@) == s0.families,
            strs_view(st.deps.animation_names@) == s0.anims,
            strs_view(st.deps.custom_properties@) == s0.props,
            strs_view(st.font_faces@) == s0.font_faces,
            strs_view(st.keyframes@) == s0.keyframes,
        decreases defs@.len() - k,
    {
        let ghost before = crate::html::attrs_view(st.custom_defs@);
        let a = defs[k].0.clone();
        let b = defs[k].1.clone();
        st.custom_defs.push((a, b));
        assert(crate::html::attrs_view(st.custom_defs@) =~= before.push((a@, b@)));
        assert(crate::html::attrs_view(defs@.subrange(0, k + 1)) =~= crate::html::attrs_view(defs@.subrange(0, k as int)).push(
            (defs@[k as int].0@, defs@[k as int].1@),
        ));
        k = k + 1;
    }
    assert(defs@.subrange(0, defs@.len() as int) =~= defs@);
    if selectors_match_exec(selectors.as_str(), docs) {
        let d = collect_global_deps(text.as_str());
        union_into(&mut st.deps.font_families, &d.font_families);
        union_into(&mut st.deps.animation_names, &d.animation_names);
        union_into(&mut st.deps.custom_properties, &d.custom_properties);
        let ghost before = strs_view(st.matched@);
        st.matched.push(text);
        assert(strs_view(st.matched@) =~= before.push(text@));
    }
    st
}

/// Lines joined with newlines.
fn join_lines_exec(v: &Vec<String>) -> (r: String)
    ensures
        r@ == join_lines(strs_view(v@)),
{
    let ghost vv = strs_view(v@);
    let mut r = String::new();
    let mut i: usize = 0;
    while i < v.len()
        invariant
            i <= v@.len(),
            vv == strs_view(v@),
            r@ == join_lines(vv.subrange(0, i as int)),
        decreases v@.len() - i,
    {
        assert(vv.subrange(0, i + 1).drop_last() =~= vv.subrange(0, i as int));
        if i > 0 {
            push_char(&mut r, '\n');
        }
        r.append(v[i].as_str());
        i = i + 1;
    }
    assert(vv.subrange(0, v@.len() as int) =~= vv);
    r
}

/// A block rule written around its kept rules.
fn group_text_exec(kind: &GroupKind, prelude: &str, inner: &str) -> (r: String)
    ensures
        r@ == group_text(*kind, prelude@, inner@),
{
    let mut r = match kind {
        GroupKind::Media => owned("@media "),
        GroupKind::Supports => owned("@supports "),
        GroupKind::Layer => owned("@layer "),
    };
    match kind {
        GroupKind::Layer => {
            if prelude.is_empty() {
                r = owned("@layer {\n");
            } else {
                r.append(prelude);
                r.append(" {\n");
            }
        },
        _ => {
            r.append(prelude);
            r.append(" {\n");
        },
    }
    r.append(inner);
    r.append("\n}");
    r
}

/// Walk the rules of a list, in order, gathering what is kept (see
/// `rule_step`).
fn walk_rules(l: &RuleList<'_, '_>, docs: &[&HtmlDocument], minify: bool, st: WalkState) -> (r: WalkState)
    ensures
        walk_view(r) == walk_rules_spec(css_rules(*l, minify), docs_view(docs@), walk_view(st)),
    decreases css_rules(*l, minify),
{
    let ghost rv = css_rules(*l, minify);
    let ghost dv = docs_view(docs@);
    let ghost s0 = walk_view(st);
    let n = rule_count(l);
    let mut st = st;
    let mut i: usize = 0;
    assert(rv.subrange(0, rv.len() as int) =~= rv);
    while i < n
        invariant
            i <= n,
            n == rv.len(),
            n == css_rules(*l, false).len(),
            n == css_rules(*l, true).len(),
            rv == css_rules(*l, minify),
            dv == docs_view(docs@),
            walk_rules_spec(rv.subrange(i as int, rv.len() as int), dv, walk_view(st)) == walk_rules_spec(rv, dv, s0),
        decreases n - i,
    {
        let ghost rest = rv.subrange(i as int, rv.len() as int);
        assert(rest[0] == rv[i as int]);
        assert(rest.subrange(1, rest.len() as int) =~= rv.subrange(i + 1, rv.len() as int));
        let ghost cur = walk_view(st);
        let ghost want = rule_step(rv[i as int], dv, cur);
        match rule_kind(l, i) {
            RuleKind::Style => {
                st = style_step_exec(l, i, docs, minify, st);
            },
            RuleKind::Group(kind) => {
                let child = group_children(l, i);
                let prelude = group_prelude(l, i, minify);
                let WalkState { matched: outer, deps, font_faces, keyframes, custom_defs } = st;
                let fresh = WalkState { matched: Vec::new(), deps, font_faces, keyframes, custom_defs };
                assert(strs_view(fresh.matched@) =~= Seq::<Seq<char>>::empty());
                assert(walk_view(fresh) == WalkView { matched: seq![], ..cur });
                proof {
                    assert(decreases_to!(rv => rv[i as int]));
                    assert(decreases_to!(rv[i as int] => rv[i as int]->children));
                }
                let inner = walk_rules(&child, docs, minify, fresh);
                let WalkState { matched: inner_matched, deps, font_faces, keyframes, custom_defs } = inner;
                let mut matched = outer;
                if inner_matched.len() > 0 {
                    let body = join_lines_exec(&inner_matched);
                    let text = group_text_exec(&kind, prelude.as_str(), body.as_str());
                    let ghost before = strs_view(matched@);
                    matched.push(text);
                    assert(strs_view(matched@) =~= before.push(text@));
                }
                st = WalkState { matched, deps, font_faces, keyframes, custom_defs };
            },
            RuleKind::Single(kind) => {
                match rule_text(l, i, minify) {
                    None => {},
                    Some(t) => {
                        match kind {
                            SingleKind::FontFace => {
                                let ghost before = strs_view(st.font_faces@);
                                st.font_faces.push(t);
                                assert(strs_view(st.font_faces@) =~= before.push(t@));
                            },
                            SingleKind::Keyframes => {
                                let ghost before = strs_view(st.keyframes@);
                                st.keyframes.push(t);
                                assert(strs_view(st.keyframes@) =~= before.push(t@));
                            },
                            SingleKind::Other => {
                                let ghost before = strs_view(st.matched@);
                                st.matched.push(t);
                                assert(strs_view(st.matched@) =~= before.push(t@));
                            },
                        }
                    },
                }
            },
        }
        assert(walk_view(st) == want);
        i = i + 1;
    }
    assert(rv.subrange(n as int, rv.len() as int) =~= Seq::<RuleView>::empty());
    st
}

/// Whether some name of `names` occurs in `text`.
pub open spec fn mentions_any(text: Seq<char>, names: Seq<Seq<char>>) -> bool {
    exists|k: int| 0 <= k < names.len() && contains_seq(text, #[trigger] names[k])
}

/// The rules kept, in order: the `@font-face` rules that mention a font
/// family used, the `@keyframes` rules that mention an animation used,
/// the rules defining a custom property used, then the kept rules.
pub open spec fn kept_parts(st: WalkView) -> Seq<Seq<char>> {
    st.font_faces.filter(|f: Seq<char>| mentions_any(f, st.families)) + st.keyframes.filter(
        |k: Seq<char>| mentions_any(k, st.anims),
    ) + st.custom_defs.filter(|d: (Seq<char>, Seq<char>)| st.props.contains(d.0)).map_values(
        |d: (Seq<char>, Seq<char>)| d.1,
    ) + st.matched
}

/// The stylesheet of the kept rules, one per line; empty when no rule
/// was kept.
pub open spec fn kept_css(st: WalkView) -> Seq<char> {
    if st.matched.len() == 0 {
        seq![]
    } else {
        join_lines(kept_parts(st))
    }
}

/// Whether some name of `names` occurs in `text`.
fn mentions_any_exec(text: &str, names: &Vec<String>) -> (r: bool)
    ensures
        r == mentions_any(text@, strs_view(names@)),
{
    let ghost nv = strs_view(names@);
    let mut i: usize = 0;
    while i < names.len()
        invariant
            i <= names@.len(),
            nv == strs_view(names@),
            forall|k: int| 0 <= k < i ==> !contains_seq(text@, #[trigger] nv[k]),
        decreases names@.len() - i,
    {
        if str_contains(text, names[i].as_str()) {
            assert(contains_seq(text@, nv[i as int]));
            return true;
        }
        i = i + 1;
    }
    false
}

/// Append the texts of `v` that mention a name of `names`.
fn push_mentioning(out: &mut Vec<String>, v: &Vec<String>, names: &Vec<String>)
    ensures
        strs_view(final(out)@) == strs_view(old(out)@) + strs_view(v@).filter(
            |f: Seq<char>| mentions_any(f, strs_view(names@)),
        ),
{
    let ghost o0 = strs_view(out@);
    let ghost vv = strs_view(v@);
    let ghost nv = strs_view(names@);
    let ghost pred = |f: Seq<char>| mentions_any(f, nv);
    let mut i: usize = 0;
    while i < v.len()
        invariant
            i <= v@.len(),
            vv == strs_view(v@),
            nv == strs_view(names@),
            pred == (|f: Seq<char>| mentions_any(f, nv)),
            strs_view(out@) == o0 + vv.subrange(0, i as int).filter(pred),
        decreases v@.len() - i,
    {
        assert(vv.subrange(0, i + 1).drop_last() =~= vv.subrange(0, i as int));
        reveal(Seq::filter);
        let ghost before = strs_view(out@);
        if mentions_any_exec(v[i].as_str(), names) {
            out.push(v[i].clone());
            assert(strs_view(out@) =~= before.push(vv[i as int]));
        }
        i = i + 1;
    }
    assert(vv.subrange(0, v@.len() as int) =~= vv);
}

/// The stylesheet of the kept rules.
fn kept_css_exec(st: &WalkState) -> (r: String)
    ensures
        r@ == kept_css(walk_view(*st)),
{
    let ghost w = walk_view(*st);
    if st.matched.len() == 0 {
        return String::new();
    }
    let mut parts: Vec<String> = Vec::new();
    assert(strs_view(parts@) =~= Seq::<Seq<char>>::empty());
    push_mentioning(&mut parts, &st.font_faces, &st.deps.font_families);
    push_mentioning(&mut parts, &st.keyframes, &st.deps.animation_names);
    let ghost p0 = strs_view(parts@);
    let ghost dv = w.custom_defs;
    let ghost dpred = |d: (Seq<char>, Seq<char>)| w.props.contains(d.0);
    let mut i: usize = 0;
    while i < st.custom_defs.len()
        invariant
            i <= st.custom_defs@.len(),
            w == walk_view(*st),
            dv == w.custom_defs,
            dpred == (|d: (Seq<char>, Seq<char>)| w.props.contains(d.0)),
            strs_view(parts@) == p0 + dv.subrange(0, i as int).filter(dpred).map_values(|d: (Seq<char>, Seq<char>)| d.1),
        decreases st.custom_defs@.len() - i,
    {
        assert(dv.subrange(0, i + 1).drop_last() =~= dv.subrange(0, i as int));
        reveal(Seq::filter);
        let ghost before = strs_view(parts@);
        if list_contains(st.deps.custom_properties.as_slice(), st.custom_defs[i].0.as_str()) {
            parts.push(st.custom_defs[i].1.clone());
            assert(dv.subrange(0, i + 1).filter(dpred) =~= dv.subrange(0, i as int).filter(dpred).push(dv[i as int]));
            assert(strs_view(parts@) =~= before.push(dv[i as int].1));
        }
        i = i + 1;
    }
    assert(dv.subrange(0, st.custom_defs@.len() as int) =~= dv);
    let mut k: usize = 0;
    let ghost p1 = strs_view(parts@);
    while k < st.matched.len()
        invariant
            k <= st.matched@.len(),
            w == walk_view(*st),
            strs_view(parts@) == p1 + w.matched.subrange(0, k as int),
        decreases st.matched@.len() - k,
    {
        let ghost before = strs_view(parts@);
        parts.push(st.matched[k].clone());
        assert(strs_view(parts@) =~= before.push(w.matched[k as int]));
        assert(w.matched.subrange(0, k + 1) =~= w.matched.subrange(0, k as int).push(w.matched[k as int]));
        k = k + 1;
    }
    assert(w.matched.subrange(0, st.matched@.len() as int) =~= w.matched);
    assert(strs_view(parts@) =~= kept_parts(w));
    join_lines_exec(&parts)
}

/// The stylesheet of the rules of `css` that the pages use (see
/// `rule_step` and `kept_parts`), written by a printer that minifies or
/// not; the parser's message when the stylesheet cannot be parsed.
pub fn keep_used_rules(css: &str, docs: &[&HtmlDocument], minify: bool) -> (r: Result<String, String>)
    ensures
        match stylesheet_rules(css@, minify) {
            None => r is Err,
            Some(rules) => r matches Ok(t) && t@ == kept_css(walk_rules_spec(rules, docs_view(docs@), empty_walk())),
        },
{
    let parsed = match parse_css_rules(css) {
        Ok(p) => p,
        Err(e) => return Err(e),
    };
    let top = top_rules(&parsed);
    let start = WalkState {
        matched: Vec::new(),
        deps: GlobalDependencies { font_families: Vec::new(), animation_names: Vec::new(), custom_properties: Vec::new() },
        font_faces: Vec::new(),
        keyframes: Vec::new(),
        custom_defs: Vec::new(),
    };
    assert(strs_view(start.matched@) =~= Seq::<Seq<char>>::empty());
    assert(strs_view(start.deps.font_families@) =~= Seq::<Seq<char>>::empty());
    assert(strs_view(start.deps.animation_names@) =~= Seq::<Seq<char>>::empty());
    assert(strs_view(start.deps.custom_properties@) =~= Seq::<Seq<char>>::empty());
    assert(strs_view(start.font_faces@) =~= Seq::<Seq<char>>::empty());
    assert(strs_view(start.keyframes@) =~= Seq::<Seq<char>>::empty());
    assert(crate::html::attrs_view(start.custom_defs@) =~= Seq::<(Seq<char>, Seq<char>)>::empty());
    assert(walk_view(start) == empty_walk());
    let end = walk_rules(&top, docs, minify, start);
    Ok(kept_css_exec(&end))
}

/// A rule kept for some pages is kept when more pages are added: a
/// selector list that matches one of `docs` matches one of `docs` and
/// `more` together.
pub proof fn law_more_pages_keep_more(selectors: Seq<char>, docs: Seq<Seq<char>>, more: Seq<Seq<char>>)
    requires
        selectors_match(selectors, docs),
    ensures
        selectors_match(selectors, docs + more),
{
    let pieces = split_on(selectors, ',');
    let k = choose|k: int| 0 <= k < pieces.len() && piece_matches(#[trigger] pieces[k], docs);
    let s = trim_ws(pieces[k]);
    match stripped_selector(s) {
        None => {},
        Some(st) => {
            let j = choose|j: int| 0 <= j < docs.len() && selector_hits(st, #[trigger] docs[j]);
            assert((docs + more)[j] == docs[j]);
        },
    }
    assert(piece_matches(pieces[k], docs + more));
}

} // verus!



