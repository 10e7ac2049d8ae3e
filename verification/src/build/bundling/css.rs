//! Stylesheet merging: the local stylesheets of the pages in one file,
//! each `@import` of a local file replaced by that file's content.

use vstd::prelude::*;
use crate::build::dist_files::{dir_of, dir_of_path, file_content, files_view, normalize_path, normalized, read_file, DistFiles};
use crate::build::critical_css::extract::{html_source, HtmlDocument};
use crate::regexp::{groups_view, regex_all_capture_groups, regex_captures_all, regex_compiles};
use crate::text::{
    chars_of, has_prefix, opt_view, owned, push_char, replace_all, replace_all_exec, starts_with, string_of, trim_start_char,
    trim_start_char_exec,
};

verus! {

/// The pattern of an `@import` directive: the `url(..)` form takes its
/// path in group 1, the string form in group 2.
pub open spec fn import_pattern() -> Seq<char> {
    "@import\\s+(?:url\\(\\s*['\"]?([^'\")]+)['\"]?\\s*\\)|['\"]([^'\"]+)['\"]);?"@
}

/// The deepest level of nested imports that is resolved.
pub const MAX_IMPORT_DEPTH: usize = 10;

/// Group `k` of a match, `None` when absent.
pub open spec fn group_at(g: Seq<Option<Seq<char>>>, k: int) -> Option<Seq<char>> {
    if 0 <= k < g.len() {
        g[k]
    } else {
        None
    }
}

/// The imported path of a match.
pub open spec fn import_of(g: Seq<Option<Seq<char>>>) -> Seq<char> {
    match group_at(g, 1) {
        Some(s) => s,
        None => match group_at(g, 2) {
            Some(s) => s,
            None => seq![],
        },
    }
}

/// Imports that are left as written: external ones and empty ones.
pub open spec fn kept_import(p: Seq<char>) -> bool {
    has_prefix(p, "http://"@) || has_prefix(p, "https://"@) || p.len() == 0
}

/// The file an import refers to from a stylesheet in `dir`: from `dist/`
/// when it starts with `/`, else from `dir`.
pub open spec fn import_target(dir: Seq<char>, p: Seq<char>) -> Option<Seq<char>> {
    if has_prefix(p, "/"@) {
        normalized(p)
    } else {
        normalized(dir + seq!['/'] + p)
    }
}

/// A stylesheet at `path` with its imports resolved, from nesting level
/// `depth` on: past the deepest level it is kept as it is.
pub open spec fn resolved_css(files: Seq<(Seq<char>, Seq<char>)>, css: Seq<char>, path: Seq<char>, depth: int) -> Seq<char>
    decreases 11 - depth, 1int, 0int,
{
    if depth > 10 || depth < 0 {
        css
    } else if !regex_compiles(import_pattern()) {
        css
    } else {
        import_fold(files, regex_all_capture_groups(import_pattern(), css), css, dir_of(path), depth)
    }
}

/// The text `acc` after the imports of `caps`, in order: each import of a
/// local file that exists replaces every occurrence of its directive by
/// the file's resolved content.
pub open spec fn import_fold(
    files: Seq<(Seq<char>, Seq<char>)>,
    caps: Seq<Seq<Option<Seq<char>>>>,
    acc: Seq<char>,
    dir: Seq<char>,
    depth: int,
) -> Seq<char>
    decreases 11 - depth, 0int, caps.len(),
{
    if caps.len() == 0 || depth > 10 || depth < 0 {
        acc
    } else {
        import_fold(files, caps.skip(1), import_step(files, caps[0], acc, dir, depth), dir, depth)
    }
}

/// The text `acc` after the import of one match.
pub open spec fn import_step(
    files: Seq<(Seq<char>, Seq<char>)>,
    g: Seq<Option<Seq<char>>>,
    acc: Seq<char>,
    dir: Seq<char>,
    depth: int,
) -> Seq<char>
    decreases 11 - depth, 0int, 0int,
{
    let p = import_of(g);
    if kept_import(p) || depth > 10 || depth < 0 {
        acc
    } else {
        match import_target(dir, p) {
            None => acc,
            Some(t) => match file_content(files, t) {
                None => acc,
                Some(content) => match group_at(g, 0) {
                    Some(full) => replace_all(acc, full, resolved_css(files, content, t, depth + 1)),
                    None => acc,
                },
            },
        }
    }
}

/// A group of a match.
fn group_exec(g: &Vec<Option<String>>, k: usize) -> (r: Option<String>)
    ensures
        opt_view(r) == group_at(crate::regexp::opt_strs_view(g@), k as int),
{
    if k < g.len() {
        match &g[k] {
            Some(s) => Some(s.clone()),
            None => None,
        }
    } else {
        None
    }
}

/// Resolve the `@import`s of a stylesheet at `css_path` (relative to
/// `dist/`) from the files of `dist/`, recursively up to
/// `MAX_IMPORT_DEPTH` levels; imports of external or missing files are
/// kept.
pub(crate) fn resolve_imports(files: &DistFiles, css: &str, css_path: &str, depth: usize) -> (r: String)
    requires
        depth <= 11,
    ensures
        r@ == resolved_css(files_view(*files), css@, css_path@, depth as int),
    decreases 11 - depth,
{
    if depth > MAX_IMPORT_DEPTH {
        return owned(css);
    }
    let pattern = "@import\\s+(?:url\\(\\s*['\"]?([^'\")]+)['\"]?\\s*\\)|['\"]([^'\"]+)['\"]);?";
    let caps = match regex_captures_all(pattern, css) {
        Some(c) => c,
        None => return owned(css),
    };
    let ghost fv = files_view(*files);
    let ghost cv = groups_view(caps@);
    let dir = dir_of_path(css_path);
    let mut acc = owned(css);
    let mut i: usize = 0;
    assert(cv.skip(0) =~= cv);
    while i < caps.len()
        invariant
            i <= caps@.len(),
            depth <= 10,
            fv == files_view(*files),
            cv == groups_view(caps@),
            cv == regex_all_capture_groups(import_pattern(), css@),
            dir@ == dir_of(css_path@),
            import_fold(fv, cv.skip(i as int), acc@, dir@, depth as int) == import_fold(fv, cv, css@, dir@, depth as int),
        decreases caps@.len() - i,
    {
        let ghost g = cv[i as int];
        assert(g == crate::regexp::opt_strs_view(caps@[i as int]@));
        assert(cv.skip(i as int)[0] == g);
        assert(cv.skip(i as int).skip(1) =~= cv.skip(i + 1));
        let ghost next = import_step(fv, g, acc@, dir@, depth as int);
        let p = match group_exec(&caps[i], 1) {
            Some(s) => s,
            None => match group_exec(&caps[i], 2) {
                Some(s) => s,
                None => String::new(),
            },
        };
        assert(p@ == import_of(g));
        proof {
            reveal_strlit("/");
        }
        if !(starts_with(p.as_str(), "http://") || starts_with(p.as_str(), "https://") || p.as_str().is_empty()) {
            let target = if starts_with(p.as_str(), "/") {
                normalize_path(p.as_str())
            } else {
                let mut joined = dir.clone();
                push_char(&mut joined, '/');
                joined.append(p.as_str());
                assert(joined@ =~= dir@ + seq!['/'] + p@);
                normalize_path(joined.as_str())
            };
            assert(opt_view(target) == import_target(dir@, p@));
            if let Some(t) = target {
                if let Some(content) = read_file(files, t.as_str()) {
                    if let Some(full) = group_exec(&caps[i], 0) {
                        let resolved = resolve_imports(files, content.as_str(), t.as_str(), depth + 1);
                        let a = chars_of(acc.as_str());
                        let f = chars_of(full.as_str());
                        let rv = chars_of(resolved.as_str());
                        let out = replace_all_exec(&a, &f, &rv);
                        acc = string_of(&out);
                    }
                }
            }
        }
        assert(acc@ == next);
        i = i + 1;
    }
    assert(cv.skip(i as int).len() == 0);
    acc
}

/// The part of a merged stylesheet from one file.
pub open spec fn css_part(href: Seq<char>, resolved: Seq<char>) -> Seq<char> {
    "/* Source: "@ + href + " */\n"@ + resolved
}

/// The stylesheets of `hrefs` merged in order, separated by a newline;
/// hrefs with no file are left out.
pub open spec fn merged_css(files: Seq<(Seq<char>, Seq<char>)>, hrefs: Seq<Seq<char>>) -> Seq<char>
    decreases hrefs.len(),
{
    if hrefs.len() == 0 {
        seq![]
    } else {
        let prev = merged_css(files, hrefs.drop_last());
        let h = hrefs.last();
        match normalized(trim_start_char(h, '/')) {
            None => prev,
            Some(p) => match file_content(files, p) {
                None => prev,
                Some(c) => {
                    let part = css_part(h, resolved_css(files, c, p, 0));
                    if prev.len() == 0 {
                        part
                    } else {
                        prev + seq!['\n'] + part
                    }
                },
            },
        }
    }
}

/// Merge the stylesheets of `hrefs` (URL paths into `dist/`), in order,
/// each preceded by a source comment and with its `@import`s resolved;
/// an href with no file is skipped.
pub fn merge_css_files(hrefs: &[String], files: &DistFiles) -> (r: String)
    ensures
        r@ == merged_css(files_view(*files), crate::text::strs_view(hrefs@)),
{
    let ghost fv = files_view(*files);
    let ghost hv = crate::text::strs_view(hrefs@);
    let mut merged = String::new();
    let mut i: usize = 0;
    while i < hrefs.len()
        invariant
            i <= hrefs@.len(),
            fv == files_view(*files),
            hv == crate::text::strs_view(hrefs@),
            merged@ == merged_css(fv, hv.subrange(0, i as int)),
        decreases hrefs@.len() - i,
    {
        assert(hv.subrange(0, i + 1).drop_last() =~= hv.subrange(0, i as int));
        assert(hv.subrange(0, i + 1).last() == hrefs@[i as int]@);
        let href = hrefs[i].as_str();
        let relative = trim_start_char_exec(href, '/');
        if let Some(path) = normalize_path(relative.as_str()) {
            if let Some(content) = read_file(files, path.as_str()) {
                let resolved = resolve_imports(files, content.as_str(), path.as_str(), 0);
                if !merged.as_str().is_empty() {
                    push_char(&mut merged, '\n');
                }
                merged.append("/* Source: ");
                merged.append(href);
                merged.append(" */\n");
                merged.append(resolved.as_str());
            }
        }
        i = i + 1;
    }
    assert(hv.subrange(0, hrefs@.len() as int) =~= hv);
    merged
}

/// The stylesheet of the rules of `merged_css` that some page uses: the
/// stylesheet itself when no page could be read; otherwise its rules
/// kept as `crate::build::css_rules::keep_used_rules` keeps them, written
/// by a printer that minifies or not. Fails when the stylesheet cannot be
/// parsed.
pub fn tree_shake_css(merged_css: &str, html_pages: &[String], minify: bool) -> (r: Result<String, String>)
    ensures
        html_pages@.len() == 0 ==> (r matches Ok(t) && t@ == merged_css@),
        html_pages@.len() > 0 ==> match crate::build::css_rules::stylesheet_rules(merged_css@, minify) {
            None => r is Err,
            Some(rules) => r matches Ok(t) && t@ == crate::build::css_rules::kept_css(
                crate::build::css_rules::walk_rules_spec(rules, crate::text::strs_view(html_pages@), crate::build::css_rules::empty_walk()),
            ),
        },
{
    if html_pages.len() == 0 {
        return Ok(owned(merged_css));
    }
    let mut parsed: Vec<HtmlDocument> = Vec::new();
    let mut i: usize = 0;
    while i < html_pages.len()
        invariant
            i <= html_pages@.len(),
            parsed@.len() == i,
            forall|k: int| 0 <= k < i ==> html_source(#[trigger] parsed@[k]) == html_pages@[k]@,
        decreases html_pages@.len() - i,
    {
        parsed.push(HtmlDocument::parse(html_pages[i].as_str()));
        i = i + 1;
    }
    let mut docs: Vec<&HtmlDocument> = Vec::new();
    let mut j: usize = 0;
    while j < parsed.len()
        invariant
            j <= parsed@.len(),
            docs@.len() == j,
            forall|k: int| 0 <= k < j ==> *(#[trigger] docs@[k]) == parsed@[k],
        decreases parsed@.len() - j,
    {
        docs.push(&parsed[j]);
        j = j + 1;
    }
    assert(crate::build::css_rules::docs_view(docs@) =~= crate::text::strs_view(html_pages@));
    match crate::build::css_rules::keep_used_rules(merged_css, docs.as_slice(), minify) {
        Ok(t) => Ok(t),
        Err(e) => {
            let mut m = owned("CSS parse error during tree-shaking: ");
            m.append(e.as_str());
            Err(m)
        },
    }
}

} // verus!

