//! The template context of a page: global data, the page's own data, the
//! page metadata and, on a dynamic page, the current item, merged by key
//! with later sources winning.

use vstd::prelude::*;
use crate::text::{owned, str_eq, strs_view};

verus! {

/// Metadata about the page currently being rendered.
pub struct PageMeta {
    /// The full URL path of the page, e.g. `/about.html`.
    pub current_url: String,
    /// The path relative to `dist/`, e.g. `about.html`.
    pub current_path: String,
    /// The site's base URL, e.g. `https://example.com`.
    pub base_url: String,
    /// ISO 8601 timestamp of when the build started.
    pub build_time: String,
}

/// Where the value of a context key comes from.
pub enum ContextSource {
    /// Entry `i` of the global data.
    Global(usize),
    /// Entry `i` of the page's data.
    Page(usize),
    /// The page metadata (the `page` key).
    PageMeta,
    /// The current item of a dynamic page.
    Item,
}

/// `entries` with `key` set to `src`: its entry replaced where the key is
/// present, appended otherwise.
pub open spec fn set_entry(entries: Seq<(Seq<char>, ContextSource)>, key: Seq<char>, src: ContextSource) -> Seq<(Seq<char>, ContextSource)> {
    if exists|j: int| 0 <= j < entries.len() && (#[trigger] entries[j]).0 == key {
        entries.map_values(|e: (Seq<char>, ContextSource)| if e.0 == key { (key, src) } else { e })
    } else {
        entries.push((key, src))
    }
}

/// The entries after setting the keys of `keys` in order, the `k`-th to
/// entry `k` of the global data (`global`) or of the page's data.
pub open spec fn set_all(entries: Seq<(Seq<char>, ContextSource)>, keys: Seq<Seq<char>>, global: bool) -> Seq<(Seq<char>, ContextSource)>
    decreases keys.len(),
{
    if keys.len() == 0 {
        entries
    } else {
        let k = (keys.len() - 1) as usize;
        set_entry(
            set_all(entries, keys.drop_last(), global),
            keys.last(),
            if global {
                ContextSource::Global(k)
            } else {
                ContextSource::Page(k)
            },
        )
    }
}

/// The keys of a page's context and where each value comes from: the
/// global data, then the page's data, then `page`, then the item under
/// its name, a later source replacing an earlier one with the same key.
pub open spec fn context_entries(globals: Seq<Seq<char>>, pages: Seq<Seq<char>>, item: Option<Seq<char>>) -> Seq<(Seq<char>, ContextSource)> {
    let e = set_entry(set_all(set_all(seq![], globals, true), pages, false), "page"@, ContextSource::PageMeta);
    match item {
        Some(name) => set_entry(e, name, ContextSource::Item),
        None => e,
    }
}

/// The views of context entries.
pub open spec fn entries_view(v: Seq<(String, ContextSource)>) -> Seq<(Seq<char>, ContextSource)> {
    v.map_values(|e: (String, ContextSource)| (e.0@, e.1))
}

/// A copy of a source.
fn copy_source(s: &ContextSource) -> (r: ContextSource)
    ensures
        r == *s,
{
    match s {
        ContextSource::Global(i) => ContextSource::Global(*i),
        ContextSource::Page(i) => ContextSource::Page(*i),
        ContextSource::PageMeta => ContextSource::PageMeta,
        ContextSource::Item => ContextSource::Item,
    }
}

/// Set `key` to `src` in the entries.
fn set_entry_exec(entries: &mut Vec<(String, ContextSource)>, key: &str, src: ContextSource)
    ensures
        entries_view(final(entries)@) == set_entry(entries_view(old(entries)@), key@, src),
{
    let ghost e0 = entries_view(entries@);
    let mut found = false;
    let mut out: Vec<(String, ContextSource)> = Vec::new();
    let mut i: usize = 0;
    while i < entries.len()
        invariant
            i <= entries@.len(),
            e0 == entries_view(entries@),
            found <==> exists|j: int| 0 <= j < i && (#[trigger] e0[j]).0 == key@,
            entries_view(out@) == e0.subrange(0, i as int).map_values(
                |e: (Seq<char>, ContextSource)| if e.0 == key@ { (key@, src) } else { e },
            ),
        decreases entries@.len() - i,
    {
        let ghost before = entries_view(out@);
        assert(e0[i as int] == (entries@[i as int].0@, entries@[i as int].1));
        assert(e0.subrange(0, i + 1).map_values(|e: (Seq<char>, ContextSource)| if e.0 == key@ { (key@, src) } else { e })
            =~= e0.subrange(0, i as int).map_values(|e: (Seq<char>, ContextSource)| if e.0 == key@ { (key@, src) } else { e }).push(
            if e0[i as int].0 == key@ { (key@, src) } else { e0[i as int] },
        ));
        if str_eq(entries[i].0.as_str(), key) {
            assert(e0[i as int].0 == key@);
            found = true;
            out.push((owned(key), copy_source(&src)));
        } else {
            out.push((entries[i].0.clone(), copy_source(&entries[i].1)));
        }
        assert(entries_view(out@) =~= before.push(if e0[i as int].0 == key@ { (key@, src) } else { e0[i as int] }));
        i = i + 1;
    }
    assert(e0.subrange(0, entries@.len() as int) =~= e0);
    if found {
        *entries = out;
    } else {
        let ghost before = entries_view(entries@);
        entries.push((owned(key), src));
        assert(entries_view(entries@) =~= before.push((key@, src)));
    }
}

/// Set each key of `keys`, the `k`-th to the `k`-th global or page entry.
fn set_all_exec(entries: &mut Vec<(String, ContextSource)>, keys: &[String], global: bool)
    ensures
        entries_view(final(entries)@) == set_all(entries_view(old(entries)@), strs_view(keys@), global),
{
    let ghost e0 = entries_view(entries@);
    let ghost kv = strs_view(keys@);
    let mut i: usize = 0;
    while i < keys.len()
        invariant
            i <= keys@.len(),
            kv == strs_view(keys@),
            entries_view(entries@) == set_all(e0, kv.subrange(0, i as int), global),
        decreases keys@.len() - i,
    {
        assert(kv.subrange(0, i + 1).drop_last() =~= kv.subrange(0, i as int));
        assert(kv.subrange(0, i + 1).last() == keys@[i as int]@);
        let src = if global {
            ContextSource::Global(i)
        } else {
            ContextSource::Page(i)
        };
        set_entry_exec(entries, keys[i].as_str(), src);
        i = i + 1;
    }
    assert(kv.subrange(0, keys@.len() as int) =~= kv);
}

/// The keys of a page's template context and where each value comes
/// from: each global data key, then each key of the page's data (which
/// replaces a global one of the same name), then `page` for the page
/// metadata, then the dynamic item under its name; in order of first
/// insertion, each key once.
pub fn context_sources(global_keys: &[String], page_keys: &[String], item_name: Option<&str>) -> (r: Vec<(String, ContextSource)>)
    ensures
        entries_view(r@) == context_entries(
            strs_view(global_keys@),
            strs_view(page_keys@),
            match item_name {
                Some(n) => Some(n@),
                None => None,
            },
        ),
{
    let mut entries: Vec<(String, ContextSource)> = Vec::new();
    assert(entries_view(entries@) =~= Seq::<(Seq<char>, ContextSource)>::empty());
    set_all_exec(&mut entries, global_keys, true);
    set_all_exec(&mut entries, page_keys, false);
    set_entry_exec(&mut entries, "page", ContextSource::PageMeta);
    match item_name {
        Some(n) => set_entry_exec(&mut entries, n, ContextSource::Item),
        None => {},
    }
    entries
}

} // verus!
