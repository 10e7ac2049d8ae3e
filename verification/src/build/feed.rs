//! Atom feeds: the Atom 1.0 XML of a `[feed.*]` collection, from the data
//! items that its query returns.
//!
//! A data item is an object of fields; the library reads its fields as
//! strings, numbers (by their JSON text) or other values.

use vstd::prelude::*;
use crate::build::seo::first_present;
use crate::build::sitemap::{escape_xml, xml_escaped};
use crate::config::{DataQuery, FeedConfig, QueryMethod, SiteMeta};
use crate::text::{has_prefix, lemma_prefix_concat, opt_view, owned, trim_end_char, trim_end_char_exec, trim_start_char, trim_start_char_exec};

verus! {

/// One field value of a data item.
pub enum FeedValue {
    /// A string.
    Str(String),
    /// A number, by its JSON text.
    Num(String),
    /// Any other value (boolean, null, array, object).
    Other,
}

/// A data item: its fields in order, with distinct names (empty for an
/// item that is not an object).
pub struct FeedItem {
    pub fields: Vec<(String, FeedValue)>,
}

/// The content of a field value.
pub enum ValueView {
    Str(Seq<char>),
    Num(Seq<char>),
    Other,
}

/// The content of a field value.
pub open spec fn value_view(v: FeedValue) -> ValueView {
    match v {
        FeedValue::Str(s) => ValueView::Str(s@),
        FeedValue::Num(s) => ValueView::Num(s@),
        FeedValue::Other => ValueView::Other,
    }
}

/// The content of a data item.
pub open spec fn item_view(i: FeedItem) -> Seq<(Seq<char>, ValueView)> {
    i.fields@.map_values(|f: (String, FeedValue)| (f.0@, value_view(f.1)))
}

/// The contents of data items.
pub open spec fn items_view(v: Seq<FeedItem>) -> Seq<Seq<(Seq<char>, ValueView)>> {
    v.map_values(|i: FeedItem| item_view(i))
}

/// The value of the first field named `name`, from position `i` on.
pub open spec fn field_from(fields: Seq<(Seq<char>, ValueView)>, name: Seq<char>, i: int) -> Option<ValueView>
    decreases fields.len() - i,
{
    if i < 0 || i >= fields.len() {
        None
    } else if fields[i].0 == name {
        Some(fields[i].1)
    } else {
        field_from(fields, name, i + 1)
    }
}

/// The value of the field named `name`.
pub open spec fn field_of(fields: Seq<(Seq<char>, ValueView)>, name: Seq<char>) -> Option<ValueView> {
    field_from(fields, name, 0)
}

/// Look up a field of an item.
pub fn get_field<'a>(item: &'a FeedItem, name: &str) -> (r: Option<&'a FeedValue>)
    ensures
        match r {
            Some(v) => field_of(item_view(*item), name@) == Some(value_view(*v)),
            None => field_of(item_view(*item), name@) is None,
        },
{
    let ghost fv = item_view(*item);
    let mut i: usize = 0;
    while i < item.fields.len()
        invariant
            i <= item.fields@.len(),
            fv == item_view(*item),
            field_of(fv, name@) == field_from(fv, name@, i as int),
        decreases item.fields@.len() - i,
    {
        assert(fv[i as int] == (item.fields@[i as int].0@, value_view(item.fields@[i as int].1)));
        if crate::text::str_eq(item.fields[i].0.as_str(), name) {
            return Some(&item.fields[i].1);
        }
        i = i + 1;
    }
    None
}

// ---------------------------------------------------------------------------
// Dates
// ---------------------------------------------------------------------------

/// An RFC 3339 timestamp re-rendered with whole seconds and `Z` for UTC
/// (`chrono::DateTime::parse_from_rfc3339`, then `to_rfc3339_opts` with
/// `SecondsFormat::Secs`); `None` when it does not parse.
pub uninterp spec fn rfc3339_secs(s: Seq<char>) -> Option<Seq<char>>;

/// A date in format `fmt` at midnight UTC, rendered as RFC 3339 with whole
/// seconds and `Z` (`chrono::NaiveDate::parse_from_str`, then
/// `to_rfc3339_opts`); `None` when it does not parse.
pub uninterp spec fn midnight_utc(s: Seq<char>, fmt: Seq<char>) -> Option<Seq<char>>;

/// Re-render an RFC 3339 timestamp.
///
/// Trusted: calls `chrono::DateTime::parse_from_rfc3339` and formats the
/// result with `to_rfc3339_opts(SecondsFormat::Secs, true)`.
#[verifier::external_body]
fn parse_rfc3339(s: &str) -> (r: Option<String>)
    ensures
        opt_view(r) == rfc3339_secs(s@),
{
    chrono::DateTime::parse_from_rfc3339(s).ok().map(|dt| dt.to_rfc3339_opts(chrono::SecondsFormat::Secs, true))
}

/// A date at midnight UTC, as RFC 3339.
///
/// Trusted: calls `chrono::NaiveDate::parse_from_str(s, fmt)`, takes
/// midnight (`and_hms_opt(0, 0, 0)`) in UTC and formats it with
/// `to_rfc3339_opts(SecondsFormat::Secs, true)`.
#[verifier::external_body]
fn parse_date_midnight(s: &str, fmt: &str) -> (r: Option<String>)
    ensures
        opt_view(r) == midnight_utc(s@, fmt@),
{
    let d = chrono::NaiveDate::parse_from_str(s, fmt).ok()?.and_hms_opt(0, 0, 0)?;
    Some(chrono::DateTime::<chrono::Utc>::from_naive_utc_and_offset(d, chrono::Utc).to_rfc3339_opts(chrono::SecondsFormat::Secs, true))
}

/// The Atom date of a field value: a string as an RFC 3339 timestamp, or
/// as a `YYYY-MM-DD` date at midnight UTC; the build time otherwise.
pub open spec fn atom_date(v: ValueView, build_time: Seq<char>) -> Seq<char> {
    match v {
        ValueView::Str(s) => match rfc3339_secs(s) {
            Some(d) => d,
            None => match midnight_utc(s, "%Y-%m-%d"@) {
                Some(d) => d,
                None => build_time,
            },
        },
        _ => build_time,
    }
}

/// Format a date value as RFC 3339 for Atom, falling back to the build
/// time when it is not a string or does not parse.
pub fn format_atom_date(value: &FeedValue, build_time: &str) -> (r: String)
    ensures
        r@ == atom_date(value_view(*value), build_time@),
{
    match value {
        FeedValue::Str(s) => {
            if let Some(d) = parse_rfc3339(s.as_str()) {
                return d;
            }
            if let Some(d) = parse_date_midnight(s.as_str(), "%Y-%m-%d") {
                return d;
            }
            owned(build_time)
        },
        _ => owned(build_time),
    }
}

// ---------------------------------------------------------------------------
// XML
// ---------------------------------------------------------------------------

/// `indent<tag>escaped content</tag>` and a newline.
pub open spec fn tag_line(indent: Seq<char>, tag: Seq<char>, content: Seq<char>) -> Seq<char> {
    indent + "<"@ + tag + ">"@ + xml_escaped(content) + "</"@ + tag + ">\n"@
}

/// The attributes ` key="escaped value"`.
pub open spec fn attrs_text(attrs: Seq<(Seq<char>, Seq<char>)>) -> Seq<char>
    decreases attrs.len(),
{
    if attrs.len() == 0 {
        seq![]
    } else {
        attrs_text(attrs.drop_last()) + " "@ + attrs.last().0 + "=\""@ + xml_escaped(attrs.last().1) + "\""@
    }
}

/// `indent<tag attrs/>` and a newline.
pub open spec fn empty_tag_line(indent: Seq<char>, tag: Seq<char>, attrs: Seq<(Seq<char>, Seq<char>)>) -> Seq<char> {
    indent + "<"@ + tag + attrs_text(attrs) + "/>\n"@
}

/// Write `<tag>escaped content</tag>` with the given indent.
pub fn write_tag(buf: &mut String, indent: &str, tag: &str, content: &str)
    ensures
        final(buf)@ == old(buf)@ + tag_line(indent@, tag@, content@),
{
    let ghost before = buf@;
    buf.append(indent);
    buf.append("<");
    buf.append(tag);
    buf.append(">");
    let e = escape_xml(content);
    buf.append(e.as_str());
    buf.append("</");
    buf.append(tag);
    buf.append(">\n");
    assert(buf@ =~= before + tag_line(indent@, tag@, content@));
}

/// Write a self-closing tag with attributes, e.g. `<link href="..."
/// rel="..."/>`.
pub fn write_attr(buf: &mut String, indent: &str, tag: &str, attrs: &[(&str, &str)])
    ensures
        final(buf)@ == old(buf)@ + empty_tag_line(indent@, tag@, attrs@.map_values(|a: (&str, &str)| (a.0@, a.1@))),
{
    let ghost av = attrs@.map_values(|a: (&str, &str)| (a.0@, a.1@));
    let ghost before = buf@;
    buf.append(indent);
    buf.append("<");
    buf.append(tag);
    let ghost start = buf@;
    let mut i: usize = 0;
    assert(attrs_text(av.subrange(0, 0)) =~= Seq::<char>::empty());
    while i < attrs.len()
        invariant
            i <= attrs@.len(),
            av == attrs@.map_values(|a: (&str, &str)| (a.0@, a.1@)),
            buf@ == start + attrs_text(av.subrange(0, i as int)),
        decreases attrs@.len() - i,
    {
        let ghost pre = buf@;
        assert(av.subrange(0, i + 1).drop_last() =~= av.subrange(0, i as int));
        assert(av.subrange(0, i + 1).last() == av[i as int]);
        let (key, val) = attrs[i];
        buf.append(" ");
        buf.append(key);
        buf.append("=\"");
        let e = escape_xml(val);
        buf.append(e.as_str());
        buf.append("\"");
        assert(buf@ =~= pre + (" "@ + key@ + "=\""@ + xml_escaped(val@) + "\""@));
        i = i + 1;
    }
    assert(av.subrange(0, av.len() as int) =~= av);
    buf.append("/>\n");
    assert(buf@ =~= before + empty_tag_line(indent@, tag@, av));
}

// ---------------------------------------------------------------------------
// Entries and feeds
// ---------------------------------------------------------------------------

/// The URL of an entry: the base URL, the link prefix (without outer
/// slashes) when there is one, and `{slug}.html`.
pub open spec fn entry_url(config: FeedConfig, base: Seq<char>, slug: Seq<char>) -> Seq<char> {
    match config.link_prefix {
        Some(p) => base + "/"@ + trim_end_char(trim_start_char(p@, '/'), '/') + "/"@ + slug + ".html"@,
        None => base + "/"@ + slug + ".html"@,
    }
}

/// The `<entry>` of an item; `None` when its title is not a string or its
/// slug neither a string nor a number.
pub open spec fn entry_xml(item: Seq<(Seq<char>, ValueView)>, config: FeedConfig, base: Seq<char>, build_time: Seq<char>) -> Option<Seq<char>> {
    match (field_of(item, config.title_field@), slug_of(field_of(item, config.slug_field@))) {
        (Some(ValueView::Str(t)), Some(s)) => {
            let url = entry_url(config, base, s);
            let updated = match field_of(item, config.date_field@) {
                Some(v) => atom_date(v, build_time),
                None => build_time,
            };
            let summary = match config.summary_field {
                Some(f) => match field_of(item, f@) {
                    Some(ValueView::Str(x)) => tag_line("    "@, "summary"@, x),
                    _ => seq![],
                },
                None => seq![],
            };
            Some("  <entry>\n"@ + tag_line("    "@, "title"@, t) + empty_tag_line("    "@, "link"@, seq![("href"@, url)])
                + tag_line("    "@, "id"@, url) + tag_line("    "@, "updated"@, updated) + summary + "  </entry>\n"@)
        },
        _ => None,
    }
}

/// The text of a slug: a string, or a number's JSON text.
pub open spec fn slug_of(v: Option<ValueView>) -> Option<Seq<char>> {
    match v {
        Some(ValueView::Str(s)) => Some(s),
        Some(ValueView::Num(s)) => Some(s),
        _ => None,
    }
}

/// The string or number text of a slug value.
fn slug_text(v: &FeedValue) -> (r: Option<String>)
    ensures
        opt_view(r) == slug_of(Some(value_view(*v))),
{
    match v {
        FeedValue::Str(s) => Some(s.clone()),
        FeedValue::Num(s) => Some(s.clone()),
        FeedValue::Other => None,
    }
}

/// Render the `<entry>` of an item; `None` when the title or slug field is
/// missing or of the wrong kind.
pub fn render_entry(item: &FeedItem, config: &FeedConfig, base_url: &str, build_time: &str) -> (r: Option<String>)
    ensures
        opt_view(r) == entry_xml(item_view(*item), *config, base_url@, build_time@),
{
    let title = match get_field(item, config.title_field.as_str()) {
        Some(FeedValue::Str(s)) => s,
        _ => return None,
    };
    let slug = match get_field(item, config.slug_field.as_str()) {
        Some(v) => match slug_text(v) {
            Some(s) => s,
            None => return None,
        },
        None => return None,
    };
    let mut url = owned(base_url);
    url.append("/");
    match &config.link_prefix {
        Some(p) => {
            let a = trim_start_char_exec(p.as_str(), '/');
            let b = trim_end_char_exec(a.as_str(), '/');
            url.append(b.as_str());
            url.append("/");
        },
        None => {},
    }
    url.append(slug.as_str());
    url.append(".html");
    assert(url@ =~= entry_url(*config, base_url@, slug@));
    let updated = match get_field(item, config.date_field.as_str()) {
        Some(v) => format_atom_date(v, build_time),
        None => owned(build_time),
    };
    let mut entry = owned("  <entry>\n");
    let ghost e0 = entry@;
    write_tag(&mut entry, "    ", "title", title.as_str());
    let attrs = [("href", url.as_str())];
    assert(attrs@.map_values(|a: (&str, &str)| (a.0@, a.1@)) =~= seq![("href"@, url@)]);
    write_attr(&mut entry, "    ", "link", &attrs);
    write_tag(&mut entry, "    ", "id", url.as_str());
    write_tag(&mut entry, "    ", "updated", updated.as_str());
    let ghost e1 = entry@;
    match &config.summary_field {
        Some(f) => match get_field(item, f.as_str()) {
            Some(FeedValue::Str(x)) => write_tag(&mut entry, "    ", "summary", x.as_str()),
            _ => {},
        },
        None => {},
    }
    entry.append("  </entry>\n");
    Some(entry)
}

/// The data query of a feed's collection.
pub open spec fn feed_query(c: FeedConfig) -> (Option<Seq<char>>, Option<Seq<char>>, Option<Seq<char>>, Option<Seq<char>>, Option<Seq<char>>, Option<usize>) {
    (opt_view(c.file), opt_view(c.source), opt_view(c.query_path), opt_view(c.root), opt_view(c.sort), Some(c.limit))
}

/// Build the data query of a feed: its inline source fields and limit, no
/// filter, the default method and no body.
pub fn build_feed_query(config: &FeedConfig) -> (r: DataQuery)
    ensures
        (opt_view(r.file), opt_view(r.source), opt_view(r.path), opt_view(r.root), opt_view(r.sort), r.limit) == feed_query(
            *config,
        ),
        r.filter is None,
        r.method is Get,
        r.body is None,
{
    DataQuery {
        file: crate::text::clone_opt(&config.file),
        source: crate::text::clone_opt(&config.source),
        path: crate::text::clone_opt(&config.query_path),
        root: crate::text::clone_opt(&config.root),
        sort: crate::text::clone_opt(&config.sort),
        limit: Some(config.limit),
        filter: None,
        method: QueryMethod::default(),
        body: None,
    }
}

/// The entries of the items, in order, skipping those without a title or
/// slug.
pub open spec fn entries_xml(items: Seq<Seq<(Seq<char>, ValueView)>>, config: FeedConfig, base: Seq<char>, build_time: Seq<char>) -> Seq<char>
    decreases items.len(),
{
    if items.len() == 0 {
        seq![]
    } else {
        entries_xml(items.drop_last(), config, base, build_time) + match entry_xml(items.last(), config, base, build_time) {
            Some(e) => e,
            None => seq![],
        }
    }
}

/// The first item's date, or the build time.
pub open spec fn feed_updated(config: FeedConfig, items: Seq<Seq<(Seq<char>, ValueView)>>, build_time: Seq<char>) -> Seq<char> {
    if items.len() > 0 {
        match field_of(items[0], config.date_field@) {
            Some(v) => atom_date(v, build_time),
            None => build_time,
        }
    } else {
        build_time
    }
}

/// The head of the feed: XML declaration, `<feed>`, title (the feed's or
/// the site's name), links to the site and to the feed itself, id,
/// updated (the first item's date or the build time), and author (the
/// feed's or the site's).
pub open spec fn feed_head(config: FeedConfig, site: SiteMeta, items: Seq<Seq<(Seq<char>, ValueView)>>, build_time: Seq<char>) -> Seq<char> {
    let base = trim_end_char(site.base_url@, '/');
    let title = match config.title {
        Some(t) => t@,
        None => site.name@,
    };
    let self_url = base + "/"@ + config.path@;
    let author = match crate::build::seo::first_of(config.author, site.schema.author) {
        Some(a) => "  <author>\n"@ + tag_line("    "@, "name"@, a) + "  </author>\n"@,
        None => seq![],
    };
    "<?xml version=\"1.0\" encoding=\"UTF-8\"?>\n<feed xmlns=\"http://www.w3.org/2005/Atom\">\n"@ + tag_line("  "@, "title"@, title)
        + empty_tag_line("  "@, "link"@, seq![("href"@, base)]) + empty_tag_line("  "@, "link"@, seq![("href"@, self_url), ("rel"@, "self"@)])
        + tag_line("  "@, "id"@, self_url) + tag_line("  "@, "updated"@, feed_updated(config, items, build_time)) + author
}

/// The Atom XML of a feed: its head, the entries of the items, and the
/// closing tag.
pub open spec fn feed_text(config: FeedConfig, site: SiteMeta, items: Seq<Seq<(Seq<char>, ValueView)>>, build_time: Seq<char>) -> Seq<char> {
    feed_head(config, site, items, build_time) + entries_xml(items, config, trim_end_char(site.base_url@, '/'), build_time) + "</feed>\n"@
}

/// A feed starts with the XML declaration, the `<feed>` line, and the
/// title line: the feed's configured title when it has one, the site's
/// name otherwise.
pub proof fn law_feed_title(config: FeedConfig, site: SiteMeta, items: Seq<Seq<(Seq<char>, ValueView)>>, build_time: Seq<char>)
    ensures
        has_prefix(
            feed_text(config, site, items, build_time),
            "<?xml version=\"1.0\" encoding=\"UTF-8\"?>\n<feed xmlns=\"http://www.w3.org/2005/Atom\">\n"@ + "  <title>"@
                + xml_escaped(
                match config.title {
                    Some(t) => t@,
                    None => site.name@,
                },
            ) + "</title>\n"@,
        ),
{
    let title = match config.title {
        Some(t) => t@,
        None => site.name@,
    };
    let h = "<?xml version=\"1.0\" encoding=\"UTF-8\"?>\n<feed xmlns=\"http://www.w3.org/2005/Atom\">\n"@;
    reveal_strlit("  <title>");
    reveal_strlit("</title>\n");
    reveal_strlit("  ");
    reveal_strlit("<");
    reveal_strlit("title");
    reveal_strlit(">");
    reveal_strlit("</");
    reveal_strlit(">\n");
    let tl = tag_line("  "@, "title"@, title);
    assert(tl =~= "  <title>"@ + xml_escaped(title) + "</title>\n"@);
    let text = feed_text(config, site, items, build_time);
    let rest = text.subrange((h + tl).len() as int, text.len() as int);
    assert(text =~= (h + tl) + rest);
    lemma_prefix_concat(h + tl, rest);
    assert(h + tl =~= h + "  <title>"@ + xml_escaped(title) + "</title>\n"@);
}

/// The head of the feed.
fn write_feed_head(feed_config: &FeedConfig, site: &SiteMeta, items: &[FeedItem], build_time: &str) -> (r: String)
    ensures
        r@ == feed_head(*feed_config, *site, items_view(items@), build_time@),
{
    let base = trim_end_char_exec(site.base_url.as_str(), '/');
    let title = match &feed_config.title {
        Some(t) => t,
        None => &site.name,
    };
    let mut self_url = base.clone();
    self_url.append("/");
    self_url.append(feed_config.path.as_str());
    let updated = if items.len() > 0 {
        match get_field(&items[0], feed_config.date_field.as_str()) {
            Some(v) => format_atom_date(v, build_time),
            None => owned(build_time),
        }
    } else {
        owned(build_time)
    };
    assert(updated@ == feed_updated(*feed_config, items_view(items@), build_time@));
    let mut xml = owned("<?xml version=\"1.0\" encoding=\"UTF-8\"?>\n<feed xmlns=\"http://www.w3.org/2005/Atom\">\n");
    write_tag(&mut xml, "  ", "title", title.as_str());
    let a1 = [("href", base.as_str())];
    assert(a1@.map_values(|a: (&str, &str)| (a.0@, a.1@)) =~= seq![("href"@, base@)]);
    write_attr(&mut xml, "  ", "link", &a1);
    let a2 = [("href", self_url.as_str()), ("rel", "self")];
    assert(a2@.map_values(|a: (&str, &str)| (a.0@, a.1@)) =~= seq![("href"@, self_url@), ("rel"@, "self"@)]);
    write_attr(&mut xml, "  ", "link", &a2);
    write_tag(&mut xml, "  ", "id", self_url.as_str());
    write_tag(&mut xml, "  ", "updated", updated.as_str());
    match first_present(&feed_config.author, &site.schema.author) {
        Some(a) => {
            xml.append("  <author>\n");
            write_tag(&mut xml, "    ", "name", a.as_str());
            xml.append("  </author>\n");
        },
        None => {},
    }
    assert(xml@ =~= feed_head(*feed_config, *site, items_view(items@), build_time@));
    xml
}

/// Append the entries of the items.
fn push_entries(xml: &mut String, items: &[FeedItem], feed_config: &FeedConfig, base: &str, build_time: &str)
    ensures
        final(xml)@ == old(xml)@ + entries_xml(items_view(items@), *feed_config, base@, build_time@),
{
    let ghost iv = items_view(items@);
    let ghost x2 = xml@;
    let mut i: usize = 0;
    assert(entries_xml(iv.subrange(0, 0), *feed_config, base@, build_time@) =~= Seq::<char>::empty());
    while i < items.len()
        invariant
            i <= items@.len(),
            iv == items_view(items@),
            xml@ == x2 + entries_xml(iv.subrange(0, i as int), *feed_config, base@, build_time@),
        decreases items@.len() - i,
    {
        assert(iv.subrange(0, i + 1).drop_last() =~= iv.subrange(0, i as int));
        assert(iv.subrange(0, i + 1).last() == iv[i as int]);
        match render_entry(&items[i], feed_config, base, build_time) {
            Some(e) => {
                xml.append(e.as_str());
            },
            None => {},
        }
        assert(xml@ =~= x2 + entries_xml(iv.subrange(0, i + 1), *feed_config, base@, build_time@));
        i = i + 1;
    }
    assert(iv.subrange(0, iv.len() as int) =~= iv);
}

/// Render the Atom feed of a collection from its items.
pub fn feed_xml(feed_config: &FeedConfig, site: &SiteMeta, items: &[FeedItem], build_time: &str) -> (r: String)
    ensures
        r@ == feed_text(*feed_config, *site, items_view(items@), build_time@),
        has_prefix(
            r@,
            "<?xml version=\"1.0\" encoding=\"UTF-8\"?>\n<feed xmlns=\"http://www.w3.org/2005/Atom\">\n"@ + "  <title>"@
                + xml_escaped(
                match feed_config.title {
                    Some(t) => t@,
                    None => site.name@,
                },
            ) + "</title>\n"@,
        ),
{
    proof {
        law_feed_title(*feed_config, *site, items_view(items@), build_time@);
    }
    let mut xml = write_feed_head(feed_config, site, items, build_time);
    let base = trim_end_char_exec(site.base_url.as_str(), '/');
    push_entries(&mut xml, items, feed_config, base.as_str(), build_time);
    xml.append("</feed>\n");
    xml
}

} // verus!
