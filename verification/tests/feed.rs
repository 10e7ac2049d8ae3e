use eigen::build::feed::{build_feed_query, feed_xml, format_atom_date, render_entry, FeedItem, FeedValue};
use eigen::config::{FeedConfig, SiteMeta, SiteSchemaConfig, SiteSeoConfig};

fn test_feed_config() -> FeedConfig {
    FeedConfig {
        file: Some("posts.json".into()),
        source: None,
        query_path: None,
        root: None,
        sort: None,
        title: None,
        path: "feed.xml".into(),
        author: None,
        limit: 50,
        title_field: "title".into(),
        date_field: "date".into(),
        summary_field: None,
        slug_field: "slug".into(),
        link_prefix: None,
    }
}

fn test_site_meta() -> SiteMeta {
    SiteMeta {
        name: "Test Site".into(),
        base_url: "https://example.com".into(),
        seo: SiteSeoConfig::default(),
        schema: SiteSchemaConfig::default(),
        extra: std::collections::HashMap::new(),
    }
}

fn s(v: &str) -> FeedValue {
    FeedValue::Str(v.to_string())
}

fn item(fields: Vec<(&str, FeedValue)>) -> FeedItem {
    FeedItem { fields: fields.into_iter().map(|(k, v)| (k.to_string(), v)).collect() }
}

// --- build_feed_query ---

#[test]
fn test_build_feed_query_from_file() {
    let mut config = test_feed_config();
    config.file = Some("posts.json".into());
    config.sort = Some("-date".into());
    config.limit = 20;

    let query = build_feed_query(&config);
    assert_eq!(query.file.as_deref(), Some("posts.json"));
    assert!(query.source.is_none());
    assert!(query.path.is_none());
    assert_eq!(query.sort.as_deref(), Some("-date"));
    assert_eq!(query.limit, Some(20));
    assert!(query.filter.is_none());
}

#[test]
fn test_build_feed_query_from_source() {
    let mut config = test_feed_config();
    config.file = None;
    config.source = Some("cms".into());
    config.query_path = Some("/posts".into());
    config.root = Some("data.posts".into());

    let query = build_feed_query(&config);
    assert!(query.file.is_none());
    assert_eq!(query.source.as_deref(), Some("cms"));
    assert_eq!(query.path.as_deref(), Some("/posts"));
    assert_eq!(query.root.as_deref(), Some("data.posts"));
}

// --- format_atom_date ---

#[test]
fn test_format_atom_date_rfc3339() {
    let val = s("2026-03-17T12:00:00Z");
    let result = format_atom_date(&val, "2026-01-01T00:00:00Z");
    assert_eq!(result, "2026-03-17T12:00:00Z");
}

#[test]
fn test_format_atom_date_date_only() {
    let val = s("2026-03-17");
    let result = format_atom_date(&val, "2026-01-01T00:00:00Z");
    assert_eq!(result, "2026-03-17T00:00:00Z");
}

#[test]
fn test_format_atom_date_with_offset() {
    let val = s("2026-03-17T12:00:00+05:30");
    let result = format_atom_date(&val, "2026-01-01T00:00:00Z");
    // Should be valid RFC 3339 output.
    assert!(result.contains("2026-03-17"));
}

#[test]
fn test_format_atom_date_fallback_non_string() {
    let val = FeedValue::Num("12345".to_string());
    let result = format_atom_date(&val, "2026-01-01T00:00:00Z");
    assert_eq!(result, "2026-01-01T00:00:00Z");
}

#[test]
fn test_format_atom_date_fallback_bad_string() {
    let val = s("not a date");
    let result = format_atom_date(&val, "2026-01-01T00:00:00Z");
    assert_eq!(result, "2026-01-01T00:00:00Z");
}

// --- render_entry ---

#[test]
fn test_render_entry_basic() {
    let config = test_feed_config();
    let item = item(vec![("title", s("Hello World")), ("slug", s("hello-world")), ("date", s("2026-03-17T12:00:00Z"))]);

    let entry = render_entry(&item, &config, "https://example.com", "2026-01-01T00:00:00Z");
    assert!(entry.is_some());
    let xml = entry.unwrap();
    assert!(xml.contains("<title>Hello World</title>"));
    assert!(xml.contains("https://example.com/hello-world.html"));
    assert!(xml.contains("<updated>2026-03-17T12:00:00Z</updated>"));
}

#[test]
fn test_render_entry_with_prefix() {
    let mut config = test_feed_config();
    config.link_prefix = Some("blog".into());
    let item = item(vec![("title", s("Post")), ("slug", s("my-post")), ("date", s("2026-03-17"))]);

    let entry = render_entry(&item, &config, "https://example.com", "2026-01-01T00:00:00Z");
    let xml = entry.unwrap();
    assert!(xml.contains("https://example.com/blog/my-post.html"));
}

#[test]
fn test_render_entry_with_summary() {
    let mut config = test_feed_config();
    config.summary_field = Some("excerpt".into());
    let item = item(vec![
        ("title", s("Post")),
        ("slug", s("post")),
        ("date", s("2026-03-17")),
        ("excerpt", s("A short summary.")),
    ]);

    let entry = render_entry(&item, &config, "https://example.com", "2026-01-01T00:00:00Z");
    let xml = entry.unwrap();
    assert!(xml.contains("<summary>A short summary.</summary>"));
}

#[test]
fn test_render_entry_missing_title() {
    let config = test_feed_config();
    let item = item(vec![("slug", s("no-title")), ("date", s("2026-03-17"))]);

    let entry = render_entry(&item, &config, "https://example.com", "2026-01-01T00:00:00Z");
    assert!(entry.is_none());
}

#[test]
fn test_render_entry_missing_slug() {
    let config = test_feed_config();
    let item = item(vec![("title", s("No Slug")), ("date", s("2026-03-17"))]);

    let entry = render_entry(&item, &config, "https://example.com", "2026-01-01T00:00:00Z");
    assert!(entry.is_none());
}

#[test]
fn test_render_entry_xml_escaping() {
    let config = test_feed_config();
    let item = item(vec![("title", s("Tom & Jerry <Show>")), ("slug", s("tom-jerry")), ("date", s("2026-03-17"))]);

    let entry = render_entry(&item, &config, "https://example.com", "2026-01-01T00:00:00Z");
    let xml = entry.unwrap();
    assert!(xml.contains("Tom &amp; Jerry &lt;Show&gt;"));
}

#[test]
fn test_render_entry_custom_fields() {
    let mut config = test_feed_config();
    config.title_field = "name".into();
    config.date_field = "publishedAt".into();
    config.slug_field = "id".into();
    let item = item(vec![("name", s("Release v1.0")), ("id", s("v1-0")), ("publishedAt", s("2026-03-17T10:00:00Z"))]);

    let entry = render_entry(&item, &config, "https://example.com", "2026-01-01T00:00:00Z");
    let xml = entry.unwrap();
    assert!(xml.contains("<title>Release v1.0</title>"));
    assert!(xml.contains("https://example.com/v1-0.html"));
    assert!(xml.contains("<updated>2026-03-17T10:00:00Z</updated>"));
}

#[test]
fn test_render_entry_numeric_slug() {
    let config = test_feed_config();
    let item = item(vec![("title", s("Post")), ("slug", FeedValue::Num("42".to_string())), ("date", s("2026-03-17"))]);

    let entry = render_entry(&item, &config, "https://example.com", "2026-01-01T00:00:00Z");
    let xml = entry.unwrap();
    assert!(xml.contains("https://example.com/42.html"));
}

// --- the feed of a collection ---

#[test]
fn test_generate_feed_basic() {
    let items = vec![
        item(vec![("title", s("First Post")), ("slug", s("first-post")), ("date", s("2026-03-17T12:00:00Z"))]),
        item(vec![("title", s("Second Post")), ("slug", s("second-post")), ("date", s("2026-03-16T12:00:00Z"))]),
    ];
    let site = test_site_meta();
    let config = test_feed_config();

    let xml = feed_xml(&config, &site, &items, "2026-03-18T00:00:00Z");
    assert!(xml.contains("<?xml version=\"1.0\""));
    assert!(xml.contains("<feed xmlns=\"http://www.w3.org/2005/Atom\">"));
    assert!(xml.contains("<title>Test Site</title>"));
    assert!(xml.contains("https://example.com/feed.xml"));
    assert!(xml.contains("<entry>"));
    assert!(xml.contains("First Post"));
    assert!(xml.contains("Second Post"));
    assert!(xml.contains("</feed>"));
}

#[test]
fn test_generate_feed_empty_collection() {
    let site = test_site_meta();
    let config = test_feed_config();

    let xml = feed_xml(&config, &site, &[], "2026-03-18T00:00:00Z");
    assert!(xml.contains("<feed"));
    assert!(xml.contains("</feed>"));
    assert!(!xml.contains("<entry>"));
}

#[test]
fn test_generate_feed_with_author() {
    let site = test_site_meta();
    let mut config = test_feed_config();
    config.author = Some("Jane Doe".into());

    let xml = feed_xml(&config, &site, &[], "2026-03-18T00:00:00Z");
    assert!(xml.contains("<author>"));
    assert!(xml.contains("<name>Jane Doe</name>"));
}

#[test]
fn test_generate_feed_author_from_schema() {
    let mut site = test_site_meta();
    site.schema.author = Some("Schema Author".into());
    let config = test_feed_config(); // no author set

    let xml = feed_xml(&config, &site, &[], "2026-03-18T00:00:00Z");
    assert!(xml.contains("<name>Schema Author</name>"));
}

#[test]
fn feed_updated_from_first_item_date() {
    let items = vec![item(vec![("title", s("A")), ("slug", s("a")), ("date", s("2026-03-17"))])];
    let xml = feed_xml(&test_feed_config(), &test_site_meta(), &items, "2026-03-18T00:00:00Z");
    assert!(xml.contains("  <updated>2026-03-17T00:00:00Z</updated>\n  <entry>") || xml.contains("<updated>2026-03-17T00:00:00Z</updated>\n"));
    assert!(xml.starts_with(
        "<?xml version=\"1.0\" encoding=\"UTF-8\"?>\n<feed xmlns=\"http://www.w3.org/2005/Atom\">\n  <title>Test Site</title>\n  <link href=\"https://example.com\"/>\n  <link href=\"https://example.com/feed.xml\" rel=\"self\"/>\n  <id>https://example.com/feed.xml</id>\n  <updated>2026-03-17T00:00:00Z</updated>\n"
    ));
}
