//! Site configuration (`site.toml`) and page frontmatter, as far as the
//! build steps of this library read them.

use std::collections::HashMap;
use vstd::prelude::*;
use crate::text::owned;

verus! {

/// Site-wide SEO defaults (`[site.seo]`).
pub struct SiteSeoConfig {
    pub title: Option<String>,
    pub description: Option<String>,
    pub image: Option<String>,
    /// Open Graph type; `"website"` unless configured.
    pub og_type: String,
    /// Twitter card type; `"summary_large_image"` unless configured.
    pub twitter_card: String,
    pub twitter_site: Option<String>,
}

impl Default for SiteSeoConfig {
    fn default() -> (r: Self)
        ensures
            r.title is None,
            r.description is None,
            r.image is None,
            r.og_type@ == "website"@,
            r.twitter_card@ == "summary_large_image"@,
            r.twitter_site is None,
    {
        SiteSeoConfig {
            title: None,
            description: None,
            image: None,
            og_type: owned("website"),
            twitter_card: owned("summary_large_image"),
            twitter_site: None,
        }
    }
}

/// Site-wide structured-data defaults (`[site.schema]`).
pub struct SiteSchemaConfig {
    /// Schema types generated for pages whose frontmatter names none.
    pub default_types: Vec<String>,
    pub author: Option<String>,
}

impl Default for SiteSchemaConfig {
    fn default() -> (r: Self)
        ensures
            r.default_types@.len() == 0,
            r.author is None,
    {
        SiteSchemaConfig { default_types: Vec::new(), author: None }
    }
}

/// Site metadata (`[site]`).
pub struct SiteMeta {
    pub name: String,
    pub base_url: String,
    pub seo: SiteSeoConfig,
    pub schema: SiteSchemaConfig,
    /// Further user-defined keys, passed through to templates.
    pub extra: HashMap<String, String>,
}

/// Per-page SEO overrides from frontmatter (`seo:`).
pub struct SeoMeta {
    pub title: Option<String>,
    pub description: Option<String>,
    pub image: Option<String>,
    pub og_type: Option<String>,
    pub twitter_card: Option<String>,
    pub canonical_url: Option<String>,
}

impl Default for SeoMeta {
    fn default() -> (r: Self)
        ensures
            r.title is None,
            r.description is None,
            r.image is None,
            r.og_type is None,
            r.twitter_card is None,
            r.canonical_url is None,
    {
        SeoMeta {
            title: None,
            description: None,
            image: None,
            og_type: None,
            twitter_card: None,
            canonical_url: None,
        }
    }
}

/// The schema types of a full `schema:` frontmatter block: one name or a
/// list.
pub enum SchemaTypes {
    Single(String),
    Multiple(Vec<String>),
}

/// A full `schema:` frontmatter block.
pub struct SchemaFullConfig {
    pub types: SchemaTypes,
    pub author: Option<String>,
    pub date_published: Option<String>,
    pub date_modified: Option<String>,
    /// Display names of breadcrumb segments, keyed by path segment.
    pub breadcrumb_names: Option<Vec<(String, String)>>,
}

/// The `schema:` frontmatter value: a type name, a list of type names, or
/// a full block.
pub enum SchemaConfigValue {
    TypeName(String),
    TypeList(Vec<String>),
    Full(SchemaFullConfig),
}

/// A page's schema configuration; `None` when the frontmatter has none.
pub type SchemaConfig = Option<SchemaConfigValue>;

/// One `User-agent` group of `robots.txt`.
pub struct RobotsRule {
    pub user_agent: String,
    pub allow: Vec<String>,
    pub disallow: Vec<String>,
}

/// The `[robots]` section.
pub struct RobotsConfig {
    /// Whether to reference the generated `sitemap.xml`.
    pub sitemap: bool,
    /// Further sitemap URLs, written as given.
    pub extra_sitemaps: Vec<String>,
    pub rules: Vec<RobotsRule>,
}

/// The `[build.hints]` section.
pub struct HintsConfig {
    pub enabled: bool,
    /// Detect the hero image when the frontmatter names none.
    pub auto_detect_hero: bool,
    /// `imagesizes` used when the page gives none.
    pub hero_image_sizes: String,
    /// Prefetch the page's navigation links.
    pub prefetch_links: bool,
    pub max_prefetch: usize,
    /// Glob patterns of URLs never prefetched.
    pub exclude_prefetch: Vec<String>,
}

/// The `[build.content_hash]` section.
pub struct ContentHashConfig {
    pub enabled: bool,
    /// Glob patterns (relative to `static/`) of files kept at their names.
    pub exclude: Vec<String>,
}

/// The `[build.critical_css]` section.
pub struct CriticalCssConfig {
    pub enabled: bool,
    /// The largest inlined critical CSS, in bytes.
    pub max_inline_size: usize,
    /// Keep loading the full stylesheets, without blocking rendering.
    pub preload_full: bool,
    /// Glob patterns of stylesheet paths left alone.
    pub exclude: Vec<String>,
}

/// The `[build.bundling]` section.
pub struct BundlingConfig {
    pub enabled: bool,
    /// Bundle stylesheets.
    pub css: bool,
    /// Bundle scripts.
    pub js: bool,
    /// Drop the style rules that match no page.
    pub tree_shake_css: bool,
    /// The stylesheet bundle's path, relative to `dist/`.
    pub css_output: String,
    /// The script bundle's path, relative to `dist/`.
    pub js_output: String,
    /// Glob patterns of file paths left out of the bundles.
    pub exclude: Vec<String>,
}

/// The `[build]` section.
pub struct BuildConfig {
    /// Write HTML fragments beside the full pages.
    pub fragments: bool,
    /// The fragment directory, inside `dist/`.
    pub fragment_dir: String,
    /// The block written as a page's main fragment.
    pub content_block: String,
    pub minify: bool,
    pub critical_css: CriticalCssConfig,
    pub bundling: BundlingConfig,
    pub content_hash: ContentHashConfig,
    pub hints: HintsConfig,
}

/// The `[assets.images]` section.
pub struct ImageOptimConfig {
    pub optimize: bool,
    /// Target formats of the conversion (e.g. `"webp"`, `"avif"`).
    pub formats: Vec<String>,
    /// Encoder quality (0 to 100).
    pub quality: u8,
    /// Target widths of the resized variants, in pixels.
    pub widths: Vec<u32>,
    /// Glob patterns of images left untouched.
    pub exclude: Vec<String>,
}

/// The `[assets]` section.
pub struct AssetsConfig {
    pub images: ImageOptimConfig,
}

/// The `[audit]` section.
pub struct AuditConfig {
    /// Check IDs left out of the report.
    pub ignore: Vec<String>,
}

/// A `[feed.<name>]` section.
pub struct FeedConfig {
    pub file: Option<String>,
    pub source: Option<String>,
    pub query_path: Option<String>,
    pub root: Option<String>,
    pub sort: Option<String>,
    pub title: Option<String>,
    /// Output path of the feed, relative to `dist/`.
    pub path: String,
    pub author: Option<String>,
    pub limit: usize,
    pub title_field: String,
    pub date_field: String,
    pub summary_field: Option<String>,
    pub slug_field: String,
    pub link_prefix: Option<String>,
}

/// The site configuration, as far as the build steps of this library read
/// it.
pub struct SiteConfig {
    pub site: SiteMeta,
    pub build: BuildConfig,
    pub assets: AssetsConfig,
    /// The `[feed.*]` sections, by name.
    pub feed: Vec<(String, FeedConfig)>,
    pub robots: Option<RobotsConfig>,
    pub audit: Option<AuditConfig>,
}

/// The HTTP method of a remote data query.
pub enum QueryMethod {
    Get,
    Post,
}

impl Default for QueryMethod {
    fn default() -> (r: Self)
        ensures
            r is Get,
    {
        QueryMethod::Get
    }
}

/// A data query of a page or a feed: a local file or a remote source, with
/// sorting, a limit and a filter.
pub struct DataQuery {
    pub file: Option<String>,
    pub source: Option<String>,
    pub path: Option<String>,
    pub root: Option<String>,
    pub sort: Option<String>,
    pub limit: Option<usize>,
    pub filter: Option<String>,
    pub method: QueryMethod,
    pub body: Option<String>,
}


/// The defaults of the `[build.hints]` section.
pub open spec fn default_hints(r: HintsConfig) -> bool {
    &&& r.enabled
    &&& r.auto_detect_hero
    &&& r.hero_image_sizes@ == "100vw"@
    &&& r.prefetch_links
    &&& r.max_prefetch == 5
    &&& r.exclude_prefetch@.len() == 0
}

/// The defaults of the `[build.content_hash]` section.
pub open spec fn default_content_hash(r: ContentHashConfig) -> bool {
    &&& !r.enabled
    &&& crate::text::strs_view(r.exclude@) == seq![
        "favicon.ico"@, "robots.txt"@, "CNAME"@, "_headers"@, "_redirects"@, ".well-known/**"@,
    ]
}

/// The defaults of the `[build.critical_css]` section.
pub open spec fn default_critical_css(r: CriticalCssConfig) -> bool {
    &&& !r.enabled
    &&& r.max_inline_size == 50_000
    &&& r.preload_full
    &&& r.exclude@.len() == 0
}

/// The defaults of the `[build.bundling]` section.
pub open spec fn default_bundling(r: BundlingConfig) -> bool {
    &&& !r.enabled
    &&& r.css
    &&& r.js
    &&& r.tree_shake_css
    &&& r.css_output@ == "css/bundle.css"@
    &&& r.js_output@ == "js/bundle.js"@
    &&& r.exclude@.len() == 0
}

/// The defaults of the `[build]` section.
pub open spec fn default_build(r: BuildConfig) -> bool {
    &&& r.fragments
    &&& r.fragment_dir@ == "_fragments"@
    &&& r.content_block@ == "content"@
    &&& r.minify
    &&& default_critical_css(r.critical_css)
    &&& default_bundling(r.bundling)
    &&& default_content_hash(r.content_hash)
    &&& default_hints(r.hints)
}

/// The defaults of the `[assets.images]` section.
pub open spec fn default_image_optim(r: ImageOptimConfig) -> bool {
    &&& r.optimize
    &&& crate::text::strs_view(r.formats@) == seq!["webp"@, "avif"@]
    &&& r.quality == 80
    &&& r.widths@ == seq![480u32, 768u32, 1200u32]
    &&& r.exclude@.len() == 0
}

impl Default for HintsConfig {
    fn default() -> (r: Self)
        ensures
            default_hints(r),
    {
        HintsConfig {
            enabled: true,
            auto_detect_hero: true,
            hero_image_sizes: owned("100vw"),
            prefetch_links: true,
            max_prefetch: 5,
            exclude_prefetch: Vec::new(),
        }
    }
}

impl Default for ContentHashConfig {
    fn default() -> (r: Self)
        ensures
            default_content_hash(r),
    {
        let exclude = vec![
            owned("favicon.ico"), owned("robots.txt"), owned("CNAME"), owned("_headers"), owned("_redirects"),
            owned(".well-known/**"),
        ];
        assert(crate::text::strs_view(exclude@) =~= seq![
            "favicon.ico"@, "robots.txt"@, "CNAME"@, "_headers"@, "_redirects"@, ".well-known/**"@,
        ]);
        ContentHashConfig { enabled: false, exclude }
    }
}

impl Default for CriticalCssConfig {
    fn default() -> (r: Self)
        ensures
            default_critical_css(r),
    {
        CriticalCssConfig { enabled: false, max_inline_size: 50_000, preload_full: true, exclude: Vec::new() }
    }
}

impl Default for BundlingConfig {
    fn default() -> (r: Self)
        ensures
            default_bundling(r),
    {
        BundlingConfig {
            enabled: false,
            css: true,
            js: true,
            tree_shake_css: true,
            css_output: owned("css/bundle.css"),
            js_output: owned("js/bundle.js"),
            exclude: Vec::new(),
        }
    }
}

impl Default for BuildConfig {
    fn default() -> (r: Self)
        ensures
            default_build(r),
    {
        BuildConfig {
            fragments: true,
            fragment_dir: owned("_fragments"),
            content_block: owned("content"),
            minify: true,
            critical_css: CriticalCssConfig::default(),
            bundling: BundlingConfig::default(),
            content_hash: ContentHashConfig::default(),
            hints: HintsConfig::default(),
        }
    }
}

impl Default for ImageOptimConfig {
    fn default() -> (r: Self)
        ensures
            default_image_optim(r),
    {
        let formats = vec![owned("webp"), owned("avif")];
        assert(crate::text::strs_view(formats@) =~= seq!["webp"@, "avif"@]);
        let widths: Vec<u32> = vec![480, 768, 1200];
        assert(widths@ =~= seq![480u32, 768u32, 1200u32]);
        ImageOptimConfig { optimize: true, formats, quality: 80, widths, exclude: Vec::new() }
    }
}

impl Default for AssetsConfig {
    fn default() -> (r: Self)
        ensures
            default_image_optim(r.images),
    {
        AssetsConfig { images: ImageOptimConfig::default() }
    }
}

} // verus!
