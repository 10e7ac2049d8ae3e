# eigen

The build steps of Eigen, a static site generator with HTMX fragments,
written as a Verus library: every function under `src/` carries a
`requires`/`ensures` contract that Verus proves.

## Layout

- `src/build/render.rs`, `fragments.rs`: where each page is written,
  output collisions, fragment extraction and marker stripping.
- `src/build/critical_css/`, `css_rules.rs`: selector stripping, the
  critical-rule walk over a parsed stylesheet, inlining.
- `src/build/bundling/`: reference collection, CSS/JS bundles,
  tree-shaking, page rewriting.
- `src/build/content_hash.rs`: hashed file names, the asset manifest and
  reference rewriting.
- `src/build/hints/`, `seo.rs`, `json_ld.rs`, `sitemap.rs`, `robots.rs`,
  `feed.rs`, `minify.rs`: resource hints, SEO tags, structured data and
  the other generated files.
- `src/build/audit/`: the audit checks, their summary, reports and the
  in-page overlay.
- `src/text.rs`, `src/html.rs`, `src/regexp.rs`: string functions and the
  trusted calls into `lol_html`, `regex` and std.
- `app/`: the command line, reading and writing files, and the order of
  the build steps.
- `tests/`: tests of the library through its public functions.

Calls into outside crates (lightningcss, scraper, lol_html, minijinja,
regex, sha2, glob, chrono, serde_json, slug, minify-html) stand behind
`#[verifier::external_body]` functions whose doc comments say what their
contracts assume.
