//! The 404 page: a project's own `templates/404.html` is rendered like
//! any page; without one, the built-in default page is written to
//! `dist/404.html`.

use vstd::prelude::*;

verus! {

/// The built-in 404 page, used when the project has no 404 template.
pub const DEFAULT_404_HTML: &'static str = r#"<!DOCTYPE html>
<html lang="en">
<head>
  <meta charset="UTF-8">
  <meta name="viewport" content="width=device-width, initial-scale=1.0">
  <title>404 – Page Not Found</title>
  <style>
    *, *::before, *::after { box-sizing: border-box; margin: 0; padding: 0; }
    body {
      font-family: system-ui, -apple-system, sans-serif;
      background: #f8f8f8;
      color: #222;
      display: flex;
      align-items: center;
      justify-content: center;
      min-height: 100vh;
      padding: 2rem;
    }
    .card {
      background: #fff;
      border-radius: 12px;
      box-shadow: 0 4px 24px rgba(0,0,0,.08);
      padding: 3rem 2.5rem;
      max-width: 480px;
      width: 100%;
      text-align: center;
    }
    .code {
      font-size: 6rem;
      font-weight: 800;
      line-height: 1;
      color: #e0e0e0;
      letter-spacing: -4px;
    }
    h1 {
      font-size: 1.5rem;
      margin: 1rem 0 .5rem;
    }
    p {
      color: #666;
      line-height: 1.6;
    }
    a {
      display: inline-block;
      margin-top: 1.5rem;
      padding: .6rem 1.4rem;
      background: #222;
      color: #fff;
      border-radius: 6px;
      text-decoration: none;
      font-size: .9rem;
    }
    a:hover { background: #444; }
  </style>
</head>
<body>
  <div class="card">
    <div class="code">404</div>
    <h1>Page Not Found</h1>
    <p>The page you were looking for doesn&rsquo;t exist or has been moved.</p>
    <a href="/">Go Home</a>
  </div>
</body>
</html>
"#;

/// The page to write to `dist/404.html`: the built-in one when the
/// project has no `templates/404.html`, nothing otherwise.
pub fn default_404_page(custom_template_exists: bool) -> (r: Option<&'static str>)
    ensures
        r == (if custom_template_exists { None } else { Some(DEFAULT_404_HTML) }),
{
    if custom_template_exists {
        None
    } else {
        Some(DEFAULT_404_HTML)
    }
}

} // verus!
