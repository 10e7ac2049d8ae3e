//! Template expressions in frontmatter fields (`{{ post.title }} |
//! Blog`): a field with an expression is rendered by the template engine
//! in the page's context; one without is kept as written.

use minijinja::{Environment, Value};
use vstd::prelude::*;
use crate::config::{SchemaConfig, SchemaConfigValue, SchemaFullConfig, SchemaTypes, SeoMeta};
use crate::text::{contains_seq, opt_view, owned, str_contains, trim_exec, trim_ws};

verus! {

/// The template engine's environment.
#[verifier::external_type_specification]
#[verifier::external_body]
pub struct ExEnvironment<'source>(Environment<'source>);

/// A template context value.
#[verifier::external_type_specification]
#[verifier::external_body]
pub struct ExValue(Value);

/// Render a template string in a context; `None` when rendering fails.
///
/// Trusted: calls `Environment::render_str(source, ctx.clone())`. What it
/// renders depends on the environment (its settings, filters and
/// functions) as well as on the arguments, so nothing is stated of the
/// result.
#[verifier::external_body]
fn render_template_str(env: &Environment<'_>, source: &str, ctx: &Value) -> (r: Option<String>) {
    env.render_str(source, ctx.clone()).ok()
}

/// Whether a field holds a template expression (`{{` or `{%`).
pub open spec fn has_expression(v: Seq<char>) -> bool {
    contains_seq(v, "{{"@) || contains_seq(v, "{%"@)
}

/// The field from its rendering: the rendered text trimmed, `None` when
/// rendering failed or left nothing.
pub open spec fn field_from_rendered(rendered: Option<Seq<char>>) -> Option<Seq<char>> {
    match rendered {
        Some(t) => if trim_ws(t).len() == 0 {
            None
        } else {
            Some(trim_ws(t))
        },
        None => None,
    }
}

/// Turn the engine's rendering of a field into the field: trimmed, and
/// absent when the rendering failed or is blank.
pub fn field_from_rendering(rendered: Option<String>) -> (r: Option<String>)
    ensures
        opt_view(r) == field_from_rendered(opt_view(rendered)),
{
    match rendered {
        Some(t) => {
            let trimmed = trim_exec(t.as_str());
            if trimmed.as_str().is_empty() {
                None
            } else {
                Some(trimmed)
            }
        },
        None => None,
    }
}

/// What a resolved field can be: absent when absent, kept when it holds
/// no expression, and otherwise either absent or the trimmed, non-empty
/// rendering of the engine.
pub open spec fn resolves_to(field: Option<Seq<char>>, r: Option<Seq<char>>) -> bool {
    match field {
        None => r is None,
        Some(v) => if !has_expression(v) {
            r == Some(v)
        } else {
            match r {
                Some(t) => t.len() > 0 && trim_ws(t) == t,
                None => true,
            }
        },
    }
}

/// Resolve one optional field: rendered by the engine when it holds an
/// expression, kept as written otherwise.
pub(crate) fn resolve_field(field: &Option<String>, env: &Environment<'_>, ctx: &Value) -> (r: Option<String>)
    ensures
        resolves_to(opt_view(*field), opt_view(r)),
        match *field {
            Some(v) if has_expression(v@) => exists|x: Option<Seq<char>>| opt_view(r) == field_from_rendered(x),
            _ => true,
        },
{
    let value = match field {
        Some(v) => v,
        None => return None,
    };
    proof {
        reveal_strlit("{{");
        reveal_strlit("{%");
    }
    if !str_contains(value.as_str(), "{{") && !str_contains(value.as_str(), "{%") {
        return Some(value.clone());
    }
    let rendered = render_template_str(env, value.as_str(), ctx);
    let ghost rv = opt_view(rendered);
    let r = field_from_rendering(rendered);
    proof {
        match rv {
            Some(t) => {
                if trim_ws(t).len() > 0 {
                    crate::text::lemma_trim_ws_idempotent(t);
                }
            },
            None => {},
        }
    }
    r
}

} // verus!
