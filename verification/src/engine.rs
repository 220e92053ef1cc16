//! The template-engine boundary.
//!
//! The engine is an opaque capability: it registers template sources under
//! names and renders a named template against a context value. Everything
//! the library relies on from it is stated here.

use vstd::prelude::*;

verus! {

#[verifier::external_type_specification]
#[verifier::external_body]
pub struct ExHandlebars<'reg>(handlebars::Handlebars<'reg>);

#[verifier::external_type_specification]
#[verifier::external_body]
pub struct ExJsonValue(serde_json::Value);

/// Whether the template engine accepts a template source. The engine's
/// compiler is a function of the source text alone, so acceptance is too.
pub uninterp spec fn template_syntax_ok(source: Seq<char>) -> bool;

/// Relies on `handlebars::Handlebars::new`: a fresh engine with an empty
/// template table.
#[verifier::external_body]
pub(crate) fn engine_new() -> handlebars::Handlebars<'static> {
    handlebars::Handlebars::new()
}

/// Relies on `handlebars::Handlebars::register_template_string`: it compiles
/// the source with the engine's default options and stores the result under
/// the name; it succeeds exactly when the source parses, the name serving
/// only as a label in error reports.
#[verifier::external_body]
pub(crate) fn engine_register(
    engine: &mut handlebars::Handlebars<'static>,
    name: &str,
    source: &str,
) -> (r: Result<(), String>)
    ensures
        r is Ok <==> template_syntax_ok(source@),
{
    match engine.register_template_string(name, source) {
        Ok(()) => Ok(()),
        Err(e) => Err(e.to_string()),
    }
}

/// Relies on `handlebars::Handlebars::unregister_template`: it removes the
/// named entry, if any, from the engine's template table.
#[verifier::external_body]
pub(crate) fn engine_unregister(engine: &mut handlebars::Handlebars<'static>, name: &str) {
    engine.unregister_template(name);
}

/// Relies on `handlebars::Handlebars::render`: it renders the named
/// registered template against the context value, or reports why it could
/// not. What comes back depends on the engine's template table, so nothing
/// is assumed of it.
#[verifier::external_body]
pub(crate) fn engine_render(
    engine: &handlebars::Handlebars<'static>,
    name: &str,
    context: &serde_json::Value,
) -> (r: Result<String, String>) {
    match engine.render(name, context) {
        Ok(html) => Ok(html),
        Err(e) => Err(e.to_string()),
    }
}

} // verus!
