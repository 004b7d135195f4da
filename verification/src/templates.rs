//! Rendering a report page with the template engine, once the engine has
//! loaded its templates (or failed to).
use vstd::prelude::*;

verus! {

#[verifier::external_type_specification]
#[verifier::external_body]
pub struct ExTera(tera::Tera);

#[verifier::external_type_specification]
#[verifier::external_body]
pub struct ExTeraContext(tera::Context);

#[verifier::external_type_specification]
#[verifier::external_body]
pub struct ExTeraError(tera::Error);

/// The names of the templates that a `tera::Tera` engine holds (the keys
/// of its template map).
pub uninterp spec fn tera_template_names(engine: tera::Tera) -> Set<Seq<char>>;

/// Renders the template `name` of `engine` with `context`
/// (`tera::Tera::render`). It looks the template up by its name first and
/// fails when the engine holds no template of that name. What a rendering
/// gives, and when a template that is there fails to render, depends on
/// the templates that the engine loaded from disk: no clause states it.
#[verifier::external_body]
fn tera_render(engine: &tera::Tera, name: &str, context: &tera::Context) -> (r: Result<
    String,
    tera::Error,
>)
    ensures
        !tera_template_names(*engine).contains(name@) ==> r is Err,
        r is Ok ==> tera_template_names(*engine).contains(name@),
{
    engine.render(name, context)
}

/// Why a page could not be rendered.
#[derive(Debug)]
pub enum RenderError {
    /// The template engine could not load its templates.
    NotInitialized,
    /// The engine refused to render (its error).
    Engine(tera::Error),
}

/// The text of a tera error (its `Display`). What the text says depends on
/// the error, which the library holds out of sight: no clause states it.
#[verifier::external_body]
fn tera_error_text(e: &tera::Error) -> (r: String) {
    e.to_string()
}

/// The message of a missing template engine.
pub open spec fn not_initialized_message() -> Seq<char> {
    "Template engine was not initialized"@
}

impl RenderError {
    /// The message of the error: for a missing engine, that it was not
    /// initialized; for the engine's error, the engine's own text.
    pub fn message(&self) -> (m: String)
        ensures
            self is NotInitialized ==> m@ == not_initialized_message(),
    {
        match self {
            RenderError::NotInitialized => String::from_str("Template engine was not initialized"),
            RenderError::Engine(e) => tera_error_text(e),
        }
    }

    /// Whether the engine was missing.
    pub fn is_not_initialized(&self) -> (b: bool)
        ensures
            b == self is NotInitialized,
    {
        match self {
            RenderError::NotInitialized => true,
            RenderError::Engine(_) => false,
        }
    }
}

/// Renders `template_name` with `context`, when the engine `templates` was
/// initialized; without an engine the result is `NotInitialized`, and with
/// one it is what the engine rendered for `template_name` or its error,
/// which it is when the engine holds no template of that name.
pub fn render_template(
    templates: &Option<tera::Tera>,
    template_name: &str,
    context: &tera::Context,
) -> (r: Result<String, RenderError>)
    ensures
        templates is None <==> r matches Err(RenderError::NotInitialized),
        templates matches Some(t) && !tera_template_names(*t).contains(template_name@) ==> r matches Err(
            RenderError::Engine(_),
        ),
        r is Ok ==> (templates matches Some(t) && tera_template_names(*t).contains(template_name@)),
{
    match templates {
        Some(t) => match tera_render(t, template_name, context) {
            Ok(s) => Ok(s),
            Err(e) => Err(RenderError::Engine(e)),
        },
        None => Err(RenderError::NotInitialized),
    }
}

} // verus!
