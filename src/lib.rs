//! Renders text templates whose placeholders `{{ name }}` are replaced by the
//! values of a flat variable context. Rendering is strict: a name without a
//! value fails the whole call.
use vstd::prelude::*;

pub mod context;
pub mod error;
pub mod laws;
pub mod parser;
pub mod render;
pub mod scanner;
pub mod text;

pub use context::VariableContext;
pub use error::{RenderError, SyntaxError, TemplateError};
pub use parser::{parse, RenderNode, Template};
pub use render::render;

use error::TemplateErrorModel;
use parser::parse_spec;
use render::render_nodes;

verus! {

/// What rendering the template text `s` against `ctx` gives: the first syntax
/// defect, else the first missing name, else the substituted text.
pub open spec fn render_text(s: Seq<char>, ctx: Map<Seq<char>, Seq<char>>) -> Result<
    Seq<char>,
    TemplateErrorModel,
> {
    match parse_spec(s) {
        Err(e) => Err(TemplateErrorModel::Syntax(e)),
        Ok(nodes) => match render_nodes(nodes, ctx) {
            Ok(out) => Ok(out),
            Err(e) => Err(TemplateErrorModel::Render(e)),
        },
    }
}

/// Parses `text` and renders it against `ctx`: the substituted text, or the
/// first error that stops the call.
pub fn substitute_variables(text: &str, ctx: &VariableContext) -> (r: Result<String, TemplateError>)
    ensures
        match r {
            Ok(s) => render_text(text@, ctx@) == Ok::<Seq<char>, TemplateErrorModel>(s@),
            Err(e) => render_text(text@, ctx@) == Err::<Seq<char>, TemplateErrorModel>(e@),
        },
{
    let template = match parse(text) {
        Ok(t) => t,
        Err(e) => return Err(TemplateError::Syntax(e)),
    };
    match render(&template, ctx) {
        Ok(s) => Ok(s),
        Err(e) => Err(TemplateError::Render(e)),
    }
}

} // verus!
