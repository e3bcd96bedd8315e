//! Errors that end a render call.
use vstd::prelude::*;

verus! {

/// A defect in the placeholder syntax of a template. Offsets count characters
/// from the start of the template and point at the opening marker.
#[derive(Debug, Clone, Copy, PartialEq, Eq, Structural)]
pub enum SyntaxError {
    /// An opening marker with no closing marker after it.
    UnterminatedPlaceholder { offset: usize },
    /// A placeholder whose inner text is empty or only padding.
    EmptyPlaceholder { offset: usize },
    /// A placeholder whose name holds a delimiter character.
    InvalidPlaceholder { offset: usize },
}

/// A failure while substituting values into a parsed template.
#[derive(Debug, Clone, PartialEq, Eq)]
pub enum RenderError {
    /// The name is absent from the variable context; the offset is that of the
    /// placeholder's opening marker.
    UndefinedVariable { name: String, offset: usize },
}

/// Any failure of a render call.
#[derive(Debug, Clone, PartialEq, Eq)]
pub enum TemplateError {
    Syntax(SyntaxError),
    Render(RenderError),
}

/// What a `RenderError` says, as plain values.
pub enum RenderErrorModel {
    UndefinedVariable { name: Seq<char>, offset: usize },
}

/// What a `TemplateError` says, as plain values.
pub enum TemplateErrorModel {
    Syntax(SyntaxError),
    Render(RenderErrorModel),
}

impl View for RenderError {
    type V = RenderErrorModel;

    open spec fn view(&self) -> RenderErrorModel {
        match self {
            RenderError::UndefinedVariable { name, offset } => RenderErrorModel::UndefinedVariable {
                name: name@,
                offset: *offset,
            },
        }
    }
}

impl View for TemplateError {
    type V = TemplateErrorModel;

    open spec fn view(&self) -> TemplateErrorModel {
        match self {
            TemplateError::Syntax(e) => TemplateErrorModel::Syntax(*e),
            TemplateError::Render(e) => TemplateErrorModel::Render(e@),
        }
    }
}

} // verus!
