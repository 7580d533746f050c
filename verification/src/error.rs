//! Why a constructor could not be generated.

use vstd::prelude::*;

verus! {

/// The three kinds of directive a field's block may hold.
#[derive(Clone, Copy, Debug, PartialEq, Eq, Structural)]
pub enum DirectiveKind {
    Ignore,
    InputType,
    Converter,
}

/// The declarations no constructor is written for.
#[derive(Clone, Copy, Debug, PartialEq, Eq, Structural)]
pub enum ShapeKind {
    Enum,
    Union,
    NoFields,
}

/// A fatal finding. Generation stops at the first one.
#[derive(Clone, Debug, PartialEq, Eq)]
pub enum GenerateError {
    /// A directive was expected and something else stands there. Holds the
    /// first token at that place: an identifier that is no directive
    /// keyword, or whatever else stands there. Where no token can be read
    /// there, it holds the text from that place on.
    UnrecognizedDirective(String),
    /// A directive keyword is not followed by what it needs (`=` and a type
    /// or an expression), or two directives are not parted by a comma.
    MalformedDirective,
    /// More than one block on one field.
    DuplicateAnnotation,
    /// The same kind of directive twice in one block.
    DuplicateDirective(DirectiveKind),
    /// `ignore` beside an override.
    ConflictingDirectives,
    /// `ty` without `converter`, or `converter` without `ty`.
    IncompleteOverride,
    /// Not a struct with at least one field.
    UnsupportedShape(ShapeKind),
}

/// What a `GenerateError` says, with texts as sequences of characters.
pub enum ErrorView {
    UnrecognizedDirective(Seq<char>),
    MalformedDirective,
    DuplicateAnnotation,
    DuplicateDirective(DirectiveKind),
    ConflictingDirectives,
    IncompleteOverride,
    UnsupportedShape(ShapeKind),
}

impl View for GenerateError {
    type V = ErrorView;

    open spec fn view(&self) -> ErrorView {
        match *self {
            GenerateError::UnrecognizedDirective(t) => ErrorView::UnrecognizedDirective(t@),
            GenerateError::MalformedDirective => ErrorView::MalformedDirective,
            GenerateError::DuplicateAnnotation => ErrorView::DuplicateAnnotation,
            GenerateError::DuplicateDirective(k) => ErrorView::DuplicateDirective(k),
            GenerateError::ConflictingDirectives => ErrorView::ConflictingDirectives,
            GenerateError::IncompleteOverride => ErrorView::IncompleteOverride,
            GenerateError::UnsupportedShape(k) => ErrorView::UnsupportedShape(k),
        }
    }
}

/// A finding and the field it was made at, counted from zero; no field
/// where the declaration as a whole is at fault.
#[derive(Clone, Debug, PartialEq, Eq)]
pub struct Diagnostic {
    pub field: Option<usize>,
    pub error: GenerateError,
}

/// What a `Diagnostic` says.
pub struct DiagnosticView {
    pub field: Option<usize>,
    pub error: ErrorView,
}

impl View for Diagnostic {
    type V = DiagnosticView;

    open spec fn view(&self) -> DiagnosticView {
        DiagnosticView { field: self.field, error: self.error@ }
    }
}

/// The message shown for each finding.
pub open spec fn message_of(e: ErrorView) -> Seq<char> {
    match e {
        ErrorView::UnrecognizedDirective(t) => "Unrecognized directive: "@ + t,
        ErrorView::MalformedDirective => "Couldn't parse attributes"@,
        ErrorView::DuplicateAnnotation => "Can't specify `generic_new` more than once"@,
        ErrorView::DuplicateDirective(DirectiveKind::Ignore) => "Cannot specify `ignore` more than once"@,
        ErrorView::DuplicateDirective(DirectiveKind::InputType) => "Can't specify `ty` more than once"@,
        ErrorView::DuplicateDirective(DirectiveKind::Converter) => "Can't specify `converter` more than once"@,
        ErrorView::ConflictingDirectives => "`ignore` is mutually exclusive with other options"@,
        ErrorView::IncompleteOverride => "Must provide both `ty` and `converter`"@,
        ErrorView::UnsupportedShape(ShapeKind::Enum) => "Enums are not yet supported"@,
        ErrorView::UnsupportedShape(ShapeKind::Union) => "Unions are not supported"@,
        ErrorView::UnsupportedShape(ShapeKind::NoFields) => "Unit fields are not supported"@,
    }
}

impl GenerateError {
    /// The message to show the author of the declaration.
    pub fn message(&self) -> (m: String)
        ensures
            m@ == message_of(self@),
    {
        match self {
            GenerateError::UnrecognizedDirective(t) => {
                String::from_str("Unrecognized directive: ").concat(t.as_str())
            },
            GenerateError::MalformedDirective => String::from_str("Couldn't parse attributes"),
            GenerateError::DuplicateAnnotation => String::from_str(
                "Can't specify `generic_new` more than once",
            ),
            GenerateError::DuplicateDirective(DirectiveKind::Ignore) => String::from_str(
                "Cannot specify `ignore` more than once",
            ),
            GenerateError::DuplicateDirective(DirectiveKind::InputType) => String::from_str(
                "Can't specify `ty` more than once",
            ),
            GenerateError::DuplicateDirective(DirectiveKind::Converter) => String::from_str(
                "Can't specify `converter` more than once",
            ),
            GenerateError::ConflictingDirectives => String::from_str(
                "`ignore` is mutually exclusive with other options",
            ),
            GenerateError::IncompleteOverride => String::from_str(
                "Must provide both `ty` and `converter`",
            ),
            GenerateError::UnsupportedShape(ShapeKind::Enum) => String::from_str(
                "Enums are not yet supported",
            ),
            GenerateError::UnsupportedShape(ShapeKind::Union) => String::from_str(
                "Unions are not supported",
            ),
            GenerateError::UnsupportedShape(ShapeKind::NoFields) => String::from_str(
                "Unit fields are not supported",
            ),
        }
    }
}

} // verus!
