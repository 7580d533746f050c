//! The directives a field's block is made of.
//!
//! A directive is `ignore`, `ty = <type>` or `converter = <expression>`. The
//! keyword decides which; what a type or an expression is, `syn` decides.

use vstd::prelude::*;
use crate::error::{DirectiveKind, ErrorView, GenerateError};
use crate::syntax::{
    after_eq, leading_expr, leading_ident, leading_token, leading_type, skip_eq, split_expr,
    split_ident, split_token, split_type,
};
use crate::text::text_eq;

verus! {

/// One directive, as its author wrote it.
#[derive(Clone, Debug, PartialEq, Eq)]
pub enum UserAttribute {
    /// `ignore`: leave the field as declared.
    Ignore,
    /// `ty = ..`: the type the constructor takes for the field.
    InputType(String),
    /// `converter = ..`: the expression applied to what the constructor takes.
    Converter(String),
}

/// A directive with its payload as a sequence of characters.
pub enum Directive {
    Ignore,
    InputType(Seq<char>),
    Converter(Seq<char>),
}

impl View for UserAttribute {
    type V = Directive;

    open spec fn view(&self) -> Directive {
        match *self {
            UserAttribute::Ignore => Directive::Ignore,
            UserAttribute::InputType(t) => Directive::InputType(t@),
            UserAttribute::Converter(e) => Directive::Converter(e@),
        }
    }
}

/// Whether `src` begins with the identifier `keyword`.
pub open spec fn begins_with_ident(src: Seq<char>, keyword: Seq<char>) -> bool {
    match leading_ident(src) {
        Some((ident, _)) => ident == keyword,
        None => false,
    }
}

/// Looks at the front of `src` without using anything up: does the
/// identifier `keyword` stand there?
pub fn ident_is(src: &str, keyword: &str) -> (b: bool)
    ensures
        b == begins_with_ident(src@, keyword@),
{
    match split_ident(src) {
        Some((ident, _)) => text_eq(&ident, keyword),
        None => false,
    }
}

/// The kind of directive that a keyword begins: `ignore`, `ty` and
/// `converter` are the keywords, and nothing else is.
pub open spec fn keyword_kind(keyword: Seq<char>) -> Option<DirectiveKind> {
    if keyword == "ignore"@ {
        Some(DirectiveKind::Ignore)
    } else if keyword == "ty"@ {
        Some(DirectiveKind::InputType)
    } else if keyword == "converter"@ {
        Some(DirectiveKind::Converter)
    } else {
        None
    }
}

/// Tells which kind of directive an identifier begins, if any.
pub fn directive_kind(keyword: &str) -> (kind: Option<DirectiveKind>)
    ensures
        kind == keyword_kind(keyword@),
{
    let keyword = String::from_str(keyword);
    if text_eq(&keyword, "ignore") {
        Some(DirectiveKind::Ignore)
    } else if text_eq(&keyword, "ty") {
        Some(DirectiveKind::InputType)
    } else if text_eq(&keyword, "converter") {
        Some(DirectiveKind::Converter)
    } else {
        None
    }
}

/// `=` and a type at the front of `src`: the type, and the text after it.
pub open spec fn assigned_type(src: Seq<char>) -> Option<(Seq<char>, Seq<char>)> {
    match after_eq(src) {
        Some(after) => leading_type(after),
        None => None,
    }
}

/// `=` and an expression at the front of `src`: the expression, and the
/// text after it.
pub open spec fn assigned_expr(src: Seq<char>) -> Option<(Seq<char>, Seq<char>)> {
    match after_eq(src) {
        Some(after) => leading_expr(after),
        None => None,
    }
}

/// The first token of `src`, or all of `src` where no token can be read
/// from it.
pub open spec fn first_token(src: Seq<char>) -> Seq<char> {
    match leading_token(src) {
        Some((token, _)) => token,
        None => src,
    }
}

/// The directive at the front of `src` and the text left after it.
///
/// The identifier at the front decides: `ignore` stands alone, `ty` is
/// followed by `=` and a type, `converter` by `=` and an expression. A
/// keyword without its payload is malformed. An identifier that is no
/// keyword is unrecognized, and so is the first token of `src` where it
/// begins with no identifier.
pub open spec fn directive_at_front(src: Seq<char>) -> Result<(Directive, Seq<char>), ErrorView> {
    match leading_ident(src) {
        None => Err(ErrorView::UnrecognizedDirective(first_token(src))),
        Some((ident, rest)) => match keyword_kind(ident) {
            None => Err(ErrorView::UnrecognizedDirective(ident)),
            Some(DirectiveKind::Ignore) => Ok((Directive::Ignore, rest)),
            Some(DirectiveKind::InputType) => match assigned_type(rest) {
                Some((ty, left)) => Ok((Directive::InputType(ty), left)),
                None => Err(ErrorView::MalformedDirective),
            },
            Some(DirectiveKind::Converter) => match assigned_expr(rest) {
                Some((expr, left)) => Ok((Directive::Converter(expr), left)),
                None => Err(ErrorView::MalformedDirective),
            },
        },
    }
}

/// The views of a directive read from the front of a text.
pub open spec fn parsed_view(r: Result<(UserAttribute, String), GenerateError>) -> Result<
    (Directive, Seq<char>),
    ErrorView,
> {
    match r {
        Ok((attribute, rest)) => Ok((attribute@, rest@)),
        Err(e) => Err(e@),
    }
}

impl UserAttribute {
    /// Reads one directive from the front of `src` and returns it with the
    /// text that follows.
    pub fn parse(src: &str) -> (r: Result<(UserAttribute, String), GenerateError>)
        ensures
            parsed_view(r) == directive_at_front(src@),
    {
        match split_ident(src) {
            None => match split_token(src) {
                Some((token, _)) => Err(GenerateError::UnrecognizedDirective(token)),
                None => Err(GenerateError::UnrecognizedDirective(String::from_str(src))),
            },
            Some((ident, rest)) => match directive_kind(ident.as_str()) {
                None => Err(GenerateError::UnrecognizedDirective(ident)),
                Some(DirectiveKind::Ignore) => Ok((UserAttribute::Ignore, rest)),
                Some(DirectiveKind::InputType) => match skip_eq(rest.as_str()) {
                    None => Err(GenerateError::MalformedDirective),
                    Some(after) => match split_type(after.as_str()) {
                        Some((ty, left)) => Ok((UserAttribute::InputType(ty), left)),
                        None => Err(GenerateError::MalformedDirective),
                    },
                },
                Some(DirectiveKind::Converter) => match skip_eq(rest.as_str()) {
                    None => Err(GenerateError::MalformedDirective),
                    Some(after) => match split_expr(after.as_str()) {
                        Some((expr, left)) => Ok((UserAttribute::Converter(expr), left)),
                        None => Err(GenerateError::MalformedDirective),
                    },
                },
            },
        }
    }
}

} // verus!
