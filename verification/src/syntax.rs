//! The pieces of Rust syntax that directives are made of, read by `syn`.
//!
//! Every function here looks at the front of a piece of source text, reads one
//! syntactic element there and hands back the element and the text that
//! follows it. What `syn` accepts as an identifier, a type or an expression is
//! not described here: each reading is given a name, and the functions are
//! trusted to return exactly that reading.
//!
//! A reading is made of three steps: the whole text is turned into tokens,
//! `syn` parses one element from the front of them, and the element and the
//! tokens left over are each printed back as text. A text that cannot be
//! turned into tokens has no reading. Every literal that the lexer hands out
//! can be read: `syn` keeps a literal that it cannot classify as it stands
//! (`syn::Lit::Verbatim`).
//!
//! Tokens are made and printed by `proc_macro2`'s own lexer and printer, also
//! inside a compiler's procedural macro, so that a reading depends on the
//! text alone. To that end each function calls
//! `proc_macro2::fallback::force` before it reads and
//! `proc_macro2::fallback::unforce` after. That choice is one switch for the
//! whole process: `unforce` does not put back what was chosen before, it lets
//! `proc_macro2` find out anew whether a compiler is there. A caller that has
//! forced the fallback itself finds its choice undone after any call into
//! this module, and the functions are not for use from several threads of a
//! process that runs inside a compiler.

use vstd::prelude::*;

verus! {

/// The identifier at the front of `src`, printed, and the tokens after it,
/// printed, as `syn` reads them. `None` where `src` cannot be turned into
/// tokens, where it is empty, where its first token is no identifier, and
/// where that identifier is a keyword of Rust, which `syn::Ident` turns
/// down.
pub uninterp spec fn leading_ident(src: Seq<char>) -> Option<(Seq<char>, Seq<char>)>;

/// The type at the front of `src`, printed, and the tokens after it, printed,
/// as `syn` reads them. `None` where `src` cannot be turned into tokens and
/// where `syn` finds no type at its front.
pub uninterp spec fn leading_type(src: Seq<char>) -> Option<(Seq<char>, Seq<char>)>;

/// The expression at the front of `src`, printed, and the tokens after it,
/// printed, as `syn` reads them. `None` where `src` cannot be turned into
/// tokens and where `syn` finds no expression at its front.
pub uninterp spec fn leading_expr(src: Seq<char>) -> Option<(Seq<char>, Seq<char>)>;

/// The first token of `src`, printed, and the tokens after it, printed. A
/// bracketed group counts as one token. `None` where `src` cannot be turned
/// into tokens and where it holds none.
pub uninterp spec fn leading_token(src: Seq<char>) -> Option<(Seq<char>, Seq<char>)>;

/// The tokens after a leading `=`, printed. `None` where `src` cannot be
/// turned into tokens and where it does not begin with `=`.
pub uninterp spec fn after_eq(src: Seq<char>) -> Option<Seq<char>>;

/// The tokens after a leading `,`, printed. `None` where `src` cannot be
/// turned into tokens and where it does not begin with `,`.
pub uninterp spec fn after_comma(src: Seq<char>) -> Option<Seq<char>>;

/// Whether `src` can be turned into tokens and holds none.
pub uninterp spec fn no_tokens(src: Seq<char>) -> bool;

/// The views of an optional pair of texts.
pub open spec fn pair_view(p: Option<(String, String)>) -> Option<(Seq<char>, Seq<char>)> {
    match p {
        Some((head, rest)) => Some((head@, rest@)),
        None => None,
    }
}

/// The view of an optional text.
pub open spec fn text_view(t: Option<String>) -> Option<Seq<char>> {
    match t {
        Some(rest) => Some(rest@),
        None => None,
    }
}

/// Trusted: `syn::parse::Parser::parse_str` with a parser that reads a
/// `syn::Ident` and then collects the remaining tokens as a
/// `proc_macro2::TokenStream`; both are printed with `to_string`. Claims only
/// that the outcome is the reading named `leading_ident`. Switches the
/// process to `proc_macro2`'s fallback for the call and lets it detect anew
/// afterwards.
#[verifier::external_body]
pub(crate) fn split_ident(src: &str) -> (r: Option<(String, String)>)
    ensures
        pair_view(r) == leading_ident(src@),
{
    proc_macro2::fallback::force();
    let front = |input: syn::parse::ParseStream| -> syn::Result<(syn::Ident, proc_macro2::TokenStream)> {
        Ok((input.parse()?, input.parse()?))
    };
    let read = syn::parse::Parser::parse_str(front, src).ok();
    let r = read.map(|(head, rest)| (head.to_string(), rest.to_string()));
    proc_macro2::fallback::unforce();
    r
}

/// Trusted: `syn::parse::Parser::parse_str` with a parser that reads a
/// `syn::Type` and then collects the remaining tokens; the type is printed
/// through `quote::ToTokens`, the rest with `to_string`. Claims only that the
/// outcome is the reading named `leading_type`. Switches the process to
/// `proc_macro2`'s fallback for the call and lets it detect anew afterwards.
#[verifier::external_body]
pub(crate) fn split_type(src: &str) -> (r: Option<(String, String)>)
    ensures
        pair_view(r) == leading_type(src@),
{
    proc_macro2::fallback::force();
    let front = |input: syn::parse::ParseStream| -> syn::Result<(syn::Type, proc_macro2::TokenStream)> {
        Ok((input.parse()?, input.parse()?))
    };
    let read = syn::parse::Parser::parse_str(front, src).ok();
    let r = read.map(|(head, rest)| (quote::ToTokens::to_token_stream(&head).to_string(), rest.to_string()));
    proc_macro2::fallback::unforce();
    r
}

/// Trusted: `syn::parse::Parser::parse_str` with a parser that reads a
/// `syn::Expr` and then collects the remaining tokens; the expression is
/// printed through `quote::ToTokens`, the rest with `to_string`. Claims only
/// that the outcome is the reading named `leading_expr`. Switches the process
/// to `proc_macro2`'s fallback for the call and lets it detect anew
/// afterwards.
#[verifier::external_body]
pub(crate) fn split_expr(src: &str) -> (r: Option<(String, String)>)
    ensures
        pair_view(r) == leading_expr(src@),
{
    proc_macro2::fallback::force();
    let front = |input: syn::parse::ParseStream| -> syn::Result<(syn::Expr, proc_macro2::TokenStream)> {
        Ok((input.parse()?, input.parse()?))
    };
    let read = syn::parse::Parser::parse_str(front, src).ok();
    let r = read.map(|(head, rest)| (quote::ToTokens::to_token_stream(&head).to_string(), rest.to_string()));
    proc_macro2::fallback::unforce();
    r
}

/// Trusted: `syn::parse::Parser::parse_str` with a parser that reads one
/// `proc_macro2::TokenTree` and then collects the remaining tokens; both are
/// printed with `to_string`. Claims only that the outcome is the reading
/// named `leading_token`. Switches the process to `proc_macro2`'s fallback
/// for the call and lets it detect anew afterwards.
#[verifier::external_body]
pub(crate) fn split_token(src: &str) -> (r: Option<(String, String)>)
    ensures
        pair_view(r) == leading_token(src@),
{
    proc_macro2::fallback::force();
    let front = |input: syn::parse::ParseStream| -> syn::Result<(proc_macro2::TokenTree, proc_macro2::TokenStream)> {
        Ok((input.parse()?, input.parse()?))
    };
    let read = syn::parse::Parser::parse_str(front, src).ok();
    let r = read.map(|(head, rest)| (head.to_string(), rest.to_string()));
    proc_macro2::fallback::unforce();
    r
}

/// Trusted: `syn::parse::Parser::parse_str` with a parser that reads the
/// token `=` (`syn::token::Eq`) and then collects the remaining tokens, which
/// are printed with `to_string`. Claims only that the outcome is the reading
/// named `after_eq`. Switches the process to `proc_macro2`'s fallback for the
/// call and lets it detect anew afterwards.
#[verifier::external_body]
pub(crate) fn skip_eq(src: &str) -> (r: Option<String>)
    ensures
        text_view(r) == after_eq(src@),
{
    proc_macro2::fallback::force();
    let front = |input: syn::parse::ParseStream| -> syn::Result<proc_macro2::TokenStream> {
        input.parse::<syn::token::Eq>()?;
        input.parse()
    };
    let r = syn::parse::Parser::parse_str(front, src).ok().map(|rest| rest.to_string());
    proc_macro2::fallback::unforce();
    r
}

/// Trusted: `syn::parse::Parser::parse_str` with a parser that reads the
/// token `,` (`syn::token::Comma`) and then collects the remaining tokens,
/// which are printed with `to_string`. Claims only that the outcome is the
/// reading named `after_comma`. Switches the process to `proc_macro2`'s
/// fallback for the call and lets it detect anew afterwards.
#[verifier::external_body]
pub(crate) fn skip_comma(src: &str) -> (r: Option<String>)
    ensures
        text_view(r) == after_comma(src@),
{
    proc_macro2::fallback::force();
    let front = |input: syn::parse::ParseStream| -> syn::Result<proc_macro2::TokenStream> {
        input.parse::<syn::token::Comma>()?;
        input.parse()
    };
    let r = syn::parse::Parser::parse_str(front, src).ok().map(|rest| rest.to_string());
    proc_macro2::fallback::unforce();
    r
}

/// Trusted: `syn::parse_str` for `syn::parse::Nothing`, which succeeds exactly
/// when the text can be turned into tokens and holds none. Claims only that
/// the answer is the one named `no_tokens`. Switches the process to
/// `proc_macro2`'s fallback for the call and lets it detect anew afterwards.
#[verifier::external_body]
pub(crate) fn is_blank(src: &str) -> (b: bool)
    ensures
        b == no_tokens(src@),
{
    proc_macro2::fallback::force();
    let b = syn::parse_str::<syn::parse::Nothing>(src).is_ok();
    proc_macro2::fallback::unforce();
    b
}

} // verus!
