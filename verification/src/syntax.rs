//! What the parser of `syn` makes of a token stream.
//!
//! The grammar of expressions and patterns is not written out here. Each
//! answer of the parser has a name instead, a function of the tokens that
//! were parsed, and the contracts of the library speak of those names. The
//! contracts in this module say that the parser's answer is the named one;
//! they are taken from the source of `syn` and are not proved.

use crate::tokens::{stream_tokens, Token};
use proc_macro2::TokenStream;
use quote::ToTokens;
use syn::parse::Parser;
use syn::punctuated::Punctuated;
use vstd::prelude::*;

verus! {

/// The error with which `syn` refuses tokens.
#[verifier::external_type_specification]
#[verifier::external_body]
pub struct ExError(syn::Error);

/// The expressions that `tokens` consist of, when they are a list of
/// expressions separated by commas, with or without a comma at the end: each
/// expression by its tokens. `None` when they are no such list.
pub uninterp spec fn parsed_expressions(tokens: Seq<Token>) -> Option<Seq<Seq<Token>>>;

/// The expressions of a comma-separated list. No tokens at all are the list
/// without expressions; of any other tokens the parser decides.
pub open spec fn expression_list(tokens: Seq<Token>) -> Option<Seq<Seq<Token>>> {
    if tokens.len() == 0 {
        Some(Seq::empty())
    } else {
        parsed_expressions(tokens)
    }
}

/// Whether `tokens` are exactly one expression.
pub uninterp spec fn is_single_expression(tokens: Seq<Token>) -> bool;

/// The patterns that `tokens` consist of, when they are one pattern or
/// several separated by `|`: each pattern by its tokens. `None` when they
/// are no such list.
pub uninterp spec fn parsed_patterns(tokens: Seq<Token>) -> Option<Seq<Seq<Token>>>;

/// The contents of each stream of a list.
pub open spec fn contents(streams: Seq<TokenStream>) -> Seq<Seq<Token>> {
    Seq::new(streams.len(), |i: int| stream_tokens(streams[i]))
}

/// `Punctuated::<Expr, Comma>::parse_terminated`, run over the whole of
/// `stream`: the expressions of a comma-separated list, each printed back
/// into tokens, or the parser's error. Tokens that are left over are an
/// error. The parser stops at once on an empty stream, with an empty list.
#[verifier::external_body]
pub(crate) fn parse_expressions(stream: &TokenStream) -> (parsed: Result<Vec<TokenStream>, syn::Error>)
    ensures
        parsed is Ok ==> parsed_expressions(stream_tokens(*stream)) == Some(
            contents(parsed->Ok_0@),
        ),
        parsed is Err ==> parsed_expressions(stream_tokens(*stream)) is None,
        stream_tokens(*stream).len() == 0 ==> parsed is Ok && parsed->Ok_0@.len() == 0,
{
    let parser = Punctuated::<syn::Expr, syn::token::Comma>::parse_terminated;
    let list = parser.parse2(stream.clone())?;
    Ok(list.into_iter().map(|expression| expression.into_token_stream()).collect())
}

/// `syn::parse2::<Expr>`: whether the whole of `stream` is one expression.
#[verifier::external_body]
pub(crate) fn parses_as_expression(stream: &TokenStream) -> (yes: bool)
    ensures
        yes == is_single_expression(stream_tokens(*stream)),
{
    syn::parse2::<syn::Expr>(stream.clone()).is_ok()
}

/// `Pat::parse_multi`, run over the whole of `stream`: the patterns of a
/// list separated by `|`, each printed back into tokens, or the parser's
/// error. Tokens that are left over are an error. The parser reads a
/// pattern before it looks for a `|`, so a list that it accepts holds at
/// least one.
#[verifier::external_body]
pub(crate) fn parse_patterns(stream: &TokenStream) -> (parsed: Result<Vec<TokenStream>, syn::Error>)
    ensures
        parsed is Ok ==> parsed_patterns(stream_tokens(*stream)) == Some(contents(parsed->Ok_0@)),
        parsed is Err ==> parsed_patterns(stream_tokens(*stream)) is None,
        parsed is Ok ==> parsed->Ok_0@.len() > 0,
{
    Ok(match syn::Pat::parse_multi.parse2(stream.clone())? {
        syn::Pat::Or(list) => list.cases.into_iter().map(|pattern| pattern.into_token_stream()).collect(),
        single => vec![single.into_token_stream()],
    })
}

} // verus!
