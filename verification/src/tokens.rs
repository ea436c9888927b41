//! Token streams, as far as the rewriting reads and builds them.
//!
//! A `proc_macro2::TokenStream` is carried through the library as it is, so
//! every token keeps its span. What the contracts say about a stream they say
//! about its contents: the sequence of its token trees, without their spans.
//! The functions of this module are the only ones that touch a stream; their
//! contracts are taken from the source of `proc_macro2` and are not proved.

use proc_macro2::{Group, Ident, Punct, Span, TokenStream, TokenTree};
use vstd::prelude::*;

verus! {

/// A position in the source text. It is carried along and never looked into.
#[verifier::external_type_specification]
#[verifier::external_body]
pub struct ExSpan(Span);

/// A sequence of token trees.
#[verifier::external_type_specification]
#[verifier::external_body]
pub struct ExTokenStream(TokenStream);

/// How a group of tokens is enclosed.
#[derive(Debug, Clone, Copy, PartialEq, Eq, Structural)]
pub enum Delimiter {
    /// `( ... )`
    Parenthesis,
    /// `{ ... }`
    Brace,
    /// `[ ... ]`
    Bracket,
    /// No visible delimiter, as around the expansion of a macro variable.
    Invisible,
}

/// One token tree without its span.
pub enum Token {
    /// A word: an identifier or a keyword, by its text.
    Ident(Seq<char>),
    /// A punctuation character. It is `joint` when another punctuation
    /// character follows it directly, as the first `=` of `==` does.
    Punct { ch: char, joint: bool },
    /// A literal, by its text.
    Literal(Seq<char>),
    /// A delimited group with the tokens inside it.
    Group { delimiter: Delimiter, tokens: Seq<Token> },
}

/// The token trees that a stream holds, in order and without their spans.
pub uninterp spec fn stream_tokens(stream: TokenStream) -> Seq<Token>;

/// One token tree of a stream as a plain value: the text of a word or a
/// literal, the character of a punctuation mark, the inside of a group.
#[derive(Debug)]
pub enum Lexeme {
    /// A word: an identifier or a keyword.
    Ident(String),
    /// A punctuation character and whether it is joint with the next one.
    Punct(char, bool),
    /// A literal.
    Literal(String),
    /// A delimited group, by the tokens inside it.
    Group(TokenStream),
}

impl Lexeme {
    /// Whether this value stands for the token `token`. Of a group it tells
    /// the contents and not the delimiter.
    pub open spec fn stands_for(&self, token: Token) -> bool {
        match self {
            Lexeme::Ident(name) => token == Token::Ident(name@),
            Lexeme::Punct(ch, joint) => token == (Token::Punct { ch: *ch, joint: *joint }),
            Lexeme::Literal(text) => token == Token::Literal(text@),
            Lexeme::Group(inner) => token is Group && token->tokens == stream_tokens(*inner),
        }
    }
}

/// The characters of which a punctuation token can be made.
pub open spec fn is_punctuation(ch: char) -> bool {
    ch == '!' || ch == '#' || ch == '$' || ch == '%' || ch == '&' || ch == '\'' || ch == '*'
        || ch == '+' || ch == ',' || ch == '-' || ch == '.' || ch == '/' || ch == ':' || ch == ';'
        || ch == '<' || ch == '=' || ch == '>' || ch == '?' || ch == '@' || ch == '^' || ch == '|'
        || ch == '~'
}

/// A lower-case word of the letters `a` to `z`. Every such word is a legal
/// identifier or keyword.
pub open spec fn is_lowercase_word(name: Seq<char>) -> bool {
    name.len() > 0 && forall|i: int| 0 <= i < name.len() ==> 'a' <= #[trigger] name[i] <= 'z'
}

/// `TokenStream::new`: a stream that holds nothing.
#[verifier::external_body]
pub(crate) fn empty_stream() -> (stream: TokenStream)
    ensures
        stream_tokens(stream) == Seq::<Token>::empty(),
{
    TokenStream::new()
}

/// `Extend<TokenStream>` for `TokenStream`: the tokens of `more` are put
/// behind those that `stream` holds, in their order and with their spans.
#[verifier::external_body]
pub(crate) fn append(stream: &mut TokenStream, more: &TokenStream)
    ensures
        stream_tokens(*final(stream)) == stream_tokens(*old(stream)) + stream_tokens(*more),
{
    stream.extend(std::iter::once(more.clone()));
}

/// `Punct::new` and `Punct::set_span`: one punctuation token with the span
/// `span` is put behind the tokens that `stream` holds. `Punct::new` panics
/// on a character that is no punctuation.
#[verifier::external_body]
pub(crate) fn push_punct(stream: &mut TokenStream, ch: char, joint: bool, span: Span)
    requires
        is_punctuation(ch),
    ensures
        stream_tokens(*final(stream)) == stream_tokens(*old(stream)).push(
            Token::Punct { ch, joint },
        ),
{
    let spacing = if joint { proc_macro2::Spacing::Joint } else { proc_macro2::Spacing::Alone };
    let mut punct = Punct::new(ch, spacing);
    punct.set_span(span);
    stream.extend(std::iter::once(TokenTree::Punct(punct)));
}

/// `Ident::new`: one word with the span `span` is put behind the tokens that
/// `stream` holds. `Ident::new` panics on text that is no identifier.
#[verifier::external_body]
pub(crate) fn push_ident(stream: &mut TokenStream, name: &str, span: Span)
    requires
        is_lowercase_word(name@),
    ensures
        stream_tokens(*final(stream)) == stream_tokens(*old(stream)).push(Token::Ident(name@)),
{
    stream.extend(std::iter::once(TokenTree::Ident(Ident::new(name, span))));
}

/// `Group::new` and `Group::set_span`: one group that encloses the tokens of
/// `inner`, with the span `span` on its delimiters, is put behind the tokens
/// that `stream` holds.
#[verifier::external_body]
pub(crate) fn push_group(stream: &mut TokenStream, delimiter: Delimiter, inner: &TokenStream, span: Span)
    ensures
        stream_tokens(*final(stream)) == stream_tokens(*old(stream)).push(
            Token::Group { delimiter, tokens: stream_tokens(*inner) },
        ),
{
    let outside = match delimiter {
        Delimiter::Parenthesis => proc_macro2::Delimiter::Parenthesis,
        Delimiter::Brace => proc_macro2::Delimiter::Brace,
        Delimiter::Bracket => proc_macro2::Delimiter::Bracket,
        Delimiter::Invisible => proc_macro2::Delimiter::None,
    };
    let mut group = Group::new(outside, inner.clone());
    group.set_span(span);
    stream.extend(std::iter::once(TokenTree::Group(group)));
}

/// The iterator of `TokenStream`: the token trees of `stream` in order, each
/// as a plain value.
#[verifier::external_body]
pub(crate) fn lexemes(stream: &TokenStream) -> (items: Vec<Lexeme>)
    ensures
        items@.len() == stream_tokens(*stream).len(),
        forall|i: int|
            0 <= i < items@.len() ==> (#[trigger] items@[i]).stands_for(stream_tokens(*stream)[i]),
{
    stream.clone().into_iter().map(|tree| match tree {
        TokenTree::Ident(ident) => Lexeme::Ident(ident.to_string()),
        TokenTree::Punct(punct) => Lexeme::Punct(
            punct.as_char(),
            punct.spacing() == proc_macro2::Spacing::Joint,
        ),
        TokenTree::Literal(literal) => Lexeme::Literal(literal.to_string()),
        TokenTree::Group(group) => Lexeme::Group(group.stream()),
    }).collect()
}

/// The iterator of `TokenStream` and `From<TokenTree>`: the token trees of
/// `stream` in order, each as a stream of its own that holds that one tree
/// with its span.
#[verifier::external_body]
pub(crate) fn trees(stream: &TokenStream) -> (items: Vec<TokenStream>)
    ensures
        items@.len() == stream_tokens(*stream).len(),
        forall|i: int|
            0 <= i < items@.len() ==> stream_tokens(#[trigger] items@[i]) == seq![
                stream_tokens(*stream)[i],
            ],
{
    stream.clone().into_iter().map(TokenStream::from).collect()
}

/// The tokens of `stream` from the index `from` up to, not including, the
/// index `to`, as a stream of their own.
pub(crate) fn slice(stream: &TokenStream, from: usize, to: usize) -> (part: TokenStream)
    requires
        from <= to <= stream_tokens(*stream).len(),
    ensures
        stream_tokens(part) == stream_tokens(*stream).subrange(from as int, to as int),
{
    let items = trees(stream);
    let mut part = empty_stream();
    let mut at: usize = from;
    while at < to
        invariant
            from <= at <= to <= items@.len(),
            items@.len() == stream_tokens(*stream).len(),
            forall|i: int|
                0 <= i < items@.len() ==> stream_tokens(#[trigger] items@[i]) == seq![
                    stream_tokens(*stream)[i],
                ],
            stream_tokens(part) == stream_tokens(*stream).subrange(from as int, at as int),
        decreases to - at,
    {
        append(&mut part, &items[at]);
        at += 1;
    }
    part
}

} // verus!
