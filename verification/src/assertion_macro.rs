//! An assertion with all that is needed to write its replacement, and the
//! replacement itself.

use crate::assertion::{Assertion, AssertionView, MatchGuard};
use crate::detail::BinOp;
use crate::invocation::{Attribute, MacroDelimiter, MacroInvocation};
use crate::path::CallableReference;
use crate::syntax::contents;
use crate::tokens::{
    append, empty_stream, push_group, push_ident, push_punct, stream_tokens, Delimiter, Token,
};
use proc_macro2::{Span, TokenStream};
use vstd::prelude::*;

verus! {

/// An invocation of an assertion macro, parsed.
#[derive(Debug)]
pub struct AssertionMacro {
    /// Where the invocation stands in the source.
    pub span: Span,
    /// The arguments behind the assertion itself: a format string and what
    /// it interpolates. There may be none.
    pub info_args: Vec<TokenStream>,
    /// The assertion that the invocation makes.
    pub assertion: Assertion,
    /// The attributes that were attached to the invocation.
    pub attrs: Vec<Attribute>,
}

/// An assertion macro by the contents of its token streams.
pub struct AssertionMacroView {
    pub span: Span,
    pub info_args: Seq<Seq<Token>>,
    pub assertion: AssertionView,
    pub attrs: Seq<Attribute>,
}

impl View for AssertionMacro {
    type V = AssertionMacroView;

    open spec fn view(&self) -> AssertionMacroView {
        AssertionMacroView {
            span: self.span,
            info_args: contents(self.info_args@),
            assertion: self.assertion@,
            attrs: self.attrs@,
        }
    }
}

/// A punctuation character that stands alone.
pub open spec fn punct(ch: char) -> Token {
    Token::Punct { ch, joint: false }
}

/// The token sequences `items` one after the other, with `separator`
/// between each two of them and none at either end.
pub open spec fn separated(items: Seq<Seq<Token>>, separator: Token) -> Seq<Token>
    decreases items.len(),
{
    if items.len() == 0 {
        Seq::empty()
    } else if items.len() == 1 {
        items[0]
    } else {
        separated(items.drop_last(), separator) + seq![separator] + items.last()
    }
}

/// The two tokens of a comparison operator, `==` or `!=`.
pub open spec fn operator_tokens(operator: BinOp) -> Seq<Token> {
    match operator {
        BinOp::Eq(_) => seq![Token::Punct { ch: '=', joint: true }, punct('=')],
        BinOp::Ne(_) => seq![Token::Punct { ch: '!', joint: true }, punct('=')],
    }
}

/// The tokens of a guard: nothing, or `if` and the expression.
pub open spec fn guard_tokens(guard: Option<Seq<Token>>) -> Seq<Token> {
    match guard {
        None => Seq::empty(),
        Some(expr) => seq![Token::Ident("if"@)] + expr,
    }
}

/// The tokens of `matches!(expr, pat | pat if guard)`.
pub open spec fn matches_tokens(expr: Seq<Token>, pat: Seq<Seq<Token>>, guard: Option<Seq<Token>>) -> Seq<
    Token,
> {
    seq![
        Token::Ident("matches"@),
        punct('!'),
        Token::Group {
            delimiter: Delimiter::Parenthesis,
            tokens: expr + seq![punct(',')] + separated(pat, punct('|')) + guard_tokens(guard),
        },
    ]
}

/// The tokens of the one expression that stands for an assertion: the two
/// operands of a binary assertion with the operator between them, the
/// `matches!` invocation of a pattern match, or the operand of any other
/// assertion as it is.
pub open spec fn assertion_tokens(assertion: AssertionView) -> Seq<Token> {
    match assertion {
        AssertionView::Binary { lhs, operator, rhs } => lhs + operator_tokens(operator) + rhs,
        AssertionView::Matches { expr, pat, guard } => matches_tokens(expr, pat, guard),
        AssertionView::General { expr } => expr,
    }
}

/// The arguments of the replacement: the assertion's expression, a comma,
/// and the remaining arguments in their order with a comma between each two.
pub open spec fn replacement_tokens(assertion: AssertionMacroView) -> Seq<Token> {
    assertion_tokens(assertion.assertion) + seq![punct(',')] + separated(
        assertion.info_args,
        punct(','),
    )
}

/// Puts the streams `items` behind the tokens of `stream`, with the
/// punctuation character `ch` between each two of them.
fn push_separated(stream: &mut TokenStream, items: &Vec<TokenStream>, ch: char, span: Span)
    requires
        crate::tokens::is_punctuation(ch),
    ensures
        stream_tokens(*final(stream)) == stream_tokens(*old(stream)) + separated(
            contents(items@),
            punct(ch),
        ),
{
    let ghost before = stream_tokens(*stream);
    let ghost all = contents(items@);
    let mut at: usize = 0;
    while at < items.len()
        invariant
            at <= items@.len(),
            all == contents(items@),
            crate::tokens::is_punctuation(ch),
            stream_tokens(*stream) == before + separated(all.take(at as int), punct(ch)),
        decreases items@.len() - at,
    {
        if at > 0 {
            push_punct(stream, ch, false, span);
        }
        append(stream, &items[at]);
        proof {
            let next = all.take(at + 1);
            assert(next.drop_last() =~= all.take(at as int));
            assert(next.last() == stream_tokens(items@[at as int]));
            assert(stream_tokens(*stream) =~= before + separated(next, punct(ch)));
        }
        at += 1;
    }
    assert(all.take(at as int) =~= all);
}

/// Puts the two tokens of `operator` behind the tokens of `stream`.
fn push_operator(stream: &mut TokenStream, operator: &BinOp)
    ensures
        stream_tokens(*final(stream)) == stream_tokens(*old(stream)) + operator_tokens(*operator),
{
    let ghost before = stream_tokens(*stream);
    match operator {
        BinOp::Eq(span) => {
            push_punct(stream, '=', true, *span);
            push_punct(stream, '=', false, *span);
        },
        BinOp::Ne(span) => {
            push_punct(stream, '!', true, *span);
            push_punct(stream, '=', false, *span);
        },
    }
    assert(stream_tokens(*stream) =~= before + operator_tokens(*operator));
}

/// Puts `matches!(expr, pat | pat if guard)` behind the tokens of `stream`.
fn push_matches(
    stream: &mut TokenStream,
    expr: &TokenStream,
    pat: &Vec<TokenStream>,
    guard: &MatchGuard,
    span: Span,
)
    ensures
        stream_tokens(*final(stream)) == stream_tokens(*old(stream)) + matches_tokens(
            stream_tokens(*expr),
            contents(pat@),
            guard@,
        ),
{
    let ghost before = stream_tokens(*stream);
    let mut inner = empty_stream();
    append(&mut inner, expr);
    push_punct(&mut inner, ',', false, span);
    push_separated(&mut inner, pat, '|', span);
    match guard {
        MatchGuard::Absent => {},
        MatchGuard::If(condition) => {
            proof {
                reveal_strlit("if");
            }
            push_ident(&mut inner, "if", span);
            append(&mut inner, condition);
        },
    }
    assert(stream_tokens(inner) =~= stream_tokens(*expr) + seq![punct(',')] + separated(
        contents(pat@),
        punct('|'),
    ) + guard_tokens(guard@));
    proof {
        reveal_strlit("matches");
    }
    push_ident(stream, "matches", span);
    push_punct(stream, '!', false, span);
    push_group(stream, Delimiter::Parenthesis, &inner, span);
    assert(stream_tokens(*stream) =~= before + matches_tokens(
        stream_tokens(*expr),
        contents(pat@),
        guard@,
    ));
}

/// An invocation `path!( tokens )` at the place `span`, with parentheses and
/// without attributes.
pub fn assert2_macro_with(assert2_macro_path: CallableReference, tokens: TokenStream, span: Span) -> (mac:
    MacroInvocation)
    ensures
        mac.path == assert2_macro_path,
        mac.delimiter == MacroDelimiter::Paren,
        mac.tokens == tokens,
        mac.attrs@.len() == 0,
        mac.span == span,
{
    MacroInvocation {
        path: assert2_macro_path,
        delimiter: MacroDelimiter::Paren,
        tokens,
        attrs: Vec::new(),
        span,
    }
}

impl AssertionMacro {
    /// An assertion macro made of its parts.
    pub fn new(assrt: Assertion, span: Span, info_args: Vec<TokenStream>, attrs: Vec<Attribute>) -> (parsed:
        AssertionMacro)
        ensures
            parsed.assertion == assrt,
            parsed.span == span,
            parsed.info_args == info_args,
            parsed.attrs == attrs,
    {
        AssertionMacro { assertion: assrt, span, info_args, attrs }
    }

    /// Writes the invocation that replaces the assertion: a call of the
    /// macro at `assert2_macro_path`, in parentheses, at the place of the
    /// assertion and with its attributes. Its arguments are the assertion's
    /// expression, a comma, and the remaining arguments in their order,
    /// separated by commas; every expression goes in as it was parsed.
    pub fn assert2ify_with(self, assert2_macro_path: CallableReference) -> (mac: MacroInvocation)
        ensures
            mac.path == assert2_macro_path,
            mac.delimiter == MacroDelimiter::Paren,
            mac.span == self.span,
            mac.attrs == self.attrs,
            stream_tokens(mac.tokens) == replacement_tokens(self@),
    {
        let span = self.span;
        let mut tokens = empty_stream();
        match &self.assertion {
            Assertion::AssertBinary { lhs, operator, rhs } => {
                append(&mut tokens, lhs);
                push_operator(&mut tokens, operator);
                append(&mut tokens, rhs);
            },
            Assertion::AssertMatches { expr, pat, guard } => {
                push_matches(&mut tokens, expr, pat, guard, span);
            },
            Assertion::AssertGeneral { expr } => {
                append(&mut tokens, expr);
            },
        }
        assert(stream_tokens(tokens) =~= assertion_tokens(self.assertion@));
        push_punct(&mut tokens, ',', false, span);
        push_separated(&mut tokens, &self.info_args, ',', span);
        assert(stream_tokens(tokens) =~= replacement_tokens(self@));
        let mut mac = assert2_macro_with(assert2_macro_path, tokens, span);
        mac.attrs = self.attrs;
        mac
    }
}

} // verus!
