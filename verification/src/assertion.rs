//! The assertions that are rewritten, taken apart into their operands.

use crate::detail::BinOp;
use crate::syntax::contents;
use crate::tokens::{stream_tokens, Token};
use proc_macro2::TokenStream;
use vstd::prelude::*;

verus! {

/// The guard of a `matches!` invocation, `if` and an expression behind the
/// pattern, or the absence of one.
#[derive(Debug)]
pub enum MatchGuard {
    /// There is no guard.
    Absent,
    /// A guard `if expr`, by the tokens of the expression.
    If(TokenStream),
}

impl View for MatchGuard {
    type V = Option<Seq<Token>>;

    open spec fn view(&self) -> Option<Seq<Token>> {
        match self {
            MatchGuard::Absent => None,
            MatchGuard::If(expr) => Some(stream_tokens(*expr)),
        }
    }
}

/// The assertion that an invocation of `assert_eq!`, `assert_ne!` or
/// `assert!` makes. Every expression and pattern is held by its tokens.
#[derive(Debug)]
pub enum Assertion {
    /// `assert_eq!` or `assert_ne!`: two operands and the operator that
    /// compares them.
    AssertBinary { lhs: TokenStream, operator: BinOp, rhs: TokenStream },
    /// `assert!(matches!(expr, pat | pat if guard))`: the expression that is
    /// matched, the patterns it is matched against, and the guard.
    AssertMatches { expr: TokenStream, pat: Vec<TokenStream>, guard: MatchGuard },
    /// Any other `assert!`: one expression, which may well be a comparison
    /// itself, as in `assert!(a == b)`.
    AssertGeneral { expr: TokenStream },
}

/// An assertion by the contents of its token streams.
pub enum AssertionView {
    Binary { lhs: Seq<Token>, operator: BinOp, rhs: Seq<Token> },
    Matches { expr: Seq<Token>, pat: Seq<Seq<Token>>, guard: Option<Seq<Token>> },
    General { expr: Seq<Token> },
}

impl View for Assertion {
    type V = AssertionView;

    open spec fn view(&self) -> AssertionView {
        match self {
            Assertion::AssertBinary { lhs, operator, rhs } => AssertionView::Binary {
                lhs: stream_tokens(*lhs),
                operator: *operator,
                rhs: stream_tokens(*rhs),
            },
            Assertion::AssertMatches { expr, pat, guard } => AssertionView::Matches {
                expr: stream_tokens(*expr),
                pat: contents(pat@),
                guard: guard@,
            },
            Assertion::AssertGeneral { expr } => AssertionView::General {
                expr: stream_tokens(*expr),
            },
        }
    }
}

impl Assertion {
    /// A binary assertion `lhs operator rhs`.
    pub fn new_binary(lhs: TokenStream, operator: BinOp, rhs: TokenStream) -> (assertion: Assertion)
        ensures
            assertion == (Assertion::AssertBinary { lhs, operator, rhs }),
    {
        Assertion::AssertBinary { lhs, operator, rhs }
    }

    /// An assertion that `expr` matches one of the patterns `pat` and meets
    /// `guard`.
    pub fn new_assert_matches(expr: TokenStream, pat: Vec<TokenStream>, guard: MatchGuard) -> (assertion:
        Assertion)
        ensures
            assertion == (Assertion::AssertMatches { expr, pat, guard }),
    {
        Assertion::AssertMatches { expr, pat, guard }
    }

    /// An assertion on the one expression `expr`.
    pub fn new_assert(expr: TokenStream) -> (assertion: Assertion)
        ensures
            assertion == (Assertion::AssertGeneral { expr }),
    {
        Assertion::AssertGeneral { expr }
    }
}

} // verus!
