//! Telling the assertions among the macro invocations and taking their
//! arguments apart.

use crate::assertion::{Assertion, AssertionView};
use crate::assertion_macro::{AssertionMacro, AssertionMacroView};
use crate::detail::{
    infer_macro_kind_from_path, kind_of_path, BinOp, MacroKind, StandardLibraryAssertion,
};
use crate::invocation::{Attribute, MacroInvocation};
use crate::match_arguments::{
    matches_body, matches_invocation, parsed_matches_arguments, StdMatchesArgs,
};
use crate::syntax::{contents, expression_list, parse_expressions};
use crate::tokens::{stream_tokens, Token};
use proc_macro2::{Span, TokenStream};
use vstd::prelude::*;

verus! {

/// Why the arguments of an assertion macro were refused.
#[derive(Debug, Clone, Copy)]
pub enum ParseErrorKind {
    /// The arguments are no list of expressions separated by commas.
    Malformed,
    /// There are fewer expressions than the assertion needs: `found` of
    /// them, where `expected` or more are needed.
    TooFewArguments { expected: usize, found: usize },
}

/// The refusal of an assertion macro's arguments, with the place of the
/// invocation.
#[derive(Debug, Clone, Copy)]
pub struct ParseError {
    /// What is wrong with the arguments.
    pub kind: ParseErrorKind,
    /// Where the invocation stands in the source.
    pub span: Span,
}

/// What is said to the user about an error.
pub open spec fn message_of(kind: ParseErrorKind) -> Seq<char> {
    match kind {
        ParseErrorKind::Malformed => "Arguments must be expressions separated by commas"@,
        ParseErrorKind::TooFewArguments { expected, found } => if expected == 1 {
            "Too few arguments: expected 1 or more, got 0"@
        } else if found == 0 {
            "Too few arguments: expected 2 or more, got 0"@
        } else {
            "Too few arguments: expected 2 or more, got 1"@
        },
    }
}

impl ParseError {
    /// What is said to the user about the error.
    pub fn message(&self) -> (text: String)
        ensures
            text@ == message_of(self.kind),
    {
        let text = match self.kind {
            ParseErrorKind::Malformed => "Arguments must be expressions separated by commas",
            ParseErrorKind::TooFewArguments { expected, found } => if expected == 1 {
                "Too few arguments: expected 1 or more, got 0"
            } else if found == 0 {
                "Too few arguments: expected 2 or more, got 0"
            } else {
                "Too few arguments: expected 2 or more, got 1"
            },
        };
        text.to_owned()
    }
}

/// A macro invocation after a look at its path and, for an assertion, at its
/// arguments.
#[derive(Debug)]
pub enum MacroExpression {
    /// An assertion, parsed.
    Assertion(AssertionMacro),
    /// Any other macro, as it came.
    Other(MacroInvocation),
}

/// A classified macro invocation, the assertion by the contents of its
/// token streams.
pub enum MacroExpressionView {
    Assertion(AssertionMacroView),
    Other(MacroInvocation),
}

impl View for MacroExpression {
    type V = MacroExpressionView;

    open spec fn view(&self) -> MacroExpressionView {
        match self {
            MacroExpression::Assertion(ass) => MacroExpressionView::Assertion(ass@),
            MacroExpression::Other(other) => MacroExpressionView::Other(*other),
        }
    }
}

/// The assertion that `assert!` makes on `operand`: a pattern match when the
/// operand is an invocation of `matches!` whose arguments can be read, and
/// an assertion on the operand as it is in every other case.
pub open spec fn unary_assertion(operand: Seq<Token>) -> AssertionView {
    match matches_invocation(operand) {
        Some(body) => match parsed_matches_arguments(body) {
            Some(arguments) => AssertionView::Matches {
                expr: arguments.expression,
                pat: arguments.pattern,
                guard: arguments.guard,
            },
            None => AssertionView::General { expr: operand },
        },
        None => AssertionView::General { expr: operand },
    }
}

/// The assertion that a macro of the kind `kind` makes on `arguments`, of
/// which there are as many as the kind needs.
pub open spec fn assertion_on(kind: StandardLibraryAssertion, arguments: Seq<Seq<Token>>, span: Span) -> AssertionView {
    match kind {
        StandardLibraryAssertion::AssertEq => AssertionView::Binary {
            lhs: arguments[0],
            operator: BinOp::Eq(span),
            rhs: arguments[1],
        },
        StandardLibraryAssertion::AssertNe => AssertionView::Binary {
            lhs: arguments[0],
            operator: BinOp::Ne(span),
            rhs: arguments[1],
        },
        StandardLibraryAssertion::Assert => unary_assertion(arguments[0]),
    }
}

/// What becomes of an assertion macro of the kind `kind` at `span` with the
/// expressions `arguments`: an error when they are too few, and else the
/// assertion on the first one or two of them, with the others kept in their
/// order.
pub open spec fn parsed_assertion(
    kind: StandardLibraryAssertion,
    arguments: Seq<Seq<Token>>,
    span: Span,
    attrs: Seq<Attribute>,
) -> Result<AssertionMacroView, ParseError> {
    let needed = MacroKind::Assertion(kind).required_arguments();
    if arguments.len() < needed {
        Err(
            ParseError {
                kind: ParseErrorKind::TooFewArguments {
                    expected: needed as usize,
                    found: arguments.len() as usize,
                },
                span,
            },
        )
    } else {
        Ok(
            AssertionMacroView {
                span,
                info_args: arguments.skip(needed as int),
                assertion: assertion_on(kind, arguments, span),
                attrs,
            },
        )
    }
}

/// What becomes of the arguments `tokens` of an assertion macro of the kind
/// `kind`: an error when they are no list of expressions separated by
/// commas or hold too few of them, and else the assertion that they make.
pub open spec fn parsed_macro(
    kind: StandardLibraryAssertion,
    tokens: Seq<Token>,
    span: Span,
    attrs: Seq<Attribute>,
) -> Result<AssertionMacroView, ParseError> {
    match expression_list(tokens) {
        None => Err(ParseError { kind: ParseErrorKind::Malformed, span }),
        Some(arguments) => parsed_assertion(kind, arguments, span, attrs),
    }
}

/// What becomes of a macro invocation: any macro but the three assertions
/// stays as it is, whatever its arguments are; an assertion whose arguments
/// are refused is an error; any other assertion is parsed.
pub open spec fn classified(mac: MacroInvocation) -> Result<MacroExpressionView, ParseError> {
    match kind_of_path(mac.path.names()) {
        MacroKind::Other => Ok(MacroExpressionView::Other(mac)),
        MacroKind::Assertion(kind) => match parsed_macro(
            kind,
            stream_tokens(mac.tokens),
            mac.span,
            mac.attrs@,
        ) {
            Ok(ass) => Ok(MacroExpressionView::Assertion(ass)),
            Err(error) => Err(error),
        },
    }
}

/// The assertion that `assert!` makes on `operand`.
fn unary(operand: TokenStream) -> (assertion: Assertion)
    ensures
        assertion@ == unary_assertion(stream_tokens(operand)),
        assertion is AssertGeneral ==> assertion == (Assertion::AssertGeneral { expr: operand }),
{
    if let Some(body) = matches_body(&operand) {
        if let Some(arguments) = StdMatchesArgs::parse(&body) {
            return Assertion::new_assert_matches(
                arguments.expression,
                arguments.pattern,
                arguments.guard,
            );
        }
    }
    Assertion::new_assert(operand)
}

impl AssertionMacro {
    /// Makes the assertion of the kind `kind` out of the expressions that
    /// its invocation holds. A binary assertion takes the first two for its
    /// operands and `assert!` the first one; the others are kept in their
    /// order, each stream as it came. With fewer expressions than the kind
    /// needs there is no assertion.
    pub fn from_arguments(
        kind: StandardLibraryAssertion,
        arguments: Vec<TokenStream>,
        span: Span,
        attrs: Vec<Attribute>,
    ) -> (parsed: Result<AssertionMacro, ParseError>)
        ensures
            parsed_assertion(kind, contents(arguments@), span, attrs@) is Err ==> parsed == Err::<
                AssertionMacro,
                ParseError,
            >(parsed_assertion(kind, contents(arguments@), span, attrs@)->Err_0),
            parsed_assertion(kind, contents(arguments@), span, attrs@) is Ok ==> parsed is Ok
                && parsed->Ok_0@ == parsed_assertion(kind, contents(arguments@), span, attrs@)->Ok_0,
            parsed is Ok ==> parsed->Ok_0.attrs == attrs && parsed->Ok_0.info_args@
                == arguments@.skip(MacroKind::Assertion(kind).required_arguments() as int),
            parsed is Ok && kind != StandardLibraryAssertion::Assert ==> parsed->Ok_0.assertion == (
            Assertion::AssertBinary {
                lhs: arguments@[0],
                operator: if kind == StandardLibraryAssertion::AssertEq {
                    BinOp::Eq(span)
                } else {
                    BinOp::Ne(span)
                },
                rhs: arguments@[1],
            }),
            parsed is Ok && parsed->Ok_0.assertion is AssertGeneral ==> parsed->Ok_0.assertion == (
            Assertion::AssertGeneral { expr: arguments@[0] }),
    {
        let ghost all = contents(arguments@);
        let mut rest = arguments;
        let macro_kind = MacroKind::from(kind);
        let found = rest.len();
        if let Some(operator) = macro_kind.binary_operator(span) {
            if found < 2 {
                return Err(
                    ParseError {
                        kind: ParseErrorKind::TooFewArguments { expected: 2, found },
                        span,
                    },
                );
            }
            let lhs = rest.remove(0);
            let rhs = rest.remove(0);
            let parsed = AssertionMacro::new(
                Assertion::new_binary(lhs, operator, rhs),
                span,
                rest,
                attrs,
            );
            assert(parsed@.info_args =~= all.skip(2));
            Ok(parsed)
        } else {
            if found < 1 {
                return Err(
                    ParseError {
                        kind: ParseErrorKind::TooFewArguments { expected: 1, found },
                        span,
                    },
                );
            }
            let expr = rest.remove(0);
            let parsed = AssertionMacro::new(unary(expr), span, rest, attrs);
            assert(parsed@.info_args =~= all.skip(1));
            Ok(parsed)
        }
    }

    /// Parses the arguments `tokens` of an assertion macro of the kind
    /// `kind`, which stands at `span` and carries the attributes `attrs`.
    ///
    /// The arguments are read as expressions separated by commas, with or
    /// without a comma at the end. That they are no such list is an error,
    /// and so is a list with fewer expressions than the kind needs: two for
    /// a binary assertion, one for `assert!`.
    pub fn parse(
        kind: StandardLibraryAssertion,
        tokens: &TokenStream,
        span: Span,
        attrs: Vec<Attribute>,
    ) -> (parsed: Result<AssertionMacro, ParseError>)
        ensures
            parsed_macro(kind, stream_tokens(*tokens), span, attrs@) is Err ==> parsed == Err::<
                AssertionMacro,
                ParseError,
            >(parsed_macro(kind, stream_tokens(*tokens), span, attrs@)->Err_0),
            parsed_macro(kind, stream_tokens(*tokens), span, attrs@) is Ok ==> parsed is Ok
                && parsed->Ok_0@ == parsed_macro(kind, stream_tokens(*tokens), span, attrs@)->Ok_0,
            parsed is Ok ==> parsed->Ok_0.attrs == attrs,
    {
        match parse_expressions(tokens) {
            Err(_) => Err(ParseError { kind: ParseErrorKind::Malformed, span }),
            Ok(arguments) => AssertionMacro::from_arguments(kind, arguments, span, attrs),
        }
    }
}

impl MacroExpression {
    /// A classified invocation that holds an assertion.
    pub fn new_assertion(ass: AssertionMacro) -> (expression: MacroExpression)
        ensures
            expression == MacroExpression::Assertion(ass),
    {
        MacroExpression::Assertion(ass)
    }

    /// A classified invocation that holds any other macro.
    pub fn new_other(other: MacroInvocation) -> (expression: MacroExpression)
        ensures
            expression == MacroExpression::Other(other),
    {
        MacroExpression::Other(other)
    }

    /// Where the invocation stands in the source.
    pub fn span(&self) -> (span: Span)
        ensures
            span == match self {
                MacroExpression::Assertion(ass) => ass.span,
                MacroExpression::Other(mac) => mac.span,
            },
    {
        match self {
            MacroExpression::Assertion(ass) => ass.span,
            MacroExpression::Other(mac) => mac.span,
        }
    }

    /// Classifies a macro invocation.
    ///
    /// The path decides first: the invocation of any macro but `assert!`,
    /// `assert_eq!` and `assert_ne!` comes back as it is, and its arguments
    /// are not even read. Only the arguments of an assertion are parsed, as
    /// a list of expressions separated by commas. That they are no such
    /// list, or hold too few expressions, is an error; else the assertion
    /// comes back parsed, at the place of the invocation and with its
    /// attributes.
    pub fn try_from(mac: MacroInvocation) -> (classification: Result<MacroExpression, ParseError>)
        ensures
            classified(mac) is Err ==> classification == Err::<MacroExpression, ParseError>(
                classified(mac)->Err_0,
            ),
            classified(mac) is Ok ==> classification is Ok && classification->Ok_0@ == classified(
                mac,
            )->Ok_0,
            kind_of_path(mac.path.names()) is Other ==> classification == Ok::<
                MacroExpression,
                ParseError,
            >(MacroExpression::Other(mac)),
    {
        let macro_kind = infer_macro_kind_from_path(&mac.path);
        match macro_kind {
            MacroKind::Other => Ok(MacroExpression::new_other(mac)),
            MacroKind::Assertion(kind) => {
                match AssertionMacro::parse(kind, &mac.tokens, mac.span, mac.attrs) {
                    Ok(ass) => Ok(MacroExpression::new_assertion(ass)),
                    Err(error) => Err(error),
                }
            },
        }
    }
}

} // verus!
