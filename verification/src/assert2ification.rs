//! The rewriting itself: which macro replaces an assertion, and what is done
//! with each macro invocation that the walk over a function's body meets.

use crate::assertion_macro::replacement_tokens;
use crate::detail::{idents_from_assign_expression, is_plain_ident, plain_ident_of, Argument};
use crate::invocation::{MacroDelimiter, MacroInvocation};
use crate::macro_expression::{classified, MacroExpression, MacroExpressionView, ParseError};
use crate::path::CallableReference;
use crate::syntax::{is_single_expression, parses_as_expression};
use crate::tokens::stream_tokens;
use vstd::prelude::*;

verus! {

/// The name under which the crate with the replacement macros is known
/// unless the user says otherwise.
pub const DEFAULT_ASSERT2IFY_CRATE_NAME: &'static str = "assert2ify";

/// With what the assertions of a function are replaced.
#[derive(Debug, Clone, Copy, PartialEq, Eq, Structural)]
pub enum Style {
    /// Every assertion is replaced by an assertion that fails at once.
    ASSERTIFY,
    /// Every assertion is replaced by a check, which records a failure and
    /// lets the function go on to its end.
    CHECKIFY,
}

/// The name of the macro that replaces an assertion under each style.
pub open spec fn replacement_name(style: Style) -> Seq<char> {
    match style {
        Style::ASSERTIFY => "__assertify"@,
        Style::CHECKIFY => "__checkify"@,
    }
}

/// The rewriting of one function: the style of the replacement, the name
/// under which the crate with the replacement macros was imported, and the
/// first assertion that was refused, once there is one.
#[derive(Debug, Clone)]
pub struct Assert2Ification {
    configuration: Style,
    crate_name: String,
    refusal: Option<ParseError>,
}

/// What the walk over a function's body is to do with a macro invocation.
#[derive(Debug)]
pub enum FoldStep {
    /// The invocation was an assertion and this is its replacement. The
    /// walk does not go into it.
    Replaced(MacroInvocation),
    /// The invocation is of some other macro and its arguments are one
    /// expression. The walk goes on inside that expression and then puts the
    /// tokens of what it made of it back as the arguments.
    Descend(MacroInvocation),
    /// The invocation is of some other macro and its arguments are not one
    /// expression. The walk treats it as any other node, which leaves the
    /// arguments as they are.
    Keep(MacroInvocation),
    /// An assertion was refused, this one or one before it. The walk leaves
    /// the invocation as it is.
    Stop,
}

/// The refusal that a walk holds after it has met `mac`: the one it held
/// before, or else the error of `mac`, if it is a refused assertion.
pub open spec fn refusal_after(before: Option<ParseError>, mac: MacroInvocation) -> Option<ParseError> {
    if before is Some {
        before
    } else if classified(mac) is Err {
        Some(classified(mac)->Err_0)
    } else {
        None
    }
}

/// What is wrong with an argument of the attribute.
#[derive(Debug, Clone, Copy, PartialEq, Eq, Structural)]
pub enum ConfigurationErrorKind {
    /// `crate = ...` stands there a second time.
    CrateNameAlreadySpecified,
    /// An assignment to anything but `crate`.
    IllegalArgument,
    /// An assignment whose two sides are not both identifiers.
    IllegalAssignment,
    /// `check` stands there a second time.
    StyleAlreadySpecified,
    /// A path that is not `check`.
    UnknownFlag,
    /// An expression that is neither an assignment nor a path.
    InvalidArgument,
}

/// The refusal of the attribute's arguments: what is wrong, and with which
/// of them, counted from zero.
#[derive(Debug, Clone, Copy, PartialEq, Eq, Structural)]
pub struct ConfigurationError {
    /// What is wrong with the argument.
    pub kind: ConfigurationErrorKind,
    /// The index of the argument.
    pub argument: usize,
}

/// What is said to the user about each error.
pub open spec fn configuration_message(kind: ConfigurationErrorKind) -> Seq<char> {
    match kind {
        ConfigurationErrorKind::CrateNameAlreadySpecified => "Crate name was already specified"@,
        ConfigurationErrorKind::IllegalArgument => "Illegal argument. The only legal assignment is crate=..."@,
        ConfigurationErrorKind::IllegalAssignment => "Illegal assignment. The only legal assignment is crate=..."@,
        ConfigurationErrorKind::StyleAlreadySpecified => "Illegal argument. Assertification style was already specified"@,
        ConfigurationErrorKind::UnknownFlag => "Illegal argument. Did you mean `check`?"@,
        ConfigurationErrorKind::InvalidArgument => "Invalid argument"@,
    }
}

impl ConfigurationError {
    /// What is said to the user about the error.
    pub fn message(&self) -> (text: String)
        ensures
            text@ == configuration_message(self.kind),
    {
        let text = match self.kind {
            ConfigurationErrorKind::CrateNameAlreadySpecified => "Crate name was already specified",
            ConfigurationErrorKind::IllegalArgument => "Illegal argument. The only legal assignment is crate=...",
            ConfigurationErrorKind::IllegalAssignment => "Illegal assignment. The only legal assignment is crate=...",
            ConfigurationErrorKind::StyleAlreadySpecified => "Illegal argument. Assertification style was already specified",
            ConfigurationErrorKind::UnknownFlag => "Illegal argument. Did you mean `check`?",
            ConfigurationErrorKind::InvalidArgument => "Invalid argument",
        };
        text.to_owned()
    }
}

/// The options that the arguments read so far have set.
pub struct Options {
    /// The name given by `crate = name`, if that argument was read.
    pub crate_name: Option<Seq<char>>,
    /// The style set by `check`, if that argument was read.
    pub style: Option<Style>,
}

/// The options after one more argument, or what is wrong with it.
///
/// `crate = name`, with nothing but an identifier on either side, sets the
/// name of the crate, once. The identifier `check` sets the style, once.
/// Everything else is refused: a path of several segments, one that begins
/// with `::` or carries generic arguments, is no identifier.
pub open spec fn with_argument(options: Options, argument: Argument) -> Result<
    Options,
    ConfigurationErrorKind,
> {
    match argument {
        Argument::Assign(assignment) => match (
            plain_ident_of(*assignment.left),
            plain_ident_of(*assignment.right),
        ) {
            (Some(lhs), Some(rhs)) => if lhs != "crate"@ {
                Err(ConfigurationErrorKind::IllegalArgument)
            } else if options.crate_name is Some {
                Err(ConfigurationErrorKind::CrateNameAlreadySpecified)
            } else {
                Ok(Options { crate_name: Some(rhs), style: options.style })
            },
            _ => Err(ConfigurationErrorKind::IllegalAssignment),
        },
        Argument::Path(expr_path) => if !(expr_path.plain && !expr_path.path.rooted
            && expr_path.path.names() == seq!["check"@]) {
            Err(ConfigurationErrorKind::UnknownFlag)
        } else if options.style is Some {
            Err(ConfigurationErrorKind::StyleAlreadySpecified)
        } else {
            Ok(Options { crate_name: options.crate_name, style: Some(Style::CHECKIFY) })
        },
        Argument::Other => Err(ConfigurationErrorKind::InvalidArgument),
    }
}

/// The options after the first `count` arguments, or the error of the first
/// argument among them that is refused.
pub open spec fn configured(arguments: Seq<Argument>, count: int) -> Result<
    Options,
    ConfigurationError,
>
    decreases count,
{
    if count <= 0 {
        Ok(Options { crate_name: None, style: None })
    } else {
        match configured(arguments, count - 1) {
            Err(error) => Err(error),
            Ok(options) => match with_argument(options, arguments[count - 1]) {
                Ok(next) => Ok(next),
                Err(kind) => Err(ConfigurationError { kind, argument: (count - 1) as usize }),
            },
        }
    }
}

/// An argument that is refused stays refused, whatever follows it.
proof fn lemma_error_stays(arguments: Seq<Argument>, first: int, count: int)
    requires
        0 <= first <= count,
        configured(arguments, first) is Err,
    ensures
        configured(arguments, count) == configured(arguments, first),
    decreases count - first,
{
    if first < count {
        lemma_error_stays(arguments, first, count - 1);
    }
}

impl Assert2Ification {
    /// The style of the replacement.
    pub closed spec fn style(&self) -> Style {
        self.configuration
    }

    /// The name of the crate with the replacement macros.
    pub closed spec fn crate_alias(&self) -> Seq<char> {
        self.crate_name@
    }

    /// The first assertion that was refused, if any was.
    pub closed spec fn refusal(&self) -> Option<ParseError> {
        self.refusal
    }

    /// The path of the replacement macro, segment by segment.
    pub open spec fn replacement_path(&self) -> Seq<Seq<char>> {
        seq![self.crate_alias(), replacement_name(self.style())]
    }

    /// Whether `step` is what the walk does with the invocation `mac`.
    ///
    /// An assertion whose arguments are refused gives that error. The
    /// invocation of any macro but an assertion comes back as it is, to be
    /// entered where its arguments are one expression and to be kept where
    /// they are not. A parsed assertion gives its replacement: an invocation
    /// of the replacement macro in parentheses, at the place of the
    /// assertion and with its attributes, whose arguments are those that
    /// `replacement_tokens` writes.
    pub open spec fn folds_to(&self, mac: MacroInvocation, step: Result<FoldStep, ParseError>) -> bool {
        match classified(mac) {
            Err(error) => step == Err::<FoldStep, ParseError>(error),
            Ok(MacroExpressionView::Other(_)) => step == Ok::<FoldStep, ParseError>(
                if is_single_expression(stream_tokens(mac.tokens)) {
                    FoldStep::Descend(mac)
                } else {
                    FoldStep::Keep(mac)
                },
            ),
            Ok(MacroExpressionView::Assertion(ass)) => step matches Ok(
                FoldStep::Replaced(replacement),
            ) && replacement.path.rooted && replacement.path.names() == self.replacement_path()
                && replacement.delimiter == MacroDelimiter::Paren && replacement.span == mac.span
                && replacement.attrs@ == mac.attrs@ && stream_tokens(replacement.tokens)
                == replacement_tokens(ass),
        }
    }

    /// A rewriting in the style `configuration`. `crate_name` is the name
    /// under which the user imported the crate with the replacement macros;
    /// without one the crate's own name is taken.
    pub fn new(configuration: Style, crate_name: Option<String>) -> (rewriting: Assert2Ification)
        ensures
            rewriting.style() == configuration,
            rewriting.refusal() is None,
            rewriting.crate_alias() == match crate_name {
                Some(name) => name@,
                None => DEFAULT_ASSERT2IFY_CRATE_NAME@,
            },
    {
        let crate_name = match crate_name {
            Some(name) => name,
            None => DEFAULT_ASSERT2IFY_CRATE_NAME.to_owned(),
        };
        Assert2Ification { configuration, crate_name, refusal: None }
    }

    /// The style of the replacement.
    pub fn configuration(&self) -> (style: Style)
        ensures
            style == self.style(),
    {
        self.configuration
    }

    /// The first assertion that was refused, if any was.
    pub fn error(&self) -> (refusal: Option<ParseError>)
        ensures
            refusal == self.refusal(),
    {
        self.refusal
    }

    /// The name of the crate with the replacement macros.
    pub fn crate_name(&self) -> (name: &String)
        ensures
            name@ == self.crate_alias(),
    {
        &self.crate_name
    }

    /// Reads the arguments of the attribute, which come as the expressions
    /// of a comma-separated list.
    ///
    /// There are two options: `check`, which asks for checks in place of
    /// assertions, and `crate = name`, which gives the name under which the
    /// crate with the replacement macros was imported. Either may stand
    /// there once, in any order. Without `check` the style is that of
    /// assertions, and without `crate = name` the crate has its own name.
    /// The first argument that is anything else, or an option for the second
    /// time, is reported with its index.
    pub fn parse(arguments: &Vec<Argument>) -> (parsed: Result<Assert2Ification, ConfigurationError>)
        ensures
            configured(arguments@, arguments@.len() as int) is Err ==> parsed == Err::<
                Assert2Ification,
                ConfigurationError,
            >(configured(arguments@, arguments@.len() as int)->Err_0),
            configured(arguments@, arguments@.len() as int) matches Ok(options) ==> parsed is Ok
                && parsed->Ok_0.refusal() is None && parsed->Ok_0.style() == (match options.style {
                Some(style) => style,
                None => Style::ASSERTIFY,
            }) && parsed->Ok_0.crate_alias() == (match options.crate_name {
                Some(name) => name,
                None => DEFAULT_ASSERT2IFY_CRATE_NAME@,
            }),
    {
        let mut crate_name: Option<String> = None;
        let mut style: Option<Style> = None;
        let mut at: usize = 0;
        while at < arguments.len()
            invariant
                at <= arguments@.len(),
                configured(arguments@, at as int) matches Ok(options) && options.style == style
                    && options.crate_name is Some == crate_name is Some && (crate_name is Some
                    ==> options.crate_name == Some(crate_name->Some_0@)),
            decreases arguments@.len() - at,
        {
            proof {
                if with_argument(configured(arguments@, at as int)->Ok_0, arguments@[at as int])
                    is Err {
                    lemma_error_stays(arguments@, at + 1, arguments@.len() as int);
                }
            }
            match &arguments[at] {
                Argument::Assign(expr_assign) => {
                    let plain = is_plain_ident(&*expr_assign.left) && is_plain_ident(
                        &*expr_assign.right,
                    );
                    let idents = if plain {
                        idents_from_assign_expression(expr_assign)
                    } else {
                        None
                    };
                    if let Some((lhs, rhs)) = idents {
                        if *lhs.as_str() == *"crate" {
                            if crate_name.is_none() {
                                crate_name = Some(rhs);
                            } else {
                                return Err(
                                    ConfigurationError {
                                        kind: ConfigurationErrorKind::CrateNameAlreadySpecified,
                                        argument: at,
                                    },
                                );
                            }
                        } else {
                            return Err(
                                ConfigurationError {
                                    kind: ConfigurationErrorKind::IllegalArgument,
                                    argument: at,
                                },
                            );
                        }
                    } else {
                        return Err(
                            ConfigurationError {
                                kind: ConfigurationErrorKind::IllegalAssignment,
                                argument: at,
                            },
                        );
                    }
                },
                Argument::Path(expr_path) => {
                    if expr_path.plain && expr_path.path.is_ident("check") {
                        if style.is_none() {
                            style = Some(Style::CHECKIFY);
                        } else {
                            return Err(
                                ConfigurationError {
                                    kind: ConfigurationErrorKind::StyleAlreadySpecified,
                                    argument: at,
                                },
                            );
                        }
                    } else {
                        return Err(
                            ConfigurationError {
                                kind: ConfigurationErrorKind::UnknownFlag,
                                argument: at,
                            },
                        );
                    }
                },
                Argument::Other => {
                    return Err(
                        ConfigurationError {
                            kind: ConfigurationErrorKind::InvalidArgument,
                            argument: at,
                        },
                    );
                },
            }
            at += 1;
        }
        let style = match style {
            Some(style) => style,
            None => Style::ASSERTIFY,
        };
        Ok(Assert2Ification::new(style, crate_name))
    }

    /// The path of the macro that replaces an assertion: `__assertify` or
    /// `__checkify`, after the style, in the crate with the replacement
    /// macros, written from the root as `::crate_name::__assertify`.
    pub fn assert2_macro_path(&self) -> (path: CallableReference)
        ensures
            path.rooted,
            path.names() == self.replacement_path(),
    {
        let replacement_assertion = match self.configuration {
            Style::ASSERTIFY => "__assertify",
            Style::CHECKIFY => "__checkify",
        };
        let mut segments: Vec<String> = Vec::new();
        segments.push(self.crate_name.clone());
        segments.push(replacement_assertion.to_owned());
        let path = CallableReference { segments, rooted: true };
        path
    }

    /// Decides what the walk over a function's body does with the macro
    /// invocation `mac`.
    ///
    /// An assertion is replaced by the invocation of the replacement macro,
    /// and the walk does not go into its operands: an assertion inside the
    /// operand of another stays as it was written. The invocation of any
    /// other macro is kept. The walk goes on inside its arguments where they
    /// are one expression, and leaves them alone where they are not. An
    /// assertion whose arguments are refused is an error.
    pub fn fold_step(&self, mac: MacroInvocation) -> (step: Result<FoldStep, ParseError>)
        ensures
            self.folds_to(mac, step),
    {
        match MacroExpression::try_from(mac) {
            Err(error) => Err(error),
            Ok(MacroExpression::Assertion(assertion)) => Ok(
                FoldStep::Replaced(assertion.assert2ify_with(self.assert2_macro_path())),
            ),
            Ok(MacroExpression::Other(other_macro)) => {
                if parses_as_expression(&other_macro.tokens) {
                    Ok(FoldStep::Descend(other_macro))
                } else {
                    Ok(FoldStep::Keep(other_macro))
                }
            },
        }
    }

    /// Tells the walk over a function's body what to do with the macro
    /// invocation `mac`, which it meets next.
    ///
    /// Until an assertion is refused each invocation gets the step that
    /// `fold_step` decides on. The first assertion that is refused ends the
    /// rewriting of the function: its error is kept, and the walk is told to
    /// stop at it and at every invocation it meets afterwards, whatever
    /// that invocation is.
    pub fn fold_macro(&mut self, mac: MacroInvocation) -> (step: FoldStep)
        ensures
            final(self).style() == old(self).style(),
            final(self).crate_alias() == old(self).crate_alias(),
            final(self).refusal() == refusal_after(old(self).refusal(), mac),
            final(self).refusal() is Some <==> step is Stop,
            final(self).refusal() is None ==> old(self).folds_to(mac, Ok::<FoldStep, ParseError>(step)),
    {
        if self.refusal.is_some() {
            return FoldStep::Stop;
        }
        match self.fold_step(mac) {
            Ok(step) => step,
            Err(error) => {
                self.refusal = Some(error);
                FoldStep::Stop
            },
        }
    }
}

} // verus!
