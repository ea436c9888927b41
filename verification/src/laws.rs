//! What holds of the rewriting as a whole, proved from the contracts of its
//! parts.

use crate::assert2ification::{
    configured, refusal_after, with_argument, Assert2Ification, FoldStep, Style,
};
use crate::assertion::AssertionView;
use crate::assertion_macro::{
    assertion_tokens, operator_tokens, punct, replacement_tokens, separated,
};
use crate::detail::{
    kind_of_path, names_std_macro, plain_ident_of, Argument, MacroKind, StandardLibraryAssertion,
};
use crate::invocation::{Attribute, MacroDelimiter, MacroInvocation};
use crate::macro_expression::{classified, parsed_assertion, MacroExpressionView, ParseError};
use crate::syntax::{expression_list, is_single_expression};
use crate::tokens::{stream_tokens, Token};
use proc_macro2::Span;
use vstd::prelude::*;

verus! {

/// A path names an assertion only if it has one segment, or two of which
/// the first is `std`: every other path names some other macro, whatever
/// its segments are.
pub proof fn lemma_other_paths_name_no_assertion(names: Seq<Seq<char>>)
    requires
        names.len() != 1,
        names.len() != 2 || names[0] != "std"@,
    ensures
        kind_of_path(names) == MacroKind::Other,
{
}

/// A path that is taken for a macro of the standard library names an
/// assertion exactly when its last segment is `assert`, `assert_eq` or
/// `assert_ne`, letter for letter.
pub proof fn lemma_assertions_by_name(names: Seq<Seq<char>>)
    requires
        names_std_macro(names),
    ensures
        kind_of_path(names) == MacroKind::Assertion(StandardLibraryAssertion::Assert)
            <==> names.last() == "assert"@,
        kind_of_path(names) == MacroKind::Assertion(StandardLibraryAssertion::AssertEq)
            <==> names.last() == "assert_eq"@,
        kind_of_path(names) == MacroKind::Assertion(StandardLibraryAssertion::AssertNe)
            <==> names.last() == "assert_ne"@,
{
    reveal_strlit("assert");
    reveal_strlit("assert_eq");
    reveal_strlit("assert_ne");
    assert("assert"@.len() != "assert_ne"@.len());
    assert("assert_eq"@[8] != "assert_ne"@[8]);
}

/// The invocation of a macro that is no assertion passes through the
/// rewriting: it is never an error and never replaced, and it comes back
/// whole, with its path, its delimiter, its attributes, its place and its
/// arguments, whatever those arguments are. It is entered exactly when its
/// arguments are one expression.
pub proof fn lemma_other_macros_pass_through(
    rewriting: Assert2Ification,
    mac: MacroInvocation,
    step: Result<FoldStep, ParseError>,
)
    requires
        kind_of_path(mac.path.names()) == MacroKind::Other,
        rewriting.folds_to(mac, step),
    ensures
        classified(mac) == Ok::<MacroExpressionView, ParseError>(MacroExpressionView::Other(mac)),
        is_single_expression(stream_tokens(mac.tokens)) ==> step == Ok::<FoldStep, ParseError>(
            FoldStep::Descend(mac),
        ),
        !is_single_expression(stream_tokens(mac.tokens)) ==> step == Ok::<FoldStep, ParseError>(
            FoldStep::Keep(mac),
        ),
{
}

/// The walk never goes into an assertion: what it does with one is to
/// replace it or to report it, so an assertion inside the operand of
/// another is not rewritten. It is reported exactly when its arguments are
/// no list of expressions or are too few.
pub proof fn lemma_assertions_are_not_entered(
    rewriting: Assert2Ification,
    mac: MacroInvocation,
    step: Result<FoldStep, ParseError>,
)
    requires
        kind_of_path(mac.path.names()) is Assertion,
        rewriting.folds_to(mac, step),
    ensures
        step is Err || step->Ok_0 is Replaced,
        step is Err <==> expression_list(stream_tokens(mac.tokens)) is None
            || expression_list(stream_tokens(mac.tokens))->Some_0.len() < kind_of_path(
            mac.path.names(),
        ).required_arguments(),
        step matches Err(error) ==> error.span == mac.span,
        step matches Err(error) ==> (error.kind is Malformed <==> expression_list(
            stream_tokens(mac.tokens),
        ) is None),
{
}

/// The operands of an assertion stand in its replacement as they were
/// parsed. A binary assertion `assert_eq!(l, r, ..)` or `assert_ne!(l, r,
/// ..)` is replaced by the arguments `l == r, ..` or `l != r, ..`, and an
/// `assert!(e, ..)` whose operand is no pattern match by `e, ..`.
pub proof fn lemma_operands_stand_unchanged(
    kind: StandardLibraryAssertion,
    arguments: Seq<Seq<Token>>,
    span: Span,
    attrs: Seq<Attribute>,
)
    requires
        parsed_assertion(kind, arguments, span, attrs) is Ok,
    ensures
        ({
            let parsed = parsed_assertion(kind, arguments, span, attrs)->Ok_0;
            let written = replacement_tokens(parsed);
            &&& parsed.assertion matches AssertionView::Binary { lhs, operator, rhs } ==> {
                let left = lhs.len() as int;
                let right = rhs.len() as int;
                &&& lhs == arguments[0]
                &&& rhs == arguments[1]
                &&& written.subrange(0, left) == lhs
                &&& written.subrange(left, left + 2) == operator_tokens(operator)
                &&& written.subrange(left + 2, left + 2 + right) == rhs
                &&& written[left + 2 + right] == punct(',')
            }
            &&& parsed.assertion matches AssertionView::General { expr } ==> {
                &&& expr == arguments[0]
                &&& written.subrange(0, expr.len() as int) == expr
                &&& written[expr.len() as int] == punct(',')
            }
        }),
{
    let parsed = parsed_assertion(kind, arguments, span, attrs)->Ok_0;
    let written = replacement_tokens(parsed);
    match parsed.assertion {
        AssertionView::Binary { lhs, operator, rhs } => {
            let left = lhs.len() as int;
            let right = rhs.len() as int;
            assert(operator_tokens(operator).len() == 2);
            assert(written.subrange(0, left) =~= lhs);
            assert(written.subrange(left, left + 2) =~= operator_tokens(operator));
            assert(written.subrange(left + 2, left + 2 + right) =~= rhs);
        },
        AssertionView::General { expr } => {
            assert(written.subrange(0, expr.len() as int) =~= expr);
        },
        AssertionView::Matches { .. } => {},
    }
}

/// Where the item `index` begins in `separated(items, ..)`: behind the
/// items in front of it and one separator for each of them.
pub open spec fn item_start(items: Seq<Seq<Token>>, index: int) -> int
    decreases index,
{
    if index <= 0 {
        0
    } else {
        item_start(items, index - 1) + items[index - 1].len() + 1
    }
}

/// An item begins at or behind the start, and behind a separator unless it
/// is the first.
pub proof fn lemma_item_start_is_behind(items: Seq<Seq<Token>>, index: int)
    ensures
        0 <= item_start(items, index),
        index > 0 ==> 1 <= item_start(items, index),
    decreases index,
{
    if index > 0 {
        lemma_item_start_is_behind(items, index - 1);
    }
}

/// Where an item begins depends only on the items in front of it.
pub proof fn lemma_item_start_of_prefix(items: Seq<Seq<Token>>, count: int, index: int)
    requires
        0 <= index <= count <= items.len(),
    ensures
        item_start(items.take(count), index) == item_start(items, index),
    decreases index,
{
    if index > 0 {
        lemma_item_start_of_prefix(items, count, index - 1);
        assert(items.take(count)[index - 1] == items[index - 1]);
    }
}

/// The length of a separated list: that of its items and one separator
/// between each two.
pub proof fn lemma_separated_len(items: Seq<Seq<Token>>, separator: Token)
    ensures
        items.len() == 0 ==> separated(items, separator).len() == 0,
        items.len() > 0 ==> separated(items, separator).len() + 1 == item_start(
            items,
            items.len() as int,
        ),
    decreases items.len(),
{
    let count = items.len() as int;
    if count == 1 {
        assert(item_start(items, 0) == 0);
        assert(item_start(items, 1) == item_start(items, 0) + items[0].len() + 1);
    } else if count > 1 {
        let front = items.drop_last();
        assert(front =~= items.take(count - 1));
        lemma_separated_len(front, separator);
        lemma_item_start_of_prefix(items, count - 1, count - 1);
        assert(separated(items, separator) == separated(front, separator) + seq![separator]
            + items.last());
    }
}

/// Every item of a separated list stands in it unchanged, at its place and
/// in the order of the list, and a separator stands in front of each item
/// but the first.
pub proof fn lemma_separated_keeps_items(items: Seq<Seq<Token>>, separator: Token, index: int)
    requires
        0 <= index < items.len(),
    ensures
        0 <= item_start(items, index),
        item_start(items, index) + items[index].len() <= separated(items, separator).len(),
        separated(items, separator).subrange(
            item_start(items, index),
            item_start(items, index) + items[index].len(),
        ) == items[index],
        index > 0 ==> separated(items, separator)[item_start(items, index) - 1] == separator,
    decreases items.len(),
{
    let all = separated(items, separator);
    let last = items.len() - 1;
    if last == 0 {
        assert(all.subrange(0, items[0].len() as int) =~= items[0]);
    } else {
        let front = items.drop_last();
        let before = separated(front, separator);
        assert(front =~= items.take(last));
        assert(all == before + seq![separator] + items.last());
        lemma_separated_len(front, separator);
        lemma_item_start_of_prefix(items, last, last);
        assert(before.len() + 1 == item_start(items, last));
        if index < last {
            lemma_separated_keeps_items(front, separator, index);
            lemma_item_start_of_prefix(items, last, index);
            lemma_item_start_is_behind(items, index);
            let start = item_start(items, index);
            assert(front[index] == items[index]);
            assert(all.subrange(start, start + items[index].len()) =~= before.subrange(
                start,
                start + items[index].len(),
            ));
        } else {
            let start = item_start(items, last);
            assert(all.subrange(start, start + items[last].len()) =~= items[last]);
            assert(all[start - 1] == separator);
        }
    }
}

/// The arguments behind an assertion's own expression, a format string and
/// what it interpolates, are kept: there are as many in the replacement as
/// were written, they are the expressions that were parsed, in their order,
/// and each stands in the replacement's arguments unchanged, behind the
/// assertion's expression and a comma.
pub proof fn lemma_diagnostics_are_kept(
    kind: StandardLibraryAssertion,
    arguments: Seq<Seq<Token>>,
    span: Span,
    attrs: Seq<Attribute>,
    index: int,
)
    requires
        parsed_assertion(kind, arguments, span, attrs) is Ok,
        0 <= index < arguments.len() - MacroKind::Assertion(kind).required_arguments(),
    ensures
        ({
            let needed = MacroKind::Assertion(kind).required_arguments() as int;
            let parsed = parsed_assertion(kind, arguments, span, attrs)->Ok_0;
            let head = assertion_tokens(parsed.assertion).len() + 1;
            let start = head + item_start(parsed.info_args, index);
            &&& parsed.info_args.len() == arguments.len() - needed
            &&& parsed.info_args[index] == arguments[needed + index]
            &&& start + arguments[needed + index].len() <= replacement_tokens(parsed).len()
            &&& replacement_tokens(parsed).subrange(
                start,
                start + arguments[needed + index].len(),
            ) == arguments[needed + index]
        }),
{
    let parsed = parsed_assertion(kind, arguments, span, attrs)->Ok_0;
    let tail = separated(parsed.info_args, punct(','));
    let head = assertion_tokens(parsed.assertion).len() + 1;
    let from = item_start(parsed.info_args, index);
    let size = parsed.info_args[index].len() as int;
    lemma_separated_keeps_items(parsed.info_args, punct(','), index);
    assert(replacement_tokens(parsed) == assertion_tokens(parsed.assertion) + seq![punct(',')]
        + tail);
    assert(replacement_tokens(parsed).subrange(head + from, head + from + size)
        =~= tail.subrange(from, from + size));
}

/// The replacement of an assertion stands where the assertion stood, calls
/// the replacement macro of the rewriting's style by its path from the
/// root, and carries the assertion's attributes.
pub proof fn lemma_replacement_stands_in_place(
    rewriting: Assert2Ification,
    mac: MacroInvocation,
    step: Result<FoldStep, ParseError>,
)
    requires
        rewriting.folds_to(mac, step),
        step matches Ok(FoldStep::Replaced(_)),
    ensures
        kind_of_path(mac.path.names()) is Assertion,
        step->Ok_0->Replaced_0.span == mac.span,
        step->Ok_0->Replaced_0.attrs@ == mac.attrs@,
        step->Ok_0->Replaced_0.delimiter == MacroDelimiter::Paren,
        step->Ok_0->Replaced_0.path.rooted,
        step->Ok_0->Replaced_0.path.names() == rewriting.replacement_path(),
{
}

/// The refusal that a walk holds after it has met the first `count` of the
/// invocations `macs`, one after the other, having begun without one.
pub open spec fn refusal_over(macs: Seq<MacroInvocation>, count: int) -> Option<ParseError>
    decreases count,
{
    if count <= 0 {
        None
    } else {
        refusal_after(refusal_over(macs, count - 1), macs[count - 1])
    }
}

/// A walk ends without a refusal exactly when none of the invocations it met
/// is a refused assertion. The refusal it ends with is the error of the
/// first refused assertion on its way, whatever came behind it.
pub proof fn lemma_first_refusal_is_reported(macs: Seq<MacroInvocation>, count: int)
    requires
        0 <= count <= macs.len(),
    ensures
        refusal_over(macs, count) is None <==> forall|i: int|
            0 <= i < count ==> classified(#[trigger] macs[i]) is Ok,
        refusal_over(macs, count) matches Some(error) ==> exists|first: int|
            0 <= first < count && classified(#[trigger] macs[first]) == Err::<
                MacroExpressionView,
                ParseError,
            >(error) && forall|i: int| 0 <= i < first ==> classified(#[trigger] macs[i]) is Ok,
    decreases count,
{
    if count > 0 {
        lemma_first_refusal_is_reported(macs, count - 1);
        let before = refusal_over(macs, count - 1);
        if before is None && classified(macs[count - 1]) is Err {
        }
    }
}

/// Whether the argument is the option `check`: that identifier and nothing
/// else.
pub open spec fn is_check(argument: Argument) -> bool {
    argument matches Argument::Path(expr_path) && expr_path.plain && !expr_path.path.rooted
        && expr_path.path.names() == seq!["check"@]
}

/// The name that the argument gives the crate, when it is the option
/// `crate = name` with nothing but an identifier on either side.
pub open spec fn crate_named(argument: Argument) -> Option<Seq<char>> {
    match argument {
        Argument::Assign(assignment) => if plain_ident_of(*assignment.left) == Some("crate"@) {
            plain_ident_of(*assignment.right)
        } else {
            None
        },
        _ => None,
    }
}

/// Arguments are accepted only if every one of them is one of the two
/// options, `check` or `crate = name`, and neither option stands there
/// twice. The style is that of checks exactly when `check` is among them,
/// and the crate has the name that `crate = name` gives it, or no name of
/// the user's when that option is not among them.
pub proof fn lemma_accepted_arguments_are_options(arguments: Seq<Argument>, count: int)
    requires
        0 <= count <= arguments.len(),
        configured(arguments, count) is Ok,
    ensures
        forall|i: int|
            0 <= i < count ==> is_check(#[trigger] arguments[i]) || crate_named(arguments[i])
                is Some,
        forall|i: int, j: int|
            0 <= i < j < count ==> !(is_check(#[trigger] arguments[i]) && is_check(
                #[trigger] arguments[j],
            )) && !(crate_named(arguments[i]) is Some && crate_named(arguments[j]) is Some),
        configured(arguments, count)->Ok_0.style == (if exists|i: int|
            0 <= i < count && is_check(#[trigger] arguments[i]) {
            Some(Style::CHECKIFY)
        } else {
            None
        }),
        configured(arguments, count)->Ok_0.crate_name is None <==> forall|i: int|
            0 <= i < count ==> crate_named(#[trigger] arguments[i]) is None,
        configured(arguments, count)->Ok_0.crate_name is Some ==> exists|i: int|
            0 <= i < count && crate_named(#[trigger] arguments[i]) == configured(
                arguments,
                count,
            )->Ok_0.crate_name,
    decreases count,
{
    if count > 0 {
        let before = configured(arguments, count - 1)->Ok_0;
        let last = arguments[count - 1];
        lemma_accepted_arguments_are_options(arguments, count - 1);
        assert(with_argument(before, last) is Ok);
        if is_check(last) {
            assert(before.style is None);
        } else {
            assert(crate_named(last) is Some);
            assert(before.crate_name is None);
            assert(crate_named(arguments[count - 1]) == configured(arguments, count)->Ok_0.crate_name);
        }
    }
}

/// Arguments of which every one is one of the two options, `check` or
/// `crate = name`, and neither option stands there twice, are accepted.
pub proof fn lemma_options_are_accepted(arguments: Seq<Argument>, count: int)
    requires
        0 <= count <= arguments.len(),
        forall|i: int|
            0 <= i < count ==> is_check(#[trigger] arguments[i]) || crate_named(arguments[i])
                is Some,
        forall|i: int, j: int|
            0 <= i < j < count ==> !(is_check(#[trigger] arguments[i]) && is_check(
                #[trigger] arguments[j],
            )) && !(crate_named(arguments[i]) is Some && crate_named(arguments[j]) is Some),
    ensures
        configured(arguments, count) is Ok,
    decreases count,
{
    if count > 0 {
        lemma_options_are_accepted(arguments, count - 1);
        lemma_accepted_arguments_are_options(arguments, count - 1);
        let before = configured(arguments, count - 1)->Ok_0;
        let last = arguments[count - 1];
        if is_check(last) {
            assert(forall|i: int| 0 <= i < count - 1 ==> !is_check(#[trigger] arguments[i]));
            assert(before.style is None);
        } else {
            assert(forall|i: int|
                0 <= i < count - 1 ==> crate_named(#[trigger] arguments[i]) is None);
            assert(before.crate_name is None);
        }
    }
}

} // verus!
