//! Which macro a path names, the comparisons that the binary assertions
//! stand for, and what is looked at in the arguments and the attributes of
//! the function that is rewritten.

use crate::invocation::Attribute;
use crate::path::CallableReference;
use proc_macro2::Span;
use vstd::prelude::*;

verus! {

/// The assertions of the standard library that are rewritten.
#[derive(Debug, Copy, Clone, PartialEq, Eq, Structural)]
pub enum StandardLibraryAssertion {
    /// The assertion `assert_eq!`.
    AssertEq,
    /// The assertion `assert_ne!`.
    AssertNe,
    /// The assertion `assert!`.
    Assert,
}

/// What kind of macro an invocation calls: one of the assertions of the
/// standard library, or anything else.
#[derive(Debug, Copy, Clone, PartialEq, Eq, Structural)]
pub enum MacroKind {
    /// An assertion of the standard library.
    Assertion(StandardLibraryAssertion),
    /// Any other macro.
    Other,
}

/// The comparison that a binary assertion makes between its two operands,
/// with the place in the source that its tokens are given.
#[derive(Debug, Clone, Copy)]
pub enum BinOp {
    /// `==`
    Eq(Span),
    /// `!=`
    Ne(Span),
}

impl BinOp {
    /// The place in the source that the operator's tokens are given.
    pub open spec fn location(&self) -> Span {
        match self {
            BinOp::Eq(span) => *span,
            BinOp::Ne(span) => *span,
        }
    }

    /// The place in the source that the operator's tokens are given.
    pub fn span(&self) -> (span: Span)
        ensures
            span == self.location(),
    {
        match self {
            BinOp::Eq(span) => *span,
            BinOp::Ne(span) => *span,
        }
    }
}

impl From<StandardLibraryAssertion> for MacroKind {
    fn from(ass: StandardLibraryAssertion) -> (kind: MacroKind)
    {
        MacroKind::Assertion(ass)
    }
}

impl vstd::std_specs::convert::FromSpecImpl<StandardLibraryAssertion> for MacroKind {
    open spec fn obeys_from_spec() -> bool {
        true
    }

    open spec fn from_spec(ass: StandardLibraryAssertion) -> MacroKind {
        MacroKind::Assertion(ass)
    }
}

impl MacroKind {
    /// Whether the macro is an assertion of any kind.
    pub open spec fn spec_is_assertion(&self) -> bool {
        *self is Assertion
    }

    /// Whether the macro is a binary assertion, `assert_eq!` or `assert_ne!`.
    pub open spec fn spec_is_binary_assertion(&self) -> bool {
        *self == MacroKind::Assertion(StandardLibraryAssertion::AssertEq) || *self
            == MacroKind::Assertion(StandardLibraryAssertion::AssertNe)
    }

    /// Whether the macro is an assertion of any kind.
    #[verifier::when_used_as_spec(spec_is_assertion)]
    pub fn is_assertion(&self) -> (yes: bool)
        ensures
            yes == self.spec_is_assertion(),
    {
        match self {
            MacroKind::Assertion(_) => true,
            MacroKind::Other => false,
        }
    }

    /// Whether the macro is a binary assertion, `assert_eq!` or `assert_ne!`.
    #[verifier::when_used_as_spec(spec_is_binary_assertion)]
    pub fn is_binary_assertion(&self) -> (yes: bool)
        ensures
            yes == self.spec_is_binary_assertion(),
    {
        match self {
            MacroKind::Assertion(StandardLibraryAssertion::AssertEq) => true,
            MacroKind::Assertion(StandardLibraryAssertion::AssertNe) => true,
            MacroKind::Assertion(StandardLibraryAssertion::Assert) => false,
            MacroKind::Other => false,
        }
    }

    /// How many expressions an invocation of this kind needs at least: two
    /// operands for a binary assertion, one for `assert!`, none otherwise.
    pub open spec fn required_arguments(&self) -> nat {
        match self {
            MacroKind::Assertion(StandardLibraryAssertion::AssertEq) => 2,
            MacroKind::Assertion(StandardLibraryAssertion::AssertNe) => 2,
            MacroKind::Assertion(StandardLibraryAssertion::Assert) => 1,
            MacroKind::Other => 0,
        }
    }

    /// The operator with which a binary assertion compares its operands:
    /// `==` for `assert_eq!`, `!=` for `assert_ne!`, none for any other
    /// macro. The operator is given the place `span`.
    pub fn binary_operator(&self, span: Span) -> (operator: Option<BinOp>)
        ensures
            *self == MacroKind::Assertion(StandardLibraryAssertion::AssertEq) ==> operator == Some(
                BinOp::Eq(span),
            ),
            *self == MacroKind::Assertion(StandardLibraryAssertion::AssertNe) ==> operator == Some(
                BinOp::Ne(span),
            ),
            !self.is_binary_assertion() ==> operator is None,
    {
        match self {
            MacroKind::Assertion(StandardLibraryAssertion::AssertEq) => Some(BinOp::Eq(span)),
            MacroKind::Assertion(StandardLibraryAssertion::AssertNe) => Some(BinOp::Ne(span)),
            MacroKind::Assertion(StandardLibraryAssertion::Assert) => None,
            MacroKind::Other => None,
        }
    }
}

/// The name under which each assertion is called.
pub open spec fn assertion_name(assertion: StandardLibraryAssertion) -> Seq<char> {
    match assertion {
        StandardLibraryAssertion::AssertEq => "assert_eq"@,
        StandardLibraryAssertion::AssertNe => "assert_ne"@,
        StandardLibraryAssertion::Assert => "assert"@,
    }
}

/// The kind of macro that a single name stands for: the name is compared
/// exactly, character by character.
pub open spec fn kind_of_name(name: Seq<char>) -> MacroKind {
    if name == "assert_eq"@ {
        MacroKind::Assertion(StandardLibraryAssertion::AssertEq)
    } else if name == "assert_ne"@ {
        MacroKind::Assertion(StandardLibraryAssertion::AssertNe)
    } else if name == "assert"@ {
        MacroKind::Assertion(StandardLibraryAssertion::Assert)
    } else {
        MacroKind::Other
    }
}

/// Whether a path may name a macro of the standard library at all: it has
/// one segment, or two of which the first is `std`. A leading `::` makes no
/// difference.
pub open spec fn names_std_macro(names: Seq<Seq<char>>) -> bool {
    names.len() == 1 || (names.len() == 2 && names[0] == "std"@)
}

/// The kind of macro that a path names. Only the last segment of a path
/// that may name a macro of the standard library counts; every other path
/// names some other macro.
pub open spec fn kind_of_path(names: Seq<Seq<char>>) -> MacroKind {
    if names_std_macro(names) {
        kind_of_name(names.last())
    } else {
        MacroKind::Other
    }
}

/// The kind of macro that a single identifier names.
fn macro_kind(ident: &String) -> (kind: MacroKind)
    ensures
        kind == kind_of_name(ident@),
{
    let name = ident.as_str();
    if *name == *"assert_eq" {
        MacroKind::from(StandardLibraryAssertion::AssertEq)
    } else if *name == *"assert_ne" {
        MacroKind::from(StandardLibraryAssertion::AssertNe)
    } else if *name == *"assert" {
        MacroKind::from(StandardLibraryAssertion::Assert)
    } else {
        MacroKind::Other
    }
}

/// Tells from the path of a macro invocation whether it calls `assert_eq!`,
/// `assert_ne!`, `assert!` or some other macro.
///
/// A path of one segment, or of two with `std` in front, is taken for the
/// macro of the standard library that its last segment names. Whether that
/// name was shadowed or imported from elsewhere cannot be seen from the
/// path, so such a macro is taken for the assertion all the same.
pub fn infer_macro_kind_from_path(path: &CallableReference) -> (kind: MacroKind)
    ensures
        kind == kind_of_path(path.names()),
        !names_std_macro(path.names()) ==> kind == MacroKind::Other,
{
    let count = path.segments.len();
    if count == 1 {
        macro_kind(&path.segments[0])
    } else if count == 2 {
        if *path.segments[0].as_str() == *"std" {
            macro_kind(&path.segments[1])
        } else {
            MacroKind::Other
        }
    } else {
        MacroKind::Other
    }
}

/// Whether `path` names the given assertion of the standard library: as
/// `assert`, `std::assert` or `::std::assert`, and likewise for the others.
pub fn is_path_for_std_assertion(path: &CallableReference, assertion: StandardLibraryAssertion) -> (yes:
    bool)
    ensures
        yes == (names_std_macro(path.names()) && path.names().last() == assertion_name(assertion)),
{
    let assertion_name = match assertion {
        StandardLibraryAssertion::AssertEq => "assert_eq",
        StandardLibraryAssertion::AssertNe => "assert_ne",
        StandardLibraryAssertion::Assert => "assert",
    };
    let count = path.segments.len();
    (count == 1 && *path.segments[0].as_str() == *assertion_name) || (count == 2
        && *path.segments[0].as_str() == *"std" && *path.segments[1].as_str() == *assertion_name)
}

/// A path where an expression is expected.
#[derive(Debug)]
pub struct ExprPath {
    /// The path.
    pub path: CallableReference,
    /// Whether the path is written without generic arguments and without a
    /// qualified self type.
    pub plain: bool,
}

/// An assignment `left = right`.
#[derive(Debug)]
pub struct ExprAssign {
    /// The expression that is assigned to.
    pub left: Box<Argument>,
    /// The expression that is assigned.
    pub right: Box<Argument>,
}

/// An argument of the attribute, as far as the options tell one expression
/// from another.
#[derive(Debug)]
pub enum Argument {
    /// An assignment.
    Assign(ExprAssign),
    /// A path.
    Path(ExprPath),
    /// Any other expression.
    Other,
}

/// The identifier that `expr` is, when it is a path of exactly one segment.
pub open spec fn ident_of(expr: Argument) -> Option<Seq<char>> {
    match expr {
        Argument::Path(ExprPath { path, plain }) => if path.segments@.len() == 1 {
            Some(path.segments@[0]@)
        } else {
            None
        },
        _ => None,
    }
}

/// The identifier that `expr` is, when it is nothing but an identifier: a
/// path of exactly one segment, written without a leading `::`, without
/// generic arguments and without a qualified self type.
pub open spec fn plain_ident_of(expr: Argument) -> Option<Seq<char>> {
    match expr {
        Argument::Path(ExprPath { path, plain }) => if plain && !path.rooted
            && path.segments@.len() == 1 {
            Some(path.segments@[0]@)
        } else {
            None
        },
        _ => None,
    }
}

/// Whether `expr` is nothing but an identifier.
pub fn is_plain_ident(expr: &Argument) -> (yes: bool)
    ensures
        yes == plain_ident_of(*expr) is Some,
        yes ==> plain_ident_of(*expr) == ident_of(*expr),
{
    match expr {
        Argument::Path(ExprPath { path, plain }) => *plain && !path.rooted && path.segments.len()
            == 1,
        _ => false,
    }
}

/// The identifier that `expr` is, when it is a path of exactly one segment,
/// and `None` for every other expression.
fn ident_from_box_expr(expr: &Argument) -> (ident: Option<String>)
    ensures
        ident is Some == ident_of(*expr) is Some,
        ident is Some ==> ident_of(*expr) == Some(ident->Some_0@),
{
    match expr {
        Argument::Path(ExprPath { path, plain }) => {
            if path.segments.len() == 1 {
                Some(path.segments[0].clone())
            } else {
                None
            }
        },
        _ => None,
    }
}

/// The two identifiers of an assignment `lhs = rhs`, or `None` when either
/// side is anything but an identifier.
pub fn idents_from_assign_expression(assignment: &ExprAssign) -> (idents: Option<(String, String)>)
    ensures
        idents is Some == (ident_of(*assignment.left) is Some && ident_of(*assignment.right) is Some),
        idents is Some ==> ident_of(*assignment.left) == Some(idents->Some_0.0@) && ident_of(
            *assignment.right,
        ) == Some(idents->Some_0.1@),
{
    match (ident_from_box_expr(&*assignment.left), ident_from_box_expr(&*assignment.right)) {
        (Some(lhs), Some(rhs)) => Some((lhs, rhs)),
        _ => None,
    }
}

/// Whether the first segment of the attribute's path is `name`.
pub open spec fn attribute_named(attr: Attribute, name: Seq<char>) -> bool {
    attr.path.segments@.len() > 0 && attr.path.segments@[0]@ == name
}

/// Whether the last segment of the attribute's path is `name`.
pub open spec fn attribute_ends_in(attr: Attribute, name: Seq<char>) -> bool {
    attr.path.segments@.len() > 0 && attr.path.segments@[attr.path.segments@.len() - 1]@ == name
}

/// Whether one of the attributes is `#[test]`.
pub open spec fn has_test_attribute(attrs: Seq<Attribute>) -> bool {
    exists|i: int| 0 <= i < attrs.len() && attribute_named(#[trigger] attrs[i], "test"@)
}

/// Whether the attribute is neither `#[should_panic]` nor `#[ignore]`.
pub open spec fn outlives_workaround(attr: Attribute) -> bool {
    !attribute_named(attr, "should_panic"@) && !attribute_named(attr, "ignore"@)
}

/// Whether the attribute is called `name`. Only the first segment of its
/// path is compared, so `name` is a single name and no path.
pub fn is_attribute_name(attr: &Attribute, name: &str) -> (yes: bool)
    requires
        !name@.contains(':'),
    ensures
        yes == attribute_named(*attr, name@),
{
    match attr.path.first() {
        Some(first) => *first.as_str() == *name,
        None => false,
    }
}

/// Whether one of the attributes is `#[test]`.
fn is_test_function(attrs: &Vec<Attribute>) -> (yes: bool)
    ensures
        yes == has_test_attribute(attrs@),
{
    proof {
        reveal_strlit("test");
    }
    let mut at: usize = 0;
    while at < attrs.len()
        invariant
            at <= attrs@.len(),
            !"test"@.contains(':'),
            forall|i: int| 0 <= i < at ==> !attribute_named(#[trigger] attrs@[i], "test"@),
        decreases attrs@.len() - at,
    {
        if is_attribute_name(&attrs[at], "test") {
            return true;
        }
        at += 1;
    }
    false
}

/// Tells of each attribute of a function whether it stays on the function:
/// all of them on a function with `#[test]`, and on any other function all
/// but `#[should_panic]` and `#[ignore]`.
pub fn outlive_unused_attributes_workaround(attrs: &Vec<Attribute>) -> (stay: Vec<bool>)
    ensures
        stay@.len() == attrs@.len(),
        forall|i: int|
            0 <= i < attrs@.len() ==> #[trigger] stay@[i] == (has_test_attribute(attrs@)
                || outlives_workaround(attrs@[i])),
{
    let test = is_test_function(attrs);
    proof {
        reveal_strlit("should_panic");
        reveal_strlit("ignore");
    }
    let mut stay: Vec<bool> = Vec::new();
    let mut at: usize = 0;
    while at < attrs.len()
        invariant
            at <= attrs@.len(),
            stay@.len() == at,
            test == has_test_attribute(attrs@),
            !"should_panic"@.contains(':'),
            !"ignore"@.contains(':'),
            forall|i: int|
                0 <= i < at ==> #[trigger] stay@[i] == (test || outlives_workaround(attrs@[i])),
        decreases attrs@.len() - at,
    {
        let stays = test || (!is_attribute_name(&attrs[at], "should_panic") && !is_attribute_name(
            &attrs[at],
            "ignore",
        ));
        stay.push(stays);
        at += 1;
    }
    stay
}

/// Keeps the compiler from calling `#[should_panic]` and `#[ignore]` unused
/// on a function that is rewritten before `#[test]` is applied to it.
///
/// The attributes of a function with `#[test]` among them come back as they
/// are. From those of any other function every `#[should_panic]` and every
/// `#[ignore]` is taken out, and the others stay in their order.
pub fn apply_unused_attributes_workaround(attrs: Vec<Attribute>) -> (kept: Vec<Attribute>)
    ensures
        has_test_attribute(attrs@) ==> kept == attrs,
        !has_test_attribute(attrs@) ==> kept@ == attrs@.filter(
            |attr: Attribute| outlives_workaround(attr),
        ),
{
    if is_test_function(&attrs) {
        return attrs;
    }
    proof {
        reveal_strlit("should_panic");
        reveal_strlit("ignore");
    }
    let ghost given = attrs@;
    let ghost keeps = |attr: Attribute| outlives_workaround(attr);
    let mut rest = attrs;
    let mut kept: Vec<Attribute> = Vec::new();
    assert(given.take(0).filter(keeps) =~= Seq::<Attribute>::empty()) by {
        reveal(Seq::filter);
    }
    while rest.len() > 0
        invariant
            rest@.len() <= given.len(),
            rest@ == given.skip(given.len() - rest@.len()),
            kept@ == given.take(given.len() - rest@.len()).filter(keeps),
            keeps == |attr: Attribute| outlives_workaround(attr),
            !"should_panic"@.contains(':'),
            !"ignore"@.contains(':'),
        decreases rest@.len(),
    {
        let ghost done = given.len() - rest@.len();
        let attr = rest.remove(0);
        proof {
            assert(attr == given[done]);
            assert(rest@ =~= given.skip(done + 1));
            assert(given.take(done + 1).drop_last() =~= given.take(done));
            assert(given.take(done + 1).last() == attr);
            reveal(Seq::filter);
        }
        if !is_attribute_name(&attr, "should_panic") && !is_attribute_name(&attr, "ignore") {
            kept.push(attr);
        }
    }
    assert(given.take(given.len() as int) =~= given);
    kept
}

/// The name of the attribute that rewrites a function.
pub open spec fn rewriting_attribute() -> Seq<char> {
    "assert2ify"@
}

/// The index of the first attribute at or behind `from` whose path ends in
/// the name of the rewriting attribute.
pub open spec fn first_redefinition(attrs: Seq<Attribute>, from: int) -> Option<int>
    decreases attrs.len() - from,
{
    if from < 0 || from >= attrs.len() {
        None
    } else if attribute_ends_in(attrs[from], rewriting_attribute()) {
        Some(from)
    } else {
        first_redefinition(attrs, from + 1)
    }
}

/// The rewriting attribute stands on a function a second time.
#[derive(Debug, Clone, Copy)]
pub struct DuplicateAttribute {
    /// The index of the attribute among those of the function.
    pub index: usize,
    /// Where the attribute stands in the source.
    pub span: Span,
}

impl DuplicateAttribute {
    /// What is said to the user about the error.
    pub fn message(&self) -> (text: String)
        ensures
            text@
                == "Duplicate attribute. This attribute must only be specified once for each function"@,
    {
        "Duplicate attribute. This attribute must only be specified once for each function".to_owned()
    }
}

/// Guards against a function that carries the rewriting attribute twice.
///
/// The attribute that is being applied is not among `attrs`, so any
/// attribute there whose path ends in `assert2ify` is a second one; the
/// first such attribute is reported. An attribute that was imported under
/// another name goes unnoticed.
pub fn check_redefinition_of_assert2ify(attrs: &Vec<Attribute>) -> (checked: Result<
    (),
    DuplicateAttribute,
>)
    ensures
        first_redefinition(attrs@, 0) is None ==> checked is Ok,
        first_redefinition(attrs@, 0) matches Some(index) ==> checked == Err::<
            (),
            DuplicateAttribute,
        >(DuplicateAttribute { index: index as usize, span: attrs@[index].span }),
{
    let mut at: usize = 0;
    while at < attrs.len()
        invariant
            at <= attrs@.len(),
            first_redefinition(attrs@, 0) == first_redefinition(attrs@, at as int),
        decreases attrs@.len() - at,
    {
        let found = match attrs[at].path.last() {
            Some(last) => *last.as_str() == *"assert2ify",
            None => false,
        };
        if found {
            return Err(DuplicateAttribute { index: at, span: attrs[at].span });
        }
        at += 1;
    }
    Ok(())
}

} // verus!
