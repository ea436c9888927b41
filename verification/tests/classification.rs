use assert2ify::detail::{
    infer_macro_kind_from_path, is_path_for_std_assertion, BinOp, MacroKind,
    StandardLibraryAssertion,
};
use assert2ify::path::CallableReference;
use proc_macro2::Span;

fn path(segments: &[&str], rooted: bool) -> CallableReference {
    CallableReference { segments: segments.iter().map(|name| name.to_string()).collect(), rooted }
}

#[test]
fn bare_names_are_the_assertions() {
    assert_eq!(
        infer_macro_kind_from_path(&path(&["assert"], false)),
        MacroKind::Assertion(StandardLibraryAssertion::Assert)
    );
    assert_eq!(
        infer_macro_kind_from_path(&path(&["assert_eq"], false)),
        MacroKind::Assertion(StandardLibraryAssertion::AssertEq)
    );
    assert_eq!(
        infer_macro_kind_from_path(&path(&["assert_ne"], false)),
        MacroKind::Assertion(StandardLibraryAssertion::AssertNe)
    );
}

#[test]
fn std_in_front_is_accepted_rooted_or_not() {
    assert_eq!(
        infer_macro_kind_from_path(&path(&["std", "assert_eq"], false)),
        MacroKind::Assertion(StandardLibraryAssertion::AssertEq)
    );
    assert_eq!(
        infer_macro_kind_from_path(&path(&["std", "assert"], true)),
        MacroKind::Assertion(StandardLibraryAssertion::Assert)
    );
    assert_eq!(
        infer_macro_kind_from_path(&path(&["assert_ne"], true)),
        MacroKind::Assertion(StandardLibraryAssertion::AssertNe)
    );
}

#[test]
fn any_other_first_segment_names_another_macro() {
    assert_eq!(infer_macro_kind_from_path(&path(&["core", "assert"], false)), MacroKind::Other);
    assert_eq!(infer_macro_kind_from_path(&path(&["assert2", "assert"], true)), MacroKind::Other);
    assert_eq!(infer_macro_kind_from_path(&path(&["Std", "assert"], false)), MacroKind::Other);
}

#[test]
fn paths_of_no_or_many_segments_name_another_macro() {
    assert_eq!(infer_macro_kind_from_path(&path(&[], false)), MacroKind::Other);
    assert_eq!(
        infer_macro_kind_from_path(&path(&["std", "prelude", "assert"], false)),
        MacroKind::Other
    );
    assert_eq!(
        infer_macro_kind_from_path(&path(&["std", "std", "assert_eq"], true)),
        MacroKind::Other
    );
}

#[test]
fn names_are_compared_letter_for_letter() {
    assert_eq!(infer_macro_kind_from_path(&path(&["Assert"], false)), MacroKind::Other);
    assert_eq!(infer_macro_kind_from_path(&path(&["assert_eq2"], false)), MacroKind::Other);
    assert_eq!(infer_macro_kind_from_path(&path(&["debug_assert"], false)), MacroKind::Other);
    assert_eq!(infer_macro_kind_from_path(&path(&["matches"], false)), MacroKind::Other);
    assert_eq!(infer_macro_kind_from_path(&path(&["std", "println"], false)), MacroKind::Other);
}

#[test]
fn a_path_is_held_against_one_assertion() {
    let assert_eq = StandardLibraryAssertion::AssertEq;
    assert!(is_path_for_std_assertion(&path(&["assert_eq"], false), assert_eq));
    assert!(is_path_for_std_assertion(&path(&["std", "assert_eq"], false), assert_eq));
    assert!(is_path_for_std_assertion(&path(&["std", "assert_eq"], true), assert_eq));
    assert!(!is_path_for_std_assertion(&path(&["assert_ne"], false), assert_eq));
    assert!(!is_path_for_std_assertion(&path(&["core", "assert_eq"], false), assert_eq));
    assert!(!is_path_for_std_assertion(&path(&[], false), assert_eq));
    assert!(is_path_for_std_assertion(&path(&["assert"], false), StandardLibraryAssertion::Assert));
    assert!(is_path_for_std_assertion(
        &path(&["std", "assert_ne"], false),
        StandardLibraryAssertion::AssertNe
    ));
}

#[test]
fn kinds_tell_assertions_and_binary_assertions() {
    let eq = MacroKind::from(StandardLibraryAssertion::AssertEq);
    let ne = MacroKind::from(StandardLibraryAssertion::AssertNe);
    let unary = MacroKind::from(StandardLibraryAssertion::Assert);
    assert_eq!(eq, MacroKind::Assertion(StandardLibraryAssertion::AssertEq));
    assert!(eq.is_assertion() && ne.is_assertion() && unary.is_assertion());
    assert!(!MacroKind::Other.is_assertion());
    assert!(eq.is_binary_assertion() && ne.is_binary_assertion());
    assert!(!unary.is_binary_assertion());
    assert!(!MacroKind::Other.is_binary_assertion());
}

#[test]
fn binary_assertions_have_their_operator() {
    let span = Span::call_site();
    assert!(matches!(
        MacroKind::Assertion(StandardLibraryAssertion::AssertEq).binary_operator(span),
        Some(BinOp::Eq(_))
    ));
    assert!(matches!(
        MacroKind::Assertion(StandardLibraryAssertion::AssertNe).binary_operator(span),
        Some(BinOp::Ne(_))
    ));
    assert!(MacroKind::Assertion(StandardLibraryAssertion::Assert).binary_operator(span).is_none());
    assert!(MacroKind::Other.binary_operator(span).is_none());
}

#[test]
fn a_single_identifier_is_told_from_a_longer_path() {
    assert!(path(&["check"], false).is_ident("check"));
    assert!(!path(&["check"], true).is_ident("check"));
    assert!(!path(&["checks"], false).is_ident("check"));
    assert!(!path(&["a", "check"], false).is_ident("check"));
    assert!(CallableReference::from_ident("check".to_string()).is_ident("check"));
    assert_eq!(path(&["a", "b"], false).first().map(String::as_str), Some("a"));
    assert_eq!(path(&["a", "b"], false).last().map(String::as_str), Some("b"));
    assert!(path(&[], false).first().is_none());
    assert!(path(&[], false).last().is_none());
}
