use assert2ify::assert2ification::{
    Assert2Ification, ConfigurationError, ConfigurationErrorKind, Style,
    DEFAULT_ASSERT2IFY_CRATE_NAME,
};
use assert2ify::detail::{
    idents_from_assign_expression, is_plain_ident, Argument, ExprAssign, ExprPath,
};
use assert2ify::path::CallableReference;

fn ident(name: &str) -> Argument {
    Argument::Path(ExprPath { path: CallableReference::from_ident(name.to_string()), plain: true })
}

fn assign(left: Argument, right: Argument) -> Argument {
    Argument::Assign(ExprAssign { left: Box::new(left), right: Box::new(right) })
}

fn refused(arguments: Vec<Argument>) -> ConfigurationError {
    match Assert2Ification::parse(&arguments) {
        Ok(_) => panic!("the arguments were accepted"),
        Err(error) => error,
    }
}

#[test]
fn no_arguments_give_assertions_of_the_crate_itself() {
    let rewriting = Assert2Ification::parse(&vec![]).unwrap();
    assert_eq!(rewriting.configuration(), Style::ASSERTIFY);
    assert_eq!(rewriting.crate_name(), "assert2ify");
    assert_eq!(DEFAULT_ASSERT2IFY_CRATE_NAME, "assert2ify");
}

#[test]
fn check_asks_for_checks() {
    let rewriting = Assert2Ification::parse(&vec![ident("check")]).unwrap();
    assert_eq!(rewriting.configuration(), Style::CHECKIFY);
    assert_eq!(rewriting.crate_name(), "assert2ify");
}

#[test]
fn crate_gives_the_name_of_the_crate() {
    let rewriting =
        Assert2Ification::parse(&vec![assign(ident("crate"), ident("renamed"))]).unwrap();
    assert_eq!(rewriting.configuration(), Style::ASSERTIFY);
    assert_eq!(rewriting.crate_name(), "renamed");
}

#[test]
fn both_options_stand_in_any_order() {
    let first =
        Assert2Ification::parse(&vec![ident("check"), assign(ident("crate"), ident("other"))])
            .unwrap();
    let second =
        Assert2Ification::parse(&vec![assign(ident("crate"), ident("other")), ident("check")])
            .unwrap();
    assert_eq!(first.configuration(), Style::CHECKIFY);
    assert_eq!(first.crate_name(), "other");
    assert_eq!(second.configuration(), Style::CHECKIFY);
    assert_eq!(second.crate_name(), "other");
}

#[test]
fn an_option_may_stand_only_once() {
    let twice = refused(vec![ident("check"), ident("check")]);
    assert_eq!(
        twice,
        ConfigurationError { kind: ConfigurationErrorKind::StyleAlreadySpecified, argument: 1 }
    );
    assert_eq!(twice.message(), "Illegal argument. Assertification style was already specified");
    let named_twice = refused(vec![
        assign(ident("crate"), ident("a")),
        ident("check"),
        assign(ident("crate"), ident("b")),
    ]);
    assert_eq!(
        named_twice,
        ConfigurationError { kind: ConfigurationErrorKind::CrateNameAlreadySpecified, argument: 2 }
    );
    assert_eq!(named_twice.message(), "Crate name was already specified");
}

#[test]
fn other_assignments_are_refused() {
    let wrong_target = refused(vec![assign(ident("krate"), ident("a"))]);
    assert_eq!(
        wrong_target,
        ConfigurationError { kind: ConfigurationErrorKind::IllegalArgument, argument: 0 }
    );
    assert_eq!(
        wrong_target.message(),
        "Illegal argument. The only legal assignment is crate=..."
    );
    let no_identifier = refused(vec![ident("check"), assign(ident("crate"), Argument::Other)]);
    assert_eq!(
        no_identifier,
        ConfigurationError { kind: ConfigurationErrorKind::IllegalAssignment, argument: 1 }
    );
    assert_eq!(
        no_identifier.message(),
        "Illegal assignment. The only legal assignment is crate=..."
    );
}

#[test]
fn other_paths_and_expressions_are_refused() {
    let unknown = refused(vec![ident("chekc")]);
    assert_eq!(
        unknown,
        ConfigurationError { kind: ConfigurationErrorKind::UnknownFlag, argument: 0 }
    );
    assert_eq!(unknown.message(), "Illegal argument. Did you mean `check`?");
    let long = Argument::Path(ExprPath {
        path: CallableReference {
            segments: vec!["assert2ify".to_string(), "check".to_string()],
            rooted: false,
        },
        plain: true,
    });
    assert_eq!(refused(vec![long]).kind, ConfigurationErrorKind::UnknownFlag);
    let generic = Argument::Path(ExprPath {
        path: CallableReference::from_ident("check".to_string()),
        plain: false,
    });
    assert_eq!(refused(vec![generic]).kind, ConfigurationErrorKind::UnknownFlag);
    let invalid = refused(vec![ident("check"), Argument::Other]);
    assert_eq!(
        invalid,
        ConfigurationError { kind: ConfigurationErrorKind::InvalidArgument, argument: 1 }
    );
    assert_eq!(invalid.message(), "Invalid argument");
}

#[test]
fn the_first_refused_argument_is_reported() {
    let error = refused(vec![ident("check"), Argument::Other, ident("check")]);
    assert_eq!(
        error,
        ConfigurationError { kind: ConfigurationErrorKind::InvalidArgument, argument: 1 }
    );
}

#[test]
fn identifiers_are_read_from_both_sides_of_an_assignment() {
    let both = ExprAssign { left: Box::new(ident("crate")), right: Box::new(ident("name")) };
    assert_eq!(
        idents_from_assign_expression(&both),
        Some(("crate".to_string(), "name".to_string()))
    );
    let long = Argument::Path(ExprPath {
        path: CallableReference { segments: vec!["a".to_string(), "b".to_string()], rooted: false },
        plain: true,
    });
    let one_side = ExprAssign { left: Box::new(ident("crate")), right: Box::new(long) };
    assert_eq!(idents_from_assign_expression(&one_side), None);
    let other = ExprAssign { left: Box::new(Argument::Other), right: Box::new(ident("name")) };
    assert_eq!(idents_from_assign_expression(&other), None);
}

#[test]
fn the_replacement_macro_follows_style_and_crate_name() {
    let assertions = Assert2Ification::new(Style::ASSERTIFY, None).assert2_macro_path();
    assert!(assertions.rooted);
    assert_eq!(assertions.segments, vec!["assert2ify".to_string(), "__assertify".to_string()]);
    let checks =
        Assert2Ification::new(Style::CHECKIFY, Some("renamed".to_string())).assert2_macro_path();
    assert!(checks.rooted);
    assert_eq!(checks.segments, vec!["renamed".to_string(), "__checkify".to_string()]);
}

fn path(segments: &[&str], rooted: bool, plain: bool) -> Argument {
    Argument::Path(ExprPath {
        path: CallableReference {
            segments: segments.iter().map(|name| name.to_string()).collect(),
            rooted,
        },
        plain,
    })
}

#[test]
fn only_an_identifier_names_the_crate() {
    let rooted = refused(vec![assign(ident("crate"), path(&["name"], true, true))]);
    assert_eq!(
        rooted,
        ConfigurationError { kind: ConfigurationErrorKind::IllegalAssignment, argument: 0 }
    );
    let generic = refused(vec![assign(ident("crate"), path(&["name"], false, false))]);
    assert_eq!(generic.kind, ConfigurationErrorKind::IllegalAssignment);
    let long = refused(vec![assign(ident("crate"), path(&["a", "name"], false, true))]);
    assert_eq!(long.kind, ConfigurationErrorKind::IllegalAssignment);
    let rooted_target = refused(vec![assign(path(&["crate"], true, true), ident("name"))]);
    assert_eq!(rooted_target.kind, ConfigurationErrorKind::IllegalAssignment);
    let generic_target = refused(vec![assign(path(&["crate"], false, false), ident("name"))]);
    assert_eq!(generic_target.kind, ConfigurationErrorKind::IllegalAssignment);
    let nested = refused(vec![
        ident("check"),
        assign(ident("crate"), assign(ident("a"), ident("b"))),
    ]);
    assert_eq!(
        nested,
        ConfigurationError { kind: ConfigurationErrorKind::IllegalAssignment, argument: 1 }
    );
    let rooted_flag = refused(vec![path(&["check"], true, true)]);
    assert_eq!(rooted_flag.kind, ConfigurationErrorKind::UnknownFlag);
}

#[test]
fn an_identifier_is_told_from_every_other_path() {
    assert!(is_plain_ident(&ident("name")));
    assert!(!is_plain_ident(&path(&["name"], true, true)));
    assert!(!is_plain_ident(&path(&["name"], false, false)));
    assert!(!is_plain_ident(&path(&["a", "name"], false, true)));
    assert!(!is_plain_ident(&path(&[], false, true)));
    assert!(!is_plain_ident(&Argument::Other));
    assert!(!is_plain_ident(&assign(ident("a"), ident("b"))));
    let loose = ExprAssign {
        left: Box::new(path(&["crate"], true, false)),
        right: Box::new(ident("name")),
    };
    assert_eq!(
        idents_from_assign_expression(&loose),
        Some(("crate".to_string(), "name".to_string()))
    );
}
