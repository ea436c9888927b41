use assert2ify::assert2ification::{Assert2Ification, FoldStep, Style};
use assert2ify::invocation::{MacroDelimiter, MacroInvocation};
use assert2ify::macro_expression::{ParseError, ParseErrorKind};
use assert2ify::path::CallableReference;
use proc_macro2::{Ident, Span, TokenStream};
use quote::ToTokens;
use syn::fold::Fold;
use syn::punctuated::Punctuated;
use syn::spanned::Spanned;

/// Walks a syntax tree of `syn` and lets the library decide on every macro
/// invocation. After the first error nothing more is rewritten.
struct Walk {
    rewriting: Assert2Ification,
}

fn invocation(mac: &syn::Macro) -> MacroInvocation {
    MacroInvocation {
        path: CallableReference {
            segments: mac.path.segments.iter().map(|segment| segment.ident.to_string()).collect(),
            rooted: mac.path.leading_colon.is_some(),
        },
        delimiter: match mac.delimiter {
            syn::MacroDelimiter::Paren(_) => MacroDelimiter::Paren,
            syn::MacroDelimiter::Brace(_) => MacroDelimiter::Brace,
            syn::MacroDelimiter::Bracket(_) => MacroDelimiter::Bracket,
        },
        tokens: mac.tokens.clone(),
        attrs: Vec::new(),
        span: mac.span(),
    }
}

fn written(mac: MacroInvocation) -> syn::Macro {
    let span = mac.span;
    let mut segments = Punctuated::new();
    for name in mac.path.segments.iter() {
        segments.push(syn::PathSegment {
            ident: Ident::new(name, span),
            arguments: syn::PathArguments::None,
        });
    }
    syn::Macro {
        path: syn::Path {
            leading_colon: if mac.path.rooted {
                Some(syn::token::PathSep { spans: [span; 2] })
            } else {
                None
            },
            segments,
        },
        bang_token: syn::token::Not { spans: [span; 1] },
        delimiter: match mac.delimiter {
            MacroDelimiter::Paren => syn::MacroDelimiter::Paren(syn::token::Paren(span)),
            MacroDelimiter::Brace => syn::MacroDelimiter::Brace(syn::token::Brace(span)),
            MacroDelimiter::Bracket => syn::MacroDelimiter::Bracket(syn::token::Bracket(span)),
        },
        tokens: mac.tokens,
    }
}

impl Fold for Walk {
    fn fold_macro(&mut self, mac: syn::Macro) -> syn::Macro {
        match self.rewriting.fold_macro(invocation(&mac)) {
            FoldStep::Stop => mac,
            FoldStep::Replaced(replacement) => written(replacement),
            FoldStep::Descend(other) => {
                let nested = syn::parse2::<syn::Expr>(other.tokens.clone())
                    .expect("the library found one expression");
                let folded = self.fold_expr(nested);
                let kept = other.with_tokens(folded.to_token_stream());
                syn::Macro { tokens: kept.tokens, ..mac }
            }
            FoldStep::Keep(_) => syn::fold::fold_macro(self, mac),
        }
    }
}

fn rewrite(source: &str, style: Style, crate_name: Option<&str>) -> Result<syn::ItemFn, ParseError> {
    let function = syn::parse_str::<syn::ItemFn>(source).expect("the source is a function");
    let mut walk =
        Walk { rewriting: Assert2Ification::new(style, crate_name.map(|name| name.to_string())) };
    let folded = walk.fold_item_fn(function);
    match walk.rewriting.error() {
        Some(error) => Err(error),
        None => Ok(folded),
    }
}

fn text(source: &str) -> String {
    syn::parse_str::<syn::ItemFn>(source).unwrap().to_token_stream().to_string()
}

fn rewritten(source: &str, style: Style) -> String {
    match rewrite(source, style, None) {
        Ok(function) => function.to_token_stream().to_string(),
        Err(error) => panic!("the function was refused: {}", error.message()),
    }
}

#[test]
fn my_test() {
    let source = r#"
        fn my_test() {
            let v = vec![1,2,3];
            for _ in 1..10
            {
                if 20> 19
                {
                    assert_eq!(v.len(),
                               20,
                               "these {} {} {}", 1,
                               "message(s)", "are now parsed");
                }
            }
        }
    "#;
    let expected = r#"
        fn my_test() {
            let v = vec![1,2,3];
            for _ in 1..10
            {
                if 20> 19
                {
                    ::assert2ify::__assertify!(v.len() == 20,
                               "these {} {} {}", 1,
                               "message(s)", "are now parsed");
                }
            }
        }
    "#;
    assert_eq!(rewritten(source, Style::ASSERTIFY), text(expected));
}

#[test]
fn my_test2() {
    let source = r#"
        fn my_test2() {
            let v = vec![1,2,3];
            for _ in 1..10
            {
                if 20> 19
                {
                    assert!(v.len()>20);
                    assert!(v.len()<2);
                }
            }
        }
    "#;
    let expected = r#"
        fn my_test2() {
            let v = vec![1,2,3];
            for _ in 1..10
            {
                if 20> 19
                {
                    ::assert2ify::__checkify!(v.len()>20,);
                    ::assert2ify::__checkify!(v.len()<2,);
                }
            }
        }
    "#;
    let output = rewritten(source, Style::CHECKIFY);
    assert_eq!(output, text(expected));
    assert!(!output.contains("assert !"));
}

#[test]
fn binary_assertion_with_a_message_becomes_a_comparison() {
    let source = r#"fn f(v: Vec<u8>) { assert_eq!(v.len(), 20, "msg {}", 1) }"#;
    let expected = r#"fn f(v: Vec<u8>) { ::assert2ify::__assertify!(v.len() == 20, "msg {}", 1) }"#;
    assert_eq!(rewritten(source, Style::ASSERTIFY), text(expected));
}

#[test]
fn unary_assertion_becomes_a_check_in_check_style() {
    let source = r#"fn f(v: Vec<u8>) { assert!(v.len() > 20) }"#;
    let expected = r#"fn f(v: Vec<u8>) { ::assert2ify::__checkify!(v.len() > 20,) }"#;
    assert_eq!(rewritten(source, Style::CHECKIFY), text(expected));
}

#[test]
fn assert_ne_becomes_an_inequality() {
    let source = r#"
        fn f(v: Vec<u8>) {
            assert_ne!(v.len(),
                       3,
                       "these {} {} {}", 3,
                       "message(s)", "are now parsed");
        }
    "#;
    let expected = r#"
        fn f(v: Vec<u8>) {
            ::renamed::__checkify!(v.len() != 3,
                       "these {} {} {}", 3,
                       "message(s)", "are now parsed");
        }
    "#;
    let output = rewrite(source, Style::CHECKIFY, Some("renamed")).ok().unwrap();
    assert_eq!(output.to_token_stream().to_string(), text(expected));
}

#[test]
fn std_paths_are_rewritten_and_other_paths_are_not() {
    let source = r#"
        fn f() {
            std::assert!(true);
            ::std::assert_eq!(1, 1);
            core::assert!(true);
            debug_assert!(true);
        }
    "#;
    let expected = r#"
        fn f() {
            ::assert2ify::__assertify!(true,);
            ::assert2ify::__assertify!(1 == 1,);
            core::assert!(true);
            debug_assert!(true);
        }
    "#;
    assert_eq!(rewritten(source, Style::ASSERTIFY), text(expected));
}

#[test]
fn pattern_match_with_a_guard_is_handed_to_the_replacement_macro() {
    let source = r#"fn f() { assert!(matches!(foo(-1), Err(s) if s.contains("x"))); }"#;
    let expected =
        r#"fn f() { ::assert2ify::__assertify!(matches!(foo(-1), Err(s) if s.contains("x")),); }"#;
    assert_eq!(rewritten(source, Style::ASSERTIFY), text(expected));
}

#[test]
fn pattern_match_is_written_with_the_plain_name_and_parentheses() {
    let source =
        r#"fn f() { assert!(::std::matches![something(), Ok(1) | Err(_),], "something {}", "is wrong"); }"#;
    let expected = r#"
        fn f() {
            ::assert2ify::__checkify!(matches!(something(), Ok(1) | Err(_)), "something {}", "is wrong");
        }
    "#;
    assert_eq!(rewritten(source, Style::CHECKIFY), text(expected));
}

#[test]
fn assertion_inside_expression_macros_is_found() {
    let source = r#"
        fn f() {
            identity!(
                identity!(
                    identity!(
                        assert_eq!(2,3))));
        }
    "#;
    let expected = r#"
        fn f() {
            identity!(
                identity!(
                    identity!(
                        ::assert2ify::__checkify!(2 == 3,))));
        }
    "#;
    assert_eq!(rewritten(source, Style::CHECKIFY), text(expected));
}

#[test]
fn two_layers_of_macros_stay_around_the_rewritten_assertion() {
    let source = r#"fn f() { identity!(identity!(assert_eq!(2,3))) }"#;
    let expected = r#"fn f() { identity!(identity!(::assert2ify::__assertify!(2 == 3,))) }"#;
    assert_eq!(rewritten(source, Style::ASSERTIFY), text(expected));
}

#[test]
fn statements_inside_a_macro_are_left_alone() {
    let source = r#"
        fn f() {
            identity! {
                identity!{
                    identity!{
                        let _a = 1+1;
                        assert_eq!(2,3);}}}
            ;
        }
    "#;
    assert_eq!(rewritten(source, Style::ASSERTIFY), text(source));
    assert_eq!(rewritten(source, Style::CHECKIFY), text(source));
    let flat = r#"fn f() { identity!{ let _a = 1+1; assert_eq!(2,3); } }"#;
    assert_eq!(rewritten(flat, Style::ASSERTIFY), text(flat));
}

#[test]
fn assertion_inside_an_assertion_is_left_as_written() {
    let source = r#"fn f() { assert!({ assert_eq!(1, 2); true }, "outer {}", 1); }"#;
    let expected =
        r#"fn f() { ::assert2ify::__assertify!({ assert_eq!(1, 2); true }, "outer {}", 1); }"#;
    assert_eq!(rewritten(source, Style::ASSERTIFY), text(expected));
    let nested = r#"fn f() { assert_eq!(identity!(assert!(true)), ()); }"#;
    let kept = r#"fn f() { ::assert2ify::__assertify!(identity!(assert!(true)) == (),); }"#;
    assert_eq!(rewritten(nested, Style::ASSERTIFY), text(kept));
}

#[test]
fn assertions_in_closures_and_nested_items_are_found() {
    let source = r#"
        fn f() {
            let check = |x: u8| { assert!(x > 1); };
            fn inner() { loop { assert_ne!(1, 2); } }
            println!("{}", 1);
        }
    "#;
    let expected = r#"
        fn f() {
            let check = |x: u8| { ::assert2ify::__assertify!(x > 1,); };
            fn inner() { loop { ::assert2ify::__assertify!(1 != 2,); } }
            println!("{}", 1);
        }
    "#;
    assert_eq!(rewritten(source, Style::ASSERTIFY), text(expected));
}

#[test]
fn too_few_arguments_end_the_rewriting() {
    let error = rewrite("fn f() { assert_eq!(2) }", Style::ASSERTIFY, None).err().unwrap();
    assert!(matches!(error.kind, ParseErrorKind::TooFewArguments { expected: 2, found: 1 }));
    assert_eq!(error.message(), "Too few arguments: expected 2 or more, got 1");
    let error = rewrite("fn f() { assert_ne!() }", Style::ASSERTIFY, None).err().unwrap();
    assert!(matches!(error.kind, ParseErrorKind::TooFewArguments { expected: 2, found: 0 }));
    assert_eq!(error.message(), "Too few arguments: expected 2 or more, got 0");
    let error = rewrite("fn f() { assert!() }", Style::CHECKIFY, None).err().unwrap();
    assert!(matches!(error.kind, ParseErrorKind::TooFewArguments { expected: 1, found: 0 }));
    assert_eq!(error.message(), "Too few arguments: expected 1 or more, got 0");
}

#[test]
fn the_first_refused_assertion_is_the_one_reported() {
    let source = "fn f() { assert!(true); identity!(assert_eq!(2)); assert!(); }";
    let error = rewrite(source, Style::ASSERTIFY, None).err().unwrap();
    assert!(matches!(error.kind, ParseErrorKind::TooFewArguments { expected: 2, found: 1 }));
}

#[test]
fn arguments_that_are_no_expressions_end_the_rewriting() {
    let error = rewrite("fn f() { assert_eq!(1 +, 2) }", Style::ASSERTIFY, None).err().unwrap();
    assert!(matches!(error.kind, ParseErrorKind::Malformed));
    assert_eq!(error.message(), "Arguments must be expressions separated by commas");
    let error = rewrite("fn f() { assert!(let x = 1; x) }", Style::ASSERTIFY, None).err().unwrap();
    assert!(matches!(error.kind, ParseErrorKind::Malformed));
}

#[test]
fn the_replacement_stands_where_the_assertion_stood() {
    let source = "fn f() {\n    let a = 1;\n      assert_eq!(a, 1);\n}";
    let function = syn::parse_str::<syn::ItemFn>(source).unwrap();
    let assertion = match &function.block.stmts[1] {
        syn::Stmt::Macro(statement) => statement.mac.clone(),
        _ => panic!("the second statement is the assertion"),
    };
    assert_eq!(assertion.span().start().line, 3);
    assert_eq!(assertion.span().start().column, 6);
    let rewriting = Assert2Ification::new(Style::ASSERTIFY, None);
    let replacement = match rewriting.fold_step(invocation(&assertion)) {
        Ok(FoldStep::Replaced(replacement)) => replacement,
        _ => panic!("the assertion is replaced"),
    };
    assert_eq!(replacement.span.start(), assertion.span().start());
    assert_eq!(replacement.span.end(), assertion.span().end());
    let emitted = written(replacement);
    assert_eq!(emitted.path.segments[0].ident.span().start(), assertion.span().start());
    let operator: Vec<Span> = emitted
        .tokens
        .clone()
        .into_iter()
        .filter_map(|tree| match tree {
            proc_macro2::TokenTree::Punct(punct) => Some(punct.span()),
            _ => None,
        })
        .collect();
    assert_eq!(operator.len(), 3);
    assert!(operator.iter().all(|span| span.start() == assertion.span().start()));
    let operands: Vec<TokenStream> = emitted
        .tokens
        .into_iter()
        .filter(|tree| !matches!(tree, proc_macro2::TokenTree::Punct(_)))
        .map(TokenStream::from)
        .collect();
    assert_eq!(operands.len(), 2);
    let first = operands[0].clone().into_iter().next().unwrap().span().start();
    assert_eq!((first.line, first.column), (3, 17));
}

#[test]
fn literals_of_every_kind_go_through() {
    let source = r#"
        fn f() {
            assert_eq!(m!(c"x"), 1);
            identity!(assert_eq!(m!(c"x"), 1));
            assert!(g(c"a") == cr"b", "{}", b"c");
            identity!(c"a");
        }
    "#;
    let expected = r#"
        fn f() {
            ::assert2ify::__assertify!(m!(c"x") == 1,);
            identity!(::assert2ify::__assertify!(m!(c"x") == 1,));
            ::assert2ify::__assertify!(g(c"a") == cr"b", "{}", b"c");
            identity!(c"a");
        }
    "#;
    assert_eq!(rewritten(source, Style::ASSERTIFY), text(expected));
}
