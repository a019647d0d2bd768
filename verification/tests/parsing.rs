use erm::ast::{Associativity, Expr, Exposing, ExposingDetail, Module, Pattern, Stmt, Type};
use erm::lexer::TokenIter;
use erm::parser;
use std::rc::Rc;

fn parse(source: &str) -> Result<Module, parser::Error> {
    parser::parse(&mut TokenIter::from_source(source))
}

fn binding_expr(source: &str) -> Rc<Expr> {
    let module = parse(source).unwrap();
    assert_eq!(module.statements.len(), 1);
    match &*module.statements[0] {
        Stmt::Binding { expr, .. } => expr.clone(),
        other => panic!("expected a binding, got {:?}", other),
    }
}

#[test]
fn parses_if_expression() {
    let expr = binding_expr("module Main exposing (..)\nx =\n  if True then 1 else 2\n");
    match &*expr {
        Expr::If { condition, then_branch, else_branch } => {
            assert!(matches!(**condition, Expr::Bool(true)));
            assert!(matches!(**then_branch, Expr::Integer(1)));
            assert!(matches!(**else_branch, Expr::Integer(2)));
        }
        other => panic!("unexpected expression {:?}", other),
    }
}

#[test]
fn parses_case_expression_with_aligned_branches() {
    let expr = binding_expr("module Main exposing (..)\nx =\n  case y of\n    True -> 1\n    False -> 2\n");
    match &*expr {
        Expr::Case { expr, branches } => {
            assert!(matches!(&**expr, Expr::VarName(n) if n.access == vec!["y".to_string()]));
            assert_eq!(branches.len(), 2);
            assert!(matches!(branches[0], (Pattern::Bool(true), Expr::Integer(1))));
            assert!(matches!(branches[1], (Pattern::Bool(false), Expr::Integer(2))));
        }
        other => panic!("unexpected expression {:?}", other),
    }
}

#[test]
fn parses_list_literal_and_call() {
    let expr = binding_expr("module Main exposing (..)\nx =\n  List.length [1, 2, 3]\n");
    match &*expr {
        Expr::Call { function, args } => {
            assert!(matches!(&**function, Expr::VarName(n)
                if n.modules == vec!["List".to_string()] && n.access == vec!["length".to_string()]));
            assert_eq!(args.len(), 1);
            match &*args[0] {
                Expr::List(items) => {
                    assert_eq!(items.len(), 3);
                    assert!(matches!(*items[2], Expr::Integer(3)));
                }
                other => panic!("unexpected argument {:?}", other),
            }
        }
        other => panic!("unexpected expression {:?}", other),
    }
}

#[test]
fn parentheses_group_before_precedence() {
    let expr = binding_expr("module Main exposing (..)\nx =\n  (1 + 2) * 3\n");
    match &*expr {
        Expr::BinOp { operator, left, right } => {
            assert_eq!(operator, "*");
            assert!(matches!(&**left, Expr::BinOp { operator, .. } if operator == "+"));
            assert!(matches!(**right, Expr::Integer(3)));
        }
        other => panic!("unexpected expression {:?}", other),
    }
}

#[test]
fn equal_precedence_groups_to_the_left() {
    let expr = binding_expr("module Main exposing (..)\nx =\n  1 - 2 - 3\n");
    match &*expr {
        Expr::BinOp { operator, left, right } => {
            assert_eq!(operator, "-");
            assert!(matches!(&**left, Expr::BinOp { operator, .. } if operator == "-"));
            assert!(matches!(**right, Expr::Integer(3)));
        }
        other => panic!("unexpected expression {:?}", other),
    }
}

#[test]
fn string_and_float_literals() {
    let expr = binding_expr("module Main exposing (..)\nx =\n  f \"hi\" 1.5\n");
    match &*expr {
        Expr::Call { args, .. } => {
            assert!(matches!(&*args[0], Expr::String(s) if s == "hi"));
            assert!(matches!(&*args[1], Expr::Float(f) if f.0 == "1.5"));
        }
        other => panic!("unexpected expression {:?}", other),
    }
}

#[test]
fn parses_function_with_annotation() {
    let module = parse("module Main exposing (..)\nadd : Int -> Int -> Int\nadd a b = a + b\n").unwrap();
    match &*module.statements[0] {
        Stmt::Function { type_annotation, name, args, .. } => {
            assert_eq!(name.0, "add");
            assert_eq!(args.len(), 2);
            assert!(matches!(&args[0], Pattern::Name(n) if n == "a"));
            let annotation = type_annotation.as_ref().unwrap();
            assert_eq!(annotation.name.0, "add");
            assert_eq!(
                format!("{:?}", annotation.type_),
                "Function { from: Function { from: Int, to: Int }, to: Int }"
            );
        }
        other => panic!("unexpected statement {:?}", other),
    }
}

#[test]
fn parses_type_declaration() {
    let module = parse("module Main exposing (..)\ntype Maybe a = Just a | Nothing\nx = 1\n").unwrap();
    assert_eq!(module.statements.len(), 2);
    match &*module.statements[0] {
        Stmt::Type { name, args, constructors } => {
            assert_eq!(name.0, "Maybe");
            assert_eq!(args.len(), 1);
            assert_eq!(args[0].0, "a");
            assert_eq!(constructors.len(), 2);
            match &constructors[0] {
                Type::UserDefined { name, args } => {
                    assert_eq!(name.access, "Just");
                    assert!(matches!(&args[0], Type::Var(v) if v.0 == "a"));
                }
                other => panic!("unexpected constructor {:?}", other),
            }
            assert!(matches!(&constructors[1], Type::UserDefined { args, .. } if args.is_empty()));
        }
        other => panic!("unexpected statement {:?}", other),
    }
}

#[test]
fn parses_list_type_argument() {
    let module = parse("module Main exposing (..)\nxs : List Int\nxs = [1]\n").unwrap();
    match &*module.statements[0] {
        Stmt::Binding { type_annotation, .. } => {
            assert_eq!(format!("{:?}", type_annotation.as_ref().unwrap().type_), "List(Int)");
        }
        other => panic!("unexpected statement {:?}", other),
    }
}

#[test]
fn parses_infix_declaration() {
    let module = parse("module Main exposing (..)\ninfix left 6 (+) = add\n").unwrap();
    match &*module.statements[0] {
        Stmt::Infix { operator_name, associativity, precedence, function_name } => {
            assert_eq!(operator_name, "+");
            assert!(matches!(associativity, Associativity::Left));
            assert_eq!(*precedence, 6);
            assert_eq!(function_name.access, vec!["add".to_string()]);
        }
        other => panic!("unexpected statement {:?}", other),
    }
}

#[test]
fn parses_imports_with_exposing_lists() {
    let module = parse(
        "module Main exposing (main, (+))\nimport Foo.Bar exposing (baz, (+))\nimport Qux\nmain = 1\n",
    )
    .unwrap();
    assert_eq!(module.name, vec!["Main".to_string()]);
    match &module.exposing {
        Exposing::List(details) => {
            assert_eq!(details.len(), 2);
            assert!(matches!(&details[0], ExposingDetail::Name(n) if n == "main"));
            assert!(matches!(&details[1], ExposingDetail::Operator(o) if o == "+"));
        }
        other => panic!("unexpected exposing {:?}", other),
    }
    assert_eq!(module.imports.len(), 2);
    assert_eq!(module.imports[0].module_name, vec!["Foo".to_string(), "Bar".to_string()]);
    assert!(matches!(&module.imports[0].exposing, Some(Exposing::List(d)) if d.len() == 2));
    assert_eq!(module.imports[1].module_name, vec!["Qux".to_string()]);
    assert!(module.imports[1].exposing.is_none());
}

#[test]
fn expression_below_its_binding_must_be_indented() {
    let err = parse("module Main exposing (..)\nmain =\n1\n").unwrap_err();
    assert_eq!(format!("{:?}", err), "Indent { range: 33..34 }");
}

#[test]
fn exposing_a_type_is_not_read() {
    let err = parse("module Main exposing (Foo)\n").unwrap_err();
    assert_eq!(
        format!("{:?}", err),
        "UnknownExposing(\"Some((UpperName(\\\"Foo\\\"), 22..25))\")"
    );
}

#[test]
fn list_type_needs_one_argument() {
    let err = parse("module Main exposing (..)\nx : List -> Int\nx = 1\n").unwrap_err();
    assert!(matches!(err, parser::Error::Unknown));
}

#[test]
fn annotation_and_definition_names_must_agree() {
    let err = parse("module Main exposing (..)\nx : Int\ny = 1\n").unwrap_err();
    assert!(matches!(err, parser::Error::NameMismatch));
}

#[test]
fn import_continues_on_its_line_only_with_exposing() {
    let err = parse("module Main exposing (..)\nimport Foo bar\n").unwrap_err();
    assert_eq!(format!("{:?}", err), "TokenNotAtLineStart(37..40)");
}

#[test]
fn missing_expression_is_an_unexpected_end() {
    let err = parse("module Main exposing (..)\nmain =").unwrap_err();
    assert!(matches!(err, parser::Error::UnexpectedEnd));
}

#[test]
fn unknown_operator_in_expression() {
    let err = parse("module Main exposing (..)\nx = 1 + 2 <|> 3\n").unwrap_err();
    assert_eq!(format!("{:?}", err), "UnknownOperator(\"<|>\")");
}
