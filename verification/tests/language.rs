use erm::ast::{self, Associativity, Expr, Pattern, QualifiedLowerName, QualifiedUpperName};
use erm::bindings::Binding;
use erm::builtins::{self, BuiltIn, Func};
use erm::checker::term::{Term, Value as TermValue};
use erm::checker::Context;
use erm::env::{
    add_local_scope, get_built_in, Bindings, Environment, FoundBinding, GetBindingError,
    ModuleScope, Operator, Operators, Scope,
};
use erm::evaluator::values::Value;
use erm::evaluator::{pattern_matches_values, MAX_DEPTH};
use erm::lexer::{self, Token, TokenIter};
use erm::parser;
use erm::program::filter_hash_bang;
use erm::text::{i64_text, u64_text};

fn kinds(source: &str) -> Vec<String> {
    lexer::lex(source)
        .into_iter()
        .map(|(token, range)| format!("{:?}@{}..{}", token, range.start, range.end))
        .collect()
}

#[test]
fn lexer_module_header() {
    assert_eq!(
        kinds("module Main exposing (..)"),
        vec![
            "Module@0..6",
            "Space(1)@6..7",
            "UpperName(\"Main\")@7..11",
            "Space(1)@11..12",
            "Exposing@12..20",
            "Space(1)@20..21",
            "OpenParen@21..22",
            "Ellipsis@22..24",
            "CloseParen@24..25",
        ]
    );
}

#[test]
fn lexer_names_numbers_and_strings() {
    assert_eq!(
        kinds("Elm.Kernel.add 12 \"hi\""),
        vec![
            "LowerPath(\"Elm.Kernel.add\")@0..14",
            "Space(1)@14..15",
            "LiteralInteger(12)@15..17",
            "Space(1)@17..18",
            "LiteralString(\"hi\")@18..22",
        ]
    );
}

#[test]
fn lexer_spans_cover_the_source() {
    let source = "main args =\n  1 + 2 -- sum\n";
    let tokens = lexer::lex(source);
    let mut expected_start = 0;
    for (_, range) in &tokens {
        assert_eq!(range.start, expected_start);
        expected_start = range.end;
    }
    assert_eq!(expected_start, source.len());
}

#[test]
fn lexer_unknown_character_is_an_error_token() {
    let tokens = lexer::lex("§");
    assert_eq!(tokens.len(), 1);
    assert!(matches!(tokens[0].0, Token::Error));
    assert_eq!(tokens[0].1, 0..2);
}

#[test]
fn token_texts() {
    assert_eq!(Token::Module.to_text(), "Module");
    assert_eq!(Token::LowerName("x".to_string()).to_text(), "LowerName(\"x\")");
    assert_eq!(Token::LiteralInteger(-3).to_text(), "LiteralInteger(-3)");
}

#[test]
fn token_iter_peek_and_next() {
    let mut iter = TokenIter::from_source("a b");
    assert!(matches!(iter.peek(), Some((Token::LowerName(_), _))));
    assert!(matches!(iter.next(), Some((Token::LowerName(_), _))));
    assert!(matches!(iter.next(), Some((Token::Space(1), _))));
    assert!(matches!(iter.next(), Some((Token::LowerName(_), _))));
    assert!(iter.next().is_none());
}

#[test]
fn qualified_lower_name_round_trip() {
    let name = QualifiedLowerName::from("Elm.Kernel.Basics.add".to_string());
    assert_eq!(name.modules, vec!["Elm", "Kernel", "Basics"]);
    assert_eq!(name.access, vec!["add"]);
    assert_eq!(name.as_string(), "Elm.Kernel.Basics.add");
    assert_eq!(name.without_module().as_string(), "add");
    assert_eq!(QualifiedLowerName::simple("main".to_string()).as_string(), "main");
}

#[test]
fn qualified_upper_name_splits_last_segment() {
    let name = QualifiedUpperName::from("Maybe.Maybe").unwrap();
    assert_eq!(name.modules, vec!["Maybe"]);
    assert_eq!(name.access, "Maybe");
    assert_eq!(name.as_string(), "Maybe.Maybe");
}

#[test]
fn split_and_join() {
    assert_eq!(ast::split_on_dots("a.b..c"), vec!["a", "b", "", "c"]);
    assert_eq!(
        ast::join_strings(&vec!["a".to_string(), "b".to_string()], "/"),
        "a/b"
    );
    assert_eq!(ast::join_strings(&vec![], "/"), "");
}

#[test]
fn pattern_names() {
    assert_eq!(Pattern::Name("x".to_string()).names(), vec!["x"]);
    assert!(Pattern::Anything.names().is_empty());
    assert!(Pattern::Integer(3).names().is_empty());
}

#[test]
fn default_imports_come_first() {
    let module = parser::parse(&mut TokenIter::from_source(
        "module Main exposing (..)\nimport Impl.Test\nmain args =\n  1\n",
    ))
    .unwrap();
    let with = ast::with_default_imports(&module);
    let names: Vec<String> = with
        .imports
        .iter()
        .map(|import| import.module_name.join("."))
        .collect();
    assert_eq!(names, vec!["Basics", "String", "List", "Maybe", "Impl.Test"]);
}

#[test]
fn parser_precedences() {
    assert_eq!(parser::precedence(&"*".to_string()).ok(), Some(7));
    assert_eq!(parser::precedence(&"+".to_string()).ok(), Some(6));
    assert_eq!(parser::precedence(&"++".to_string()).ok(), Some(5));
    assert_eq!(parser::precedence(&"<=".to_string()).ok(), Some(4));
    assert!(matches!(
        parser::precedence(&"<|>".to_string()),
        Err(parser::Error::UnknownOperator(o)) if o == "<|>"
    ));
    assert_eq!(
        parser::has_greater_precedence(&"*".to_string(), &vec!["+".to_string()]).ok(),
        Some(true)
    );
    assert_eq!(
        parser::has_greater_precedence(&"+".to_string(), &vec!["*".to_string()]).ok(),
        Some(false)
    );
    assert_eq!(parser::has_greater_precedence(&"+".to_string(), &vec![]).ok(), Some(true));
}

#[test]
fn parser_builds_binary_expression_by_precedence() {
    let module = parser::parse(&mut TokenIter::from_source(
        "module Main exposing (..)\nmain args =\n  1 + 2 * 3\n",
    ))
    .unwrap();
    assert_eq!(module.statements.len(), 1);
    match &*module.statements[0] {
        ast::Stmt::Function { expr, .. } => match &**expr {
            Expr::BinOp { operator, left, right } => {
                assert_eq!(operator, "+");
                assert!(matches!(**left, Expr::Integer(1)));
                assert!(matches!(&**right, Expr::BinOp { operator, .. } if operator == "*"));
            }
            other => panic!("unexpected expression {:?}", other),
        },
        other => panic!("unexpected statement {:?}", other),
    }
}

#[test]
fn parser_reports_unexpected_token() {
    let result = parser::parse(&mut TokenIter::from_source("main = 1"));
    assert!(matches!(result, Err(parser::Error::UnexpectedToken { .. })));
}

#[test]
fn kernel_functions() {
    assert!(matches!(
        builtins::Add {}.call(vec![Value::Integer(2), Value::Integer(3)]),
        Ok(Value::Integer(5))
    ));
    assert!(matches!(
        builtins::Add {}.call(vec![Value::Integer(i32::MAX), Value::Integer(1)]),
        Ok(Value::Integer(i32::MIN))
    ));
    assert!(matches!(
        builtins::Sub {}.call(vec![Value::Integer(2), Value::Integer(3)]),
        Ok(Value::Integer(-1))
    ));
    assert!(matches!(
        builtins::Mul {}.call(vec![Value::Integer(4), Value::Integer(3)]),
        Ok(Value::Integer(12))
    ));
    assert!(matches!(
        builtins::Gt {}.call(vec![Value::Integer(4), Value::Integer(3)]),
        Ok(Value::Bool(true))
    ));
    assert!(matches!(
        builtins::Lt {}.call(vec![Value::Integer(4), Value::Integer(3)]),
        Ok(Value::Bool(false))
    ));
    assert!(matches!(
        builtins::StringFromInt {}.call(vec![Value::Integer(-42)]),
        Ok(Value::String(s)) if s == "-42"
    ));
    assert!(matches!(
        builtins::StringFromBool {}.call(vec![Value::Bool(true)]),
        Ok(Value::String(s)) if s == "true"
    ));
    assert!(matches!(
        builtins::Append {}.call(vec![Value::String("a".into()), Value::String("b".into())]),
        Ok(Value::String(s)) if s == "ab"
    ));
    assert!(matches!(
        builtins::ListSum {}.call(vec![Value::List(vec![
            Value::Integer(1),
            Value::String("x".into()),
            Value::Integer(2)
        ])]),
        Ok(Value::Integer(3))
    ));
    assert!(matches!(
        builtins::StringJoin {}.call(vec![Value::List(vec![
            Value::String("a".into()),
            Value::String("b".into())
        ])]),
        Ok(Value::String(s)) if s == "ab"
    ));
}

#[test]
fn kernel_function_errors() {
    assert!(matches!(
        builtins::Add {}.call(vec![Value::Integer(2)]),
        Err(builtins::Error::WrongArity)
    ));
    assert!(matches!(
        builtins::Add {}.call(vec![Value::Integer(2), Value::Bool(true)]),
        Err(builtins::Error::WrongArgumentType)
    ));
    assert!(matches!(
        builtins::StringFromInt {}.call(vec![Value::Bool(true)]),
        Err(builtins::Error::WrongArgumentType)
    ));
}

#[test]
fn kernel_terms() {
    assert_eq!(
        BuiltIn::StringFromInt(builtins::StringFromInt {}).term(),
        Term::Function(
            Box::new(Term::Constant(TermValue::Integer)),
            Box::new(Term::Constant(TermValue::String))
        )
    );
    assert_eq!(
        BuiltIn::ListSum(builtins::ListSum {}).term(),
        Term::Function(
            Box::new(Term::Type(
                "List".to_string(),
                vec![Term::Constant(TermValue::Integer)]
            )),
            Box::new(Term::Constant(TermValue::Integer))
        )
    );
}

#[test]
fn kernel_names() {
    let name = QualifiedLowerName::from("Elm.Kernel.List.sum".to_string());
    assert!(matches!(get_built_in(&name), Some(BuiltIn::ListSum(_))));
    let other = QualifiedLowerName::from("Elm.Kernel.List.map".to_string());
    assert!(get_built_in(&other).is_none());
}

#[test]
fn bindings_later_insert_wins() {
    let mut bindings = Bindings::new();
    let name = QualifiedLowerName::simple("x".to_string());
    bindings.insert(name.copy(), Binding::Value(Value::Integer(1)));
    bindings.insert(name.copy(), Binding::Value(Value::Integer(2)));
    assert!(matches!(bindings.get(&name), Some(Binding::Value(Value::Integer(2)))));
    assert!(bindings
        .get(&QualifiedLowerName::simple("y".to_string()))
        .is_none());
}

#[test]
fn operators_lookup() {
    let mut operators = Operators::new();
    operators.insert(
        "+".to_string(),
        Operator {
            operator_name: "+".to_string(),
            associativity: Associativity::Left,
            precedence: 6,
            function_name: QualifiedLowerName::simple("add".to_string()),
            binding: Binding::Value(Value::Integer(0)),
        },
    );
    assert_eq!(operators.get("+").map(|o| o.precedence), Some(6));
    assert!(operators.get("-").is_none());
}

#[test]
fn inner_scope_shadows_outer() {
    let mut outer = Bindings::new();
    outer.insert(
        QualifiedLowerName::simple("x".to_string()),
        Binding::Value(Value::Integer(1)),
    );
    let module_scope = ModuleScope::from_parts(
        &vec!["Main".to_string()],
        &ast::Exposing::All,
        &vec![],
        vec![],
    );
    let environment = Environment::from_module_scope(module_scope);
    let environment = add_local_scope(&environment, Scope::from_bindings(outer));
    let mut inner = Bindings::new();
    inner.insert(
        QualifiedLowerName::simple("x".to_string()),
        Binding::Value(Value::Integer(2)),
    );
    let environment = add_local_scope(&environment, Scope::from_bindings(inner));
    match environment.get_binding(&QualifiedLowerName::simple("x".to_string())) {
        Ok(FoundBinding::WithEnv(Binding::Value(Value::Integer(v)), _)) => assert_eq!(v, 2),
        _ => panic!("expected the inner binding"),
    }
    assert!(matches!(
        environment.get_binding(&QualifiedLowerName::simple("y".to_string())),
        Err(GetBindingError::Unknown)
    ));
    assert!(matches!(
        environment.get_binding(&QualifiedLowerName::from("Elm.Kernel.Basics.add".to_string())),
        Ok(FoundBinding::BuiltInFunc(_))
    ));
}

#[test]
fn module_scope_bindings_and_operators() {
    let module = parser::parse(&mut TokenIter::from_source(
        "module Main exposing (..)\nadd =\n  Elm.Kernel.Basics.add\ninfix left 6 (+) = add\n",
    ))
    .unwrap();
    let scope = ModuleScope::from_parts(
        &module.name,
        &module.exposing,
        &module.statements,
        vec![],
    );
    assert!(matches!(
        scope.get_binding(&QualifiedLowerName::simple("add".to_string())),
        Some(Binding::UserBinding(_))
    ));
    let operator = scope.get_operator("+").unwrap();
    assert_eq!(operator.precedence, 6);
    assert_eq!(operator.function_name.as_string(), "add");
    assert!(scope.get_operator("-").is_none());
}

#[test]
fn case_patterns_match_values() {
    assert!(pattern_matches_values(&Pattern::Integer(1), &Value::Integer(1)));
    assert!(!pattern_matches_values(&Pattern::Integer(1), &Value::Integer(2)));
    assert!(pattern_matches_values(&Pattern::Bool(false), &Value::Bool(false)));
    assert!(pattern_matches_values(&Pattern::Anything, &Value::String("s".into())));
    assert!(!pattern_matches_values(&Pattern::Name("x".into()), &Value::Integer(1)));
}

#[test]
fn evaluation_depth_is_bounded_by_the_machine_only() {
    assert_eq!(MAX_DEPTH, usize::MAX);
}

#[test]
fn fresh_variables_are_numbered() {
    let mut context = Context::new();
    assert_eq!(context.unique_var(), Term::Var("var-1".to_string()));
    assert_eq!(context.unique_var(), Term::Var("var-2".to_string()));
    assert_eq!(context.next_unique_id, 3);
}

#[test]
fn term_debug_text_matches_debug() {
    let term = Term::Function(
        Box::new(Term::Var("a\"b".to_string())),
        Box::new(Term::Type(
            "List".to_string(),
            vec![Term::Constant(TermValue::Bool), Term::Constant(TermValue::Float)],
        )),
    );
    assert_eq!(term.debug_text(), format!("{:?}", term));
}

#[test]
fn hash_bang_line_is_dropped() {
    assert_eq!(filter_hash_bang("#!/usr/bin/erm\nab\n  cd".to_string()), "ab\n  cd");
    assert_eq!(filter_hash_bang("ab\ncd".to_string()), "ab\ncd");
    assert_eq!(filter_hash_bang("#!only".to_string()), "");
    assert_eq!(filter_hash_bang("#!\n".to_string()), "");
    assert_eq!(filter_hash_bang("a#!\nb".to_string()), "a#!\nb");
}

#[test]
fn number_texts() {
    assert_eq!(u64_text(0), "0");
    assert_eq!(u64_text(1234567890), "1234567890");
    assert_eq!(i64_text(-5), "-5");
    assert_eq!(i64_text(i64::MIN), i64::MIN.to_string());
}

#[test]
fn placing_an_operator_keeps_operand_order() {
    let mut operators = vec!["+".to_string()];
    let mut operands = vec![Expr::Integer(1), Expr::Integer(2)];
    parser::process_stacks(&"-".to_string(), &mut operators, &mut operands).unwrap();
    assert_eq!(operators, vec!["-".to_string()]);
    assert_eq!(operands.len(), 1);
    match &operands[0] {
        Expr::BinOp { operator, left, right } => {
            assert_eq!(operator, "+");
            assert!(matches!(**left, Expr::Integer(1)));
            assert!(matches!(**right, Expr::Integer(2)));
        }
        other => panic!("unexpected operand {:?}", other),
    }
}

#[test]
fn applying_an_operator_needs_two_operands() {
    let mut operators = vec!["*".to_string()];
    let mut operands = vec![Expr::Integer(1)];
    let result = parser::process_stacks(&"+".to_string(), &mut operators, &mut operands);
    assert!(matches!(result, Err(parser::Error::NoOperand)));
}
