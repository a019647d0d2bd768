use erm::ast::QualifiedLowerName;
use erm::builtins;
use erm::checker::{self, unify};
use erm::env::Error as ScopeFailure;
use erm::error::{pretty_print, to_user_output, Error};
use erm::evaluator;
use erm::parser;

#[test]
fn file_error_text() {
    assert_eq!(to_user_output(Error::FileError), "File error");
}

#[test]
fn unexpected_token_shows_the_source() {
    let source = "module Main exposing (..)\nmain = \n".to_string();
    let text = to_user_output(Error::ParserError(
        parser::Error::UnexpectedToken {
            expected: "LowerName".to_string(),
            found: "Equals".to_string(),
            range: 31..32,
        },
        source,
    ));
    assert!(text.starts_with("Unexpected token.\n\n"));
    assert!(text.contains("sample:2:6"));
    assert!(text.contains("main = "));
}

#[test]
fn pretty_print_marks_the_range() {
    let text = pretty_print("abc\ndef".to_string(), 5..6);
    assert!(text.starts_with("error"));
    assert!(text.contains("sample:2:2"));
    assert!(text.contains("def"));
    assert_ne!(text, "abc\ndef");
}

#[test]
fn indent_and_line_start_errors() {
    let text = to_user_output(Error::ParserError(
        parser::Error::Indent { range: 0..1 },
        "x".to_string(),
    ));
    assert!(text.starts_with("Unexpected indentation.\n\n"));
    let text = to_user_output(Error::ParserError(
        parser::Error::TokenNotAtLineStart(0..1),
        "x".to_string(),
    ));
    assert!(text.starts_with("Token not at line start.\n\n"));
}

#[test]
fn parser_errors_without_text() {
    assert_eq!(
        to_user_output(Error::ParserError(parser::Error::UnexpectedEnd, String::new())),
        "Error text not written (36) UnexpectedEnd"
    );
    assert_eq!(
        to_user_output(Error::ParserError(
            parser::Error::TokensRemaining(vec!["a".to_string(), "b\"".to_string()]),
            String::new()
        )),
        "Error text not written (45) TokensRemaining([\"a\", \"b\\\"\"])"
    );
    assert_eq!(
        to_user_output(Error::ParserError(
            parser::Error::UnknownOperator("<|>".to_string()),
            String::new()
        )),
        "Error text not written (55) UnknownOperator(\"<|>\")"
    );
    assert_eq!(
        to_user_output(Error::ParserError(parser::Error::NameMismatch, String::new())),
        "Error text not written (65) NameMismatch"
    );
}

#[test]
fn checker_errors() {
    assert_eq!(
        to_user_output(Error::CheckError(checker::Error::UnifyError(
            unify::Error::FailedToUnify("Constant(String)".into(), "Constant(Integer)".into())
        ))),
        "Type error:\n\nFailedToUnify(\n    \"Constant(String)\",\n    \"Constant(Integer)\",\n)"
    );
    assert_eq!(
        to_user_output(Error::CheckError(checker::Error::UnknownFunction(
            QualifiedLowerName::from("String.join".to_string())
        ))),
        "Error text not written (88) UnknownFunction(QualifiedLowerName { modules: [\"String\"], access: [\"join\"] })"
    );
    assert_eq!(
        to_user_output(Error::CheckError(checker::Error::ArgumentMismatch(3))),
        "Error text not written (100) ArgumentMismatch(3)"
    );
    assert_eq!(
        to_user_output(Error::CheckError(checker::Error::Broken("no more args"))),
        "Error text not written (106) Broken(\"no more args\")"
    );
    assert_eq!(
        to_user_output(Error::CheckError(checker::Error::ScopeError(
            ScopeFailure::FailedToParse("a.elm".into(), parser::Error::Indent { range: 1..2 })
        ))),
        "Error text not written (109) ScopeError(FailedToParse(\"a.elm\", Indent { range: 1..2 }))"
    );
}

#[test]
fn checker_error_debug_text_matches_debug() {
    let error = checker::Error::UnhandledExpression("Float(1.5)".to_string());
    assert_eq!(erm::error::checker_error_text(&error), format!("{:?}", error));
    let error = checker::Error::UnknownFunction(QualifiedLowerName::from("A.b".to_string()));
    assert_eq!(erm::error::checker_error_text(&error), format!("{:?}", error));
}

#[test]
fn evaluator_errors() {
    assert_eq!(
        to_user_output(Error::EvaluateError(evaluator::Error::UnsupportedOperation)),
        "Error text not written (121)"
    );
    assert_eq!(
        to_user_output(Error::EvaluateError(evaluator::Error::UnknownFunction)),
        "Unable to find function"
    );
    assert_eq!(
        to_user_output(Error::EvaluateError(evaluator::Error::UnknownBinding(
            "x".to_string()
        ))),
        "Unknown binding: x"
    );
    assert_eq!(
        to_user_output(Error::EvaluateError(evaluator::Error::FunctionError(
            builtins::Error::WrongArity
        ))),
        "Error text not written (126) FunctionError(WrongArity)"
    );
    assert_eq!(
        to_user_output(Error::EvaluateError(evaluator::Error::NoMatchingCase)),
        "Error text not written (144) NoMatchingCase"
    );
}

#[test]
fn evaluator_error_debug_text_matches_debug() {
    let error = evaluator::Error::UnsupportedArgumentPattern("Integer(1)".to_string());
    assert_eq!(erm::error::evaluator_error_text(&error), format!("{:?}", error));
}

#[test]
fn parser_error_debug_text_matches_debug() {
    let error = parser::Error::UnexpectedToken {
        expected: "x".to_string(),
        found: "y\n".to_string(),
        range: 3..7,
    };
    assert_eq!(erm::error::parser_error_text(&error), format!("{:?}", error));
}

#[test]
fn scope_errors() {
    assert_eq!(
        to_user_output(Error::ScopeError(ScopeFailure::UnableToFindModule(
            "Impl.Test".to_string()
        ))),
        "Unable to find module:\n\nImpl.Test"
    );
    assert_eq!(
        to_user_output(Error::ScopeError(ScopeFailure::FailedToRead("a.elm".to_string()))),
        "Error text not written (154)"
    );
    assert_eq!(
        to_user_output(Error::ScopeError(ScopeFailure::FailedToParse(
            "a.elm".to_string(),
            parser::Error::Unknown
        ))),
        "Error text not written (156) FailedToParse(\"a.elm\", Unknown)"
    );
}

#[test]
fn reversed_range_is_rendered() {
    let text = to_user_output(Error::ParserError(
        parser::Error::Indent { range: 6..5 },
        "abc\ndefgh".to_string(),
    ));
    assert!(text.starts_with("Unexpected indentation.\n\n"));
    assert!(text.contains("defgh"));
    let text = pretty_print("abc\ndefgh".to_string(), 6..1);
    assert!(text.starts_with("error"));
}
