use std::collections::HashMap;

use erm::ast::FloatLiteral;
use erm::checker;
use erm::env::loader::{LoadStep, ModuleLoader, ReadOutcome};
use erm::env::{Environment, ModuleScope};
use erm::env::Error as ScopeFailure;
use erm::error::{self, Error};
use erm::evaluator::values::Value;
use erm::evaluator::{self, FloatArithmetic, FloatComparison, FloatOperation};
use erm::program::parse_program;
use erm::project::Settings;

struct F32Arithmetic;

impl FloatArithmetic for F32Arithmetic {
    fn operate(&self, operation: FloatOperation, left: &FloatLiteral, right: &FloatLiteral) -> FloatLiteral {
        let l: f32 = left.0.parse().unwrap();
        let r: f32 = right.0.parse().unwrap();
        let v = match operation {
            FloatOperation::Add => l + r,
            FloatOperation::Sub => l - r,
            FloatOperation::Mul => l * r,
        };
        FloatLiteral(format!("{:?}", v))
    }

    fn compare(&self, comparison: FloatComparison, left: &FloatLiteral, right: &FloatLiteral) -> bool {
        let l: f32 = left.0.parse().unwrap();
        let r: f32 = right.0.parse().unwrap();
        match comparison {
            FloatComparison::Gt => l > r,
            FloatComparison::Ge => l >= r,
            FloatComparison::Lt => l < r,
            FloatComparison::Le => l <= r,
        }
    }
}

const BASICS: &str = "module Basics exposing (..)

add =
    Elm.Kernel.Basics.add

sub =
    Elm.Kernel.Basics.sub

mul =
    Elm.Kernel.Basics.mul

append =
    Elm.Kernel.Basics.append

infix left 6 (+) = add
infix left 6 (-) = sub
infix left 7 (*) = mul
infix right 5 (++) = append
";

const STRING: &str = "module String exposing (..)

fromInt =
    Elm.Kernel.String.fromInt

append =
    Elm.Kernel.Basics.append
";

const LIST: &str = "module List exposing (..)

sum =
    Elm.Kernel.List.sum
";

const MAYBE: &str = "module Maybe exposing (..)

withDefault d m =
    d
";

fn core_files() -> HashMap<String, String> {
    let mut files = HashMap::new();
    files.insert("core/Basics.elm".to_string(), BASICS.to_string());
    files.insert("core/String.elm".to_string(), STRING.to_string());
    files.insert("core/List.elm".to_string(), LIST.to_string());
    files.insert("core/Maybe.elm".to_string(), MAYBE.to_string());
    files
}

fn load(
    module: erm::ast::Module,
    settings: &Settings,
    files: &HashMap<String, String>,
    requests: &mut Vec<String>,
) -> Result<ModuleScope, ScopeFailure> {
    let (mut loader, mut step) = ModuleLoader::start(module, settings);
    loop {
        match step {
            LoadStep::Finished(result) => return result,
            LoadStep::Read(path) => {
                requests.push(path.clone());
                let outcome = match files.get(&path) {
                    Some(source) => ReadOutcome::Source(source.clone()),
                    None => ReadOutcome::Missing,
                };
                step = loader.resume(outcome);
            }
        }
    }
}

fn run_with(source: &str, args: Vec<String>, files: &HashMap<String, String>) -> Result<Value, Error> {
    let settings = Settings {
        source_directories: vec!["src".to_string()],
    };
    let module = parse_program(source)?;
    let mut requests = Vec::new();
    let scope = load(module, &settings, files, &mut requests).map_err(Error::ScopeError)?;
    let environment = Environment::from_module_scope(scope);
    let module = parse_program(source)?;
    checker::check(&module, &environment, &settings).map_err(Error::CheckError)?;
    evaluator::evaluate(&module, args, &environment, &settings, &F32Arithmetic)
        .map_err(Error::EvaluateError)
}

fn output(result: Result<Value, Error>) -> String {
    match result {
        Err(error) => error::to_user_output(error),
        Ok(Value::String(string)) => string,
        Ok(value) => format!("{:?}", value),
    }
}

fn eval(source: &str) -> String {
    output(run_with(source, Vec::new(), &core_files()))
}

#[test]
fn program_basic_string() {
    let src = "module Main exposing (..)\nmain args =\n  \"hello, world\"\n";
    assert_eq!(eval(src), "hello, world");
}

#[test]
fn program_string_from_int() {
    let src = "module Main exposing (..)\nmain args =\n  String.fromInt 5\n";
    assert_eq!(eval(src), "5");
}

#[test]
fn program_add_ints() {
    let src = "module Main exposing (..)\nmain args =\n  String.fromInt (1 + 3)\n";
    assert_eq!(eval(src), "4");
}

#[test]
fn program_arithmetic_precedence() {
    let src = "module Main exposing (..)\nmain args =\n  String.fromInt (10 - 11 * 12 + 13)\n";
    assert_eq!(eval(src), "-109");
}

#[test]
fn program_string_concatenation() {
    let src = "module Main exposing (..)\nmain args =\n  \"a\" ++ \"bc\" ++ \"def\"\n";
    assert_eq!(eval(src), "abcdef");
}

#[test]
fn program_if_single_line() {
    let src = "module Main exposing (..)\nmain args =\n  if True then \"5\" else \"4\"\n";
    assert_eq!(eval(src), "5");
}

#[test]
fn program_case_on_booleans() {
    let src = "module Main exposing (..)\ntoText arg =\n  case arg of\n    True -> \"Hello\"\n    False -> \" case\"\nmain args =\n  (toText True) ++ (toText False)\n";
    assert_eq!(eval(src), "Hello case");
}

#[test]
fn program_case_on_integers_is_not_parsed() {
    let src = "module Main exposing (..)\ntoText arg =\n  case arg of\n    1 -> \"Hello\"\n    _ -> \" case\"\nmain args =\n  toText 1\n";
    assert!(eval(src).starts_with("Unexpected token.\n\n"));
}

#[test]
fn program_list_sum() {
    let src = "module Main exposing (..)\nmain args =\n  String.fromInt (List.sum [1, 2])\n";
    assert_eq!(eval(src), "3");
}

#[test]
fn program_add_int_and_string_is_a_type_error() {
    let src = "module Main exposing (..)\nmain args =\n  String.fromInt (1 + \"string\")\n";
    assert_eq!(
        eval(src),
        "Type error:\n\nFailedToUnify(\n    \"Constant(String)\",\n    \"Constant(Integer)\",\n)"
    );
}

#[test]
fn program_missing_module() {
    let src = "module Main exposing (..)\nimport Impl.Test\nmain args =\n  \"x\"\n";
    assert_eq!(eval(src), "Unable to find module:\n\nImpl.Test");
}

#[test]
fn program_module_looked_for_in_source_directories_first() {
    let src = "module Main exposing (..)\nimport Impl.Test\nmain args =\n  Impl.Test.greeting\n";
    let mut files = core_files();
    files.insert(
        "src/Impl/Test.elm".to_string(),
        "module Impl.Test exposing (..)\ngreeting =\n  String.append \"Hello, \" \"World\"\n".to_string(),
    );
    let result = run_with(src, Vec::new(), &files);
    assert_eq!(output(result), "Hello, World");
}

#[test]
fn program_loader_requests_candidates_in_order() {
    let src = "module Main exposing (..)\nmain args =\n  \"x\"\n";
    let module = parse_program(src).unwrap();
    let settings = Settings {
        source_directories: vec!["src".to_string(), "lib/".to_string()],
    };
    let mut requests = Vec::new();
    let result = load(module, &settings, &core_files(), &mut requests);
    assert!(result.is_ok());
    assert_eq!(
        requests,
        vec![
            "src/Basics.elm",
            "lib/Basics.elm",
            "core/Basics.elm",
            "src/String.elm",
            "lib/String.elm",
            "core/String.elm",
            "src/List.elm",
            "lib/List.elm",
            "core/List.elm",
            "src/Maybe.elm",
            "lib/Maybe.elm",
            "core/Maybe.elm",
        ]
    );
}

#[test]
fn program_unreadable_module() {
    let src = "module Main exposing (..)\nmain args =\n  \"x\"\n";
    let module = parse_program(src).unwrap();
    let settings = Settings::new();
    let (mut loader, step) = ModuleLoader::start(module, &settings);
    match step {
        LoadStep::Read(path) => assert_eq!(path, "core/Basics.elm"),
        LoadStep::Finished(_) => panic!("expected a request"),
    }
    match loader.resume(ReadOutcome::Unreadable) {
        LoadStep::Finished(Err(ScopeFailure::FailedToRead(path))) => {
            assert_eq!(path, "core/Basics.elm")
        }
        _ => panic!("expected a read failure"),
    }
}

#[test]
fn program_float_arithmetic_uses_the_supplied_arithmetic() {
    let src = "module Main exposing (..)\nmain args =\n  1.5 + 2.25\n";
    let module = parse_program(src).unwrap();
    let settings = Settings::new();
    let mut requests = Vec::new();
    let scope = load(module, &settings, &core_files(), &mut requests).unwrap();
    let environment = Environment::from_module_scope(scope);
    let module = parse_program(src).unwrap();
    let result = evaluator::evaluate(&module, Vec::new(), &environment, &settings, &F32Arithmetic)
        .map_err(Error::EvaluateError);
    assert_eq!(output(result), "Float(FloatLiteral(\"3.75\"))");
}

#[test]
fn program_unknown_binding() {
    let src = "module Main exposing (..)\nmain args =\n  nothing\n";
    let module = parse_program(src).unwrap();
    let settings = Settings::new();
    let mut requests = Vec::new();
    let scope = load(module, &settings, &core_files(), &mut requests).unwrap();
    let environment = Environment::from_module_scope(scope);
    let module = parse_program(src).unwrap();
    let result = evaluator::evaluate(&module, Vec::new(), &environment, &settings, &F32Arithmetic)
        .map_err(Error::EvaluateError);
    assert_eq!(output(result), "Unknown binding: nothing");
}

#[test]
fn program_main_args() {
    let src = "module Main exposing (..)\nmain args =\n  args\n";
    let module = parse_program(src).unwrap();
    let settings = Settings::new();
    let mut requests = Vec::new();
    let scope = load(module, &settings, &core_files(), &mut requests).unwrap();
    let environment = Environment::from_module_scope(scope);
    let module = parse_program(src).unwrap();
    let result = evaluator::evaluate(
        &module,
        vec!["Hello".to_string(), " world".to_string()],
        &environment,
        &settings,
        &F32Arithmetic,
    )
    .map_err(Error::EvaluateError);
    assert_eq!(
        output(result),
        "List([String(\"Hello\"), String(\" world\")])"
    );
}

#[test]
fn program_partial_application() {
    let src = "module Main exposing (..)\nadd3 a b c =\n  a + b + c\nmain args =\n  String.fromInt ((add3 1 2) 3)\n";
    let module = parse_program(src).unwrap();
    let settings = Settings::new();
    let mut requests = Vec::new();
    let scope = load(module, &settings, &core_files(), &mut requests).unwrap();
    let environment = Environment::from_module_scope(scope);
    let module = parse_program(src).unwrap();
    let result = evaluator::evaluate(&module, Vec::new(), &environment, &settings, &F32Arithmetic)
        .map_err(Error::EvaluateError);
    assert_eq!(output(result), "6");
}
