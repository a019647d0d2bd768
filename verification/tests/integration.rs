use std::collections::HashMap;

use erm::ast::FloatLiteral;
use erm::checker;
use erm::env::loader::{LoadStep, ModuleLoader, ReadOutcome};
use erm::env::{Environment, ModuleScope};
use erm::env::Error as ScopeFailure;
use erm::error::{self, Error};
use erm::evaluator::values::Value;
use erm::evaluator::{self, FloatArithmetic, FloatComparison, FloatOperation};
use erm::program::parse_program;
use erm::project::Settings;

struct F32Arithmetic;

impl FloatArithmetic for F32Arithmetic {
    fn operate(&self, operation: FloatOperation, left: &FloatLiteral, right: &FloatLiteral) -> FloatLiteral {
        let l: f32 = left.0.parse().unwrap();
        let r: f32 = right.0.parse().unwrap();
        let v = match operation {
            FloatOperation::Add => l + r,
            FloatOperation::Sub => l - r,
            FloatOperation::Mul => l * r,
        };
        FloatLiteral(format!("{:?}", v))
    }

    fn compare(&self, comparison: FloatComparison, left: &FloatLiteral, right: &FloatLiteral) -> bool {
        let l: f32 = left.0.parse().unwrap();
        let r: f32 = right.0.parse().unwrap();
        match comparison {
            FloatComparison::Gt => l > r,
            FloatComparison::Ge => l >= r,
            FloatComparison::Lt => l < r,
            FloatComparison::Le => l <= r,
        }
    }
}

/// The core modules, as the programs below use them.
fn core_files() -> HashMap<String, String> {
    let mut files = HashMap::new();
    files.insert(
        "core/Basics.elm".to_string(),
        "module Basics exposing (..)

add =
    Elm.Kernel.Basics.add

sub =
    Elm.Kernel.Basics.sub

mul =
    Elm.Kernel.Basics.mul

gt =
    Elm.Kernel.Basics.gt

lt =
    Elm.Kernel.Basics.lt

append =
    Elm.Kernel.Basics.append

infix left 6 (+) = add
infix left 6 (-) = sub
infix left 7 (*) = mul
infix non 4 (>) = gt
infix non 4 (<) = lt
infix right 5 (++) = append
"
        .to_string(),
    );
    files.insert(
        "core/String.elm".to_string(),
        "module String exposing (..)

fromInt =
    Elm.Kernel.String.fromInt

join sep chunks =
    Elm.Kernel.String.join chunks

append =
    Elm.Kernel.Basics.append
"
        .to_string(),
    );
    files.insert(
        "core/List.elm".to_string(),
        "module List exposing (..)

sum =
    Elm.Kernel.List.sum
"
        .to_string(),
    );
    files.insert(
        "core/Maybe.elm".to_string(),
        "module Maybe exposing (..)

withDefault d m =
    d
"
        .to_string(),
    );
    files
}

/// The modules below the `tests/modules` source directory.
fn test_module_files() -> HashMap<String, String> {
    let mut files = core_files();
    files.insert(
        "tests/modules/Impl/Test.elm".to_string(),
        "module Impl.Test exposing (..)
import Impl.Test.Other

hello =
    \"Hello, World\"

hello_from_import =
    Impl.Test.Other.hello

hello_from_prelude =
    String.append \"Hello, \" \"prelude\"
"
        .to_string(),
    );
    files.insert(
        "tests/modules/Impl/Test/Other.elm".to_string(),
        "module Impl.Test.Other exposing (..)

hello =
    \"Hello from another module\"
"
        .to_string(),
    );
    files
}

/// The text without the indentation common to its lines, and without a leading line break.
fn unindent(s: &str) -> String {
    let body = s.strip_prefix('\n').unwrap_or(s);
    let lines: Vec<&str> = body.split('\n').collect();
    let spaces = lines
        .iter()
        .filter(|l| !l.trim().is_empty())
        .map(|l| l.len() - l.trim_start().len())
        .min()
        .unwrap_or(0);
    lines
        .iter()
        .map(|l| if l.len() > spaces { &l[spaces..] } else { "" })
        .collect::<Vec<_>>()
        .join("\n")
}

fn load(
    module: erm::ast::Module,
    settings: &Settings,
    files: &HashMap<String, String>,
) -> Result<ModuleScope, ScopeFailure> {
    let (mut loader, mut step) = ModuleLoader::start(module, settings);
    loop {
        match step {
            LoadStep::Finished(result) => return result,
            LoadStep::Read(path) => {
                let outcome = match files.get(&path) {
                    Some(source) => ReadOutcome::Source(source.clone()),
                    None => ReadOutcome::Missing,
                };
                step = loader.resume(outcome);
            }
        }
    }
}

fn eval_it(source: &str, args: Vec<String>, settings: &Settings, files: &HashMap<String, String>) -> Result<Value, Error> {
    let source = unindent(source);
    let module = parse_program(&source)?;
    let scope = load(module, settings, files).map_err(Error::ScopeError)?;
    let environment = Environment::from_module_scope(scope);
    let module = parse_program(&source)?;
    checker::check(&module, &environment, settings).map_err(Error::CheckError)?;
    evaluator::evaluate(&module, args, &environment, settings, &F32Arithmetic)
        .map_err(Error::EvaluateError)
}

fn output(result: Result<Value, Error>) -> String {
    match result {
        Err(error) => error::to_user_output(error),
        Ok(Value::String(string)) => string,
        Ok(value) => format!("{:?}", value),
    }
}

fn eval(source: &str) -> String {
    output(eval_it(source, Vec::new(), &Settings::new(), &core_files()))
}

fn eval_with_args(source: &str, args: Vec<String>) -> String {
    output(eval_it(source, args, &Settings::new(), &core_files()))
}

fn eval_in_test_modules(source: &str) -> String {
    let settings = Settings {
        source_directories: vec!["tests/modules".to_string()],
    };
    output(eval_it(source, Vec::new(), &settings, &test_module_files()))
}

#[test]
fn basic_string() {
    let src = r#"
        module Main exposing (..)
        main args =
          "hello, world"
        "#;
    let result = eval(src);
    assert_eq!(result, "hello, world");
}

#[test]
fn string_from_int() {
    let src = r#"
        module Main exposing (..)
        main args =
          String.fromInt 5
        "#;
    let result = eval(src);
    assert_eq!(result, "5");
}

#[test]
fn add_ints() {
    let src = r#"
        module Main exposing (..)
        main args =
          String.fromInt (1 + 3)
        "#;
    let result = eval(src);
    assert_eq!(result, "4");
}

#[test]
fn add_int_and_string_fails() {
    let src = r#"
        module Main exposing (..)
        main args =
          String.fromInt (1 + "string")
        "#;
    let result = eval(src);
    assert_eq!(result, "Type error:\n\nFailedToUnify(\n    \"Constant(String)\",\n    \"Constant(Integer)\",\n)");
}

#[test]
fn arithmetic_precedence() {
    let src = r#"
        module Main exposing (..)
        main args =
          String.fromInt (10 - 11 * 12 + 13)
        "#;
    let result = eval(src);
    assert_eq!(result, "-109");
}

#[test]
fn arithmetic_parenthesis() {
    let src = r#"
        module Main exposing (..)
        main args =
          String.fromInt ((10 - 11) * (12 + 13))
        "#;
    let result = eval(src);
    assert_eq!(result, "-25");
}

#[test]
fn int_comparison_gt() {
    let src = r#"
        module Main exposing (..)
        stringFromBool boolean =
          if boolean then
            "True"
          else
            "False"
        main args =
          stringFromBool (8 + 12 > 7 + 5)
        "#;
    let result = eval(src);
    assert_eq!(result, "True");
}

#[test]
fn int_comparison_lt() {
    let src = r#"
        module Main exposing (..)
        stringFromBool boolean = if boolean then "True" else "False"
        main args =
          stringFromBool (8 + 12 < 7 + 5)
        "#;
    let result = eval(src);
    assert_eq!(result, "False");
}

#[test]
fn string_concatenation() {
    let src = r#"
        module Main exposing (..)
        main args =
          "a" ++ "bc" ++ "def"
        "#;
    let result = eval(src);
    assert_eq!(result, "abcdef");
}

#[test]
fn if_statement_single_line() {
    let src = r#"
        module Main exposing (..)
        main args =
          if True then "5" else "4"
        "#;
    let result = eval(src);
    assert_eq!(result, "5");
}

#[test]
fn if_statement_multi_line() {
    let src = r#"
        module Main exposing (..)
        main args =
          if False then
            String.fromInt 5
          else
            "4"
        "#;
    let result = eval(src);
    assert_eq!(result, "4");
}

#[test]
fn if_statement_multi_line_bad() {
    let src = r#"
        module Main exposing (..)
        main args =
          if False then
        5
          else
            4
        "#;
    let result = eval(src);
    assert_eq!(result, "Unexpected indentation.\n\nerror: \n  ┌─ sample:4:1\n  │\n4 │ 5\n  │ ^\n\n");
}

#[test]
fn nested_if_statement() {
    let src = r#"
        module Main exposing (..)
        main args =
          if True then
            if False then
              "8"
            else
              "12"
          else
            "23"
        "#;
    let result = eval(src);
    assert_eq!(result, "12");
}

#[test]
fn main_args() {
    let src = r#"
        module Main exposing (..)
        main args =
          String.join "" args
        "#;
    let result = eval_with_args(src, vec!["Hello".to_string(), " world".to_string()]);
    assert_eq!(result, "Hello world");
}

#[test]
fn boolean_case_statement() {
    let src = r#"
        module Main exposing (..)

        toText arg =
          case arg of
            True -> "Hello"
            False -> " case statements"

        main : List String -> String
        main args =
            (toText True) ++ (toText False)
        "#;
    let result = eval(src);
    assert_eq!(result, "Hello case statements");
}

#[test]
fn integer_case_statement() {
    let src = r#"
        module Main exposing (..)

        toText arg =
          case arg of
            1 -> "Hello"
            2 -> " integer"
            _ -> " case statements"

        main : List String -> String
        main args =
            (toText 1) ++ (toText 2) ++ (toText 3)
        "#;
    let result = eval(src);
    assert_eq!(result, "Unexpected token.\n\nerror: \n  ┌─ sample:5:5\n  │\n5 │     1 -> \"Hello\"\n  │     ^\n\n");
}

#[test]
fn error_on_float_case_statement() {
    let src = r#"
        module Main exposing (..)

        toText arg =
          case arg of
            1.1 -> "Hello"
            2.3 -> " integer"
            _ -> " case statements"

        main : List String -> String
        main args =
            (toText 1.1) ++ (toText 2.3)
        "#;
    let result = eval(src);
    assert_eq!(result, "Unexpected token.\n\nerror: \n  ┌─ sample:5:5\n  │\n5 │     1.1 -> \"Hello\"\n  │     ^^^\n\n");
}

#[test]
fn match_any_with_underscore() {
    let src = r#"
        module Main exposing (..)

        toText arg =
          case arg of
            True -> "Hello"
            _ -> " case statements with an underscore"

        main : List String -> String
        main args =
            (toText True) ++ (toText False)
        "#;
    let result = eval(src);
    assert_eq!(result, "Unexpected token.\n\nerror: \n  ┌─ sample:6:5\n  │\n6 │     _ -> \" case statements with an underscore\"\n  │     ^\n\n");
}

#[test]
fn single_line_comment() {
    let src = r#"
        module Main exposing (..)

        -- This is a comment
        main : List String -> String
        main args =
            "Hello comments"
        "#;
    let result = eval(src);
    assert_eq!(result, "Hello comments");
}

#[test]
fn multi_line_comment() {
    let src = r#"
        module Main exposing (..)

        {- This is a comment
        -}
        main : List String -> String
        main args =
            "Hello comments"
        "#;
    let result = eval(src);
    assert_eq!(result, "Hello comments");
}

#[test]
fn multi_line_comment_on_single_line() {
    let src = r#"
        module Main exposing (..)

        {- This is a comment -}
        main : List String -> String
        main args =
            "Hello comments"
        "#;
    let result = eval(src);
    assert_eq!(result, "Hello comments");
}

#[test]
fn function_call_simple() {
    let src = r#"
        module Main exposing (..)
        add1 x = x + 1
        main args =
          String.fromInt (add1 5)
        "#;
    let result = eval(src);
    assert_eq!(result, "6");
}

#[test]
fn function_call_with_paren_args() {
    let src = r#"
        module Main exposing (..)
        addTogether x y = x + y
        main args =
          String.fromInt (addTogether (addTogether 2 5) 8)
        "#;
    let result = eval(src);
    assert_eq!(result, "15");
}

#[test]
fn function_clashes_with_operator_func() {
    let src = r#"
        module Main exposing (..)
        add x y = x + y
        main args =
          String.fromInt (add 2 5)
        "#;
    let result = eval(src);
    assert_eq!(result, "7");
}

#[test]
fn function_calls_function() {
    let src = r#"
        module Main exposing (..)
        sub1 y = y - 1
        add1 x = sub1 x + 2
        main args =
          String.fromInt (add1 2)
        "#;
    let result = eval(src);
    assert_eq!(result, "3");
}

#[test]
fn function_calls_same_args() {
    let src = r#"
        module Main exposing (..)
        sub1 x = x - 1
        add1 x = sub1 x + 2
        main args =
          String.fromInt (add1 2)
        "#;
    let result = eval(src);
    assert_eq!(result, "3");
}

#[test]
fn function_partially_applied() {
    let src = r#"
        module Main exposing (..)
        add x y = x + y
        main args =
          String.fromInt ((add 2) 3)
        "#;
    let result = eval(src);
    assert_eq!(result, "5");
}

#[test]
fn function_two_partially_applied() {
    let src = r#"
        module Main exposing (..)
        add x y = x + y
        main args =
          String.fromInt ((add 3) ((add 2) 3))
        "#;
    let result = eval(src);
    assert_eq!(result, "8");
}

#[test]
fn function_double_partially_applied() {
    let src = r#"
        module Main exposing (..)
        add x y z = x + y + z
        main args =
          String.fromInt (((add 3) 4) 5)
        "#;
    let result = eval(src);
    assert_eq!(result, "12");
}

#[test]
fn underscore_as_argument() {
    let src = r#"
        module Main exposing (..)
        add x y z = x + y + z
        main args =
          String.fromInt (add _ 1 2)
        "#;
    let result = eval(src);
    assert_eq!(result, "Error text not written (94) UnknownVarName(\"_\")");
}

#[test]
fn unable_to_find_import() {
    let src = r#"
        module Main exposing (..)
        import Does.Not.Exist
        main args =
          String.append "Hello, " "World"
        "#;
    let result = eval(src);
    assert_eq!(result, "Unable to find module:\n\nDoes.Not.Exist");
}

#[test]
fn imports_module_from_configured_folder() {
    let src = r#"
        module Main exposing (..)
        import Impl.Test
        main args =
          Impl.Test.hello
        "#;
    let result = eval_in_test_modules(src);
    assert_eq!(result, "Hello, World");
}

#[test]
fn imports_module_from_imported_module() {
    let src = r#"
        module Main exposing (..)
        import Impl.Test
        main args =
          Impl.Test.hello_from_import
        "#;
    let result = eval_in_test_modules(src);
    assert_eq!(result, "Hello from another module");
}

#[test]
fn import_specific_symbol() {
    let src = r#"
        module Main exposing (..)
        import Impl.Test exposing (hello)
        main args =
          hello
        "#;
    let result = eval_in_test_modules(src);
    assert_eq!(result, "Hello, World");
}

#[test]
fn indented_first_import_fails() {
    let src = r#"
        module Main exposing (..)
          import Impl.Test exposing (hello)
        main args =
          hello
        "#;
    let result = eval_in_test_modules(src);
    assert_eq!(result, "Token not at line start.\n\nerror: \n  ┌─ sample:2:3\n  │\n2 │   import Impl.Test exposing (hello)\n  │   ^^^^^^\n\n");
}

#[test]
fn indented_second_import_fails() {
    let src = r#"
        module Main exposing (..)
        import Impl.Test exposing (hello)
          import Impl.Test.Other exposing (hello)
        main args =
          hello
        "#;
    let result = eval_in_test_modules(src);
    assert_eq!(result, "Token not at line start.\n\nerror: \n  ┌─ sample:3:3\n  │\n3 │   import Impl.Test.Other exposing (hello)\n  │   ^^^^^^\n\n");
}

#[test]
fn empty_list_literal() {
    let src = r#"
        module Main exposing (..)
        main args =
          String.join "," []
        "#;
    let result = eval(src);
    assert_eq!(result, "");
}

#[test]
fn list_literal_with_strings() {
    let src = r#"
        module Main exposing (..)
        main args =
          String.join "," ["Hello", " World"]
        "#;
    let result = eval(src);
    assert_eq!(result, "Hello World");
}

#[test]
fn list_literal_with_inconsistent_types() {
    let src = r#"
        module Main exposing (..)
        main args =
          String.join "," ["Hello", 1]
        "#;
    let result = eval(src);
    assert_eq!(result, "Type error:\n\nFailedToUnify(\n    \"Constant(Integer)\",\n    \"Constant(String)\",\n)");
}

#[test]
fn list_sum() {
    let src = r#"
        module Main exposing (..)
        main args =
          String.fromInt (List.sum [1, 2])
        "#;
    let result = eval(src);
    assert_eq!(result, "3");
}

#[test]
fn use_built_in_string_module() {
    let src = r#"
        module Main exposing (..)
        main args =
          String.append "Hello, " "World"
        "#;
    let result = eval(src);
    assert_eq!(result, "Hello, World");
}

#[test]
fn imported_module_can_use_prelude() {
    let src = r#"
        module Main exposing (..)
        import Impl.Test
        main args =
          Impl.Test.hello_from_prelude
        "#;
    let result = eval_in_test_modules(src);
    assert_eq!(result, "Hello, prelude");
}

#[test]
fn main_string_type_signature() {
    let src = r#"
        module Main exposing (..)

        main : List String -> String
        main args =
          "hello, world with type annotation"
        "#;
    let result = eval(src);
    assert_eq!(result, "hello, world with type annotation");
}

#[test]
fn other_type_annotation() {
    let src = r#"
        module Main exposing (..)

        add1 : Int -> Int
        add1 x =
          x + 1

        main : List String -> String
        main args =
          String.fromInt (add1 3)
        "#;
    let result = eval(src);
    assert_eq!(result, "4");
}

#[test]
fn nested_type() {
    let src = r#"
        module Main exposing (..)

        -- Silly type so that we can check parens in types
        second : List (Maybe Int) -> Int -> Int
        second x y =
          y

        main : List String -> String
        main args =
          String.fromInt (second 4 5)
        "#;
    let result = eval(src);
    assert_eq!(result, "5");
}

#[test]
fn type_variable_in_type_annotation() {
    let src = r#"
        module Main exposing (..)

        second : a -> Int -> Int
        second _ y =
          y

        main : List String -> String
        main args =
          "Hello with type variable"
        "#;
    let result = eval(src);
    assert_eq!(result, "Hello with type variable");
}

#[test]
fn custom_type() {
    let src = r#"
        module Main exposing (..)

        type MyType
          = MyA
          | MyB

        main : List String -> String
        main args =
          "Hello with type"
        "#;
    let result = eval(src);
    assert_eq!(result, "Hello with type");
}

#[test]
fn custom_type_with_concrete_args() {
    let src = r#"
        module Main exposing (..)

        type MyType
          = MyA Int
          | MyB String

        main : List String -> String
        main args =
          "Hello with type"
        "#;
    let result = eval(src);
    assert_eq!(result, "Hello with type");
}

#[test]
fn custom_type_with_type_variable() {
    let src = r#"
        module Main exposing (..)

        type MyType a
          = MyA a
          | MyB String

        main : List String -> String
        main args =
          "Hello with type variable"
        "#;
    let result = eval(src);
    assert_eq!(result, "Hello with type variable");
}

fn eval_unchecked<A: FloatArithmetic>(source: &str, arithmetic: &A) -> String {
    let settings = Settings::new();
    let result = parse_program(source).and_then(|module| {
        let scope = load(module, &settings, &core_files()).map_err(Error::ScopeError)?;
        let environment = Environment::from_module_scope(scope);
        let module = parse_program(source)?;
        evaluator::evaluate(&module, Vec::new(), &environment, &settings, arithmetic)
            .map_err(Error::EvaluateError)
    });
    output(result)
}

#[test]
fn float_comparison_selects_the_branch() {
    let less = "module Main exposing (..)\nmain args =\n  if 1.5 < 2.25 then \"less\" else \"more\"\n";
    assert_eq!(eval_unchecked(less, &F32Arithmetic), "less");
    let more = "module Main exposing (..)\nmain args =\n  if 2.5 < 1.25 then \"less\" else \"more\"\n";
    assert_eq!(eval_unchecked(more, &F32Arithmetic), "more");
}

struct Contrary;

impl FloatArithmetic for Contrary {
    fn operate(&self, _operation: FloatOperation, _left: &FloatLiteral, _right: &FloatLiteral) -> FloatLiteral {
        FloatLiteral("7.0".to_string())
    }

    fn compare(&self, _comparison: FloatComparison, _left: &FloatLiteral, _right: &FloatLiteral) -> bool {
        true
    }
}

#[test]
fn float_results_are_the_answers_given() {
    let src = "module Main exposing (..)\nmain args =\n  if 2.5 < 1.25 then 1.0 + 2.0 else 0.5\n";
    assert_eq!(eval_unchecked(src, &Contrary), "Float(FloatLiteral(\"7.0\"))");
}

struct Recording {
    calls: std::cell::RefCell<Vec<String>>,
}

impl FloatArithmetic for Recording {
    fn operate(&self, operation: FloatOperation, left: &FloatLiteral, right: &FloatLiteral) -> FloatLiteral {
        self.calls.borrow_mut().push(format!("{:?} {} {}", operation, left.0, right.0));
        FloatLiteral("1.0".to_string())
    }

    fn compare(&self, comparison: FloatComparison, left: &FloatLiteral, right: &FloatLiteral) -> bool {
        self.calls.borrow_mut().push(format!("{:?} {} {}", comparison, left.0, right.0));
        false
    }
}

#[test]
fn float_calls_ask_the_operator_of_the_operands_in_order() {
    let src = "module Main exposing (..)\nmain args =\n  if 5.0 > 2.0 then 0.5 else 5.0 - 2.0\n";
    let recording = Recording { calls: std::cell::RefCell::new(Vec::new()) };
    assert_eq!(eval_unchecked(src, &recording), "Float(FloatLiteral(\"1.0\"))");
    assert_eq!(recording.calls.into_inner(), vec!["Gt 5.0 2.0".to_string(), "Sub 5.0 2.0".to_string()]);
}
