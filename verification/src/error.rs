//! Errors of a whole run, and the text shown to the user for each.
use vstd::prelude::*;

use codespan_reporting::diagnostic::{Diagnostic, Label};
use codespan_reporting::files::SimpleFiles;
use codespan_reporting::term;
use codespan_reporting::term::termcolor::Buffer;

use crate::ast::{join_with, QualifiedLowerName};
use crate::builtins;
use crate::checker::{self, unify};
use crate::env;
use crate::evaluator;
use crate::lexer::{debug_str, debug_string, Range};
use crate::parser;
use crate::text::{nat_digits, owned, push_str, u64_text};

verus! {

broadcast use vstd::string::group_string_axioms;

#[derive(Debug)]
pub enum Error {
    FileError,
    ParserError(parser::Error, String),
    CheckError(checker::Error),
    EvaluateError(evaluator::Error),
    ScopeError(env::Error),
}

// ---------------------------------------------------------------------------------------------
// Source diagnostics
// ---------------------------------------------------------------------------------------------
/// The text of an error diagnostic that marks the bytes `start..end` of `source`.
pub uninterp spec fn diagnostic_text(source: Seq<char>, start: usize, end: usize) -> Seq<char>;

/// codespan_reporting: the source is added as a file named `sample`, an error diagnostic with a
/// primary label on `range` is emitted without colour, and the emitted bytes are read back as
/// UTF-8 (`Failure` if they are not). Any range is accepted: a label's ends are measured
/// from the starts of their own lines, and an error the renderer reports (such as a range
/// past the end of the source) is ignored, leaving what was written so far. The contract
/// names that text and claims nothing more of it.
#[verifier::external_body]
pub fn pretty_print(source: String, range: Range) -> (r: String)
    ensures
        r@ == diagnostic_text(source@, range.start, range.end),
{
    let mut files = SimpleFiles::new();
    let file_id = files.add("sample", source);
    let diagnostic = Diagnostic::error().with_labels(vec![Label::primary(file_id, range)]);
    let mut writer = Buffer::no_color();
    let config = codespan_reporting::term::Config::default();
    let _ = term::emit(&mut writer, &config, &files, &diagnostic);
    std::str::from_utf8(writer.as_slice()).unwrap_or("Failure").to_string()
}

// ---------------------------------------------------------------------------------------------
// Debug texts
// ---------------------------------------------------------------------------------------------
/// `start..end`.
pub open spec fn range_debug(r: Range) -> Seq<char> {
    nat_digits(r.start as nat) + ".."@ + nat_digits(r.end as nat)
}

/// The `Debug` text of a list of strings: each quoted, separated by `, `, in brackets.
pub open spec fn strings_debug(v: Seq<Seq<char>>) -> Seq<char> {
    "["@ + join_with(quoted_all(v), ", "@) + "]"@
}

/// Each string's `Debug` text.
pub open spec fn quoted_all(v: Seq<Seq<char>>) -> Seq<Seq<char>> {
    v.map_values(|s: Seq<char>| debug_str(s))
}

/// `name(inner)`.
pub open spec fn wrapped(name: Seq<char>, inner: Seq<char>) -> Seq<char> {
    name + "("@ + inner + ")"@
}

pub open spec fn name_debug(n: (Seq<Seq<char>>, Seq<Seq<char>>)) -> Seq<char> {
    "QualifiedLowerName { modules: "@ + strings_debug(n.0) + ", access: "@ + strings_debug(n.1)
        + " }"@
}

pub open spec fn parser_error_debug(e: parser::Error) -> Seq<char> {
    match e {
        parser::Error::UnexpectedToken { expected, found, range } => "UnexpectedToken { expected: "@
            + debug_str(expected@) + ", found: "@ + debug_str(found@) + ", range: "@ + range_debug(
            range,
        ) + " }"@,
        parser::Error::UnexpectedEnd => "UnexpectedEnd"@,
        parser::Error::TokenNotAtLineStart(range) => wrapped(
            "TokenNotAtLineStart"@,
            range_debug(range),
        ),
        parser::Error::Indent { range } => "Indent { range: "@ + range_debug(range) + " }"@,
        parser::Error::TokensRemaining(v) => wrapped("TokensRemaining"@, strings_debug(v.deep_view())),
        parser::Error::NoOperand => "NoOperand"@,
        parser::Error::NoOperator => "NoOperator"@,
        parser::Error::EmptyOperatorStack => "EmptyOperatorStack"@,
        parser::Error::UnknownOperator(s) => wrapped("UnknownOperator"@, debug_str(s@)),
        parser::Error::UnknownExposing(s) => wrapped("UnknownExposing"@, debug_str(s@)),
        parser::Error::NegativePrecendence => "NegativePrecendence"@,
        parser::Error::NameMismatch => "NameMismatch"@,
        parser::Error::Unknown => "Unknown"@,
    }
}

pub open spec fn env_error_debug(e: env::Error) -> Seq<char> {
    match e {
        env::Error::UnableToFindModule(s) => wrapped("UnableToFindModule"@, debug_str(s@)),
        env::Error::FailedToRead(p) => wrapped("FailedToRead"@, debug_str(p@)),
        env::Error::FailedToParse(p, pe) => wrapped(
            "FailedToParse"@,
            debug_str(p@) + ", "@ + parser_error_debug(pe),
        ),
    }
}

pub open spec fn kernel_error_debug(e: builtins::Error) -> Seq<char> {
    match e {
        builtins::Error::WrongArity => "WrongArity"@,
        builtins::Error::WrongArgumentType => "WrongArgumentType"@,
    }
}

pub open spec fn unify_error_debug(e: unify::Error) -> Seq<char> {
    match e {
        unify::Error::FailedToUnify(a, b) => wrapped(
            "FailedToUnify"@,
            debug_str(a@) + ", "@ + debug_str(b@),
        ),
        unify::Error::TooDeep => "TooDeep"@,
    }
}

/// The alternate (`{:#?}`) `Debug` text of a unification error.
pub open spec fn unify_error_pretty(e: unify::Error) -> Seq<char> {
    match e {
        unify::Error::FailedToUnify(a, b) => "FailedToUnify(\n    "@ + debug_str(a@) + ",\n    "@
            + debug_str(b@) + ",\n)"@,
        unify::Error::TooDeep => "TooDeep"@,
    }
}

pub open spec fn checker_error_debug(e: checker::Error) -> Seq<char> {
    match e {
        checker::Error::UnknownBinding(s) => wrapped("UnknownBinding"@, debug_str(s@)),
        checker::Error::UnhandledExpression(s) => wrapped("UnhandledExpression"@, debug_str(s@)),
        checker::Error::UnifyError(u) => wrapped("UnifyError"@, unify_error_debug(u)),
        checker::Error::UnknownFunction(n) => wrapped("UnknownFunction"@, name_debug(n@)),
        checker::Error::UnknownOperator(s) => wrapped("UnknownOperator"@, debug_str(s@)),
        checker::Error::UnknownVarName(s) => wrapped("UnknownVarName"@, debug_str(s@)),
        checker::Error::UnknownPattern(s) => wrapped("UnknownPattern"@, debug_str(s@)),
        checker::Error::ArgumentMismatch(n) => wrapped("ArgumentMismatch"@, nat_digits(n as nat)),
        checker::Error::TooManyArguments => "TooManyArguments"@,
        checker::Error::Broken(s) => wrapped("Broken"@, debug_str(s@)),
        checker::Error::ScopeError(se) => wrapped("ScopeError"@, env_error_debug(se)),
        checker::Error::ImpossiblyEmptyList => "ImpossiblyEmptyList"@,
        checker::Error::ImpossiblyEmptyCase => "ImpossiblyEmptyCase"@,
        checker::Error::Unknown => "Unknown"@,
        checker::Error::RecursionLimit => "RecursionLimit"@,
    }
}

pub open spec fn evaluator_error_debug(e: evaluator::Error) -> Seq<char> {
    match e {
        evaluator::Error::UnsupportedOperation => "UnsupportedOperation"@,
        evaluator::Error::UnknownFunction => "UnknownFunction"@,
        evaluator::Error::UnknownBinding(s) => wrapped("UnknownBinding"@, debug_str(s@)),
        evaluator::Error::UnexpectedBinding(s) => wrapped("UnexpectedBinding"@, debug_str(s@)),
        evaluator::Error::FunctionError(k) => wrapped("FunctionError"@, kernel_error_debug(k)),
        evaluator::Error::WrongArity => "WrongArity"@,
        evaluator::Error::TooManyArguments => "TooManyArguments"@,
        evaluator::Error::ScopeError(se) => wrapped("ScopeError"@, env_error_debug(se)),
        evaluator::Error::UnsupportedArgumentPattern(s) => wrapped(
            "UnsupportedArgumentPattern"@,
            debug_str(s@),
        ),
        evaluator::Error::NoMatchingCase => "NoMatchingCase"@,
        evaluator::Error::RecursionLimit => "RecursionLimit"@,
    }
}

// ---------------------------------------------------------------------------------------------
// User output
// ---------------------------------------------------------------------------------------------
/// The placeholder text of an error that has no message of its own yet, with its code.
pub open spec fn unwritten(code: nat) -> Seq<char> {
    "Error text not written ("@ + nat_digits(code) + ")"@
}

/// The placeholder text with the error's `Debug` text after it.
pub open spec fn unwritten_with(code: nat, detail: Seq<char>) -> Seq<char> {
    unwritten(code) + " "@ + detail
}

/// The text shown to the user for an error.
pub open spec fn user_output(e: Error) -> Seq<char> {
    match e {
        Error::FileError => "File error"@,
        Error::ParserError(pe, source) => match pe {
            parser::Error::UnexpectedToken { range, .. } => "Unexpected token.\n\n"@
                + diagnostic_text(source@, range.start, range.end),
            parser::Error::Indent { range } => "Unexpected indentation.\n\n"@ + diagnostic_text(
                source@,
                range.start,
                range.end,
            ),
            parser::Error::TokenNotAtLineStart(range) => "Token not at line start.\n\n"@
                + diagnostic_text(source@, range.start, range.end),
            parser::Error::UnexpectedEnd => unwritten_with(36, parser_error_debug(pe)),
            parser::Error::TokensRemaining(_) => unwritten_with(45, parser_error_debug(pe)),
            parser::Error::NoOperand => unwritten_with(47, parser_error_debug(pe)),
            parser::Error::NoOperator => unwritten_with(49, parser_error_debug(pe)),
            parser::Error::EmptyOperatorStack => unwritten_with(52, parser_error_debug(pe)),
            parser::Error::UnknownOperator(_) => unwritten_with(55, parser_error_debug(pe)),
            parser::Error::UnknownExposing(_) => unwritten_with(58, parser_error_debug(pe)),
            parser::Error::NegativePrecendence => unwritten_with(61, parser_error_debug(pe)),
            parser::Error::Unknown => unwritten_with(63, parser_error_debug(pe)),
            parser::Error::NameMismatch => unwritten_with(65, parser_error_debug(pe)),
        },
        Error::CheckError(ce) => match ce {
            checker::Error::UnifyError(u) => "Type error:\n\n"@ + unify_error_pretty(u),
            checker::Error::RecursionLimit => "Type checking nested too deeply"@,
            checker::Error::UnknownBinding(_) => unwritten_with(76, checker_error_debug(ce)),
            checker::Error::UnhandledExpression(_) => unwritten_with(79, checker_error_debug(ce)),
            checker::Error::UnknownFunction(_) => unwritten_with(88, checker_error_debug(ce)),
            checker::Error::UnknownOperator(_) => unwritten_with(91, checker_error_debug(ce)),
            checker::Error::UnknownVarName(_) => unwritten_with(94, checker_error_debug(ce)),
            checker::Error::UnknownPattern(_) => unwritten_with(97, checker_error_debug(ce)),
            checker::Error::ArgumentMismatch(_) => unwritten_with(100, checker_error_debug(ce)),
            checker::Error::TooManyArguments => unwritten_with(103, checker_error_debug(ce)),
            checker::Error::Broken(_) => unwritten_with(106, checker_error_debug(ce)),
            checker::Error::ScopeError(_) => unwritten_with(109, checker_error_debug(ce)),
            checker::Error::ImpossiblyEmptyList => unwritten_with(112, checker_error_debug(ce)),
            checker::Error::ImpossiblyEmptyCase => unwritten_with(115, checker_error_debug(ce)),
            checker::Error::Unknown => unwritten_with(117, checker_error_debug(ce)),
        },
        Error::EvaluateError(ee) => match ee {
            evaluator::Error::UnsupportedOperation => unwritten(121),
            evaluator::Error::UnknownFunction => "Unable to find function"@,
            evaluator::Error::UnknownBinding(name) => "Unknown binding: "@ + name@,
            evaluator::Error::RecursionLimit => "Evaluation nested too deeply"@,
            evaluator::Error::FunctionError(_) => unwritten_with(126, evaluator_error_debug(ee)),
            evaluator::Error::WrongArity => unwritten_with(129, evaluator_error_debug(ee)),
            evaluator::Error::TooManyArguments => unwritten_with(132, evaluator_error_debug(ee)),
            evaluator::Error::ScopeError(_) => unwritten_with(135, evaluator_error_debug(ee)),
            evaluator::Error::UnexpectedBinding(_) => unwritten_with(138, evaluator_error_debug(ee)),
            evaluator::Error::UnsupportedArgumentPattern(_) => unwritten_with(
                141,
                evaluator_error_debug(ee),
            ),
            evaluator::Error::NoMatchingCase => unwritten_with(144, evaluator_error_debug(ee)),
        },
        Error::ScopeError(se) => match se {
            env::Error::UnableToFindModule(module) => "Unable to find module:\n\n"@ + module@,
            env::Error::FailedToRead(_) => unwritten(154),
            env::Error::FailedToParse(_, _) => unwritten_with(156, env_error_debug(se)),
        },
    }
}


// ---------------------------------------------------------------------------------------------
// Rendering
// ---------------------------------------------------------------------------------------------
fn wrap(name: &str, inner: String) -> (r: String)
    ensures
        r@ == wrapped(name@, inner@),
{
    let mut r = owned(name);
    push_str(&mut r, "(");
    push_str(&mut r, inner.as_str());
    push_str(&mut r, ")");
    r
}

fn range_text(r: &Range) -> (t: String)
    ensures
        t@ == range_debug(*r),
{
    let mut t = u64_text(r.start as u64);
    push_str(&mut t, "..");
    let e = u64_text(r.end as u64);
    push_str(&mut t, e.as_str());
    t
}

fn strings_text(v: &Vec<String>) -> (t: String)
    ensures
        t@ == strings_debug(v.deep_view()),
{
    let mut inner = String::new();
    let mut i: usize = 0;
    while i < v.len()
        invariant
            i <= v@.len(),
            inner@ == join_with(quoted_all(v.deep_view().take(i as int)), ", "@),
        decreases v@.len() - i,
    {
        proof {
            let q = quoted_all(v.deep_view().take(i + 1));
            assert(q.drop_last() =~= quoted_all(v.deep_view().take(i as int)));
            assert(q.last() == debug_str(v@[i as int]@));
        }
        if i > 0 {
            push_str(&mut inner, ", ");
        }
        let d = debug_string(v[i].as_str());
        push_str(&mut inner, d.as_str());
        proof {
            if i == 0 {
                let q = quoted_all(v.deep_view().take(1));
                assert(q =~= seq![debug_str(v@[0]@)]);
                assert(join_with(quoted_all(v.deep_view().take(0)), ", "@) =~= Seq::<char>::empty());
            }
        }
        i = i + 1;
    }
    assert(v.deep_view().take(v@.len() as int) =~= v.deep_view());
    let mut t = owned("[");
    push_str(&mut t, inner.as_str());
    push_str(&mut t, "]");
    t
}

fn name_text(n: &QualifiedLowerName) -> (t: String)
    ensures
        t@ == name_debug(n@),
{
    let mut t = owned("QualifiedLowerName { modules: ");
    let m = strings_text(&n.modules);
    push_str(&mut t, m.as_str());
    push_str(&mut t, ", access: ");
    let a = strings_text(&n.access);
    push_str(&mut t, a.as_str());
    push_str(&mut t, " }");
    t
}

fn quoted(s: &str) -> (t: String)
    ensures
        t@ == debug_str(s@),
{
    debug_string(s)
}

/// The `Debug` text of a parser error.
pub fn parser_error_text(e: &parser::Error) -> (t: String)
    ensures
        t@ == parser_error_debug(*e),
{
    match e {
        parser::Error::UnexpectedToken { expected, found, range } => {
            let mut t = owned("UnexpectedToken { expected: ");
            push_str(&mut t, quoted(expected.as_str()).as_str());
            push_str(&mut t, ", found: ");
            push_str(&mut t, quoted(found.as_str()).as_str());
            push_str(&mut t, ", range: ");
            push_str(&mut t, range_text(range).as_str());
            push_str(&mut t, " }");
            t
        },
        parser::Error::UnexpectedEnd => owned("UnexpectedEnd"),
        parser::Error::TokenNotAtLineStart(range) => wrap("TokenNotAtLineStart", range_text(range)),
        parser::Error::Indent { range } => {
            let mut t = owned("Indent { range: ");
            push_str(&mut t, range_text(range).as_str());
            push_str(&mut t, " }");
            t
        },
        parser::Error::TokensRemaining(v) => wrap("TokensRemaining", strings_text(v)),
        parser::Error::NoOperand => owned("NoOperand"),
        parser::Error::NoOperator => owned("NoOperator"),
        parser::Error::EmptyOperatorStack => owned("EmptyOperatorStack"),
        parser::Error::UnknownOperator(s) => wrap("UnknownOperator", quoted(s.as_str())),
        parser::Error::UnknownExposing(s) => wrap("UnknownExposing", quoted(s.as_str())),
        parser::Error::NegativePrecendence => owned("NegativePrecendence"),
        parser::Error::NameMismatch => owned("NameMismatch"),
        parser::Error::Unknown => owned("Unknown"),
    }
}

/// The `Debug` text of a scope error.
pub fn env_error_text(e: &env::Error) -> (t: String)
    ensures
        t@ == env_error_debug(*e),
{
    match e {
        env::Error::UnableToFindModule(s) => wrap("UnableToFindModule", quoted(s.as_str())),
        env::Error::FailedToRead(p) => wrap("FailedToRead", quoted(p.as_str())),
        env::Error::FailedToParse(p, pe) => {
            let mut inner = quoted(p.as_str());
            push_str(&mut inner, ", ");
            push_str(&mut inner, parser_error_text(pe).as_str());
            wrap("FailedToParse", inner)
        },
    }
}

fn kernel_error_text(e: builtins::Error) -> (t: String)
    ensures
        t@ == kernel_error_debug(e),
{
    match e {
        builtins::Error::WrongArity => owned("WrongArity"),
        builtins::Error::WrongArgumentType => owned("WrongArgumentType"),
    }
}

fn unify_error_text(e: &unify::Error) -> (t: String)
    ensures
        t@ == unify_error_debug(*e),
{
    match e {
        unify::Error::FailedToUnify(a, b) => {
            let mut inner = quoted(a.as_str());
            push_str(&mut inner, ", ");
            push_str(&mut inner, quoted(b.as_str()).as_str());
            wrap("FailedToUnify", inner)
        },
        unify::Error::TooDeep => owned("TooDeep"),
    }
}

fn unify_error_pretty_text(e: &unify::Error) -> (t: String)
    ensures
        t@ == unify_error_pretty(*e),
{
    match e {
        unify::Error::FailedToUnify(a, b) => {
            let mut t = owned("FailedToUnify(\n    ");
            push_str(&mut t, quoted(a.as_str()).as_str());
            push_str(&mut t, ",\n    ");
            push_str(&mut t, quoted(b.as_str()).as_str());
            push_str(&mut t, ",\n)");
            t
        },
        unify::Error::TooDeep => owned("TooDeep"),
    }
}

/// The `Debug` text of a checking error.
pub fn checker_error_text(e: &checker::Error) -> (t: String)
    ensures
        t@ == checker_error_debug(*e),
{
    match e {
        checker::Error::UnknownBinding(s) => wrap("UnknownBinding", quoted(s.as_str())),
        checker::Error::UnhandledExpression(s) => wrap("UnhandledExpression", quoted(s.as_str())),
        checker::Error::UnifyError(u) => wrap("UnifyError", unify_error_text(u)),
        checker::Error::UnknownFunction(n) => wrap("UnknownFunction", name_text(n)),
        checker::Error::UnknownOperator(s) => wrap("UnknownOperator", quoted(s.as_str())),
        checker::Error::UnknownVarName(s) => wrap("UnknownVarName", quoted(s.as_str())),
        checker::Error::UnknownPattern(s) => wrap("UnknownPattern", quoted(s.as_str())),
        checker::Error::ArgumentMismatch(n) => wrap("ArgumentMismatch", u64_text(*n as u64)),
        checker::Error::TooManyArguments => owned("TooManyArguments"),
        checker::Error::Broken(s) => wrap("Broken", quoted(s)),
        checker::Error::ScopeError(se) => wrap("ScopeError", env_error_text(se)),
        checker::Error::ImpossiblyEmptyList => owned("ImpossiblyEmptyList"),
        checker::Error::ImpossiblyEmptyCase => owned("ImpossiblyEmptyCase"),
        checker::Error::Unknown => owned("Unknown"),
        checker::Error::RecursionLimit => owned("RecursionLimit"),
    }
}

/// The `Debug` text of an evaluation error.
pub fn evaluator_error_text(e: &evaluator::Error) -> (t: String)
    ensures
        t@ == evaluator_error_debug(*e),
{
    match e {
        evaluator::Error::UnsupportedOperation => owned("UnsupportedOperation"),
        evaluator::Error::UnknownFunction => owned("UnknownFunction"),
        evaluator::Error::UnknownBinding(s) => wrap("UnknownBinding", quoted(s.as_str())),
        evaluator::Error::UnexpectedBinding(s) => wrap("UnexpectedBinding", quoted(s.as_str())),
        evaluator::Error::FunctionError(k) => wrap("FunctionError", kernel_error_text(*k)),
        evaluator::Error::WrongArity => owned("WrongArity"),
        evaluator::Error::TooManyArguments => owned("TooManyArguments"),
        evaluator::Error::ScopeError(se) => wrap("ScopeError", env_error_text(se)),
        evaluator::Error::UnsupportedArgumentPattern(s) => wrap(
            "UnsupportedArgumentPattern",
            quoted(s.as_str()),
        ),
        evaluator::Error::NoMatchingCase => owned("NoMatchingCase"),
        evaluator::Error::RecursionLimit => owned("RecursionLimit"),
    }
}

fn unwritten_text(code: u64) -> (t: String)
    ensures
        t@ == unwritten(code as nat),
{
    let mut t = owned("Error text not written (");
    push_str(&mut t, u64_text(code).as_str());
    push_str(&mut t, ")");
    t
}

fn unwritten_with_text(code: u64, detail: String) -> (t: String)
    ensures
        t@ == unwritten_with(code as nat, detail@),
{
    let mut t = unwritten_text(code);
    push_str(&mut t, " ");
    push_str(&mut t, detail.as_str());
    t
}

fn headed(heading: &str, body: String) -> (t: String)
    ensures
        t@ == heading@ + body@,
{
    let mut t = owned(heading);
    push_str(&mut t, body.as_str());
    t
}

/// The text shown to the user for an error.
pub fn to_user_output(error: Error) -> (r: String)
    ensures
        r@ == user_output(error),
{
    match error {
        Error::FileError => owned("File error"),
        Error::ParserError(error, source) => match error {
            parser::Error::UnexpectedToken { range, .. } => headed(
                "Unexpected token.\n\n",
                pretty_print(source, range),
            ),
            parser::Error::Indent { range } => headed(
                "Unexpected indentation.\n\n",
                pretty_print(source, range),
            ),
            parser::Error::TokenNotAtLineStart(range) => headed(
                "Token not at line start.\n\n",
                pretty_print(source, range),
            ),
            parser::Error::UnexpectedEnd => unwritten_with_text(36, parser_error_text(&error)),
            parser::Error::TokensRemaining(_) => unwritten_with_text(45, parser_error_text(&error)),
            parser::Error::NoOperand => unwritten_with_text(47, parser_error_text(&error)),
            parser::Error::NoOperator => unwritten_with_text(49, parser_error_text(&error)),
            parser::Error::EmptyOperatorStack => unwritten_with_text(52, parser_error_text(&error)),
            parser::Error::UnknownOperator(_) => unwritten_with_text(55, parser_error_text(&error)),
            parser::Error::UnknownExposing(_) => unwritten_with_text(58, parser_error_text(&error)),
            parser::Error::NegativePrecendence => unwritten_with_text(61, parser_error_text(&error)),
            parser::Error::Unknown => unwritten_with_text(63, parser_error_text(&error)),
            parser::Error::NameMismatch => unwritten_with_text(65, parser_error_text(&error)),
        },
        Error::CheckError(error) => match error {
            checker::Error::UnifyError(unify_error) => headed(
                "Type error:\n\n",
                unify_error_pretty_text(&unify_error),
            ),
            checker::Error::RecursionLimit => owned("Type checking nested too deeply"),
            checker::Error::UnknownBinding(_) => unwritten_with_text(76, checker_error_text(&error)),
            checker::Error::UnhandledExpression(_) => unwritten_with_text(
                79,
                checker_error_text(&error),
            ),
            checker::Error::UnknownFunction(_) => unwritten_with_text(88, checker_error_text(&error)),
            checker::Error::UnknownOperator(_) => unwritten_with_text(91, checker_error_text(&error)),
            checker::Error::UnknownVarName(_) => unwritten_with_text(94, checker_error_text(&error)),
            checker::Error::UnknownPattern(_) => unwritten_with_text(97, checker_error_text(&error)),
            checker::Error::ArgumentMismatch(_) => unwritten_with_text(
                100,
                checker_error_text(&error),
            ),
            checker::Error::TooManyArguments => unwritten_with_text(103, checker_error_text(&error)),
            checker::Error::Broken(_) => unwritten_with_text(106, checker_error_text(&error)),
            checker::Error::ScopeError(_) => unwritten_with_text(109, checker_error_text(&error)),
            checker::Error::ImpossiblyEmptyList => unwritten_with_text(
                112,
                checker_error_text(&error),
            ),
            checker::Error::ImpossiblyEmptyCase => unwritten_with_text(
                115,
                checker_error_text(&error),
            ),
            checker::Error::Unknown => unwritten_with_text(117, checker_error_text(&error)),
        },
        Error::EvaluateError(error) => match error {
            evaluator::Error::UnsupportedOperation => unwritten_text(121),
            evaluator::Error::UnknownFunction => owned("Unable to find function"),
            evaluator::Error::UnknownBinding(name) => headed("Unknown binding: ", name),
            evaluator::Error::RecursionLimit => owned("Evaluation nested too deeply"),
            evaluator::Error::FunctionError(_) => unwritten_with_text(
                126,
                evaluator_error_text(&error),
            ),
            evaluator::Error::WrongArity => unwritten_with_text(129, evaluator_error_text(&error)),
            evaluator::Error::TooManyArguments => unwritten_with_text(
                132,
                evaluator_error_text(&error),
            ),
            evaluator::Error::ScopeError(_) => unwritten_with_text(135, evaluator_error_text(&error)),
            evaluator::Error::UnexpectedBinding(_) => unwritten_with_text(
                138,
                evaluator_error_text(&error),
            ),
            evaluator::Error::UnsupportedArgumentPattern(_) => unwritten_with_text(
                141,
                evaluator_error_text(&error),
            ),
            evaluator::Error::NoMatchingCase => unwritten_with_text(
                144,
                evaluator_error_text(&error),
            ),
        },
        Error::ScopeError(error) => match error {
            env::Error::UnableToFindModule(module) => headed("Unable to find module:\n\n", module),
            env::Error::FailedToRead(_) => unwritten_text(154),
            env::Error::FailedToParse(_, _) => unwritten_with_text(156, env_error_text(&error)),
        },
    }
}

} // verus!
