use std::rc::Rc;

use erm::checker::term::{Term, Value};
use erm::checker::unify::{unify, Error, Substitutions};

fn test_unification(x: &Term, y: &Term, subs: &Substitutions) -> Result<Substitutions, Error> {
    unify(x, y, subs)
}

#[test]
fn conflicting_constants() {
    let subs = Substitutions::new();
    let result = test_unification(
        &Term::Constant(Value::String),
        &Term::Constant(Value::Integer),
        &subs,
    );

    assert_eq!(
        result,
        Err(Error::FailedToUnify(
            "Constant(String)".to_string(),
            "Constant(Integer)".to_string()
        ))
    );
}

#[test]
fn constant_and_var() {
    let var = Term::Var("a".to_string());
    let subs = Substitutions::new();
    let result = test_unification(&Term::Constant(Value::String), &var, &subs);

    let mut expected_subs = Substitutions::new();
    expected_subs.insert("a".to_string(), Rc::new(Term::Constant(Value::String)));
    assert_eq!(result, Ok(expected_subs));
}

#[test]
fn var_and_constant() {
    let var = Term::Var("a".to_string());
    let subs = Substitutions::new();
    let result = test_unification(&var, &Term::Constant(Value::String), &subs);

    let mut expected_subs = Substitutions::new();
    expected_subs.insert("a".to_string(), Rc::new(Term::Constant(Value::String)));
    assert_eq!(result, Ok(expected_subs));
}

#[test]
fn var_and_var() {
    let var_a = Term::Var("a".to_string());
    let var_b = Term::Var("b".to_string());
    let subs = Substitutions::new();
    let result = test_unification(&var_a, &var_b, &subs);

    let mut expected_subs = Substitutions::new();
    expected_subs.insert("a".to_string(), Rc::new(Term::Var("b".to_string())));
    assert_eq!(result, Ok(expected_subs));
}

#[test]
fn var_and_function() {
    let var_a = Term::Var("a".to_string());
    let var_b = Term::Function(
        Box::new(Term::Constant(Value::String)),
        Box::new(Term::Constant(Value::String)),
    );
    let subs = Substitutions::new();
    let result = test_unification(&var_a, &var_b, &subs);

    let mut expected_subs = Substitutions::new();
    expected_subs.insert(
        "a".to_string(),
        Rc::new(Term::Function(
            Box::new(Term::Constant(Value::String)),
            Box::new(Term::Constant(Value::String)),
        )),
    );
    assert_eq!(result, Ok(expected_subs));
}

#[test]
fn matching_function_and_function() {
    let var_a = Term::Function(
        Box::new(Term::Constant(Value::String)),
        Box::new(Term::Constant(Value::Integer)),
    );

    let var_b = Term::Function(
        Box::new(Term::Constant(Value::String)),
        Box::new(Term::Constant(Value::Integer)),
    );

    let subs = Substitutions::new();
    let result = test_unification(&var_a, &var_b, &subs);

    let expected_subs = Substitutions::new();
    assert_eq!(result, Ok(expected_subs));
}

#[test]
fn var_function_and_function() {
    let var_a = Term::Function(
        Box::new(Term::Var("a".to_string())),
        Box::new(Term::Constant(Value::String)),
    );

    let var_b = Term::Function(
        Box::new(Term::Constant(Value::String)),
        Box::new(Term::Constant(Value::String)),
    );

    let subs = Substitutions::new();
    let result = test_unification(&var_a, &var_b, &subs);

    let mut expected_subs = Substitutions::new();
    expected_subs.insert("a".to_string(), Rc::new(Term::Constant(Value::String)));
    assert_eq!(result, Ok(expected_subs));
}

#[test]
fn unify_type_terms_fail_unless_equal() {
    let list_of = |t: Term| Term::Type("List".to_string(), vec![t]);
    let subs = Substitutions::new();
    let same = unify(
        &list_of(Term::Constant(Value::String)),
        &list_of(Term::Constant(Value::String)),
        &subs,
    );
    assert_eq!(same, Ok(Substitutions::new()));
    let different = unify(
        &list_of(Term::Var("a".to_string())),
        &list_of(Term::Constant(Value::String)),
        &subs,
    );
    assert_eq!(
        different,
        Err(Error::FailedToUnify(
            "Type(\"List\", [Var(\"a\")])".to_string(),
            "Type(\"List\", [Constant(String)])".to_string()
        ))
    );
}

#[test]
fn unify_through_existing_substitution() {
    let mut subs = Substitutions::new();
    subs.insert("a".to_string(), Rc::new(Term::Constant(Value::Integer)));
    let result = unify(
        &Term::Var("a".to_string()),
        &Term::Constant(Value::String),
        &subs,
    );
    assert_eq!(
        result,
        Err(Error::FailedToUnify(
            "Constant(Integer)".to_string(),
            "Constant(String)".to_string()
        ))
    );
}
