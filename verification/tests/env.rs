use scriptlet::lang::env::Env;
use scriptlet::lang::panics::Error;
use scriptlet::lang::value::{Number, RuntimeValue};

fn num(x: f32) -> RuntimeValue {
    RuntimeValue::Number(Number { bits: x.to_bits() })
}

#[test]
fn test_environment() {
    let mut env1 = Env::new(None);
    env1.add("x".to_string(), num(5.)).unwrap();
    env1.add("y".to_string(), RuntimeValue::String("simon".to_string())).unwrap();

    let mut env2 = Env::new(Some(env1));
    env2.add("z".to_string(), RuntimeValue::Bool(false)).unwrap();

    let z = env2.get("z").unwrap();
    assert_eq!(*z, RuntimeValue::Bool(false));
    let x = env2.get("x").unwrap();
    assert_eq!(*x, num(5.));
}

#[test]
#[should_panic]
fn test_panic_environment() {
    let mut env1 = Env::new(None);
    env1.add("x".to_string(), num(5.)).unwrap();
    env1.add("y".to_string(), RuntimeValue::String("simon".to_string())).unwrap();

    let mut env2 = Env::new(Some(env1));
    env2.add("z".to_string(), RuntimeValue::Bool(false)).unwrap();

    env2.get("a").unwrap();
}

#[test]
fn name_that_was_never_declared() {
    let mut env = Env::new(None);
    assert_eq!(env.get("a"), Err(Error::NameError));
    assert_eq!(env.update("a".to_string(), num(1.)), Err(Error::NameError));
    env.add("b".to_string(), num(1.)).unwrap();
    assert_eq!(env.get("a"), Err(Error::NameError));
    assert_eq!(env.update("a".to_string(), num(1.)), Err(Error::NameError));
    assert_eq!(env.get("b"), Ok(&num(1.)));
}

#[test]
fn second_declaration_in_one_scope_fails_whatever_the_values() {
    let values = || vec![num(1.), RuntimeValue::String("s".to_string()), RuntimeValue::Bool(true), RuntimeValue::Null];
    for first in values() {
        for second in values() {
            let mut env = Env::new(None);
            assert_eq!(env.add("x".to_string(), first.clone()), Ok(()));
            assert_eq!(env.add("x".to_string(), second), Err(Error::NameError));
            assert_eq!(env.get("x"), Ok(&first));
        }
    }
}

#[test]
fn inner_scope_may_declare_a_name_of_an_outer_one() {
    let mut outer = Env::new(None);
    outer.add("x".to_string(), num(1.)).unwrap();
    let mut inner = Env::new(Some(outer));
    assert_eq!(inner.add("x".to_string(), num(2.)), Ok(()));
    assert_eq!(inner.get("x"), Ok(&num(2.)));
    assert_eq!(inner.add("x".to_string(), num(3.)), Err(Error::NameError));
}

#[test]
fn assignment_changes_the_nearest_binding() {
    let mut outer = Env::new(None);
    outer.add("x".to_string(), num(1.)).unwrap();
    outer.add("y".to_string(), num(10.)).unwrap();
    let mut inner = Env::new(Some(outer));
    inner.add("x".to_string(), num(2.)).unwrap();
    assert_eq!(inner.update("x".to_string(), num(3.)), Ok(()));
    assert_eq!(inner.get("x"), Ok(&num(3.)));
    assert_eq!(inner.update("y".to_string(), RuntimeValue::Null), Ok(()));
    assert_eq!(inner.get("y"), Ok(&RuntimeValue::Null));
    let mut innermost = Env::new(Some(inner));
    assert_eq!(innermost.get("x"), Ok(&num(3.)));
    assert_eq!(innermost.update("x".to_string(), num(4.)), Ok(()));
    assert_eq!(innermost.get("x"), Ok(&num(4.)));
    assert_eq!(innermost.add("x".to_string(), num(5.)), Ok(()));
    assert_eq!(innermost.get("x"), Ok(&num(5.)));
}

#[test]
fn copy_of_a_chain_is_its_own() {
    let mut env = Env::new(None);
    env.add("x".to_string(), num(1.)).unwrap();
    let mut copy = env.duplicate();
    copy.update("x".to_string(), num(2.)).unwrap();
    copy.add("y".to_string(), num(3.)).unwrap();
    assert_eq!(env.get("x"), Ok(&num(1.)));
    assert_eq!(env.get("y"), Err(Error::NameError));
    assert_eq!(copy.get("x"), Ok(&num(2.)));
}
