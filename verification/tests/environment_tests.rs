use mini_lisp::{Environment, LispExpression, LispValue};

fn number(value: f64) -> LispValue {
    LispValue::Number(value.to_bits())
}

fn as_number(value: Option<&LispValue>) -> f64 {
    match value {
        Some(LispValue::Number(bits)) => f64::from_bits(*bits),
        other => panic!("no number: {other:?}"),
    }
}

#[test]
fn new_environment_binds_nothing() {
    let env = Environment::new();
    assert!(env.get("x").is_none());
    assert!(env.get("").is_none());
    assert!(env.names().is_empty());
}

#[test]
fn set_then_get() {
    let mut env = Environment::new();
    env.set("x".to_string(), number(1.0));
    env.set("y".to_string(), LispValue::Boolean(true));
    assert_eq!(as_number(env.get("x")), 1.0);
    assert!(matches!(env.get("y"), Some(LispValue::Boolean(true))));
    assert!(env.get("z").is_none());
    assert!(env.get("X").is_none());
    assert_eq!(env.names(), vec!["x", "y"]);
}

#[test]
fn set_overwrites() {
    let mut env = Environment::new();
    env.set("x".to_string(), number(1.0));
    env.set("y".to_string(), number(2.0));
    env.set("x".to_string(), number(3.0));
    assert_eq!(as_number(env.get("x")), 3.0);
    assert_eq!(as_number(env.get("y")), 2.0);
    assert_eq!(env.names().len(), 2);
}

#[test]
fn extend_binds_in_order() {
    let mut env = Environment::new();
    env.set("a".to_string(), number(0.0));
    env.extend(vec![
        ("b".to_string(), number(1.0)),
        ("a".to_string(), number(2.0)),
        ("b".to_string(), number(3.0)),
        ("c".to_string(), number(4.0)),
    ]);
    assert_eq!(as_number(env.get("a")), 2.0);
    assert_eq!(as_number(env.get("b")), 3.0);
    assert_eq!(as_number(env.get("c")), 4.0);
    assert_eq!(env.names().len(), 3);
    env.extend(vec![]);
    assert_eq!(env.names().len(), 3);
}

#[test]
fn clone_is_independent() {
    let mut env = Environment::new();
    env.set("x".to_string(), number(1.0));
    let mut copy = env.clone();
    copy.set("x".to_string(), number(2.0));
    copy.set("y".to_string(), number(3.0));
    assert_eq!(as_number(env.get("x")), 1.0);
    assert!(env.get("y").is_none());
    assert_eq!(as_number(copy.get("x")), 2.0);
    env.set("z".to_string(), number(4.0));
    assert!(copy.get("z").is_none());
}

#[test]
fn values_and_expressions_clone_deeply() {
    let body = LispExpression::List(vec![
        LispExpression::Symbol("f".to_string()),
        LispExpression::Number(1.5f64.to_bits()),
        LispExpression::Lambda(
            vec!["p".to_string()],
            Box::new(LispExpression::Boolean(false)),
        ),
    ]);
    assert_eq!(body.clone(), body);
    let mut captured = Environment::new();
    captured.set("k".to_string(), number(8.0));
    let closure = LispValue::Lambda(vec!["a".to_string(), "b".to_string()], Box::new(body.clone()), captured);
    match closure.clone() {
        LispValue::Lambda(params, copy, env) => {
            assert_eq!(params, vec!["a", "b"]);
            assert_eq!(*copy, body);
            assert_eq!(as_number(env.get("k")), 8.0);
            assert_eq!(env.names(), vec!["k"]);
        }
        other => panic!("no closure: {other:?}"),
    }
}
