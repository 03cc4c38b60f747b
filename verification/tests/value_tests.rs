use rox::value::get_clock_native_func;
use rox::value::NativeFunctionImpl;
use rox::value::Value;

#[test]
fn equality_is_reflexive_and_symmetric_on_samples() {
    let vals = vec![
        Value::Number(1.5f64.to_bits()),
        Value::Number(0u64),
        Value::Boolean(true),
        Value::Boolean(false),
        Value::Str("abc".to_string()),
        Value::Str(String::new()),
        Value::NativeFunction(get_clock_native_func()),
    ];
    for v in &vals {
        assert!(v.equals(v));
    }
    for a in &vals {
        for b in &vals {
            assert_eq!(a.equals(b), b.equals(a));
        }
    }
}

#[test]
fn the_two_zero_patterns_are_equal() {
    let pos = Value::Number(0.0f64.to_bits());
    let neg = Value::Number((-0.0f64).to_bits());
    assert!(pos.equals(&neg));
    assert!(neg.equals(&pos));
}

#[test]
fn equality_is_false_across_variants() {
    let one = Value::Number(1.0f64.to_bits());
    let t = Value::Boolean(true);
    let s = Value::Str("1".to_string());
    assert!(!one.equals(&t));
    assert!(!one.equals(&s));
    assert!(!t.equals(&s));
}

#[test]
fn truthiness_follows_the_value_model() {
    assert!(Value::Number(0.0f64.to_bits()).is_falsey());
    assert!(Value::Number((-0.0f64).to_bits()).is_falsey());
    assert!(Value::Number(2.0f64.to_bits()).is_truthy());
    assert!(Value::Boolean(false).is_falsey());
    assert!(Value::Boolean(true).is_truthy());
    assert!(Value::Str(String::new()).is_falsey());
    assert!(Value::Str("x".to_string()).is_truthy());
    assert!(Value::NativeFunction(get_clock_native_func()).is_truthy());
}

#[test]
fn duplicate_preserves_the_value() {
    let s = Value::Str("hello".to_string());
    let d = s.duplicate();
    assert!(s.equals(&d));
    let n = Value::Number(7.25f64.to_bits());
    assert!(n.equals(&n.duplicate()));
}

#[test]
fn clock_native_function_shape() {
    let f = get_clock_native_func();
    assert_eq!(f.arity, 0);
    assert_eq!(f.name, "clock");
    assert_eq!(f.implementation, NativeFunctionImpl::NativeClock);
}
