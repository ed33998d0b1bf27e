use scriptlet::lang::func::function_registry::{Arguments, Function, FunctionRegistry, ParamCount};
use scriptlet::lang::func::native_functions::load_native_functions;
use scriptlet::lang::interpreter::{Interpreter, Request, Step};
use scriptlet::lang::panics::Error;
use scriptlet::lang::value::{Number, RuntimeType, RuntimeValue};

fn num(x: f32) -> RuntimeValue {
    RuntimeValue::Number(Number { bits: x.to_bits() })
}

fn float(n: Number) -> f32 {
    f32::from_bits(n.bits)
}

fn text(s: &str) -> RuntimeValue {
    RuntimeValue::String(s.to_string())
}

fn natives() -> FunctionRegistry {
    let mut registry = FunctionRegistry::empty();
    load_native_functions(&mut registry);
    registry
}

#[test]
fn test_callback() {
    let mut registry = natives();
    registry.add_function(Function::new(
        "sum".to_string(),
        ParamCount::Fixed(2),
        vec![RuntimeType::Number, RuntimeType::Number],
    ));
    let sum = |args: Arguments| -> RuntimeValue {
        let num1 = float(args.as_f32(0).unwrap());
        let num2 = float(args.as_f32(1).unwrap());
        num(num1 + num2)
    };
    let result = sum(registry.call("sum", vec![num(5.), num(2.)]).unwrap());
    assert_eq!(result, num(7.));

    registry.add_function(Function::new(
        "concat".to_string(),
        ParamCount::Dynamic(2),
        vec![RuntimeType::String, RuntimeType::String],
    ));
    let concat = |args: Arguments| -> RuntimeValue {
        let mut result = String::new();
        for i in 0..args.len() {
            result.push_str(args.as_str(i).unwrap());
        }
        RuntimeValue::String(result)
    };
    let result2 = concat(registry.call("concat", vec![text("hello "), text("world"), text(" simon")]).unwrap());
    assert_eq!(result2, text("hello world simon"));

    let mut interpreter = Interpreter::new();
    let asked = interpreter.run("print(34);", &vec![Ok(num(34.))]);
    assert_eq!(
        asked,
        Ok(Step::Need(Request::Call { name: "print".to_string(), args: Arguments::new(vec![num(34.)]) }))
    );
    let result3 = interpreter.run("print(34);", &vec![Ok(num(34.)), Ok(RuntimeValue::Null)]);
    assert_eq!(result3, Ok(Step::Done(RuntimeValue::Null)));

    assert_eq!(
        registry.call("print", vec![text("Write 'hi!'")]),
        Ok(Arguments::new(vec![text("Write 'hi!'")]))
    );
    assert_eq!(interpreter.run("read();", &vec![]).map(|step| matches!(step, Step::Need(Request::Call { .. }))), Ok(true));
    let result3 = interpreter.run("read();", &vec![Ok(text("hi!"))]);
    assert_eq!(result3, Ok(Step::Done(text("hi!"))));
}

#[test]
fn built_in_functions_by_name_count_and_kind() {
    let registry = natives();
    let s = || text("s");
    let n = || num(1.);
    assert_eq!(registry.call("print", vec![RuntimeValue::Null]).map(|a| a.len()), Ok(1));
    assert_eq!(registry.call("print", vec![n()]).map(|a| a.len()), Ok(1));
    assert_eq!(registry.call("read", vec![]).map(|a| a.len()), Ok(0));
    assert_eq!(registry.call("random", vec![]).map(|a| a.len()), Ok(0));
    assert_eq!(registry.call("toNumber", vec![s()]).map(|a| a.len()), Ok(1));
    assert_eq!(registry.call("toString", vec![n()]).map(|a| a.len()), Ok(1));
    assert_eq!(registry.call("substring", vec![s(), n(), n()]).map(|a| a.len()), Ok(3));
    assert_eq!(registry.call("writeFile", vec![s(), s()]).map(|a| a.len()), Ok(2));
    assert_eq!(registry.call("readFile", vec![s()]).map(|a| a.len()), Ok(1));
    assert_eq!(registry.call("deleteFile", vec![s()]).map(|a| a.len()), Ok(1));
    assert_eq!(registry.call("exists", vec![s()]).map(|a| a.len()), Ok(1));
}

#[test]
fn function_that_is_not_registered() {
    let registry = natives();
    assert_eq!(registry.call("sum", vec![num(1.), num(2.)]), Err(Error::NameError));
    assert_eq!(registry.call("Print", vec![num(1.)]), Err(Error::NameError));
    assert_eq!(FunctionRegistry::empty().call("print", vec![num(1.)]), Err(Error::NameError));
}

#[test]
fn wrong_count_of_arguments() {
    let registry = natives();
    assert_eq!(registry.call("print", vec![]), Err(Error::ArityError));
    assert_eq!(registry.call("print", vec![num(1.), num(2.)]), Err(Error::ArityError));
    assert_eq!(registry.call("read", vec![num(1.)]), Err(Error::ArityError));
    assert_eq!(registry.call("substring", vec![text("s"), num(1.)]), Err(Error::ArityError));
    assert_eq!(registry.call("toNumber", vec![num(1.), num(2.)]), Err(Error::ArityError));
}

#[test]
fn wrong_kind_of_argument() {
    let registry = natives();
    assert_eq!(registry.call("toNumber", vec![num(1.)]), Err(Error::TypeError));
    assert_eq!(registry.call("toString", vec![text("1")]), Err(Error::TypeError));
    assert_eq!(registry.call("substring", vec![text("s"), num(0.), text("1")]), Err(Error::TypeError));
    assert_eq!(registry.call("substring", vec![RuntimeValue::Null, num(0.), num(1.)]), Err(Error::TypeError));
    assert_eq!(registry.call("exists", vec![RuntimeValue::Bool(true)]), Err(Error::TypeError));
}

#[test]
fn count_is_checked_before_kinds() {
    let registry = natives();
    assert_eq!(registry.call("toNumber", vec![num(1.), text("s")]), Err(Error::ArityError));
}

#[test]
fn arguments_behind_the_declared_kinds_are_held_to_the_last_one() {
    let mut registry = FunctionRegistry::empty();
    registry.add_function(Function::new(
        "join".to_string(),
        ParamCount::Dynamic(1),
        vec![RuntimeType::Number, RuntimeType::String],
    ));
    assert_eq!(registry.call("join", vec![]), Err(Error::ArityError));
    assert_eq!(registry.call("join", vec![num(1.)]).map(|a| a.len()), Ok(1));
    assert_eq!(registry.call("join", vec![num(1.), text("a"), text("b"), text("c")]).map(|a| a.len()), Ok(4));
    assert_eq!(registry.call("join", vec![num(1.), text("a"), text("b"), num(2.)]), Err(Error::TypeError));
    assert_eq!(registry.call("join", vec![text("a")]), Err(Error::TypeError));
}

#[test]
fn positions_without_a_declared_kind_take_any_value() {
    let mut registry = FunctionRegistry::empty();
    registry.add_function(Function::new("all".to_string(), ParamCount::Dynamic(0), vec![]));
    registry.add_function(Function::new("pair".to_string(), ParamCount::Fixed(2), vec![RuntimeType::Bool]));
    assert_eq!(registry.call("all", vec![]).map(|a| a.len()), Ok(0));
    assert_eq!(registry.call("all", vec![num(1.), RuntimeValue::Null]).map(|a| a.len()), Ok(2));
    assert_eq!(registry.call("pair", vec![RuntimeValue::Bool(true), num(1.)]).map(|a| a.len()), Ok(2));
    assert_eq!(registry.call("pair", vec![num(1.), num(1.)]), Err(Error::TypeError));
}

#[test]
fn null_parameter_takes_null_alone() {
    let mut registry = FunctionRegistry::empty();
    registry.add_function(Function::new("none".to_string(), ParamCount::Fixed(1), vec![RuntimeType::Null]));
    assert_eq!(registry.call("none", vec![RuntimeValue::Null]).map(|a| a.len()), Ok(1));
    assert_eq!(registry.call("none", vec![num(0.)]), Err(Error::TypeError));
}

#[test]
fn later_registration_takes_the_place_of_an_earlier_one() {
    let mut registry = natives();
    registry.add_function(Function::new("print".to_string(), ParamCount::Fixed(2), vec![RuntimeType::String, RuntimeType::String]));
    assert_eq!(registry.call("print", vec![num(1.)]), Err(Error::ArityError));
    assert_eq!(registry.call("print", vec![text("a"), text("b")]).map(|a| a.len()), Ok(2));
    assert_eq!(registry.call("read", vec![]).map(|a| a.len()), Ok(0));
}

#[test]
fn arguments_by_position_and_kind() {
    let args = Arguments::new(vec![text("s"), num(2.5), RuntimeValue::Bool(true), RuntimeValue::Null]);
    assert_eq!(args.len(), 4);
    assert_eq!(args.args().len(), 4);
    assert!(args.has(0));
    assert!(args.has(3));
    assert!(!args.has(4));
    assert_eq!(args.as_str(0), Ok(&"s".to_string()));
    assert_eq!(args.as_f32(1).map(float), Ok(2.5));
    assert_eq!(args.as_bool(2), Ok(true));
    assert_eq!(args.as_any(3), Ok(&RuntimeValue::Null));
    assert_eq!(args.as_any(0), Ok(&text("s")));
    assert_eq!(args.as_str(1), Err(Error::TypeError));
    assert_eq!(args.as_f32(0), Err(Error::TypeError));
    assert_eq!(args.as_bool(3), Err(Error::TypeError));
    assert_eq!(args.as_str(4), Err(Error::TypeError));
    assert_eq!(args.as_f32(4), Err(Error::TypeError));
    assert_eq!(args.as_bool(9), Err(Error::TypeError));
    assert_eq!(args.as_any(4), Err(Error::TypeError));
}

#[test]
fn exact_and_least_counts() {
    assert!(ParamCount::Fixed(2).is_fixed());
    assert!(!ParamCount::Dynamic(2).is_fixed());
}

#[test]
fn kinds_of_values() {
    assert_eq!(num(1.).to_type(), RuntimeType::Number);
    assert_eq!(text("a").to_type(), RuntimeType::String);
    assert_eq!(RuntimeValue::Bool(false).to_type(), RuntimeType::Bool);
    assert_eq!(RuntimeValue::Null.to_type(), RuntimeType::Null);
    assert!(num(1.).matches_type(&RuntimeType::Number));
    assert!(num(1.).matches_type(&RuntimeType::Any));
    assert!(RuntimeValue::Null.matches_type(&RuntimeType::Any));
    assert!(RuntimeValue::Null.matches_type(&RuntimeType::Null));
    assert!(!num(1.).matches_type(&RuntimeType::String));
    assert!(!text("1").matches_type(&RuntimeType::Number));
    assert!(!RuntimeValue::Bool(true).matches_type(&RuntimeType::Null));
}

#[test]
fn values_of_different_kinds_are_never_equal() {
    assert_ne!(num(1.), text("1"));
    assert_ne!(RuntimeValue::Bool(false), RuntimeValue::Null);
    assert_ne!(num(0.), RuntimeValue::Null);
    assert_ne!(text("true"), RuntimeValue::Bool(true));
    assert_eq!(text("a").clone(), text("a"));
    assert_eq!(num(1.5).clone(), num(1.5));
}
