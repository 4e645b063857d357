use xpath_functions::error::Error;
use xpath_functions::function::{Concat, Contains, Count, Function, Last, Position, StartsWith, SubstringAfter, SubstringBefore};
use xpath_functions::registry::{CoreFunction, Outcome};
use xpath_functions::value::{EvaluationContext, Nodeset, Number, Value};

fn context() -> EvaluationContext {
    EvaluationContext::new(1, 1)
}

fn string(s: &str) -> Value {
    Value::String(s.to_string())
}

fn number(x: f64) -> Value {
    Value::Number(Number::from_bits(x.to_bits()))
}

fn evaluate<F: Function>(f: F, args: Vec<Value>) -> Result<Value, Error> {
    f.evaluate(&context(), args)
}

#[test]
fn last_returns_context_size() {
    let r = evaluate(Last, vec![]);
    assert_eq!(Ok(number(1.0)), r);
}

#[test]
fn position_returns_context_position() {
    let r = evaluate(Position, vec![]);
    assert_eq!(Ok(number(1.0)), r);
}

#[test]
fn count_counts_nodes_in_nodeset() {
    let nodeset = Nodeset::new().with(0);
    let r = evaluate(Count, vec![Value::Nodes(nodeset)]);
    assert_eq!(Ok(number(1.0)), r);
}

#[test]
fn concat_combines_strings() {
    let args = vec![string("hello"), string(" "), string("world")];
    let r = evaluate(Concat, args);
    assert_eq!(Ok(string("hello world")), r);
}

#[test]
fn starts_with_checks_prefixes() {
    let args = vec![string("hello"), string("he")];
    let r = evaluate(StartsWith, args);
    assert_eq!(Ok(Value::Boolean(true)), r);
}

#[test]
fn contains_looks_for_a_needle() {
    let args = vec![string("astronomer"), string("ono")];
    let r = evaluate(Contains, args);
    assert_eq!(Ok(Value::Boolean(true)), r);
}

#[test]
fn substring_before_slices_before() {
    let args = vec![string("1999/04/01"), string("/")];
    let r = evaluate(SubstringBefore, args);
    assert_eq!(Ok(string("1999")), r);
}

#[test]
fn substring_after_slices_after() {
    let args = vec![string("1999/04/01"), string("/")];
    let r = evaluate(SubstringAfter, args);
    assert_eq!(Ok(string("04/01")), r);
}

fn rounded(r: Result<Outcome, Error>) -> Result<f64, Error> {
    match r? {
        Outcome::RoundDown(n) => Ok(f64::from_bits(n.to_bits()).floor()),
        Outcome::RoundUp(n) => Ok(f64::from_bits(n.to_bits()).ceil()),
        Outcome::Value(v) => panic!("not a rounding: {:?}", v),
    }
}

#[test]
fn floor_rounds_down() {
    let r = CoreFunction::Floor.evaluate(&context(), vec![number(199.99)]);
    assert_eq!(Ok(Outcome::RoundDown(Number::from_bits(199.99f64.to_bits()))), r);
    assert_eq!(Ok(199.0), rounded(r));
}

#[test]
fn ceiling_rounds_up() {
    let r = CoreFunction::Ceiling.evaluate(&context(), vec![number(199.99)]);
    assert_eq!(Ok(Outcome::RoundUp(Number::from_bits(199.99f64.to_bits()))), r);
    assert_eq!(Ok(200.0), rounded(r));
}
