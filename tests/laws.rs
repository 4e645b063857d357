use xpath_functions::error::Error;
use xpath_functions::function::{
    numeric_argument, Concat, Contains, Count, False, Function, Last, Not, Position, StartsWith,
    SubstringAfter, SubstringBefore, True,
};
use xpath_functions::registry::{register_core_functions, CoreFunction, Functions, Outcome};
use xpath_functions::value::{ArgumentType, EvaluationContext, Nodeset, Number, Value};

fn ctx() -> EvaluationContext {
    EvaluationContext::new(1, 1)
}

fn text(s: &str) -> Value {
    Value::String(s.to_string())
}

fn num(x: f64) -> Value {
    Value::Number(Number::from_bits(x.to_bits()))
}

fn call(f: CoreFunction, args: Vec<Value>) -> Result<Outcome, Error> {
    f.evaluate(&ctx(), args)
}

fn filler(n: usize) -> Vec<Value> {
    (0..n).map(|_| Value::Boolean(true)).collect()
}

#[test]
fn exact_arity_functions_report_one_too_few_and_one_too_many() {
    let table = [
        (CoreFunction::Last, 0usize),
        (CoreFunction::Position, 0),
        (CoreFunction::Count, 1),
        (CoreFunction::StartsWith, 2),
        (CoreFunction::Contains, 2),
        (CoreFunction::SubstringBefore, 2),
        (CoreFunction::SubstringAfter, 2),
        (CoreFunction::Not, 1),
        (CoreFunction::True, 0),
        (CoreFunction::False, 0),
        (CoreFunction::Floor, 1),
        (CoreFunction::Ceiling, 1),
    ];
    for (f, n) in table {
        if n > 0 {
            assert_eq!(
                Err(Error::NotEnoughArguments { expected: n, actual: n - 1 }),
                call(f, filler(n - 1))
            );
        }
        assert_eq!(
            Err(Error::TooManyArguments { expected: n, actual: n + 1 }),
            call(f, filler(n + 1))
        );
    }
}

#[test]
fn concat_needs_two_arguments() {
    assert_eq!(
        Err(Error::NotEnoughArguments { expected: 2, actual: 0 }),
        Concat.evaluate(&ctx(), vec![])
    );
    assert_eq!(
        Err(Error::NotEnoughArguments { expected: 2, actual: 1 }),
        Concat.evaluate(&ctx(), vec![text("a")])
    );
    assert_eq!(Ok(text("abc")), Concat.evaluate(&ctx(), vec![text("a"), text("b"), text("c")]));
}

#[test]
fn concat_reports_first_non_string() {
    let r = Concat.evaluate(&ctx(), vec![text("a"), num(1.0), Value::Boolean(true)]);
    assert_eq!(
        Err(Error::WrongType { expected: ArgumentType::String, actual: ArgumentType::Number }),
        r
    );
}

#[test]
fn starts_with_rejects_non_prefix() {
    assert_eq!(Ok(Value::Boolean(true)), StartsWith.evaluate(&ctx(), vec![text("hello"), text("he")]));
    assert_eq!(Ok(Value::Boolean(false)), StartsWith.evaluate(&ctx(), vec![text("hello"), text("lo")]));
    assert_eq!(
        Ok(Value::Boolean(false)),
        StartsWith.evaluate(&ctx(), vec![text("he"), text("hello")])
    );
}

#[test]
fn contains_rejects_missing_needle() {
    assert_eq!(
        Ok(Value::Boolean(true)),
        Contains.evaluate(&ctx(), vec![text("astronomer"), text("ono")])
    );
    assert_eq!(
        Ok(Value::Boolean(false)),
        Contains.evaluate(&ctx(), vec![text("astronomer"), text("xyz")])
    );
    assert_eq!(
        Err(Error::WrongType { expected: ArgumentType::String, actual: ArgumentType::Boolean }),
        Contains.evaluate(&ctx(), vec![text("astronomer"), Value::Boolean(false)])
    );
}

#[test]
fn substring_edges() {
    let before = |h: &str, n: &str| SubstringBefore.evaluate(&ctx(), vec![text(h), text(n)]);
    let after = |h: &str, n: &str| SubstringAfter.evaluate(&ctx(), vec![text(h), text(n)]);
    assert_eq!(Ok(text("1999")), before("1999/04/01", "/"));
    assert_eq!(Ok(text("04/01")), after("1999/04/01", "/"));
    assert_eq!(Ok(text("")), before("abc", "z"));
    assert_eq!(Ok(text("")), after("abc", "z"));
    assert_eq!(Ok(text("")), before("abc", ""));
    assert_eq!(Ok(text("abc")), after("abc", ""));
    assert_eq!(Ok(text("sé")), before("sé/ça", "/"));
    assert_eq!(Ok(text("ça")), after("sé/ça", "/"));
}

#[test]
fn not_negates_booleans_only() {
    assert_eq!(Ok(Value::Boolean(false)), Not.evaluate(&ctx(), vec![Value::Boolean(true)]));
    assert_eq!(Ok(Value::Boolean(true)), Not.evaluate(&ctx(), vec![Value::Boolean(false)]));
    assert_eq!(
        Err(Error::WrongType { expected: ArgumentType::Boolean, actual: ArgumentType::Number }),
        Not.evaluate(&ctx(), vec![num(1.0)])
    );
}

#[test]
fn constants() {
    assert_eq!(Ok(Value::Boolean(true)), True.evaluate(&ctx(), vec![]));
    assert_eq!(Ok(Value::Boolean(false)), False.evaluate(&ctx(), vec![]));
}

#[test]
fn floor_rejects_a_string() {
    assert_eq!(
        Err(Error::WrongType { expected: ArgumentType::Number, actual: ArgumentType::String }),
        call(CoreFunction::Floor, vec![text("x")])
    );
    assert_eq!(
        Err(Error::WrongType { expected: ArgumentType::Number, actual: ArgumentType::String }),
        numeric_argument(&vec![text("x")])
    );
}

#[test]
fn last_and_position_follow_the_context() {
    let c = EvaluationContext::new(7, 3);
    assert_eq!(Ok(num(7.0)), Last.evaluate(&c, vec![]));
    assert_eq!(Ok(num(3.0)), Position.evaluate(&c, vec![]));
}

#[test]
fn count_counts_distinct_nodes() {
    let nodes = Nodeset::new().with(4).with(9).with(4).with(2);
    assert_eq!(3, nodes.size());
    assert_eq!(Ok(num(3.0)), Count.evaluate(&ctx(), vec![Value::Nodes(nodes)]));
    assert_eq!(Ok(num(0.0)), Count.evaluate(&ctx(), vec![Value::Nodes(Nodeset::new())]));
    assert_eq!(
        Err(Error::WrongType { expected: ArgumentType::Nodeset, actual: ArgumentType::String }),
        Count.evaluate(&ctx(), vec![text("x")])
    );
}

#[test]
fn counts_become_nearest_doubles() {
    for n in [0usize, 1, 2, 3, 10, 1 << 52, (1 << 53) - 1, 1 << 53, 123_456_789_012] {
        assert_eq!((n as f64).to_bits(), Number::from_count(n).to_bits());
    }
    for n in [(1usize << 53) + 1, (1 << 53) + 3, (1 << 54) + 2, (1 << 54) + 6, usize::MAX, usize::MAX / 3] {
        assert_eq!((n as f64).to_bits(), Number::from_count(n).to_bits());
    }
}

#[test]
fn registry_resolves_all_core_names() {
    let mut functions = Functions::new();
    register_core_functions(&mut functions);
    assert_eq!(13, functions.len());
    let expected = [
        ("last", CoreFunction::Last),
        ("position", CoreFunction::Position),
        ("count", CoreFunction::Count),
        ("concat", CoreFunction::Concat),
        ("starts-with", CoreFunction::StartsWith),
        ("contains", CoreFunction::Contains),
        ("substring-before", CoreFunction::SubstringBefore),
        ("substring-after", CoreFunction::SubstringAfter),
        ("not", CoreFunction::Not),
        ("true", CoreFunction::True),
        ("false", CoreFunction::False),
        ("floor", CoreFunction::Floor),
        ("ceiling", CoreFunction::Ceiling),
    ];
    for (name, f) in expected {
        assert_eq!(Some(f), functions.get(name));
        assert_eq!(name, f.name());
    }
    assert_eq!(None, functions.get("round"));
}

#[test]
fn registration_overwrites_and_keeps_others() {
    let mut functions = Functions::new();
    functions.insert("not".to_string(), CoreFunction::True);
    functions.insert("mine".to_string(), CoreFunction::Count);
    register_core_functions(&mut functions);
    register_core_functions(&mut functions);
    assert_eq!(14, functions.len());
    assert_eq!(Some(CoreFunction::Not), functions.get("not"));
    assert_eq!(Some(CoreFunction::Count), functions.get("mine"));
}

#[test]
fn dispatch_matches_the_functions() {
    assert_eq!(
        Ok(Outcome::Value(text("ab"))),
        call(CoreFunction::Concat, vec![text("a"), text("b")])
    );
    assert_eq!(Ok(Outcome::Value(num(1.0))), call(CoreFunction::Last, vec![]));
    assert_eq!(
        Ok(Outcome::Value(Value::Boolean(true))),
        call(CoreFunction::Not, vec![Value::Boolean(false)])
    );
}

#[test]
fn error_messages() {
    let e = Error::TooManyArguments { expected: 2, actual: 130 };
    assert_eq!("too many arguments", e.description());
    assert_eq!("too many arguments, expected 2 but had 130", e.message());
    let e = Error::NotEnoughArguments { expected: 1, actual: 0 };
    assert_eq!("not enough arguments", e.description());
    assert_eq!("not enough arguments, expected 1 but had 0", e.message());
    let e = Error::WrongType { expected: ArgumentType::Nodeset, actual: ArgumentType::Boolean };
    assert_eq!("argument of wrong type", e.description());
    assert_eq!("argument was the wrong type, expected Nodeset but had Boolean", e.message());
}

#[test]
fn wrong_type_names_the_shape() {
    assert_eq!(
        Error::WrongType { expected: ArgumentType::Number, actual: ArgumentType::Nodeset },
        Error::wrong_type(&Value::Nodes(Nodeset::new()), ArgumentType::Number)
    );
}

#[test]
fn nodesets_compare_as_sets() {
    let a = Nodeset::new().with(1).with(2).with(3);
    let b = Nodeset::new().with(3).with(1).with(2).with(1);
    let c = Nodeset::new().with(1).with(2);
    assert_eq!(a, b);
    assert_ne!(a, c);
    assert_eq!(Value::Nodes(a.clone()), Value::Nodes(b));
    assert_eq!(3, a.clone().size());
}
