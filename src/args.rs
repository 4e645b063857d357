use vstd::prelude::*;

use crate::error::Error;
use crate::value::{ArgumentType, Number, Value};

verus! {

/// Whether the value is a string.
pub open spec fn is_string(v: Value) -> bool {
    v is String
}

/// The text of a value known to be a string.
pub open spec fn text_of(v: Value) -> Seq<char>
    recommends
        v is String,
{
    match v {
        Value::String(s) => s@,
        _ => Seq::empty(),
    }
}

/// Whether every argument is a string.
pub open spec fn all_strings(args: Seq<Value>) -> bool {
    forall|i: int| 0 <= i < args.len() ==> is_string(#[trigger] args[i])
}

/// Whether the argument at `i` is the first one that is not a string.
pub open spec fn first_non_string(args: Seq<Value>, i: int) -> bool {
    &&& 0 <= i < args.len()
    &&& !is_string(args[i])
    &&& forall|j: int| 0 <= j < i ==> is_string(#[trigger] args[j])
}

/// The texts of the arguments when all are strings, else the `WrongType`
/// error for the first one that is not.
pub open spec fn strings_check(args: Seq<Value>) -> Result<Seq<Seq<char>>, Error> {
    if all_strings(args) {
        Ok(args.map_values(|v: Value| text_of(v)))
    } else {
        let i = choose|i: int| first_non_string(args, i);
        Err(Error::WrongType { expected: ArgumentType::String, actual: args[i].argument_type() })
    }
}

/// The outcome of checking that exactly `expected` arguments were given.
pub open spec fn arity_check(len: nat, expected: usize) -> Result<(), Error> {
    if len < expected {
        Err(Error::NotEnoughArguments { expected, actual: len as usize })
    } else if len > expected {
        Err(Error::TooManyArguments { expected, actual: len as usize })
    } else {
        Ok(())
    }
}

/// The outcome of checking that at least `minimum` arguments were given.
pub open spec fn minimum_check(len: nat, minimum: usize) -> Result<(), Error> {
    if len < minimum {
        Err(Error::NotEnoughArguments { expected: minimum, actual: len as usize })
    } else {
        Ok(())
    }
}

/// Only one argument can be the first that is not a string.
pub proof fn lemma_first_non_string_unique(args: Seq<Value>, i: int, j: int)
    requires
        first_non_string(args, i),
        first_non_string(args, j),
    ensures
        i == j,
{
    if i < j {
        assert(is_string(args[i]));
    } else if j < i {
        assert(is_string(args[j]));
    }
}

/// Fails with `NotEnoughArguments` when there are fewer than `minimum`
/// arguments.
pub fn minimum_arg_count<T>(args: &Vec<T>, minimum: usize) -> (r: Result<(), Error>)
    ensures
        r == minimum_check(args@.len(), minimum),
{
    let actual = args.len();
    if actual < minimum {
        Err(Error::NotEnoughArguments { expected: minimum, actual })
    } else {
        Ok(())
    }
}

/// Succeeds only when there are exactly `expected` arguments.
pub fn exact_arg_count<T>(args: &Vec<T>, expected: usize) -> (r: Result<(), Error>)
    ensures
        r == arity_check(args@.len(), expected),
{
    let actual = args.len();
    if actual < expected {
        Err(Error::NotEnoughArguments { expected, actual })
    } else if actual > expected {
        Err(Error::TooManyArguments { expected, actual })
    } else {
        Ok(())
    }
}

/// The texts of the arguments, in order, when every one is a string; else
/// `WrongType` for the first that is not.
pub fn string_args(args: Vec<Value>) -> (r: Result<Vec<String>, Error>)
    ensures
        match r {
            Ok(texts) => strings_check(args@) == Ok::<Seq<Seq<char>>, Error>(
                texts@.map_values(|s: String| s@),
            ),
            Err(e) => strings_check(args@) == Err::<Seq<Seq<char>>, Error>(e),
        },
{
    let mut texts: Vec<String> = Vec::new();
    let mut i: usize = 0;
    while i < args.len()
        invariant
            0 <= i <= args@.len(),
            texts@.len() == i,
            forall|j: int| 0 <= j < i ==> is_string(#[trigger] args@[j]),
            forall|j: int| 0 <= j < i ==> #[trigger] texts@[j]@ == text_of(args@[j]),
        decreases args@.len() - i,
    {
        match &args[i] {
            Value::String(s) => {
                texts.push(s.clone());
            },
            other => {
                proof {
                    assert(first_non_string(args@, i as int));
                    let k = choose|k: int| first_non_string(args@, k);
                    lemma_first_non_string_unique(args@, i as int, k);
                }
                return Err(Error::wrong_type(other, ArgumentType::String));
            },
        }
        i = i + 1;
    }
    assert(texts@.map_values(|s: String| s@) =~= args@.map_values(|v: Value| text_of(v)));
    Ok(texts)
}

/// The first argument when it is a number; else `WrongType`. The arity is the
/// caller's to check.
pub fn one_number(args: &Vec<Value>) -> (r: Result<Number, Error>)
    requires
        args@.len() >= 1,
    ensures
        r == (match args@[0] {
            Value::Number(n) => Ok(n),
            other => Err(Error::WrongType { expected: ArgumentType::Number, actual: other.argument_type() }),
        }),
{
    match &args[0] {
        Value::Number(v) => Ok(*v),
        a => Err(Error::wrong_type(a, ArgumentType::Number)),
    }
}

} // verus!
