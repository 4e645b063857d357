use vstd::prelude::*;
use vstd::string::*;

use crate::value::{ArgumentType, Value};

verus! {

/// Why a call was refused: its arity or the shape of one of its arguments.
#[allow(inconsistent_fields)]
#[derive(Clone, Copy, Debug, PartialEq, Eq, Hash, Structural)]
pub enum Error {
    TooManyArguments { expected: usize, actual: usize },
    NotEnoughArguments { expected: usize, actual: usize },
    WrongType { expected: ArgumentType, actual: ArgumentType },
}

/// The decimal digit for `d < 10`.
pub open spec fn digit_char(d: nat) -> char {
    if d == 0 { '0' }
    else if d == 1 { '1' }
    else if d == 2 { '2' }
    else if d == 3 { '3' }
    else if d == 4 { '4' }
    else if d == 5 { '5' }
    else if d == 6 { '6' }
    else if d == 7 { '7' }
    else if d == 8 { '8' }
    else { '9' }
}

/// The decimal notation of `n`, without leading zeros.
pub open spec fn decimal(n: nat) -> Seq<char>
    decreases n,
{
    if n < 10 {
        seq![digit_char(n)]
    } else {
        decimal(n / 10).push(digit_char(n % 10))
    }
}

/// The name of a shape, as messages show it.
pub open spec fn shape_name(t: ArgumentType) -> Seq<char> {
    match t {
        ArgumentType::Nodeset => "Nodeset"@,
        ArgumentType::Boolean => "Boolean"@,
        ArgumentType::Number => "Number"@,
        ArgumentType::String => "String"@,
    }
}

fn digit_str(d: usize) -> (r: &'static str)
    requires
        d < 10,
    ensures
        r@ == seq![digit_char(d as nat)],
{
    proof {
        reveal_strlit("0");
        reveal_strlit("1");
        reveal_strlit("2");
        reveal_strlit("3");
        reveal_strlit("4");
        reveal_strlit("5");
        reveal_strlit("6");
        reveal_strlit("7");
        reveal_strlit("8");
        reveal_strlit("9");
    }
    let r = if d == 0 { "0" }
    else if d == 1 { "1" }
    else if d == 2 { "2" }
    else if d == 3 { "3" }
    else if d == 4 { "4" }
    else if d == 5 { "5" }
    else if d == 6 { "6" }
    else if d == 7 { "7" }
    else if d == 8 { "8" }
    else { "9" };
    assert(r@ =~= seq![digit_char(d as nat)]);
    r
}

/// The decimal notation of `n`.
fn decimal_string(n: usize) -> (r: String)
    ensures
        r@ == decimal(n as nat),
    decreases n,
{
    if n < 10 {
        String::from_str(digit_str(n))
    } else {
        let mut r = decimal_string(n / 10);
        r.append(digit_str(n % 10));
        r
    }
}

fn shape_name_str(t: ArgumentType) -> (r: &'static str)
    ensures
        r@ == shape_name(t),
{
    match t {
        ArgumentType::Nodeset => "Nodeset",
        ArgumentType::Boolean => "Boolean",
        ArgumentType::Number => "Number",
        ArgumentType::String => "String",
    }
}

impl Error {
    /// A short description of the kind of error.
    pub open spec fn spec_description(self) -> Seq<char> {
        match self {
            Error::TooManyArguments { .. } => "too many arguments"@,
            Error::NotEnoughArguments { .. } => "not enough arguments"@,
            Error::WrongType { .. } => "argument of wrong type"@,
        }
    }

    /// The message that states what was expected and what was given.
    pub open spec fn spec_message(self) -> Seq<char> {
        match self {
            Error::TooManyArguments { expected, actual } => "too many arguments, expected "@
                + decimal(expected as nat) + " but had "@ + decimal(actual as nat),
            Error::NotEnoughArguments { expected, actual } => "not enough arguments, expected "@
                + decimal(expected as nat) + " but had "@ + decimal(actual as nat),
            Error::WrongType { expected, actual } => "argument was the wrong type, expected "@
                + shape_name(expected) + " but had "@ + shape_name(actual),
        }
    }

    /// A short description of the kind of error.
    pub fn description(&self) -> (r: &'static str)
        ensures
            r@ == self.spec_description(),
    {
        match self {
            Error::TooManyArguments { .. } => "too many arguments",
            Error::NotEnoughArguments { .. } => "not enough arguments",
            Error::WrongType { .. } => "argument of wrong type",
        }
    }

    /// The message that states what was expected and what was given.
    pub fn message(&self) -> (r: String)
        ensures
            r@ == self.spec_message(),
    {
        match self {
            Error::TooManyArguments { expected, actual } => {
                let mut m = String::from_str("too many arguments, expected ");
                m.append(decimal_string(*expected).as_str());
                m.append(" but had ");
                m.append(decimal_string(*actual).as_str());
                m
            },
            Error::NotEnoughArguments { expected, actual } => {
                let mut m = String::from_str("not enough arguments, expected ");
                m.append(decimal_string(*expected).as_str());
                m.append(" but had ");
                m.append(decimal_string(*actual).as_str());
                m
            },
            Error::WrongType { expected, actual } => {
                let mut m = String::from_str("argument was the wrong type, expected ");
                m.append(shape_name_str(*expected));
                m.append(" but had ");
                m.append(shape_name_str(*actual));
                m
            },
        }
    }

    /// The error for an argument `actual` where a value of shape `expected`
    /// was needed.
    pub fn wrong_type(actual: &Value, expected: ArgumentType) -> (r: Error)
        ensures
            r == (Error::WrongType { expected, actual: actual.argument_type() }),
    {
        let actual = match actual {
            Value::Nodes(..) => ArgumentType::Nodeset,
            Value::String(..) => ArgumentType::String,
            Value::Number(..) => ArgumentType::Number,
            Value::Boolean(..) => ArgumentType::Boolean,
        };
        Error::WrongType { expected, actual }
    }
}

} // verus!
