use vstd::prelude::*;

use crate::args::{
    arity_check, exact_arg_count, text_of, minimum_arg_count, minimum_check, one_number, string_args,
    strings_check,
};
use crate::error::Error;
use crate::number::count_number;
use crate::text::{contains, contains_text, starts_with, substring_after, substring_before, text_after, text_before};
use crate::value::{ArgumentType, EvaluationContext, Number, Value};

verus! {

/// A named unit of computation over already evaluated arguments.
pub trait Function {
    /// Applies the function to `args` in `context`, or says why the call is
    /// refused.
    fn evaluate(&self, context: &EvaluationContext, args: Vec<Value>) -> Result<Value, Error>;
}

/// The two texts of a call that takes exactly two strings, or the error for
/// its arity or for its first argument that is not a string.
pub open spec fn two_texts(args: Seq<Value>) -> Result<(Seq<char>, Seq<char>), Error> {
    match arity_check(args.len(), 2) {
        Err(e) => Err(e),
        Ok(_) => match strings_check(args) {
            Ok(texts) => Ok((texts[0], texts[1])),
            Err(e) => Err(e),
        },
    }
}

/// Whether `r` is the string `expected` gives, or the error it gives.
pub open spec fn gives_text(r: Result<Value, Error>, expected: Result<Seq<char>, Error>) -> bool {
    match expected {
        Ok(t) => r matches Ok(Value::String(s)) && s@ == t,
        Err(e) => r == Err::<Value, Error>(e),
    }
}

/// What `last` gives: the context size.
pub open spec fn last_result(context: EvaluationContext, args: Seq<Value>) -> Result<Value, Error> {
    match arity_check(args.len(), 0) {
        Err(e) => Err(e),
        Ok(_) => Ok(Value::Number(count_number(context.spec_size()))),
    }
}

/// What `position` gives: the context position.
pub open spec fn position_result(context: EvaluationContext, args: Seq<Value>) -> Result<
    Value,
    Error,
> {
    match arity_check(args.len(), 0) {
        Err(e) => Err(e),
        Ok(_) => Ok(Value::Number(count_number(context.spec_position()))),
    }
}

/// What `count` gives: the size of its one nodeset argument.
pub open spec fn count_result(args: Seq<Value>) -> Result<Value, Error> {
    match arity_check(args.len(), 1) {
        Err(e) => Err(e),
        Ok(_) => match args[0] {
            Value::Nodes(nodes) => Ok(Value::Number(count_number(nodes@.len()))),
            other => Err(Error::WrongType { expected: ArgumentType::Nodeset, actual: other.argument_type() }),
        },
    }
}

/// What `concat` gives: its two or more string arguments joined in order.
pub open spec fn concat_result(args: Seq<Value>) -> Result<Seq<char>, Error> {
    match minimum_check(args.len(), 2) {
        Err(e) => Err(e),
        Ok(_) => match strings_check(args) {
            Ok(texts) => Ok(texts.flatten()),
            Err(e) => Err(e),
        },
    }
}

/// What `starts-with` gives: whether the first string begins with the second.
pub open spec fn starts_with_result(args: Seq<Value>) -> Result<Value, Error> {
    match two_texts(args) {
        Ok((haystack, needle)) => Ok(Value::Boolean(needle.is_prefix_of(haystack))),
        Err(e) => Err(e),
    }
}

/// What `contains` gives: whether the second string occurs in the first.
pub open spec fn contains_result(args: Seq<Value>) -> Result<Value, Error> {
    match two_texts(args) {
        Ok((haystack, needle)) => Ok(Value::Boolean(contains_text(haystack, needle))),
        Err(e) => Err(e),
    }
}

/// What `substring-before` gives.
pub open spec fn substring_before_result(args: Seq<Value>) -> Result<Seq<char>, Error> {
    match two_texts(args) {
        Ok((haystack, needle)) => Ok(text_before(haystack, needle)),
        Err(e) => Err(e),
    }
}

/// What `substring-after` gives.
pub open spec fn substring_after_result(args: Seq<Value>) -> Result<Seq<char>, Error> {
    match two_texts(args) {
        Ok((haystack, needle)) => Ok(text_after(haystack, needle)),
        Err(e) => Err(e),
    }
}

/// What `not` gives: the negation of its one boolean argument.
pub open spec fn not_result(args: Seq<Value>) -> Result<Value, Error> {
    match arity_check(args.len(), 1) {
        Err(e) => Err(e),
        Ok(_) => match args[0] {
            Value::Boolean(b) => Ok(Value::Boolean(!b)),
            other => Err(Error::WrongType { expected: ArgumentType::Boolean, actual: other.argument_type() }),
        },
    }
}

/// What `true` and `false` give: the constant `b`.
pub open spec fn constant_result(b: bool, args: Seq<Value>) -> Result<Value, Error> {
    match arity_check(args.len(), 0) {
        Err(e) => Err(e),
        Ok(_) => Ok(Value::Boolean(b)),
    }
}

/// The argument of a call that takes exactly one number, or the error for its
/// arity or its type.
pub open spec fn number_argument_result(args: Seq<Value>) -> Result<Number, Error> {
    match arity_check(args.len(), 1) {
        Err(e) => Err(e),
        Ok(_) => match args[0] {
            Value::Number(n) => Ok(n),
            other => Err(Error::WrongType { expected: ArgumentType::Number, actual: other.argument_type() }),
        },
    }
}

/// The two strings of a call that takes exactly two.
fn two_string_args(args: Vec<Value>) -> (r: Result<(String, String), Error>)
    ensures
        match (r, two_texts(args@)) {
            (Ok((a, b)), Ok((x, y))) => a@ == x && b@ == y,
            (Err(e), Err(f)) => e == f,
            _ => false,
        },
{
    exact_arg_count(&args, 2)?;
    let ghost given = args@;
    let mut texts = string_args(args)?;
    assert(texts@.map_values(|s: String| s@) == given.map_values(|v: Value| text_of(v)));
    assert(texts@.len() == 2);
    let ghost views = texts@.map_values(|s: String| s@);
    let second = texts.pop().unwrap();
    let first = texts.pop().unwrap();
    assert(first@ == views[0] && second@ == views[1]);
    Ok((first, second))
}

/// The one number argument that `floor` and `ceiling` round, after their
/// arity and type are checked.
pub fn numeric_argument(args: &Vec<Value>) -> (r: Result<Number, Error>)
    ensures
        r == number_argument_result(args@),
{
    exact_arg_count(args, 1)?;
    one_number(args)
}

/// `last()`: the context size.
pub struct Last;

impl Function for Last {
    fn evaluate(&self, context: &EvaluationContext, args: Vec<Value>) -> (r: Result<Value, Error>)
        ensures
            r == last_result(*context, args@),
    {
        exact_arg_count(&args, 0)?;
        Ok(Value::Number(Number::from_count(context.size())))
    }
}

/// `position()`: the context position.
pub struct Position;

impl Function for Position {
    fn evaluate(&self, context: &EvaluationContext, args: Vec<Value>) -> (r: Result<Value, Error>)
        ensures
            r == position_result(*context, args@),
    {
        exact_arg_count(&args, 0)?;
        Ok(Value::Number(Number::from_count(context.position())))
    }
}

/// `count(nodeset)`: the number of nodes.
pub struct Count;

impl Function for Count {
    fn evaluate(&self, _context: &EvaluationContext, args: Vec<Value>) -> (r: Result<Value, Error>)
        ensures
            r == count_result(args@),
    {
        exact_arg_count(&args, 1)?;
        let arg = &args[0];
        match arg {
            Value::Nodes(nodeset) => Ok(Value::Number(Number::from_count(nodeset.size()))),
            _ => Err(Error::wrong_type(arg, ArgumentType::Nodeset)),
        }
    }
}

/// `concat(string, string, ...)`: the strings joined in order.
pub struct Concat;

impl Function for Concat {
    fn evaluate(&self, _context: &EvaluationContext, args: Vec<Value>) -> (r: Result<Value, Error>)
        ensures
            gives_text(r, concat_result(args@)),
    {
        minimum_arg_count(&args, 2)?;
        let texts = string_args(args)?;
        let ghost views = texts@.map_values(|s: String| s@);
        let mut joined = String::new();
        let mut i: usize = 0;
        while i < texts.len()
            invariant
                0 <= i <= texts@.len(),
                views == texts@.map_values(|s: String| s@),
                joined@ == views.subrange(0, i as int).flatten(),
            decreases texts@.len() - i,
        {
            proof {
                assert(views.subrange(0, i + 1) =~= views.subrange(0, i as int).push(views[i as int]));
                views.subrange(0, i as int).lemma_flatten_push(views[i as int]);
            }
            joined.append(texts[i].as_str());
            i = i + 1;
        }
        assert(views.subrange(0, i as int) =~= views);
        Ok(Value::String(joined))
    }
}

/// `starts-with(string, prefix)`.
pub struct StartsWith;

impl Function for StartsWith {
    fn evaluate(&self, _context: &EvaluationContext, args: Vec<Value>) -> (r: Result<Value, Error>)
        ensures
            r == starts_with_result(args@),
    {
        let (haystack, needle) = two_string_args(args)?;
        Ok(Value::Boolean(starts_with(haystack.as_str(), needle.as_str())))
    }
}

/// `contains(string, needle)`.
pub struct Contains;

impl Function for Contains {
    fn evaluate(&self, _context: &EvaluationContext, args: Vec<Value>) -> (r: Result<Value, Error>)
        ensures
            r == contains_result(args@),
    {
        let (haystack, needle) = two_string_args(args)?;
        Ok(Value::Boolean(contains(haystack.as_str(), needle.as_str())))
    }
}

/// `substring-before(string, needle)`.
pub struct SubstringBefore;

impl Function for SubstringBefore {
    fn evaluate(&self, _context: &EvaluationContext, args: Vec<Value>) -> (r: Result<Value, Error>)
        ensures
            gives_text(r, substring_before_result(args@)),
    {
        let (haystack, needle) = two_string_args(args)?;
        Ok(Value::String(substring_before(haystack.as_str(), needle.as_str())))
    }
}

/// `substring-after(string, needle)`.
pub struct SubstringAfter;

impl Function for SubstringAfter {
    fn evaluate(&self, _context: &EvaluationContext, args: Vec<Value>) -> (r: Result<Value, Error>)
        ensures
            gives_text(r, substring_after_result(args@)),
    {
        let (haystack, needle) = two_string_args(args)?;
        Ok(Value::String(substring_after(haystack.as_str(), needle.as_str())))
    }
}

/// `not(boolean)`.
pub struct Not;

impl Function for Not {
    fn evaluate(&self, _context: &EvaluationContext, args: Vec<Value>) -> (r: Result<Value, Error>)
        ensures
            r == not_result(args@),
    {
        exact_arg_count(&args, 1)?;
        let arg = &args[0];
        match arg {
            Value::Boolean(v) => Ok(Value::Boolean(!*v)),
            _ => Err(Error::wrong_type(arg, ArgumentType::Boolean)),
        }
    }
}

/// `true()`.
pub struct True;

impl Function for True {
    fn evaluate(&self, _context: &EvaluationContext, args: Vec<Value>) -> (r: Result<Value, Error>)
        ensures
            r == constant_result(true, args@),
    {
        exact_arg_count(&args, 0)?;
        Ok(Value::Boolean(true))
    }
}

/// `false()`.
pub struct False;

impl Function for False {
    fn evaluate(&self, _context: &EvaluationContext, args: Vec<Value>) -> (r: Result<Value, Error>)
        ensures
            r == constant_result(false, args@),
    {
        exact_arg_count(&args, 0)?;
        Ok(Value::Boolean(false))
    }
}

} // verus!
