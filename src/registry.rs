use vstd::prelude::*;
use vstd::string::*;

use crate::error::Error;
use crate::function::{
    concat_result, constant_result, contains_result, count_result, gives_text, last_result,
    not_result, number_argument_result, numeric_argument, position_result, starts_with_result,
    substring_after_result, substring_before_result, Concat, Contains, Count, False, Function, Last,
    Not, Position, StartsWith, SubstringAfter, SubstringBefore, True,
};
use crate::value::{EvaluationContext, Number, Value};

verus! {

/// The core functions, by identity.
#[derive(Clone, Copy, Debug, PartialEq, Eq, Hash, Structural)]
pub enum CoreFunction {
    Last,
    Position,
    Count,
    Concat,
    StartsWith,
    Contains,
    SubstringBefore,
    SubstringAfter,
    Not,
    True,
    False,
    Floor,
    Ceiling,
}

/// How many arguments a function takes.
#[derive(Clone, Copy, Debug, PartialEq, Eq, Hash, Structural)]
pub enum Arity {
    Exactly(usize),
    AtLeast(usize),
}

/// What a call of a core function hands back: a finished value, or a number
/// that still has to be rounded down (`floor`) or up (`ceiling`) to an
/// integral value by IEEE-754 rules.
#[derive(Clone, Debug, PartialEq)]
pub enum Outcome {
    Value(Value),
    RoundDown(Number),
    RoundUp(Number),
}

/// The value a call gave, or its error; a rounding outcome counts as the
/// number it rounds.
pub open spec fn outcome_value(r: Result<Outcome, Error>) -> Result<Value, Error> {
    match r {
        Ok(Outcome::Value(v)) => Ok(v),
        Ok(Outcome::RoundDown(n)) => Ok(Value::Number(n)),
        Ok(Outcome::RoundUp(n)) => Ok(Value::Number(n)),
        Err(e) => Err(e),
    }
}

impl CoreFunction {
    /// The name under which the function is called.
    pub open spec fn spec_name(self) -> Seq<char> {
        match self {
            CoreFunction::Last => "last"@,
            CoreFunction::Position => "position"@,
            CoreFunction::Count => "count"@,
            CoreFunction::Concat => "concat"@,
            CoreFunction::StartsWith => "starts-with"@,
            CoreFunction::Contains => "contains"@,
            CoreFunction::SubstringBefore => "substring-before"@,
            CoreFunction::SubstringAfter => "substring-after"@,
            CoreFunction::Not => "not"@,
            CoreFunction::True => "true"@,
            CoreFunction::False => "false"@,
            CoreFunction::Floor => "floor"@,
            CoreFunction::Ceiling => "ceiling"@,
        }
    }

    /// The number of arguments the function accepts.
    pub open spec fn arity(self) -> Arity {
        match self {
            CoreFunction::Last | CoreFunction::Position | CoreFunction::True
            | CoreFunction::False => Arity::Exactly(0),
            CoreFunction::Count | CoreFunction::Not | CoreFunction::Floor
            | CoreFunction::Ceiling => Arity::Exactly(1),
            CoreFunction::Concat => Arity::AtLeast(2),
            _ => Arity::Exactly(2),
        }
    }

    /// Whether the result depends on the evaluation context.
    pub open spec fn context_dependent(self) -> bool {
        self == CoreFunction::Last || self == CoreFunction::Position
    }

    /// What a call of this function with `args` in `context` gives.
    pub open spec fn gives(
        self,
        context: EvaluationContext,
        args: Seq<Value>,
        r: Result<Outcome, Error>,
    ) -> bool {
        match self {
            CoreFunction::Last => outcome_value(r) == last_result(context, args),
            CoreFunction::Position => outcome_value(r) == position_result(context, args),
            CoreFunction::Count => outcome_value(r) == count_result(args),
            CoreFunction::Concat => gives_text(outcome_value(r), concat_result(args)),
            CoreFunction::StartsWith => outcome_value(r) == starts_with_result(args),
            CoreFunction::Contains => outcome_value(r) == contains_result(args),
            CoreFunction::SubstringBefore => gives_text(outcome_value(r), substring_before_result(args)),
            CoreFunction::SubstringAfter => gives_text(outcome_value(r), substring_after_result(args)),
            CoreFunction::Not => outcome_value(r) == not_result(args),
            CoreFunction::True => outcome_value(r) == constant_result(true, args),
            CoreFunction::False => outcome_value(r) == constant_result(false, args),
            CoreFunction::Floor => r == match number_argument_result(args) {
                Ok(n) => Ok(Outcome::RoundDown(n)),
                Err(e) => Err(e),
            },
            CoreFunction::Ceiling => r == match number_argument_result(args) {
                Ok(n) => Ok(Outcome::RoundUp(n)),
                Err(e) => Err(e),
            },
        }
    }

    /// The name under which the function is called.
    pub fn name(&self) -> (r: &'static str)
        ensures
            r@ == self.spec_name(),
    {
        match self {
            CoreFunction::Last => "last",
            CoreFunction::Position => "position",
            CoreFunction::Count => "count",
            CoreFunction::Concat => "concat",
            CoreFunction::StartsWith => "starts-with",
            CoreFunction::Contains => "contains",
            CoreFunction::SubstringBefore => "substring-before",
            CoreFunction::SubstringAfter => "substring-after",
            CoreFunction::Not => "not",
            CoreFunction::True => "true",
            CoreFunction::False => "false",
            CoreFunction::Floor => "floor",
            CoreFunction::Ceiling => "ceiling",
        }
    }

    /// Calls the function with `args` in `context`.
    pub fn evaluate(&self, context: &EvaluationContext, args: Vec<Value>) -> (r: Result<
        Outcome,
        Error,
    >)
        ensures
            self.gives(*context, args@, r),
            !(r matches Ok(Outcome::RoundDown(_))) || *self == CoreFunction::Floor,
            !(r matches Ok(Outcome::RoundUp(_))) || *self == CoreFunction::Ceiling,
    {
        match self {
            CoreFunction::Last => Ok(Outcome::Value(Last.evaluate(context, args)?)),
            CoreFunction::Position => Ok(Outcome::Value(Position.evaluate(context, args)?)),
            CoreFunction::Count => Ok(Outcome::Value(Count.evaluate(context, args)?)),
            CoreFunction::Concat => Ok(Outcome::Value(Concat.evaluate(context, args)?)),
            CoreFunction::StartsWith => Ok(Outcome::Value(StartsWith.evaluate(context, args)?)),
            CoreFunction::Contains => Ok(Outcome::Value(Contains.evaluate(context, args)?)),
            CoreFunction::SubstringBefore => Ok(
                Outcome::Value(SubstringBefore.evaluate(context, args)?),
            ),
            CoreFunction::SubstringAfter => Ok(
                Outcome::Value(SubstringAfter.evaluate(context, args)?),
            ),
            CoreFunction::Not => Ok(Outcome::Value(Not.evaluate(context, args)?)),
            CoreFunction::True => Ok(Outcome::Value(True.evaluate(context, args)?)),
            CoreFunction::False => Ok(Outcome::Value(False.evaluate(context, args)?)),
            CoreFunction::Floor => Ok(Outcome::RoundDown(numeric_argument(&args)?)),
            CoreFunction::Ceiling => Ok(Outcome::RoundUp(numeric_argument(&args)?)),
        }
    }
}

/// A mapping from function names to functions.
pub struct Functions {
    entries: Vec<(String, CoreFunction)>,
    model: Ghost<Map<Seq<char>, CoreFunction>>,
}

impl View for Functions {
    type V = Map<Seq<char>, CoreFunction>;

    closed spec fn view(&self) -> Map<Seq<char>, CoreFunction> {
        self.model@
    }
}

impl Functions {
    /// Each name is stored once, and the stored pairs are the mapping.
    pub closed spec fn wf(&self) -> bool {
        &&& forall|i: int, j: int|
            0 <= i < j < self.entries@.len() ==> self.entries@[i].0@ != self.entries@[j].0@
        &&& forall|i: int|
            0 <= i < self.entries@.len() ==> #[trigger] self.model@.contains_key(self.entries@[i].0@)
                && self.model@[self.entries@[i].0@] == self.entries@[i].1
        &&& forall|k: Seq<char>|
            #[trigger] self.model@.contains_key(k) ==> exists|i: int|
                0 <= i < self.entries@.len() && self.entries@[i].0@ == k
    }

    /// An empty mapping.
    pub fn new() -> (r: Functions)
        ensures
            r.wf(),
            r@ == Map::<Seq<char>, CoreFunction>::empty(),
    {
        Functions { entries: Vec::new(), model: Ghost(Map::empty()) }
    }

    /// The position of the entry named `name`, if there is one.
    fn index_of(&self, name: &String) -> (r: Option<usize>)
        requires
            self.wf(),
        ensures
            match r {
                Some(i) => i < self.entries@.len() && self.entries@[i as int].0@ == name@,
                None => !self@.contains_key(name@),
            },
    {
        let mut i: usize = 0;
        while i < self.entries.len()
            invariant
                self.wf(),
                0 <= i <= self.entries@.len(),
                forall|j: int| 0 <= j < i ==> self.entries@[j].0@ != name@,
            decreases self.entries@.len() - i,
        {
            if self.entries[i].0 == *name {
                return Some(i);
            }
            i = i + 1;
        }
        None
    }

    /// Binds `name` to `function`, replacing an earlier binding of it.
    pub fn insert(&mut self, name: String, function: CoreFunction)
        requires
            old(self).wf(),
        ensures
            final(self).wf(),
            final(self)@ == old(self)@.insert(name@, function),
    {
        let ghost key = name@;
        let ghost mut at: int = 0;
        match self.index_of(&name) {
            Some(i) => {
                self.entries.set(i, (name, function));
                proof {
                    at = i as int;
                }
            },
            None => {
                proof {
                    at = self.entries@.len() as int;
                }
                self.entries.push((name, function));
            },
        }
        assert(self.entries@[at].0@ == key);
        self.model = Ghost(self.model@.insert(key, function));
        assert forall|k: Seq<char>| #[trigger] self.model@.contains_key(k) implies exists|i: int|
            0 <= i < self.entries@.len() && self.entries@[i].0@ == k by {
            if k == key {
                assert(self.entries@[at].0@ == k);
            } else {
                let i = choose|i: int| 0 <= i < old(self).entries@.len() && old(self).entries@[i].0@ == k;
                assert(self.entries@[i].0@ == k);
            }
        }
    }

    /// The function bound to `name`, if any.
    pub fn get(&self, name: &str) -> (r: Option<CoreFunction>)
        requires
            self.wf(),
        ensures
            r == (if self@.contains_key(name@) {
                Some(self@[name@])
            } else {
                None
            }),
    {
        let key = String::from_str(name);
        match self.index_of(&key) {
            Some(i) => Some(self.entries[i].1),
            None => None,
        }
    }

    /// The number of bound names.
    pub fn len(&self) -> (r: usize)
        requires
            self.wf(),
        ensures
            r == self@.len(),
    {
        proof {
            lemma_entries_count(self);
        }
        self.entries.len()
    }
}

/// `m` with every core function bound to its name.
pub open spec fn with_core_functions(m: Map<Seq<char>, CoreFunction>) -> Map<
    Seq<char>,
    CoreFunction,
> {
    m.insert("last"@, CoreFunction::Last).insert("position"@, CoreFunction::Position).insert(
        "count"@,
        CoreFunction::Count,
    ).insert("concat"@, CoreFunction::Concat).insert("starts-with"@, CoreFunction::StartsWith).insert(
        "contains"@,
        CoreFunction::Contains,
    ).insert("substring-before"@, CoreFunction::SubstringBefore).insert(
        "substring-after"@,
        CoreFunction::SubstringAfter,
    ).insert("not"@, CoreFunction::Not).insert("true"@, CoreFunction::True).insert(
        "false"@,
        CoreFunction::False,
    ).insert("floor"@, CoreFunction::Floor).insert("ceiling"@, CoreFunction::Ceiling)
}

/// Whether `name` is the name of a core function.
pub open spec fn is_core_name(name: Seq<char>) -> bool {
    exists|f: CoreFunction| f.spec_name() == name
}

/// Installs every core function under its name. Names bound earlier to
/// something else are overwritten; other names keep their bindings.
pub fn register_core_functions(functions: &mut Functions)
    requires
        old(functions).wf(),
    ensures
        final(functions).wf(),
        final(functions)@ == with_core_functions(old(functions)@),
{
    functions.insert(String::from_str("last"), CoreFunction::Last);
    functions.insert(String::from_str("position"), CoreFunction::Position);
    functions.insert(String::from_str("count"), CoreFunction::Count);
    functions.insert(String::from_str("concat"), CoreFunction::Concat);
    functions.insert(String::from_str("starts-with"), CoreFunction::StartsWith);
    functions.insert(String::from_str("contains"), CoreFunction::Contains);
    functions.insert(String::from_str("substring-before"), CoreFunction::SubstringBefore);
    functions.insert(String::from_str("substring-after"), CoreFunction::SubstringAfter);
    functions.insert(String::from_str("not"), CoreFunction::Not);
    functions.insert(String::from_str("true"), CoreFunction::True);
    functions.insert(String::from_str("false"), CoreFunction::False);
    functions.insert(String::from_str("floor"), CoreFunction::Floor);
    functions.insert(String::from_str("ceiling"), CoreFunction::Ceiling);
}

/// Distinct core functions have distinct names.
proof fn lemma_core_names_distinct(f: CoreFunction, g: CoreFunction)
    requires
        f != g,
    ensures
        f.spec_name() != g.spec_name(),
{
    reveal_strlit("last");
    reveal_strlit("position");
    reveal_strlit("count");
    reveal_strlit("concat");
    reveal_strlit("starts-with");
    reveal_strlit("contains");
    reveal_strlit("substring-before");
    reveal_strlit("substring-after");
    reveal_strlit("not");
    reveal_strlit("true");
    reveal_strlit("false");
    reveal_strlit("floor");
    reveal_strlit("ceiling");
    assert("last"@.len() == 4 && "last"@[0] == 'l' && "last"@[1] == 'a');
    assert("position"@.len() == 8 && "position"@[0] == 'p' && "position"@[1] == 'o');
    assert("count"@.len() == 5 && "count"@[0] == 'c' && "count"@[1] == 'o');
    assert("concat"@.len() == 6 && "concat"@[0] == 'c' && "concat"@[1] == 'o');
    assert("starts-with"@.len() == 11 && "starts-with"@[0] == 's' && "starts-with"@[1] == 't');
    assert("contains"@.len() == 8 && "contains"@[0] == 'c' && "contains"@[1] == 'o');
    assert("substring-before"@.len() == 16 && "substring-before"@[0] == 's' && "substring-before"@[1] == 'u');
    assert("substring-after"@.len() == 15 && "substring-after"@[0] == 's' && "substring-after"@[1] == 'u');
    assert("not"@.len() == 3 && "not"@[0] == 'n' && "not"@[1] == 'o');
    assert("true"@.len() == 4 && "true"@[0] == 't' && "true"@[1] == 'r');
    assert("false"@.len() == 5 && "false"@[0] == 'f' && "false"@[1] == 'a');
    assert("floor"@.len() == 5 && "floor"@[0] == 'f' && "floor"@[1] == 'l');
    assert("ceiling"@.len() == 7 && "ceiling"@[0] == 'c' && "ceiling"@[1] == 'e');
}

/// The name of `f` differs from that of every other core function.
proof fn lemma_name_differs_from_others(f: CoreFunction)
    ensures
        f != CoreFunction::Last ==> f.spec_name() != CoreFunction::Last.spec_name(),
        f != CoreFunction::Position ==> f.spec_name() != CoreFunction::Position.spec_name(),
        f != CoreFunction::Count ==> f.spec_name() != CoreFunction::Count.spec_name(),
        f != CoreFunction::Concat ==> f.spec_name() != CoreFunction::Concat.spec_name(),
        f != CoreFunction::StartsWith ==> f.spec_name() != CoreFunction::StartsWith.spec_name(),
        f != CoreFunction::Contains ==> f.spec_name() != CoreFunction::Contains.spec_name(),
        f != CoreFunction::SubstringBefore ==> f.spec_name() != CoreFunction::SubstringBefore.spec_name(),
        f != CoreFunction::SubstringAfter ==> f.spec_name() != CoreFunction::SubstringAfter.spec_name(),
        f != CoreFunction::Not ==> f.spec_name() != CoreFunction::Not.spec_name(),
        f != CoreFunction::True ==> f.spec_name() != CoreFunction::True.spec_name(),
        f != CoreFunction::False ==> f.spec_name() != CoreFunction::False.spec_name(),
        f != CoreFunction::Floor ==> f.spec_name() != CoreFunction::Floor.spec_name(),
        f != CoreFunction::Ceiling ==> f.spec_name() != CoreFunction::Ceiling.spec_name(),
{
    if f != CoreFunction::Last {
        lemma_core_names_distinct(f, CoreFunction::Last);
    }
    if f != CoreFunction::Position {
        lemma_core_names_distinct(f, CoreFunction::Position);
    }
    if f != CoreFunction::Count {
        lemma_core_names_distinct(f, CoreFunction::Count);
    }
    if f != CoreFunction::Concat {
        lemma_core_names_distinct(f, CoreFunction::Concat);
    }
    if f != CoreFunction::StartsWith {
        lemma_core_names_distinct(f, CoreFunction::StartsWith);
    }
    if f != CoreFunction::Contains {
        lemma_core_names_distinct(f, CoreFunction::Contains);
    }
    if f != CoreFunction::SubstringBefore {
        lemma_core_names_distinct(f, CoreFunction::SubstringBefore);
    }
    if f != CoreFunction::SubstringAfter {
        lemma_core_names_distinct(f, CoreFunction::SubstringAfter);
    }
    if f != CoreFunction::Not {
        lemma_core_names_distinct(f, CoreFunction::Not);
    }
    if f != CoreFunction::True {
        lemma_core_names_distinct(f, CoreFunction::True);
    }
    if f != CoreFunction::False {
        lemma_core_names_distinct(f, CoreFunction::False);
    }
    if f != CoreFunction::Floor {
        lemma_core_names_distinct(f, CoreFunction::Floor);
    }
    if f != CoreFunction::Ceiling {
        lemma_core_names_distinct(f, CoreFunction::Ceiling);
    }
}

/// After the core functions are registered into any mapping `m`, each of them
/// is found under its own name, the mapping holds exactly the names it held
/// before and the core names, and every other name keeps its binding.
pub proof fn lemma_core_functions_resolve(m: Map<Seq<char>, CoreFunction>)
    ensures
        forall|f: CoreFunction|
            #![trigger f.spec_name()]
            with_core_functions(m).contains_key(f.spec_name())
                && with_core_functions(m)[f.spec_name()] == f,
        forall|k: Seq<char>|
            #[trigger] with_core_functions(m).contains_key(k) <==> (m.contains_key(k)
                || is_core_name(k)),
        forall|k: Seq<char>|
            !is_core_name(k) ==> #[trigger] with_core_functions(m).get(k) == m.get(k),
{
    reveal_strlit("last");
    reveal_strlit("position");
    reveal_strlit("count");
    reveal_strlit("concat");
    reveal_strlit("starts-with");
    reveal_strlit("contains");
    reveal_strlit("substring-before");
    reveal_strlit("substring-after");
    reveal_strlit("not");
    reveal_strlit("true");
    reveal_strlit("false");
    reveal_strlit("floor");
    reveal_strlit("ceiling");
    let r = with_core_functions(m);
    assert forall|f: CoreFunction| r.contains_key(f.spec_name()) && r[f.spec_name()] == f by {
        lemma_name_differs_from_others(f);
        match f {
            CoreFunction::Last => {},
            CoreFunction::Position => {},
            CoreFunction::Count => {},
            CoreFunction::Concat => {},
            CoreFunction::StartsWith => {},
            CoreFunction::Contains => {},
            CoreFunction::SubstringBefore => {},
            CoreFunction::SubstringAfter => {},
            CoreFunction::Not => {},
            CoreFunction::True => {},
            CoreFunction::False => {},
            CoreFunction::Floor => {},
            CoreFunction::Ceiling => {},
        }
    }
    assert forall|k: Seq<char>| r.contains_key(k) <==> (m.contains_key(k) || is_core_name(k)) by {
        if is_core_name(k) {
            let f = choose|f: CoreFunction| f.spec_name() == k;
            assert(r.contains_key(f.spec_name()));
        }
        if r.contains_key(k) && !m.contains_key(k) {
            if k == "last"@ { assert(CoreFunction::Last.spec_name() == k); }
            else if k == "position"@ { assert(CoreFunction::Position.spec_name() == k); }
            else if k == "count"@ { assert(CoreFunction::Count.spec_name() == k); }
            else if k == "concat"@ { assert(CoreFunction::Concat.spec_name() == k); }
            else if k == "starts-with"@ { assert(CoreFunction::StartsWith.spec_name() == k); }
            else if k == "contains"@ { assert(CoreFunction::Contains.spec_name() == k); }
            else if k == "substring-before"@ { assert(CoreFunction::SubstringBefore.spec_name() == k); }
            else if k == "substring-after"@ { assert(CoreFunction::SubstringAfter.spec_name() == k); }
            else if k == "not"@ { assert(CoreFunction::Not.spec_name() == k); }
            else if k == "true"@ { assert(CoreFunction::True.spec_name() == k); }
            else if k == "false"@ { assert(CoreFunction::False.spec_name() == k); }
            else if k == "floor"@ { assert(CoreFunction::Floor.spec_name() == k); }
            else { assert(CoreFunction::Ceiling.spec_name() == k); }
        }
    }
    assert forall|k: Seq<char>| !is_core_name(k) implies #[trigger] r.get(k) == m.get(k) by {
        assert(CoreFunction::Last.spec_name() != k);
        assert(CoreFunction::Position.spec_name() != k);
        assert(CoreFunction::Count.spec_name() != k);
        assert(CoreFunction::Concat.spec_name() != k);
        assert(CoreFunction::StartsWith.spec_name() != k);
        assert(CoreFunction::Contains.spec_name() != k);
        assert(CoreFunction::SubstringBefore.spec_name() != k);
        assert(CoreFunction::SubstringAfter.spec_name() != k);
        assert(CoreFunction::Not.spec_name() != k);
        assert(CoreFunction::True.spec_name() != k);
        assert(CoreFunction::False.spec_name() != k);
        assert(CoreFunction::Floor.spec_name() != k);
        assert(CoreFunction::Ceiling.spec_name() != k);
    }
}

/// A call with the wrong number of arguments fails on its arity alone,
/// whatever the arguments are: with too few, `NotEnoughArguments`, and with
/// too many for a fixed arity, `TooManyArguments`, each naming the count
/// expected and the count given.
pub proof fn lemma_arity_is_checked_first(
    f: CoreFunction,
    context: EvaluationContext,
    args: Seq<Value>,
    r: Result<Outcome, Error>,
)
    requires
        f.gives(context, args, r),
    ensures
        match f.arity() {
            Arity::Exactly(n) => {
                &&& args.len() < n ==> r == Err::<Outcome, Error>(
                    Error::NotEnoughArguments { expected: n, actual: args.len() as usize },
                )
                &&& args.len() > n ==> r == Err::<Outcome, Error>(
                    Error::TooManyArguments { expected: n, actual: args.len() as usize },
                )
            },
            Arity::AtLeast(n) => args.len() < n ==> r == Err::<Outcome, Error>(
                Error::NotEnoughArguments { expected: n, actual: args.len() as usize },
            ),
        },
{
}

/// Only `last` and `position` read the evaluation context: every other core
/// function gives the same outcome for the same arguments in any context.
pub proof fn lemma_context_free(
    f: CoreFunction,
    c1: EvaluationContext,
    c2: EvaluationContext,
    args: Seq<Value>,
    r: Result<Outcome, Error>,
)
    requires
        !f.context_dependent(),
    ensures
        f.gives(c1, args, r) <==> f.gives(c2, args, r),
{
}

proof fn lemma_entries_count(f: &Functions)
    requires
        f.wf(),
    ensures
        f@.len() == f.entries@.len(),
{
    let keys = f.entries@.map_values(|e: (String, CoreFunction)| e.0@);
    assert(keys.no_duplicates());
    assert(f@.dom() =~= keys.to_set()) by {
        assert forall|k: Seq<char>| f@.dom().contains(k) implies keys.to_set().contains(k) by {
            let i = choose|i: int| 0 <= i < f.entries@.len() && f.entries@[i].0@ == k;
            assert(keys[i] == k);
        }
        assert forall|k: Seq<char>| keys.to_set().contains(k) implies f@.dom().contains(k) by {
            let i = choose|i: int| 0 <= i < keys.len() && keys[i] == k;
            assert(f@.contains_key(f.entries@[i].0@));
        }
    }
    keys.unique_seq_to_set();
}

} // verus!
