use vstd::prelude::*;

verus! {

/// The shape of a [`Value`], used to describe arguments in diagnostics.
#[derive(Clone, Copy, Debug, PartialEq, Eq, Hash, Structural)]
pub enum ArgumentType {
    Nodeset,
    Boolean,
    Number,
    String,
}

/// A number as the bits of an IEEE-754 double.
#[derive(Clone, Copy, Debug, PartialEq, Eq, Hash, Structural)]
pub struct Number {
    pub bits: u64,
}

/// A reference to a node of the document, by its identity.
pub type Node = usize;

/// An unordered collection of distinct document nodes.
#[derive(Debug, Eq)]
pub struct Nodeset {
    nodes: Vec<Node>,
}

impl View for Nodeset {
    type V = Set<Node>;

    closed spec fn view(&self) -> Set<Node> {
        self.nodes@.to_set()
    }
}

impl Clone for Nodeset {
    fn clone(&self) -> (r: Nodeset)
        ensures
            r@ == self@,
    {
        proof {
            use_type_invariant(self);
        }
        let mut nodes: Vec<Node> = Vec::new();
        let mut i: usize = 0;
        while i < self.nodes.len()
            invariant
                0 <= i <= self.nodes@.len(),
                nodes@ == self.nodes@.subrange(0, i as int),
            decreases self.nodes@.len() - i,
        {
            nodes.push(self.nodes[i]);
            i = i + 1;
        }
        assert(nodes@ =~= self.nodes@);
        Nodeset { nodes }
    }
}

/// Whether `node` is among `nodes`.
fn holds(nodes: &Vec<Node>, node: Node) -> (r: bool)
    ensures
        r == nodes@.contains(node),
{
    let mut i: usize = 0;
    while i < nodes.len()
        invariant
            0 <= i <= nodes@.len(),
            forall|j: int| 0 <= j < i ==> nodes@[j] != node,
        decreases nodes@.len() - i,
    {
        if nodes[i] == node {
            return true;
        }
        i = i + 1;
    }
    false
}

/// Two nodesets are equal when they hold the same nodes, in any order.
impl PartialEq for Nodeset {
    fn eq(&self, other: &Nodeset) -> (r: bool)
        ensures
            r == (self@ == other@),
    {
        proof {
            use_type_invariant(self);
            use_type_invariant(other);
            self.nodes@.unique_seq_to_set();
            other.nodes@.unique_seq_to_set();
        }
        if self.nodes.len() != other.nodes.len() {
            return false;
        }
        let mut i: usize = 0;
        while i < self.nodes.len()
            invariant
                0 <= i <= self.nodes@.len(),
                forall|j: int| 0 <= j < i ==> other.nodes@.contains(#[trigger] self.nodes@[j]),
            decreases self.nodes@.len() - i,
        {
            if !holds(&other.nodes, self.nodes[i]) {
                assert(self@.contains(self.nodes@[i as int]));
                return false;
            }
            i = i + 1;
        }
        proof {
            assert(self@.subset_of(other@)) by {
                assert forall|n: Node| self@.contains(n) implies other@.contains(n) by {
                    let j = choose|j: int| 0 <= j < self.nodes@.len() && self.nodes@[j] == n;
                    assert(other.nodes@.contains(self.nodes@[j]));
                }
            }
            vstd::set_lib::lemma_subset_equality(self@, other@);
        }
        true
    }
}

impl vstd::std_specs::cmp::PartialEqSpecImpl for Nodeset {
    open spec fn obeys_eq_spec() -> bool {
        true
    }

    open spec fn eq_spec(&self, other: &Nodeset) -> bool {
        self@ == other@
    }
}

impl Nodeset {
    /// The stored nodes are pairwise distinct.
    #[verifier::type_invariant]
    spec fn wf(&self) -> bool {
        self.nodes@.no_duplicates()
    }

    pub fn new() -> (r: Nodeset)
        ensures
            r@ == Set::<Node>::empty(),
    {
        let nodes: Vec<Node> = Vec::new();
        assert(nodes@.no_duplicates());
        let r = Nodeset { nodes };
        assert(r.nodes@.to_set() =~= Set::<Node>::empty());
        r
    }

    /// This set with `node` added; a node that is already present is not
    /// added twice.
    pub fn with(self, node: Node) -> (r: Nodeset)
        ensures
            r@ == self@.insert(node),
    {
        proof {
            use_type_invariant(&self);
        }
        let mut nodes = self.nodes;
        let mut i: usize = 0;
        while i < nodes.len()
            invariant
                0 <= i <= nodes@.len(),
                nodes@ == self.nodes@,
                nodes@.no_duplicates(),
                forall|j: int| 0 <= j < i ==> nodes@[j] != node,
            decreases nodes@.len() - i,
        {
            if nodes[i] == node {
                proof {
                    assert(nodes@.contains(node));
                    assert(nodes@.to_set().insert(node) =~= nodes@.to_set());
                }
                return Nodeset { nodes };
            }
            i = i + 1;
        }
        let ghost before = nodes@;
        nodes.push(node);
        proof {
            assert(!before.contains(node));
            before.lemma_push_to_set_commute(node);
            assert forall|a: int, b: int|
                0 <= a < nodes@.len() && 0 <= b < nodes@.len() && a != b implies nodes@[a]
                != nodes@[b] by {
                if a == before.len() {
                    assert(nodes@[b] == before[b]);
                } else if b == before.len() {
                    assert(nodes@[a] == before[a]);
                }
            }
        }
        Nodeset { nodes }
    }

    /// The number of nodes in the set.
    pub fn size(&self) -> (r: usize)
        ensures
            r == self@.len(),
    {
        proof {
            use_type_invariant(self);
            self.nodes@.unique_seq_to_set();
        }
        self.nodes.len()
    }
}

/// The result of an expression: exactly one of four shapes.
#[derive(Clone, Debug, PartialEq)]
pub enum Value {
    Nodes(Nodeset),
    Boolean(bool),
    Number(Number),
    String(String),
}

impl Value {
    /// The shape of this value.
    pub open spec fn argument_type(&self) -> ArgumentType {
        match self {
            Value::Nodes(_) => ArgumentType::Nodeset,
            Value::Boolean(_) => ArgumentType::Boolean,
            Value::Number(_) => ArgumentType::Number,
            Value::String(_) => ArgumentType::String,
        }
    }
}

/// What the enclosing evaluation step supplies: how many nodes it iterates
/// over, and the 1-based position of the current one.
#[derive(Clone, Copy, Debug, PartialEq, Eq)]
pub struct EvaluationContext {
    size: usize,
    position: usize,
}

impl EvaluationContext {
    pub closed spec fn spec_size(&self) -> nat {
        self.size as nat
    }

    pub closed spec fn spec_position(&self) -> nat {
        self.position as nat
    }

    pub fn new(size: usize, position: usize) -> (r: EvaluationContext)
        requires
            1 <= position,
            size > 0 ==> position <= size,
        ensures
            r.spec_size() == size,
            r.spec_position() == position,
    {
        EvaluationContext { size, position }
    }

    pub fn size(&self) -> (r: usize)
        ensures
            r == self.spec_size(),
    {
        self.size
    }

    pub fn position(&self) -> (r: usize)
        ensures
            r == self.spec_position(),
    {
        self.position
    }
}

} // verus!
