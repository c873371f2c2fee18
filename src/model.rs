use vstd::prelude::*;

verus! {

/// Rates are held as fixed-point decimals: one unit is a ten-thousandth.
pub const RATE_SCALE: u64 = 10000;

/// A named state change of the reaction network.
#[derive(Debug, Clone)]
pub struct Transition {
    pub name: String,
    /// Added to each species count when the transition fires.
    pub increment: Vec<u64>,
    /// Required of, and taken from, each species count when the transition fires.
    pub decrement: Vec<u64>,
    /// Base rate, in units of `1 / RATE_SCALE`.
    pub rate: u64,
    /// Marks a transition that the weight update keeps favouring.
    pub in_dep_graph: bool,
}

impl Transition {
    /// What a transition is as data: its name, vectors, rate and flag.
    pub open spec fn same_as(&self, other: &Transition) -> bool {
        &&& self.name@ == other.name@
        &&& self.increment@ == other.increment@
        &&& self.decrement@ == other.decrement@
        &&& self.rate == other.rate
        &&& self.in_dep_graph == other.in_dep_graph
    }

    /// A field-by-field copy.
    pub fn copied(&self) -> (r: Transition)
        ensures
            r.same_as(self),
    {
        Transition {
            name: self.name.clone(),
            increment: self.increment.clone(),
            decrement: self.decrement.clone(),
            rate: self.rate,
            in_dep_graph: self.in_dep_graph,
        }
    }
}

/// A node of the dependency tree built over the transitions.
#[derive(Debug)]
pub struct DependencyGraphNode {
    pub transition: Transition,
    pub dependencies: Vec<(DependencyGraphNode, u64)>,
}

impl DependencyGraphNode {
    pub fn new(transition: Transition) -> (r: Self)
        ensures
            r.transition == transition,
            r.dependencies@.len() == 0,
    {
        Self { transition, dependencies: Vec::new() }
    }

    pub fn add_dependency(&mut self, node: DependencyGraphNode, weight: u64)
        ensures
            final(self).transition == old(self).transition,
            final(self).dependencies@ == old(self).dependencies@.push((node, weight)),
    {
        self.dependencies.push((node, weight));
    }
}

/// The increment vector of the `i`-th transition of the eight-reaction network.
pub open spec fn react8_increment(i: int) -> Seq<u64> {
    if i == 0 {
        seq![1, 0, 0, 0, 0, 0, 0]
    } else if i == 1 {
        seq![0, 0, 0, 0, 0, 0, 0]
    } else if i == 2 {
        seq![0, 1, 1, 0, 0, 0, 0]
    } else if i == 3 {
        seq![1, 0, 0, 0, 0, 0, 0]
    } else if i == 4 {
        seq![0, 0, 0, 0, 1, 1, 0]
    } else if i == 5 {
        seq![0, 0, 0, 0, 0, 0, 1]
    } else if i == 6 {
        seq![0, 0, 0, 1, 0, 0, 0]
    } else {
        seq![0, 1, 0, 0, 0, 0, 0]
    }
}

/// The decrement vector of the `i`-th transition of the eight-reaction network.
pub open spec fn react8_decrement(i: int) -> Seq<u64> {
    if i == 0 {
        seq![0, 0, 0, 0, 0, 0, 0]
    } else if i == 1 {
        seq![1, 0, 0, 0, 0, 0, 0]
    } else if i == 2 {
        seq![1, 1, 0, 0, 0, 0, 0]
    } else if i == 3 {
        seq![0, 0, 1, 0, 0, 0, 0]
    } else if i == 4 {
        seq![0, 0, 1, 1, 0, 0, 0]
    } else if i == 5 {
        seq![0, 0, 0, 0, 1, 0, 0]
    } else if i == 6 {
        seq![0, 0, 0, 0, 0, 1, 1]
    } else {
        seq![0, 0, 0, 0, 0, 0, 0]
    }
}

/// The base rate of the `i`-th transition, in units of `1 / RATE_SCALE`.
pub open spec fn react8_rate(i: int) -> u64 {
    if i == 0 {
        38
    } else if i == 1 {
        4
    } else if i == 2 {
        420
    } else if i == 3 {
        100
    } else if i == 4 {
        110
    } else if i == 5 {
        1000
    } else if i == 6 {
        10500000
    } else {
        32100
    }
}

/// The name of the `i`-th transition of the eight-reaction network.
pub open spec fn react8_name(i: int) -> Seq<char> {
    if i == 0 {
        "R1"@
    } else if i == 1 {
        "R2"@
    } else if i == 2 {
        "R3"@
    } else if i == 3 {
        "R4"@
    } else if i == 4 {
        "R5"@
    } else if i == 5 {
        "R6"@
    } else if i == 6 {
        "R7"@
    } else {
        "R8"@
    }
}

/// Whether the `i`-th transition is marked as part of the dependency set.
pub open spec fn react8_in_dep_graph(i: int) -> bool {
    i == 2 || i == 4 || i == 7
}

fn transition(
    name: &str,
    increment: Vec<u64>,
    decrement: Vec<u64>,
    rate: u64,
    in_dep_graph: bool,
) -> (r: Transition)
    ensures
        r.name@ == name@,
        r.increment == increment,
        r.decrement == decrement,
        r.rate == rate,
        r.in_dep_graph == in_dep_graph,
{
    Transition { name: name.to_string(), increment, decrement, rate, in_dep_graph }
}

/// The eight transitions over the species R, L, RL, G, GA, GBG, GD (in that order).
pub fn make_8react_transitions() -> (r: Vec<Transition>)
    ensures
        r@.len() == 8,
        forall|i: int|
            0 <= i < 8 ==> {
                &&& (#[trigger] r@[i]).name@ == react8_name(i)
                &&& r@[i].increment@ == react8_increment(i)
                &&& r@[i].decrement@ == react8_decrement(i)
                &&& r@[i].rate == react8_rate(i)
                &&& r@[i].in_dep_graph == react8_in_dep_graph(i)
            },
{
    let mut v: Vec<Transition> = Vec::new();
    v.push(transition("R1", vec![1, 0, 0, 0, 0, 0, 0], vec![0, 0, 0, 0, 0, 0, 0], 38, false));
    v.push(transition("R2", vec![0, 0, 0, 0, 0, 0, 0], vec![1, 0, 0, 0, 0, 0, 0], 4, false));
    v.push(transition("R3", vec![0, 1, 1, 0, 0, 0, 0], vec![1, 1, 0, 0, 0, 0, 0], 420, true));
    v.push(transition("R4", vec![1, 0, 0, 0, 0, 0, 0], vec![0, 0, 1, 0, 0, 0, 0], 100, false));
    v.push(transition("R5", vec![0, 0, 0, 0, 1, 1, 0], vec![0, 0, 1, 1, 0, 0, 0], 110, true));
    v.push(transition("R6", vec![0, 0, 0, 0, 0, 0, 1], vec![0, 0, 0, 0, 1, 0, 0], 1000, false));
    v.push(transition("R7", vec![0, 0, 0, 1, 0, 0, 0], vec![0, 0, 0, 0, 0, 1, 1], 10500000, false));
    v.push(transition("R8", vec![0, 1, 0, 0, 0, 0, 0], vec![0, 0, 0, 0, 0, 0, 0], 32100, true));
    v
}

/// The dependency tree of the eight-reaction network: the fifth transition
/// depends, with weight 50, twice on the third.
pub fn make_8react_graph(transitions: Vec<Transition>) -> (r: DependencyGraphNode)
    requires
        transitions@.len() >= 5,
    ensures
        r.transition.same_as(&transitions@[4]),
        r.dependencies@.len() == 2,
        forall|k: int|
            0 <= k < 2 ==> {
                &&& (#[trigger] r.dependencies@[k]).0.transition.same_as(&transitions@[2])
                &&& r.dependencies@[k].0.dependencies@.len() == 0
                &&& r.dependencies@[k].1 == 50
            },
{
    let mut node = DependencyGraphNode::new(transitions[4].copied());
    let dep_node = DependencyGraphNode::new(transitions[2].copied());
    node.add_dependency(dep_node, 50);
    let dep_node = DependencyGraphNode::new(transitions[2].copied());
    node.add_dependency(dep_node, 50);
    node
}

} // verus!
