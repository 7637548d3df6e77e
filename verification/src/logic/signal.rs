//! What signal a cable carries.
//!
//! The signal of a cable is what its gate makes of the signals of the
//! cables that its gate reads. Following the gates back ends at numbers, or
//! does not end at all where the wiring runs in a circle: such a cable has
//! no signal, and neither has one that reads a cable without a connection.
use crate::logic::{
    And, AndModel, Assignment, AssignmentModel, ConnectionModel, GateModel, LogicGate,
};
use vstd::prelude::*;

verus! {

/// The connections of a circuit, by the name of the cable that each feeds.
pub type Wiring = Map<Seq<char>, ConnectionModel>;

/// `value` moved left by `shift` bits, within 16 bits. A shift by 16 or
/// more leaves no bit.
pub open spec fn shifted_left(value: u16, shift: u16) -> u16 {
    if shift < 16 {
        value << shift
    } else {
        0
    }
}

/// `value` moved right by `shift` bits. A shift by 16 or more leaves no
/// bit.
pub open spec fn shifted_right(value: u16, shift: u16) -> u16 {
    if shift < 16 {
        value >> shift
    } else {
        0
    }
}

/// The first cable that a gate reads.
pub open spec fn first_input(gate: GateModel) -> Option<Seq<char>> {
    match gate {
        GateModel::Assignment(AssignmentModel::Direct(_)) => None,
        GateModel::Assignment(AssignmentModel::Gate(cable)) => Some(cable),
        GateModel::And(AndModel::True(right)) => Some(right),
        GateModel::And(AndModel::And(left, _)) => Some(left),
        GateModel::Or(left, _) => Some(left),
        GateModel::Not(origin) => Some(origin),
        GateModel::Lshift(origin, _) => Some(origin),
        GateModel::Rshift(origin, _) => Some(origin),
    }
}

/// The second cable that a gate reads.
pub open spec fn second_input(gate: GateModel) -> Option<Seq<char>> {
    match gate {
        GateModel::And(AndModel::And(_, right)) => Some(right),
        GateModel::Or(_, right) => Some(right),
        _ => None,
    }
}

/// What a gate puts out, given the signals of the cables that it reads. A
/// gate that reads a cable without a signal puts out none.
pub open spec fn gate_output(gate: GateModel, first: Option<u16>, second: Option<u16>) -> Option<
    u16,
> {
    match gate {
        GateModel::Assignment(AssignmentModel::Direct(value)) => Some(value),
        GateModel::Assignment(AssignmentModel::Gate(_)) => first,
        GateModel::And(AndModel::True(_)) => first,
        GateModel::And(AndModel::And(_, _)) => match (first, second) {
            (Some(left), Some(right)) => Some(left & right),
            _ => None,
        },
        GateModel::Or(_, _) => match (first, second) {
            (Some(left), Some(right)) => Some(left | right),
            _ => None,
        },
        GateModel::Not(_) => match first {
            Some(value) => Some(!value),
            None => None,
        },
        GateModel::Lshift(_, shift) => match first {
            Some(value) => Some(shifted_left(value, shift)),
            None => None,
        },
        GateModel::Rshift(_, shift) => match first {
            Some(value) => Some(shifted_right(value, shift)),
            None => None,
        },
    }
}

/// The signal of `cable`, found by following at most `depth` connections
/// in a row.
pub open spec fn signal_within(wiring: Wiring, cable: Seq<char>, depth: nat) -> Option<u16>
    decreases depth,
{
    if depth == 0 || !wiring.contains_key(cable) {
        None
    } else {
        let gate = wiring[cable].gate;
        gate_output(
            gate,
            match first_input(gate) {
                Some(input) => signal_within(wiring, input, (depth - 1) as nat),
                None => None,
            },
            match second_input(gate) {
                Some(input) => signal_within(wiring, input, (depth - 1) as nat),
                None => None,
            },
        )
    }
}

/// The signal of `cable`. A signal never lies deeper than there are
/// connections, so that is as far as the search goes.
pub open spec fn cable_signal(wiring: Wiring, cable: Seq<char>) -> Option<u16> {
    signal_within(wiring, cable, wiring.dom().len())
}

/// A signal that is found within `depth` is found, and is the same, within
/// any greater depth.
pub proof fn lemma_deeper_search_agrees(wiring: Wiring, cable: Seq<char>, depth: nat, deeper: nat)
    requires
        signal_within(wiring, cable, depth) is Some,
        depth <= deeper,
    ensures
        signal_within(wiring, cable, deeper) == signal_within(wiring, cable, depth),
    decreases depth,
{
    let gate = wiring[cable].gate;
    let below = (depth - 1) as nat;
    let deeper_below = (deeper - 1) as nat;
    if let Some(input) = first_input(gate) {
        if signal_within(wiring, input, below) is Some {
            lemma_deeper_search_agrees(wiring, input, below, deeper_below);
        }
    }
    if let Some(input) = second_input(gate) {
        if signal_within(wiring, input, below) is Some {
            lemma_deeper_search_agrees(wiring, input, below, deeper_below);
        }
    }
}

/// The least depth within which the signal of `cable` is found.
proof fn lemma_least_depth(wiring: Wiring, cable: Seq<char>, depth: nat) -> (least: nat)
    requires
        signal_within(wiring, cable, depth) is Some,
    ensures
        0 < least <= depth,
        signal_within(wiring, cable, least) is Some,
        signal_within(wiring, cable, (least - 1) as nat) is None,
    decreases depth,
{
    if signal_within(wiring, cable, (depth - 1) as nat) is Some {
        lemma_least_depth(wiring, cable, (depth - 1) as nat)
    } else {
        depth
    }
}

/// A search that is too short to reach `absent` finds the same without the
/// connection of `absent`.
proof fn lemma_search_without(
    wiring: Wiring,
    absent: Seq<char>,
    bound: nat,
    cable: Seq<char>,
    depth: nat,
)
    requires
        signal_within(wiring, absent, bound) is None,
        depth <= bound,
        signal_within(wiring, cable, depth) is Some,
    ensures
        signal_within(wiring.remove(absent), cable, depth) == signal_within(wiring, cable, depth),
    decreases depth,
{
    if cable == absent {
        lemma_deeper_search_agrees(wiring, cable, depth, bound);
    }
    let gate = wiring[cable].gate;
    let below = (depth - 1) as nat;
    if let Some(input) = first_input(gate) {
        if signal_within(wiring, input, below) is Some {
            lemma_search_without(wiring, absent, bound, input, below);
        }
    }
    if let Some(input) = second_input(gate) {
        if signal_within(wiring, input, below) is Some {
            lemma_search_without(wiring, absent, bound, input, below);
        }
    }
}

/// What is found without the connection of `absent` is found with it.
proof fn lemma_search_with(wiring: Wiring, absent: Seq<char>, cable: Seq<char>, depth: nat)
    requires
        signal_within(wiring.remove(absent), cable, depth) is Some,
    ensures
        signal_within(wiring, cable, depth) == signal_within(wiring.remove(absent), cable, depth),
    decreases depth,
{
    let gate = wiring[cable].gate;
    let below = (depth - 1) as nat;
    if let Some(input) = first_input(gate) {
        if signal_within(wiring.remove(absent), input, below) is Some {
            lemma_search_with(wiring, absent, input, below);
        }
    }
    if let Some(input) = second_input(gate) {
        if signal_within(wiring.remove(absent), input, below) is Some {
            lemma_search_with(wiring, absent, input, below);
        }
    }
}

/// The signal of an input of `cable`, found just below the least depth of
/// `cable`, is found within one less than the number of connections.
proof fn lemma_input_is_near(wiring: Wiring, cable: Seq<char>, least: nat, input: Seq<char>)
    requires
        wiring.dom().finite(),
        wiring.contains_key(cable),
        least > 0,
        signal_within(wiring, cable, (least - 1) as nat) is None,
        signal_within(wiring, input, (least - 1) as nat) is Some,
    ensures
        signal_within(wiring, input, (wiring.dom().len() - 1) as nat) == signal_within(
            wiring,
            input,
            (least - 1) as nat,
        ),
    decreases wiring.dom().len(), 0nat,
{
    let below = (least - 1) as nat;
    let rest = wiring.remove(cable);
    lemma_search_without(wiring, cable, below, input, below);
    lemma_signal_is_near(rest, input, below);
    lemma_search_with(wiring, cable, input, rest.dom().len());
}

/// A signal never lies deeper than there are connections: what is found
/// within any depth is found within that many.
pub proof fn lemma_signal_is_near(wiring: Wiring, cable: Seq<char>, depth: nat)
    requires
        wiring.dom().finite(),
        signal_within(wiring, cable, depth) is Some,
    ensures
        cable_signal(wiring, cable) == signal_within(wiring, cable, depth),
    decreases wiring.dom().len(), 1nat,
{
    let least = lemma_least_depth(wiring, cable, depth);
    lemma_deeper_search_agrees(wiring, cable, least, depth);
    let gate = wiring[cable].gate;
    let below = (least - 1) as nat;
    assert(wiring.dom().len() > 0) by {
        assert(wiring.dom().contains(cable));
        assert(wiring.dom().remove(cable).len() == wiring.dom().len() - 1);
    }
    if let Some(input) = first_input(gate) {
        if signal_within(wiring, input, below) is Some {
            lemma_input_is_near(wiring, cable, least, input);
        }
    }
    if let Some(input) = second_input(gate) {
        if signal_within(wiring, input, below) is Some {
            lemma_input_is_near(wiring, cable, least, input);
        }
    }
}

impl LogicGate {
    /// The first cable that this gate reads.
    pub fn first_input(&self) -> (input: Option<&str>)
        ensures
            match input {
                Some(cable) => first_input(self@) == Some(cable@),
                None => first_input(self@) is None,
            },
    {
        match self {
            LogicGate::Assignment(Assignment::Direct(_)) => None,
            LogicGate::Assignment(Assignment::Gate(cable)) => Some(cable.as_str()),
            LogicGate::And(And::True(right)) => Some(right.as_str()),
            LogicGate::And(And::And(left, _)) => Some(left.as_str()),
            LogicGate::Or(left, _) => Some(left.as_str()),
            LogicGate::Not(origin) => Some(origin.as_str()),
            LogicGate::Lshift(origin, _) => Some(origin.as_str()),
            LogicGate::Rshift(origin, _) => Some(origin.as_str()),
        }
    }

    /// The second cable that this gate reads.
    pub fn second_input(&self) -> (input: Option<&str>)
        ensures
            match input {
                Some(cable) => second_input(self@) == Some(cable@),
                None => second_input(self@) is None,
            },
    {
        match self {
            LogicGate::And(And::And(_, right)) => Some(right.as_str()),
            LogicGate::Or(_, right) => Some(right.as_str()),
            _ => None,
        }
    }
}

/// What `gate` puts out, given the signals of the cables that it reads:
/// `first` for its first cable, `second` for its second.
pub fn explore_gates(gate: &LogicGate, first: Option<u16>, second: Option<u16>) -> (signal: Option<
    u16,
>)
    ensures
        signal == gate_output(gate@, first, second),
{
    match gate {
        LogicGate::Assignment(Assignment::Direct(value)) => Some(*value),
        LogicGate::Assignment(Assignment::Gate(_)) => first,
        LogicGate::And(And::True(_)) => first,
        LogicGate::And(And::And(_, _)) => {
            let left = first?;
            let right = second?;
            Some(left & right)
        },
        LogicGate::Or(_, _) => {
            let left = first?;
            let right = second?;
            Some(left | right)
        },
        LogicGate::Lshift(_, shift) => {
            let value = first?;
            if *shift < 16 {
                Some(value << *shift)
            } else {
                Some(0)
            }
        },
        LogicGate::Rshift(_, shift) => {
            let value = first?;
            if *shift < 16 {
                Some(value >> *shift)
            } else {
                Some(0)
            }
        },
        LogicGate::Not(_) => {
            let value = first?;
            Some(!value)
        },
    }
}

/// Something that knows the signals of the cables of a circuit.
pub trait Signal {
    /// The connections of the circuit.
    spec fn wiring(&self) -> Wiring;

    /// Get the signal out of the specified cable. `None` if the cable has
    /// no signal.
    fn signal(&mut self, cable: &str) -> (signal: Option<u16>)
        ensures
            final(self).wiring() == old(self).wiring(),
            signal == cable_signal(old(self).wiring(), cable@),
    ;
}

} // verus!
