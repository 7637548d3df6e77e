//! A model of a logic circuit.
//!
//! A [`Circuit`] is a set of [`Connection`]s, one per cable: each says which
//! gate feeds the cable. The signal of a cable is found by following the
//! gates back to the numbers that the circuit starts from.
pub mod connection;
pub mod signal;
pub mod text;

use crate::logic::connection::{
    connection_of_chars, connection_outcome, parse_connection, ConnectionParseError, ParseFailure,
};
use crate::logic::signal::{
    cable_signal, explore_gates, lemma_signal_is_near, signal_within, Signal, Wiring,
};
use crate::logic::text::{chars_of, find_line_end, lines_from, lines_of, part_of};
use vstd::hash_map::StringHashMap;
use vstd::prelude::*;
use vstd::string::StringExecFns;

verus! {

/// The value or cable that a cable copies.
#[derive(Debug)]
pub enum Assignment {
    Direct(u16),
    Gate(String),
}

/// An and-gate; `True` is an and-gate whose left input is the constant 1.
#[derive(Debug)]
pub enum And {
    True(String),
    And(String, String),
}

/// What feeds a cable.
#[derive(Debug)]
pub enum LogicGate {
    Assignment(Assignment),
    And(And),
    Or(String, String),
    Not(String),
    Lshift(String, u16),
    Rshift(String, u16),
}

/// A gate and the cable that it feeds.
#[derive(Debug)]
pub struct Connection {
    gate: LogicGate,
    output: String,
}

/// [`Assignment`] with cable names as sequences of characters.
pub enum AssignmentModel {
    Direct(u16),
    Gate(Seq<char>),
}

/// [`And`] with cable names as sequences of characters.
pub enum AndModel {
    True(Seq<char>),
    And(Seq<char>, Seq<char>),
}

/// [`LogicGate`] with cable names as sequences of characters.
pub enum GateModel {
    Assignment(AssignmentModel),
    And(AndModel),
    Or(Seq<char>, Seq<char>),
    Not(Seq<char>),
    Lshift(Seq<char>, u16),
    Rshift(Seq<char>, u16),
}

/// [`Connection`] with cable names as sequences of characters.
pub struct ConnectionModel {
    pub gate: GateModel,
    pub output: Seq<char>,
}

impl View for Assignment {
    type V = AssignmentModel;

    open spec fn view(&self) -> AssignmentModel {
        match self {
            Assignment::Direct(value) => AssignmentModel::Direct(*value),
            Assignment::Gate(cable) => AssignmentModel::Gate(cable@),
        }
    }
}

impl View for And {
    type V = AndModel;

    open spec fn view(&self) -> AndModel {
        match self {
            And::True(right) => AndModel::True(right@),
            And::And(left, right) => AndModel::And(left@, right@),
        }
    }
}

impl View for LogicGate {
    type V = GateModel;

    open spec fn view(&self) -> GateModel {
        match self {
            LogicGate::Assignment(assignment) => GateModel::Assignment(assignment@),
            LogicGate::And(and) => GateModel::And(and@),
            LogicGate::Or(left, right) => GateModel::Or(left@, right@),
            LogicGate::Not(origin) => GateModel::Not(origin@),
            LogicGate::Lshift(origin, shift) => GateModel::Lshift(origin@, *shift),
            LogicGate::Rshift(origin, shift) => GateModel::Rshift(origin@, *shift),
        }
    }
}

impl View for Connection {
    type V = ConnectionModel;

    closed spec fn view(&self) -> ConnectionModel {
        ConnectionModel { gate: self.gate@, output: self.output@ }
    }
}

impl Clone for Assignment {
    fn clone(&self) -> (copy: Self)
        ensures
            copy == *self,
    {
        match self {
            Assignment::Direct(value) => Assignment::Direct(*value),
            Assignment::Gate(cable) => Assignment::Gate(cable.clone()),
        }
    }
}

impl Clone for And {
    fn clone(&self) -> (copy: Self)
        ensures
            copy == *self,
    {
        match self {
            And::True(right) => And::True(right.clone()),
            And::And(left, right) => And::And(left.clone(), right.clone()),
        }
    }
}

impl Clone for LogicGate {
    fn clone(&self) -> (copy: Self)
        ensures
            copy == *self,
    {
        match self {
            LogicGate::Assignment(assignment) => LogicGate::Assignment(assignment.clone()),
            LogicGate::And(and) => LogicGate::And(and.clone()),
            LogicGate::Or(left, right) => LogicGate::Or(left.clone(), right.clone()),
            LogicGate::Not(origin) => LogicGate::Not(origin.clone()),
            LogicGate::Lshift(origin, shift) => LogicGate::Lshift(origin.clone(), *shift),
            LogicGate::Rshift(origin, shift) => LogicGate::Rshift(origin.clone(), *shift),
        }
    }
}

impl Clone for Connection {
    fn clone(&self) -> (copy: Self)
        ensures
            copy == *self,
    {
        Connection { gate: self.gate.clone(), output: self.output.clone() }
    }
}

impl Connection {
    /// The connection that feeds the cable `output` from `gate`.
    pub fn new(output: &str, gate: LogicGate) -> (connection: Self)
        ensures
            connection@ == (ConnectionModel { gate: gate@, output: output@ }),
    {
        Connection { gate, output: output.to_owned() }
    }

    /// What feeds the cable.
    pub fn gate(&self) -> (gate: &LogicGate)
        ensures
            gate@ == self@.gate,
    {
        &self.gate
    }

    /// The name of the cable that is fed.
    pub fn output(&self) -> (output: &str)
        ensures
            output@ == self@.output,
    {
        self.output.as_str()
    }
}

/// An error of the operating system while a circuit is read. Nothing of
/// it is visible here.
#[verifier::external_type_specification]
#[verifier::external_body]
pub struct ExIoError(std::io::Error);

/// Why no circuit could be built.
#[derive(Debug)]
pub enum Error {
    Io(std::io::Error),
    Parse(ConnectionParseError),
}

/// Something that a connection can be made of: a line of text, or a
/// connection.
pub trait TryIntoConnection: Sized {
    /// The connection that `self` stands for, or why it stands for none.
    spec fn parsed(self) -> Result<ConnectionModel, ParseFailure>;

    /// Makes the connection.
    fn try_into_connection(self) -> (read: Result<Connection, ConnectionParseError>)
        ensures
            connection_outcome(read) == self.parsed(),
    ;
}

impl TryIntoConnection for &str {
    open spec fn parsed(self) -> Result<ConnectionModel, ParseFailure> {
        parse_connection(self@)
    }

    fn try_into_connection(self) -> (read: Result<Connection, ConnectionParseError>) {
        Connection::from_str(self)
    }
}

impl TryIntoConnection for &String {
    open spec fn parsed(self) -> Result<ConnectionModel, ParseFailure> {
        parse_connection(self@)
    }

    fn try_into_connection(self) -> (read: Result<Connection, ConnectionParseError>) {
        Connection::from_str(self.as_str())
    }
}

impl TryIntoConnection for Connection {
    open spec fn parsed(self) -> Result<ConnectionModel, ParseFailure> {
        Ok(self@)
    }

    fn try_into_connection(self) -> (read: Result<Connection, ConnectionParseError>) {
        Ok(self)
    }
}

/// The wiring that lines of text stand for: each line is a connection, and
/// a later connection of a cable takes the place of an earlier one. The
/// first line that is no connection gives the failure.
pub open spec fn wire_lines(lines: Seq<Seq<char>>) -> Result<Wiring, ParseFailure>
    decreases lines.len(),
{
    if lines.len() == 0 {
        Ok(Map::empty())
    } else {
        match wire_lines(lines.drop_last()) {
            Err(failure) => Err(failure),
            Ok(wiring) => match parse_connection(lines.last()) {
                Err(failure) => Err(failure),
                Ok(connection) => Ok(wiring.insert(connection.output, connection)),
            },
        }
    }
}

/// The failure of some lines is the failure of any text that begins with
/// them.
pub proof fn lemma_failure_stays(lines: Seq<Seq<char>>, more: Seq<Seq<char>>)
    requires
        wire_lines(lines) is Err,
    ensures
        wire_lines(lines + more) == wire_lines(lines),
    decreases more.len(),
{
    if more.len() == 0 {
        assert(lines + more =~= lines);
    } else {
        lemma_failure_stays(lines, more.drop_last());
        assert((lines + more).drop_last() =~= lines + more.drop_last());
    }
}

/// The wiring after `connections` are put in one by one: a later
/// connection of a cable takes the place of an earlier one.
pub open spec fn wire_connections(wiring: Wiring, connections: Seq<ConnectionModel>) -> Wiring
    decreases connections.len(),
{
    if connections.len() == 0 {
        wiring
    } else {
        let connection = connections.last();
        wire_connections(wiring, connections.drop_last()).insert(connection.output, connection)
    }
}

/// The models of some connections, in order.
pub open spec fn connection_models(connections: Seq<Connection>) -> Seq<ConnectionModel> {
    connections.map_values(|connection: Connection| connection@)
}

/// Type representing a logic circuit.
///
/// The view of a circuit is its wiring: the connections, by the name of the
/// cable that each feeds.
pub struct Circuit {
    connections: StringHashMap<Connection>,
}

impl View for Circuit {
    type V = Wiring;

    closed spec fn view(&self) -> Wiring {
        self.connections@.map_values(|connection: Connection| connection@)
    }
}

impl Circuit {
    /// Every circuit has finitely many connections.
    #[verifier::type_invariant]
    spec fn finite(self) -> bool {
        self.connections@.dom().finite()
    }

    /// Puts `connection` in, in the place of any that feeds the same cable.
    fn insert(&mut self, connection: Connection)
        ensures
            final(self)@ == old(self)@.insert(connection@.output, connection@),
    {
        proof {
            use_type_invariant(&*self);
        }
        let mut connections = StringHashMap::new();
        core::mem::swap(&mut connections, &mut self.connections);
        let cable = connection.output.clone();
        connections.insert(cable, connection);
        self.connections = connections;
        proof {
            assert(self@ =~= old(self)@.insert(connection@.output, connection@));
        }
    }

    /// Attempts to build a `Circuit` from a string, one connection per
    /// line.
    pub fn from_string(s: &str) -> (built: Result<Circuit, Error>)
        ensures
            match wire_lines(lines_of(s@)) {
                Ok(wiring) => built matches Ok(circuit) && circuit@ == wiring,
                Err(failure) => built matches Err(Error::Parse(error)) && error@ == failure,
            },
    {
        let chars = chars_of(s);
        let len: usize = chars.len();
        let mut circuit = Circuit::default();
        let mut from: usize = 0;
        let ghost mut done: Seq<Seq<char>> = Seq::empty();
        proof {
            assert(done + lines_from(s@, 0) =~= lines_of(s@));
        }
        while from < len
            invariant
                len == chars.len(),
                chars@ == s@,
                from <= len,
                lines_of(s@) == done + lines_from(s@, from as int),
                wire_lines(done) == Ok::<Wiring, ParseFailure>(circuit@),
            decreases len - from,
        {
            let end: usize = find_line_end(&chars, from);
            let text_end: usize = if from < end && end < len && chars[end - 1] == '\r' {
                end - 1
            } else {
                end
            };
            let line = part_of(&chars, from, text_end);
            let ghost rest = if end < len {
                lines_from(s@, end + 1)
            } else {
                Seq::empty()
            };
            proof {
                assert(lines_from(s@, from as int) == seq![line@] + rest);
                assert(done + (seq![line@] + rest) =~= done.push(line@) + rest);
                assert(done.push(line@).drop_last() =~= done);
            }
            match connection_of_chars(&line) {
                Ok(connection) => {
                    circuit.insert(connection);
                },
                Err(error) => {
                    proof {
                        lemma_failure_stays(done.push(line@), rest);
                    }
                    return Err(Error::Parse(error));
                },
            }
            proof {
                done = done.push(line@);
            }
            from = if end < len {
                end + 1
            } else {
                len
            };
        }
        proof {
            assert(done + lines_from(s@, from as int) =~= done);
        }
        Ok(circuit)
    }

    /// Adds a new connection to the existing circuit. A line that is no
    /// connection is refused, and the circuit is left as it was.
    pub fn add_connection<T>(&mut self, connection: T) -> (added: Result<
        (),
        ConnectionParseError,
    >) where T: TryIntoConnection
        ensures
            match connection.parsed() {
                Ok(made) => added is Ok && final(self)@ == old(self)@.insert(made.output, made),
                Err(failure) => added matches Err(error) && error@ == failure && final(self)@
                    == old(self)@,
            },
    {
        match connection.try_into_connection() {
            Ok(made) => {
                self.insert(made);
                Ok(())
            },
            Err(error) => Err(error),
        }
    }

    /// Puts the connections in, one by one.
    pub fn extend(&mut self, connections: Vec<Connection>)
        ensures
            final(self)@ == wire_connections(old(self)@, connection_models(connections@)),
    {
        let ghost models = connection_models(connections@);
        proof {
            assert(models.take(0) =~= Seq::<ConnectionModel>::empty());
        }
        for connection in it: connections
            invariant
                models == connection_models(it.seq()),
                self@ == wire_connections(old(self)@, models.take(it.index() as int)),
        {
            proof {
                assert(models.take(it.index() + 1).drop_last() =~= models.take(it.index() as int));
            }
            self.insert(connection);
        }
        proof {
            assert(models.take(models.len() as int) =~= models);
        }
    }

    /// The circuit of the connections.
    pub fn from_connections(connections: Vec<Connection>) -> (circuit: Circuit)
        ensures
            circuit@ == wire_connections(Map::empty(), connection_models(connections@)),
    {
        let mut circuit = Circuit::default();
        circuit.extend(connections);
        circuit
    }

    /// The number of connections.
    fn len(&self) -> (len: usize)
        ensures
            len == self@.dom().len(),
            self@.dom().finite(),
    {
        proof {
            use_type_invariant(self);
            assert(self@.dom() =~= self.connections@.dom());
        }
        self.connections.len()
    }

    /// The signal of `cable`, found by following at most `depth`
    /// connections in a row.
    fn signal_within(&self, cable: &str, depth: usize) -> (signal: Option<u16>)
        ensures
            signal == signal_within(self@, cable@, depth as nat),
        decreases depth,
    {
        if depth == 0 {
            return None;
        }
        let connection = match self.connections.get(cable) {
            Some(connection) => connection,
            None => {
                return None;
            },
        };
        let first = match connection.gate.first_input() {
            Some(input) => self.signal_within(input, depth - 1),
            None => None,
        };
        let second = match connection.gate.second_input() {
            Some(input) => self.signal_within(input, depth - 1),
            None => None,
        };
        explore_gates(&connection.gate, first, second)
    }

    /// Get the signal out of the specified cable. `None` if the cable has
    /// no signal: it has no connection, or its gate reads, at first or
    /// second hand, a cable without one, or the wiring runs in a circle.
    pub fn signal(&self, cable: &str) -> (signal: Option<u16>)
        ensures
            signal == cable_signal(self@, cable@),
    {
        let depth = self.len();
        self.signal_within(cable, depth)
    }
}

impl Default for Circuit {
    /// A circuit without connections.
    fn default() -> (circuit: Circuit)
        ensures
            circuit@ == Map::<Seq<char>, ConnectionModel>::empty(),
    {
        let circuit = Circuit { connections: StringHashMap::new() };
        proof {
            assert(circuit@ =~= Map::<Seq<char>, ConnectionModel>::empty());
        }
        circuit
    }
}

/// Cached version of the logic circuit.
///
/// Use if you want better time performance at the cost of memory. The view
/// of a cached circuit is the wiring of the circuit; the cache does not
/// show.
pub struct CachedCircuit {
    circuit: Circuit,
    cache: StringHashMap<u16>,
}

impl View for CachedCircuit {
    type V = Wiring;

    closed spec fn view(&self) -> Wiring {
        self.circuit@
    }
}

impl CachedCircuit {
    /// The signals that the cache holds, by the names of their cables.
    spec fn known(&self) -> Map<Seq<char>, u16> {
        self.cache@
    }

    /// Every signal that the cache holds is the signal of its cable.
    #[verifier::type_invariant]
    spec fn cache_is_true(self) -> bool {
        forall|cable: Seq<char>| #[trigger]
            self.cache@.contains_key(cable) ==> cable_signal(self.circuit@, cable) == Some(
                self.cache@[cable],
            )
    }

    /// The cached version of `circuit`, with nothing in the cache yet.
    pub fn from_circuit(circuit: Circuit) -> (cached: CachedCircuit)
        ensures
            cached@ == circuit@,
    {
        CachedCircuit { circuit, cache: StringHashMap::new() }
    }

    /// Adds a new connection to the existing circuit.
    /// Same as [`Circuit::add_connection`], but resets the interval value cache.
    pub fn add_connection<T>(&mut self, connection: T) -> (added: Result<
        (),
        ConnectionParseError,
    >) where T: TryIntoConnection
        ensures
            match connection.parsed() {
                Ok(made) => added is Ok && final(self)@ == old(self)@.insert(made.output, made),
                Err(failure) => added matches Err(error) && error@ == failure && final(self)@
                    == old(self)@,
            },
    {
        proof {
            use_type_invariant(&*self);
        }
        let mut this = CachedCircuit::default();
        core::mem::swap(&mut this, self);
        let CachedCircuit { mut circuit, mut cache } = this;
        let added = circuit.add_connection(connection);
        if added.is_ok() {
            cache.clear();
        }
        *self = CachedCircuit { circuit, cache };
        added
    }

    /// Puts the connections in, one by one, and empties the cache.
    pub fn extend(&mut self, connections: Vec<Connection>)
        ensures
            final(self)@ == wire_connections(old(self)@, connection_models(connections@)),
    {
        let mut this = CachedCircuit::default();
        core::mem::swap(&mut this, self);
        let CachedCircuit { mut circuit, cache: _ } = this;
        circuit.extend(connections);
        *self = CachedCircuit::from_circuit(circuit);
    }

    /// The cached circuit of the connections.
    pub fn from_connections(connections: Vec<Connection>) -> (cached: CachedCircuit)
        ensures
            cached@ == wire_connections(Map::empty(), connection_models(connections@)),
    {
        CachedCircuit::from_circuit(Circuit::from_connections(connections))
    }

    /// Notes the signal of a cable in the cache, in the place of any that
    /// the cache held for the cable.
    fn remember(&mut self, cable: &str, signal: u16)
        requires
            cable_signal(old(self)@, cable@) == Some(signal),
        ensures
            final(self)@ == old(self)@,
            final(self).known() == old(self).known().insert(cable@, signal),
    {
        proof {
            use_type_invariant(&*self);
        }
        let mut cache = StringHashMap::new();
        core::mem::swap(&mut cache, &mut self.cache);
        cache.insert(String::from_str(cable), signal);
        self.cache = cache;
    }

    /// The signal of `cable`, from the cache or found by following at most
    /// `depth` connections in a row. What is found goes into the cache.
    fn signal_within(&mut self, cable: &str, depth: usize) -> (signal: Option<u16>)
        ensures
            final(self)@ == old(self)@,
            signal is Some ==> signal == cable_signal(old(self)@, cable@),
            signal_within(old(self)@, cable@, depth as nat) is Some ==> signal is Some,
        decreases depth,
    {
        proof {
            use_type_invariant(&*self);
        }
        if let Some(known) = self.cache.get(cable) {
            return Some(*known);
        }
        if depth == 0 {
            return None;
        }
        let connection = match self.circuit.connections.get(cable) {
            Some(connection) => connection.clone(),
            None => {
                return None;
            },
        };
        let ghost wiring = self@;
        let ghost below = (depth - 1) as nat;
        proof {
            use_type_invariant(&self.circuit);
            assert(wiring.dom() =~= self.circuit.connections@.dom());
        }
        let first = match connection.gate.first_input() {
            Some(input) => {
                let found = self.signal_within(input, depth - 1);
                proof {
                    if signal_within(wiring, input@, below) is Some {
                        lemma_signal_is_near(wiring, input@, below);
                    }
                }
                found
            },
            None => None,
        };
        let second = match connection.gate.second_input() {
            Some(input) => {
                let found = self.signal_within(input, depth - 1);
                proof {
                    if signal_within(wiring, input@, below) is Some {
                        lemma_signal_is_near(wiring, input@, below);
                    }
                }
                found
            },
            None => None,
        };
        let signal = match explore_gates(&connection.gate, first, second) {
            Some(signal) => signal,
            None => {
                return None;
            },
        };
        proof {
            let deep = wiring.dom().len() + 1;
            assert(signal_within(wiring, cable@, deep) == Some(signal));
            lemma_signal_is_near(wiring, cable@, deep);
        }
        self.remember(cable, signal);
        Some(signal)
    }

    /// Get the signal out of the specified cable. `None` if the cable has
    /// no signal: it has no connection, or its gate reads, at first or
    /// second hand, a cable without one, or the wiring runs in a circle.
    pub fn signal(&mut self, cable: &str) -> (signal: Option<u16>)
        ensures
            final(self)@ == old(self)@,
            signal == cable_signal(old(self)@, cable@),
    {
        let depth = self.circuit.len();
        self.signal_within(cable, depth)
    }
}

impl Default for CachedCircuit {
    /// A cached circuit without connections.
    fn default() -> (cached: CachedCircuit)
        ensures
            cached@ == Map::<Seq<char>, ConnectionModel>::empty(),
    {
        CachedCircuit::from_circuit(Circuit::default())
    }
}

impl Signal for CachedCircuit {
    open spec fn wiring(&self) -> Wiring {
        self@
    }

    fn signal(&mut self, cable: &str) -> (signal: Option<u16>) {
        CachedCircuit::signal(self, cable)
    }
}

impl Signal for Circuit {
    open spec fn wiring(&self) -> Wiring {
        self@
    }

    fn signal(&mut self, cable: &str) -> (signal: Option<u16>) {
        Circuit::signal(self, cable)
    }
}

} // verus!
