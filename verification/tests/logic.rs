use playground::logic::connection::ConnectionParseError;
use playground::logic::signal::{explore_gates, Signal};
use playground::logic::{And, Assignment, CachedCircuit, Circuit, Connection, Error, LogicGate};

#[test]
fn example_1() {
    let circuit = "123 -> x
456 -> y
x AND y -> d
x OR y -> e
x LSHIFT 2 -> f
y RSHIFT 2 -> g
NOT x -> h
NOT y -> i";
    let circuit = Circuit::from_string(circuit).unwrap();
    let expected_results = [
        ("error", None),
        ("d", Some(72)),
        ("e", Some(507)),
        ("f", Some(492)),
        ("g", Some(114)),
        ("h", Some(65412)),
        ("i", Some(65079)),
        ("x", Some(123)),
        ("y", Some(456)),
    ];
    for (cable, expected_signal) in expected_results {
        let signal = circuit.signal(cable);
        println!("{cable}: {signal:?}");
        assert_eq!(expected_signal, signal);
    }
    let mut circuit = circuit;
    circuit.add_connection("NOT g -> error").unwrap();
    assert_eq!(circuit.signal("error"), Some(65421));
}

#[test]
fn cached_circuit_gives_the_same_signals() {
    let text = "123 -> x\n456 -> y\nx AND y -> d\nx OR y -> e\nx LSHIFT 2 -> f\ny RSHIFT 2 -> g\nNOT x -> h\nNOT y -> i\n";
    let plain = Circuit::from_string(text).unwrap();
    let mut cached = CachedCircuit::from_circuit(Circuit::from_string(text).unwrap());
    for cable in ["error", "d", "e", "f", "g", "h", "i", "x", "y", "d", "x"] {
        assert_eq!(cached.signal(cable), plain.signal(cable));
    }
    cached.add_connection("NOT g -> error").unwrap();
    assert_eq!(cached.signal("error"), Some(65421));
    cached.add_connection("1 -> g").unwrap();
    assert_eq!(cached.signal("error"), Some(65534));
}

#[test]
fn connection_built_by_hand() {
    let mut circuit = Circuit::default();
    circuit
        .add_connection(Connection::new(
            "a",
            LogicGate::Assignment(Assignment::Direct(16)),
        ))
        .unwrap();
    assert_eq!(circuit.signal("a"), Some(16));
    circuit
        .add_connection(Connection::new("b", LogicGate::Lshift("a".into(), 2)))
        .unwrap();
    assert_eq!(circuit.signal("b"), Some(64));
    circuit.add_connection(&String::from("a -> c")).unwrap();
    assert_eq!(circuit.signal("c"), Some(16));
    circuit.add_connection("1 AND c -> t").unwrap();
    assert_eq!(circuit.signal("t"), Some(16));
}

#[test]
fn later_connection_replaces_earlier_one() {
    let circuit = Circuit::from_string("1 -> a\n2 -> a\na -> b").unwrap();
    assert_eq!(circuit.signal("a"), Some(2));
    assert_eq!(circuit.signal("b"), Some(2));
}

#[test]
fn wiring_in_a_circle_has_no_signal() {
    let circuit = Circuit::from_string("b -> a\na -> b\n7 -> c\nc OR a -> d\nNOT self -> self").unwrap();
    assert_eq!(circuit.signal("a"), None);
    assert_eq!(circuit.signal("b"), None);
    assert_eq!(circuit.signal("c"), Some(7));
    assert_eq!(circuit.signal("d"), None);
    assert_eq!(circuit.signal("self"), None);
    let mut cached = CachedCircuit::from_circuit(circuit);
    assert_eq!(cached.signal("d"), None);
    assert_eq!(cached.signal("c"), Some(7));
}

#[test]
fn longest_chain_is_followed_to_its_end() {
    // every cable of the circuit lies on the one chain
    let mut text = String::from("5 -> c0\n");
    for i in 1..200 {
        text.push_str(&format!("c{} -> c{}\n", i - 1, i));
    }
    let circuit = Circuit::from_string(&text).unwrap();
    assert_eq!(circuit.signal("c199"), Some(5));
    let mut cached = CachedCircuit::from_circuit(circuit);
    assert_eq!(cached.signal("c199"), Some(5));
    assert_eq!(cached.signal("c100"), Some(5));
}

#[test]
fn gate_words() {
    assert!(matches!(
        LogicGate::from_str("42"),
        Ok(LogicGate::Assignment(Assignment::Direct(42)))
    ));
    assert!(matches!(
        LogicGate::from_str("+42"),
        Ok(LogicGate::Assignment(Assignment::Direct(42)))
    ));
    assert!(matches!(
        LogicGate::from_str("65536"),
        Ok(LogicGate::Assignment(Assignment::Gate(name))) if name == "65536"
    ));
    assert!(matches!(
        LogicGate::from_str("  lx\t"),
        Ok(LogicGate::Assignment(Assignment::Gate(name))) if name == "lx"
    ));
    assert!(matches!(
        LogicGate::from_str("NOT\u{a0}x"),
        Ok(LogicGate::Not(name)) if name == "x"
    ));
    assert!(matches!(
        LogicGate::from_str("1 AND x"),
        Ok(LogicGate::And(And::True(name))) if name == "x"
    ));
    assert!(matches!(
        LogicGate::from_str("y AND x"),
        Ok(LogicGate::And(And::And(left, right))) if left == "y" && right == "x"
    ));
    assert!(matches!(
        LogicGate::from_str("y OR x and more"),
        Ok(LogicGate::Or(left, right)) if left == "y" && right == "x"
    ));
    assert!(matches!(
        LogicGate::from_str("y LSHIFT 15"),
        Ok(LogicGate::Lshift(origin, 15)) if origin == "y"
    ));
    assert!(matches!(
        LogicGate::from_str("y RSHIFT 3"),
        Ok(LogicGate::Rshift(origin, 3)) if origin == "y"
    ));
}

#[test]
fn gate_errors() {
    assert_eq!(
        LogicGate::from_str("").unwrap_err(),
        ConnectionParseError::InvalidFormat
    );
    assert_eq!(
        LogicGate::from_str("   ").unwrap_err(),
        ConnectionParseError::InvalidFormat
    );
    assert_eq!(
        LogicGate::from_str("NOPE x").unwrap_err(),
        ConnectionParseError::InvalidFormat
    );
    assert_eq!(
        LogicGate::from_str("x XOR y").unwrap_err(),
        ConnectionParseError::InvalidFormat
    );
    assert!(matches!(
        LogicGate::from_str("x LSHIFT y").unwrap_err(),
        ConnectionParseError::InvalidInt(_)
    ));
    assert!(matches!(
        LogicGate::from_str("x RSHIFT 65536").unwrap_err(),
        ConnectionParseError::InvalidInt(_)
    ));
    assert!(matches!(
        LogicGate::from_str("x RSHIFT -1").unwrap_err(),
        ConnectionParseError::InvalidInt(_)
    ));
}

#[test]
fn connection_lines() {
    let connection = Connection::from_str("x AND y -> d").unwrap();
    assert_eq!(connection.output(), "d");
    assert!(matches!(connection.gate(), LogicGate::And(And::And(_, _))));
    let connection = Connection::from_str("7 ->  d e ").unwrap();
    assert_eq!(connection.output(), " d e ");
    assert_eq!(
        Connection::from_str("x AND y").unwrap_err(),
        ConnectionParseError::InvalidFormat
    );
    assert_eq!(
        Connection::from_str("x -> y -> z").unwrap_err(),
        ConnectionParseError::InvalidFormat
    );
    assert_eq!(
        Connection::from_str("x->y").unwrap_err(),
        ConnectionParseError::InvalidFormat
    );
    assert_eq!(
        Connection::from_str(" -> y").unwrap_err(),
        ConnectionParseError::InvalidFormat
    );
    assert_eq!(
        Connection::from_str("").unwrap_err(),
        ConnectionParseError::InvalidFormat
    );
    // the arrows share a space, so there is one arrow and the name `-> y`
    let connection = Connection::from_str("x -> -> y").unwrap();
    assert_eq!(connection.output(), "-> y");
}

#[test]
fn lines_of_a_text() {
    assert!(Circuit::from_string("").is_ok());
    assert!(Circuit::from_string("1 -> a\r\n2 -> b\n").is_ok());
    let circuit = Circuit::from_string("1 -> a\r\n2 -> b\r").unwrap();
    assert_eq!(circuit.signal("a"), Some(1));
    assert_eq!(circuit.signal("b"), None);
    assert_eq!(circuit.signal("b\r"), Some(2));
    // an empty line is no connection
    assert!(matches!(
        Circuit::from_string("1 -> a\n\n2 -> b"),
        Err(Error::Parse(ConnectionParseError::InvalidFormat))
    ));
    assert!(matches!(
        Circuit::from_string("1 -> a\nx LSHIFT y -> b\nrubbish"),
        Err(Error::Parse(ConnectionParseError::InvalidInt(_)))
    ));
}

#[test]
fn a_refused_line_leaves_the_circuit_as_it_was() {
    let mut circuit = Circuit::from_string("1 -> a").unwrap();
    assert_eq!(
        circuit.add_connection("2 a"),
        Err(ConnectionParseError::InvalidFormat)
    );
    assert_eq!(circuit.signal("a"), Some(1));
}

#[test]
fn gates_on_given_signals() {
    let and = LogicGate::And(And::And("l".into(), "r".into()));
    assert_eq!(explore_gates(&and, Some(0b1100), Some(0b1010)), Some(0b1000));
    assert_eq!(explore_gates(&and, None, Some(1)), None);
    assert_eq!(explore_gates(&and, Some(1), None), None);
    let or = LogicGate::Or("l".into(), "r".into());
    assert_eq!(explore_gates(&or, Some(0b1100), Some(0b1010)), Some(0b1110));
    let not = LogicGate::Not("o".into());
    assert_eq!(explore_gates(&not, Some(0), None), Some(65535));
    let left = LogicGate::Lshift("o".into(), 15);
    assert_eq!(explore_gates(&left, Some(3), None), Some(32768));
    let gone = LogicGate::Lshift("o".into(), 16);
    assert_eq!(explore_gates(&gone, Some(3), None), Some(0));
    let right = LogicGate::Rshift("o".into(), 1);
    assert_eq!(explore_gates(&right, Some(3), None), Some(1));
    let far = LogicGate::Rshift("o".into(), 300);
    assert_eq!(explore_gates(&far, Some(65535), None), Some(0));
    let number = LogicGate::Assignment(Assignment::Direct(9));
    assert_eq!(explore_gates(&number, None, None), Some(9));
    assert_eq!(and.first_input(), Some("l"));
    assert_eq!(and.second_input(), Some("r"));
    assert_eq!(not.second_input(), None);
    assert_eq!(number.first_input(), None);
}

#[test]
fn both_kinds_of_circuit_answer_through_the_trait() {
    fn ask<T: Signal>(circuit: &mut T, cable: &str) -> Option<u16> {
        circuit.signal(cable)
    }
    let mut plain = Circuit::from_string("3 -> a\nNOT a -> b").unwrap();
    let mut cached = CachedCircuit::default();
    cached.add_connection("3 -> a").unwrap();
    cached.add_connection("NOT a -> b").unwrap();
    assert_eq!(ask(&mut plain, "b"), Some(65532));
    assert_eq!(ask(&mut cached, "b"), Some(65532));
}

#[test]
fn error_messages() {
    assert_eq!(ConnectionParseError::InvalidFormat.message(), "Invalid format");
    assert_eq!(ConnectionParseError::InvalidGate.message(), "Invalid gate");
    assert_eq!(ConnectionParseError::InvalidInput.message(), "Invalid input");
    let error = LogicGate::from_str("x LSHIFT y").unwrap_err();
    assert_eq!(error.message(), "invalid digit found in string");
}

#[test]
fn text_parses_into_gates_and_connections() {
    let gate: LogicGate = "NOT x".parse().unwrap();
    assert!(matches!(gate, LogicGate::Not(name) if name == "x"));
    let connection: Connection = "1 OR 2 -> out".parse().unwrap();
    assert_eq!(connection.output(), "out");
    let copy = connection.clone();
    assert_eq!(copy.output(), "out");
    assert!(matches!(copy.gate(), LogicGate::Or(left, right) if left == "1" && right == "2"));
    assert!("1 OR".parse::<Connection>().is_err());
}

#[test]
fn circuit_of_connections() {
    let connections = vec![
        Connection::new("a", LogicGate::Assignment(Assignment::Direct(1))),
        Connection::new("b", LogicGate::Not("a".into())),
        Connection::new("a", LogicGate::Assignment(Assignment::Direct(2))),
    ];
    let mut circuit = Circuit::from_connections(connections.clone());
    assert_eq!(circuit.signal("a"), Some(2));
    assert_eq!(circuit.signal("b"), Some(65533));
    circuit.extend(vec![Connection::new("b", LogicGate::Assignment(Assignment::Gate("a".into())))]);
    assert_eq!(circuit.signal("b"), Some(2));
    let mut cached = CachedCircuit::from_connections(connections);
    assert_eq!(cached.signal("b"), Some(65533));
    cached.extend(vec![Connection::new("a", LogicGate::Assignment(Assignment::Direct(0)))]);
    assert_eq!(cached.signal("b"), Some(65535));
}

#[test]
fn every_space_parts_words() {
    let parts = |c: char| {
        let n = c as u32;
        (0x09..=0x0D).contains(&n)
            || matches!(n, 0x20 | 0x85 | 0xA0 | 0x1680 | 0x2028 | 0x2029 | 0x202F | 0x205F | 0x3000)
            || (0x2000..=0x200A).contains(&n)
    };
    let mut text = String::new();
    for c in (0..=char::MAX as u32).filter_map(char::from_u32) {
        text.clear();
        text.push('a');
        text.push(c);
        text.push('b');
        let one_word = matches!(
            LogicGate::from_str(&text),
            Ok(LogicGate::Assignment(Assignment::Gate(_)))
        );
        assert_eq!(one_word, !parts(c), "{:?}", c);
    }
}

#[test]
fn numbers_of_sixteen_bits_are_numbers() {
    for number in 0u32..=70_000 {
        let gate = LogicGate::from_str(&number.to_string()).unwrap();
        match gate {
            LogicGate::Assignment(Assignment::Direct(value)) => {
                assert!(number <= 65_535);
                assert_eq!(u32::from(value), number);
            }
            LogicGate::Assignment(Assignment::Gate(name)) => {
                assert!(number > 65_535);
                assert_eq!(name, number.to_string());
            }
            other => panic!("unexpected {other:?}"),
        }
    }
    for text in ["007", "+7", "0000000000000000000007"] {
        assert!(matches!(
            LogicGate::from_str(text),
            Ok(LogicGate::Assignment(Assignment::Direct(7)))
        ));
    }
    for text in ["-7", "+", "++7", "7_0", "0x7", "７", "7.0", "٧"] {
        assert!(
            matches!(
                LogicGate::from_str(text),
                Ok(LogicGate::Assignment(Assignment::Gate(_)))
            ),
            "{text}"
        );
    }
}
