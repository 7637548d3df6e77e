use playground::trurl::{extract_entries, split_assignment, SetAction, Target};

#[test]
fn parts_have_their_names() {
    assert_eq!(Target::Fragment.name(), "fragment");
    assert_eq!(Target::Host.name(), "host");
    assert_eq!(Target::Password.name(), "password");
    assert_eq!(Target::Path.name(), "path");
    assert_eq!(Target::Port.name(), "port");
    assert_eq!(Target::Query.name(), "query");
    assert_eq!(Target::Scheme.name(), "scheme");
    assert_eq!(Target::User.name(), "user");
}

#[test]
fn assignment_is_split_at_its_first_equals_sign() {
    let pair = |target: &str, value: &str| Some((target.to_string(), value.to_string()));
    assert_eq!(split_assignment("host=example.org"), pair("host", "example.org"));
    assert_eq!(split_assignment("query=a=b&c=d"), pair("query", "a=b&c=d"));
    assert_eq!(split_assignment("=x"), pair("", "x"));
    assert_eq!(split_assignment("path="), pair("path", ""));
    assert_eq!(split_assignment("="), pair("", ""));
    assert_eq!(split_assignment("Fragment=é=ü"), pair("Fragment", "é=ü"));
    assert_eq!(split_assignment("host"), None);
    assert_eq!(split_assignment(""), None);
}

#[test]
fn set_action_can_be_copied() {
    let action = SetAction { target: Target::Port, value: "8080".to_string() };
    let copy = action.clone();
    assert_eq!(copy.target, Target::Port);
    assert_eq!(copy.value, "8080");
}

#[test]
fn listing_holds_the_url_and_the_parts_that_have_a_value() {
    let entries = extract_entries(
        "https://me@example.org/a?b#c".to_string(),
        vec![
            (Target::Scheme, Some("https".to_string())),
            (Target::User, Some("me".to_string())),
            (Target::Password, None),
            (Target::Host, Some("example.org".to_string())),
            (Target::Port, Some("443".to_string())),
            (Target::Path, Some("/a".to_string())),
            (Target::Query, Some("b".to_string())),
            (Target::Fragment, Some("c".to_string())),
        ],
    );
    let pairs: Vec<(&str, &str)> = entries
        .iter()
        .map(|entry| (entry.0.as_str(), entry.1.as_str()))
        .collect();
    assert_eq!(
        pairs,
        vec![
            ("url", "https://me@example.org/a?b#c"),
            ("scheme", "https"),
            ("user", "me"),
            ("host", "example.org"),
            ("port", "443"),
            ("path", "/a"),
            ("query", "b"),
            ("fragment", "c"),
        ]
    );
}

#[test]
fn listing_leaves_empty_values_out() {
    let entries = extract_entries(
        "mailto:x".to_string(),
        vec![
            (Target::User, Some(String::new())),
            (Target::Path, Some("x".to_string())),
            (Target::User, Some("again".to_string())),
            (Target::Query, None),
        ],
    );
    let pairs: Vec<(&str, &str)> = entries
        .iter()
        .map(|entry| (entry.0.as_str(), entry.1.as_str()))
        .collect();
    assert_eq!(pairs, vec![("url", "mailto:x"), ("path", "x"), ("user", "again")]);
    let alone = extract_entries(String::new(), Vec::new());
    assert_eq!(alone, vec![("url".to_string(), String::new())]);
}
