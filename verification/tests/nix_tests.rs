//! Reading plain values out of tree nodes, and the string helpers the
//! grammar and the lock order are built on.

use uptix::error::Error;
use uptix::nix::value_from_node;
use uptix::nix::NixValue;
use uptix::nix::Node;
use uptix::nix::NodeKind;
use uptix::strutil::parse_i64;
use uptix::strutil::strip_quotes;
use uptix::strutil::str_compare;
use uptix::strutil::StrOrd;

fn leaf(kind: NodeKind, text: &str) -> Node {
    Node {
        kind,
        text: text.to_string(),
        start: 0,
        len: text.len(),
        children: Vec::new(),
    }
}

fn key_value(key: &str, value: Node) -> Node {
    Node {
        kind: NodeKind::KeyValue,
        text: String::new(),
        start: 0,
        len: 0,
        children: vec![leaf(NodeKind::Other, key), value],
    }
}

#[test]
fn string_nodes_lose_their_quotes() {
    let node = leaf(NodeKind::Str, "\"hello\"");
    match value_from_node(&node) {
        Ok(NixValue::Str(s)) => assert_eq!(s, "hello"),
        _ => assert!(false),
    }
}

#[test]
fn integer_nodes_parse() {
    let node = leaf(NodeKind::Integer, "42");
    match value_from_node(&node) {
        Ok(NixValue::Int(v)) => assert_eq!(v, 42),
        _ => assert!(false),
    }
    let node = leaf(NodeKind::Integer, "9999999999999999999999");
    match value_from_node(&node) {
        Err(Error::NixParsingError(msg)) => assert_eq!(msg, "invalid integer literal"),
        _ => assert!(false),
    }
}

#[test]
fn attribute_sets_keep_their_bindings_in_order() {
    let node = Node {
        kind: NodeKind::AttrSet,
        text: String::new(),
        start: 0,
        len: 0,
        children: vec![
            key_value("owner", leaf(NodeKind::Str, "\"luizribeiro\"")),
            key_value("repo", leaf(NodeKind::Str, "\"uptix\"")),
        ],
    };
    match value_from_node(&node) {
        Ok(NixValue::Attrs(pairs)) => {
            assert_eq!(pairs.len(), 2);
            assert_eq!(pairs[0].0, "owner");
            assert_eq!(pairs[1].0, "repo");
        }
        _ => assert!(false),
    }
}

#[test]
fn other_nodes_are_rejected() {
    let node = leaf(NodeKind::Other, "true");
    match value_from_node(&node) {
        Err(Error::NixParsingError(msg)) => assert_eq!(msg, "Unexpected node"),
        _ => assert!(false),
    }
}

#[test]
fn float_literals_are_carried_as_raw_text() {
    let node = leaf(NodeKind::Float, "3.14");
    match value_from_node(&node) {
        Ok(NixValue::Float(s)) => assert_eq!(s, "3.14"),
        _ => assert!(false),
    }
}

#[test]
fn integers_parse_to_their_values() {
    assert_eq!(parse_i64("0"), Some(0));
    assert_eq!(parse_i64("42"), Some(42));
    assert_eq!(parse_i64("-7"), Some(-7));
    assert_eq!(parse_i64("9223372036854775807"), Some(i64::MAX));
    assert_eq!(parse_i64("-9223372036854775808"), Some(i64::MIN));
    assert_eq!(parse_i64("9223372036854775808"), None);
    assert_eq!(parse_i64(""), None);
    assert_eq!(parse_i64("-"), None);
    assert_eq!(parse_i64("12a"), None);
}

#[test]
fn quote_stripping_matches_trimming() {
    assert_eq!(strip_quotes("\"postgres:15\""), "postgres:15");
    assert_eq!(strip_quotes("postgres"), "postgres");
    assert_eq!(strip_quotes("\"\"\"x\"\""), "x");
    assert_eq!(strip_quotes("\"\""), "");
}

#[test]
fn keys_compare_lexicographically() {
    assert!(matches!(str_compare("alpine:3", "postgres:15"), StrOrd::Less));
    assert!(matches!(str_compare("postgres:15", "postgres:15"), StrOrd::Equal));
    assert!(matches!(str_compare("redis", "postgres:15"), StrOrd::Greater));
    assert!(matches!(str_compare("a", "ab"), StrOrd::Less));
}
