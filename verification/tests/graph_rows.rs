use kubegraph::graph::{
    GraphError, NetworkEdgeKey, NetworkGraphRow, NetworkNodeKey, NetworkValue,
};
use kubegraph::text::Order;
use sha2::Digest;

fn node(kind: &str, name: &str, namespace: &str) -> NetworkNodeKey {
    NetworkNodeKey {
        kind: kind.to_string(),
        name: name.to_string(),
        namespace: namespace.to_string(),
    }
}

fn sample_key() -> NetworkEdgeKey {
    NetworkEdgeKey {
        interval_ms: 1000,
        link: node("link", "eth0", "default"),
        sink: node("node", "b", "default"),
        src: node("node", "a", "default"),
    }
}

fn as_json_value(key: &NetworkEdgeKey) -> serde_json::Value {
    let mut map = serde_json::Map::new();
    map.insert("le".to_string(), serde_json::Value::from(key.interval_ms));
    for (prefix, node) in [("link_", &key.link), ("sink_", &key.sink), ("src_", &key.src)] {
        map.insert(
            format!("{prefix}kind"),
            serde_json::Value::from(node.kind.clone()),
        );
        map.insert(
            format!("{prefix}name"),
            serde_json::Value::from(node.name.clone()),
        );
        map.insert(
            format!("{prefix}namespace"),
            serde_json::Value::from(node.namespace.clone()),
        );
    }
    serde_json::Value::Object(map)
}

#[test]
fn key_json_has_the_fixed_member_order() {
    let json = sample_key().to_json();
    assert_eq!(
        String::from_utf8(json).unwrap(),
        "{\"le\":1000,\"link_kind\":\"link\",\"link_name\":\"eth0\",\"link_namespace\":\"default\",\
         \"sink_kind\":\"node\",\"sink_name\":\"b\",\"sink_namespace\":\"default\",\
         \"src_kind\":\"node\",\"src_name\":\"a\",\"src_namespace\":\"default\"}"
    );
}

#[test]
fn key_json_agrees_with_serde_json() {
    let keys = [
        sample_key(),
        NetworkEdgeKey {
            interval_ms: 0,
            link: node("no\"de", "a\\b", "x\ny"),
            sink: node("tab\there", "\u{1}\u{1f}", "\u{7f}"),
            src: node("ünï", "日本語", "🦀"),
        },
        NetworkEdgeKey {
            interval_ms: u64::MAX,
            link: node("", "", ""),
            sink: node("\u{8}\u{c}\r", "/", "<>&'"),
            src: node("a", "b", "c"),
        },
    ];
    for key in keys.iter() {
        let expected = serde_json::to_vec(&as_json_value(key)).unwrap();
        let parsed: serde_json::Value = serde_json::from_slice(&key.to_json()).unwrap();
        assert_eq!(key.to_json(), expected);
        assert_eq!(parsed, as_json_value(key));
    }
}

#[test]
fn row_id_is_the_sha256_of_the_key_json() {
    let row = NetworkGraphRow::try_new(sample_key(), NetworkValue(7)).unwrap();
    assert_eq!(
        row.id(),
        "c6abab97ff954199e400559f53693161a2b8c207fab5657b786ffe0e411a51cb"
    );
    let escaped = NetworkEdgeKey {
        interval_ms: 0,
        link: node("no\"de", "a\\b", "x\ny"),
        sink: node("no\"de", "a\\b", "x\ny"),
        src: node("no\"de", "a\\b", "x\ny"),
    };
    assert_eq!(
        escaped.id(),
        "e5758f8e85490a4b74c54456e2a2c5bba9303b531c097c1d5f192bd4560146f9"
    );
}

#[test]
fn row_id_agrees_with_the_digest_of_the_json() {
    let key = sample_key();
    let digest = sha2::Sha256::digest(key.to_json());
    let expected: String = digest.iter().map(|b| format!("{b:02x}")).collect();
    assert_eq!(key.id(), expected);
}

#[test]
fn row_id_is_64_hex_digits() {
    let row = NetworkGraphRow::try_new(sample_key(), NetworkValue(0)).unwrap();
    assert_eq!(row.id().len(), 64);
    assert!(row
        .id()
        .chars()
        .all(|c| c.is_ascii_digit() || ('a'..='f').contains(&c)));
}

#[test]
fn equal_keys_have_equal_ids() {
    let a = NetworkGraphRow::try_new(sample_key(), NetworkValue(1)).unwrap();
    let b = NetworkGraphRow::try_new(sample_key(), NetworkValue(2)).unwrap();
    assert_eq!(a.id(), b.id());
    assert_eq!(a.key(), b.key());
    assert_eq!(a.value(), NetworkValue(1));
    assert_eq!(b.value(), NetworkValue(2));
}

#[test]
fn different_keys_have_different_ids() {
    let mut other = sample_key();
    other.interval_ms = 1001;
    let mut swapped = sample_key();
    swapped.src = node("node", "b", "default");
    swapped.sink = node("node", "a", "default");
    let ids = [sample_key().id(), other.id(), swapped.id()];
    assert_ne!(ids[0], ids[1]);
    assert_ne!(ids[0], ids[2]);
    assert_ne!(ids[1], ids[2]);
}

#[test]
fn row_json_is_the_flat_record() {
    let row = NetworkGraphRow::try_new(sample_key(), NetworkValue(42)).unwrap();
    let mut expected = match as_json_value(row.key()) {
        serde_json::Value::Object(map) => map,
        other => panic!("not an object: {other}"),
    };
    expected.insert("id".to_string(), serde_json::Value::from(row.id()));
    expected.insert("value".to_string(), serde_json::Value::from(42u64));
    let parsed: serde_json::Value = serde_json::from_slice(&row.to_json()).unwrap();
    assert_eq!(parsed, serde_json::Value::Object(expected));
    let text = String::from_utf8(row.to_json()).unwrap();
    assert!(text.starts_with(
        "{\"id\":\"c6abab97ff954199e400559f53693161a2b8c207fab5657b786ffe0e411a51cb\",\"le\":1000,"
    ));
    assert!(text.ends_with(",\"src_namespace\":\"default\",\"value\":42}"));
}

#[test]
fn a_row_is_taken_back_only_with_the_identifier_of_its_key() {
    let row = NetworkGraphRow::try_new(sample_key(), NetworkValue(3)).unwrap();
    assert_eq!(
        NetworkGraphRow::try_from_parts(row.id(), sample_key(), NetworkValue(3)),
        Ok(row.clone())
    );
    let mut other = sample_key();
    other.interval_ms = 1;
    assert_eq!(
        NetworkGraphRow::try_from_parts(row.id(), other, NetworkValue(3)),
        Err(GraphError::IdentifierMismatch)
    );
    assert_eq!(
        NetworkGraphRow::try_from_parts("", sample_key(), NetworkValue(3)),
        Err(GraphError::IdentifierMismatch)
    );
    let upper = row.id().to_uppercase();
    assert_eq!(
        NetworkGraphRow::try_from_parts(&upper, sample_key(), NetworkValue(3)),
        Err(GraphError::IdentifierMismatch)
    );
}

#[test]
fn row_clone_is_the_same_row() {
    let row = NetworkGraphRow::try_new(sample_key(), NetworkValue(3)).unwrap();
    assert_eq!(row.clone(), row);
}

#[test]
fn node_key_shows_kind_namespace_name() {
    assert_eq!(node("pod", "web", "prod").to_string(), "pod/prod/web");
    assert_eq!(node("", "", "").to_string(), "//");
}

#[test]
fn node_keys_compare_as_derived() {
    let keys = [
        node("a", "b", "c"),
        node("a", "b", "d"),
        node("a", "c", "a"),
        node("b", "a", "a"),
        node("", "z", "z"),
        node("a", "b", "c"),
        node("é", "b", "c"),
        node("z", "b", "c"),
        node("ab", "", ""),
    ];
    for x in keys.iter() {
        for y in keys.iter() {
            let expected = match x.cmp(y) {
                std::cmp::Ordering::Less => Order::Less,
                std::cmp::Ordering::Equal => Order::Equal,
                std::cmp::Ordering::Greater => Order::Greater,
            };
            assert_eq!(x.compare(y), expected);
        }
    }
}

#[test]
fn edge_keys_compare_as_derived() {
    let mut keys = vec![sample_key()];
    let mut k = sample_key();
    k.interval_ms = 999;
    keys.push(k);
    let mut k = sample_key();
    k.link = node("link", "eth1", "default");
    keys.push(k);
    let mut k = sample_key();
    k.sink = node("node", "a", "default");
    keys.push(k);
    let mut k = sample_key();
    k.src = node("node", "c", "default");
    keys.push(k);
    for x in keys.iter() {
        for y in keys.iter() {
            let expected = match x.cmp(y) {
                std::cmp::Ordering::Less => Order::Less,
                std::cmp::Ordering::Equal => Order::Equal,
                std::cmp::Ordering::Greater => Order::Greater,
            };
            assert_eq!(x.compare(y), expected);
        }
    }
}
