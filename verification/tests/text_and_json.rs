use kubegraph::hex::to_hex;
use kubegraph::json::{write_decimal, write_json_string};
use kubegraph::text::{compare_bytes, compare_str, same_str, Order};

fn order_of(o: std::cmp::Ordering) -> Order {
    match o {
        std::cmp::Ordering::Less => Order::Less,
        std::cmp::Ordering::Equal => Order::Equal,
        std::cmp::Ordering::Greater => Order::Greater,
    }
}

#[test]
fn strings_compare_as_in_rust() {
    let samples = [
        "", "a", "ab", "b", "A", "é", "z", "日本", "日本語", "\u{10ffff}", "a\u{0}", "~",
    ];
    for x in samples.iter() {
        for y in samples.iter() {
            assert_eq!(compare_str(x, y), order_of(x.cmp(y)));
            assert_eq!(same_str(x, y), x == y);
        }
    }
}

#[test]
fn bytes_compare_lexicographically() {
    assert_eq!(compare_bytes(&[], &[]), Order::Equal);
    assert_eq!(compare_bytes(&[], &[0]), Order::Less);
    assert_eq!(compare_bytes(&[1], &[]), Order::Greater);
    assert_eq!(compare_bytes(&[1, 2, 3], &[1, 2, 4]), Order::Less);
    assert_eq!(compare_bytes(&[1, 2, 3], &[1, 2]), Order::Greater);
    assert_eq!(compare_bytes(&[255], &[1, 1]), Order::Greater);
    assert_eq!(compare_bytes(&[7, 7], &[7, 7]), Order::Equal);
}

#[test]
fn hex_is_lower_case_two_digits_per_byte() {
    assert_eq!(to_hex(&[]), "");
    assert_eq!(to_hex(&[0x00, 0x0a, 0x14, 0x1e, 0xff, 0x9c]), "000a141eff9c");
    let all: Vec<u8> = (0..=255).collect();
    let expected: String = all.iter().map(|b| format!("{b:02x}")).collect();
    assert_eq!(to_hex(&all), expected);
}

#[test]
fn decimal_has_no_leading_zeros() {
    for n in [0u64, 1, 9, 10, 11, 99, 100, 1000, 4294967295, u64::MAX] {
        let mut out = vec![b'#'];
        write_decimal(&mut out, n);
        assert_eq!(String::from_utf8(out).unwrap(), format!("#{n}"));
    }
}

#[test]
fn json_strings_escape_as_serde_json_does() {
    let mut samples: Vec<String> = vec![
        "".to_string(),
        "plain".to_string(),
        "quote\"back\\slash".to_string(),
        "\u{8}\t\n\u{c}\r".to_string(),
        "\u{7f}/<>".to_string(),
        "ünï日本語🦀".to_string(),
    ];
    for c in 0u8..0x20 {
        samples.push((c as char).to_string());
    }
    for s in samples.iter() {
        let mut out = Vec::new();
        write_json_string(&mut out, s);
        assert_eq!(out, serde_json::to_vec(s).unwrap());
    }
}

#[test]
fn json_string_appends_to_what_is_there() {
    let mut out = b"x:".to_vec();
    write_json_string(&mut out, "a\u{1}b");
    assert_eq!(out, b"x:\"a\\u0001b\"".to_vec());
}
