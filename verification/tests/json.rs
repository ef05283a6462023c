use patchbay::json::{parse, Json};

#[test]
fn documents_are_read() {
    let json = parse(b" {\"b\": [1, -1, 1.0, 18446744073709551615], \"a\": \"x\\u0041\", \"c\": null, \"d\": true} ").unwrap();
    assert_eq!(json.get("a").unwrap().is_text("xA"), true);
    assert!(json.text_in("a", "xA"));
    assert!(!json.text_in("b", "xA"));
    assert!(matches!(json.get("c"), Some(Json::Null)));
    assert!(matches!(json.get("d"), Some(Json::Bool(true))));
    assert!(json.get("e").is_none());
    let list = json.get("b").unwrap().as_array().unwrap();
    let numbers: Vec<Option<u64>> = list.iter().map(|x| x.as_u64()).collect();
    assert_eq!(numbers, [Some(1), None, None, Some(u64::MAX)]);
    assert_eq!(json.number_in("a"), None);
}

#[test]
fn a_later_member_of_the_same_name_counts() {
    let json = parse(b"{\"n\": 1, \"n\": 2}").unwrap();
    assert_eq!(json.number_in("n"), Some(2));
}

#[test]
fn other_texts_are_refused() {
    for text in ["", "{", "[1,]", "nul", "{} {}", "\u{feff}{}"] {
        assert!(parse(text.as_bytes()).is_err());
    }
    assert!(parse(&[0x22, 0xff, 0x22]).is_err());
    assert_eq!(parse(b"{} {}").unwrap_err(), "trailing characters at line 1 column 4");
}

#[test]
fn order_of_items_is_kept() {
    let json = parse(b"[[], [3], [[2]]]").unwrap();
    let list = json.as_array().unwrap();
    assert_eq!(list.len(), 3);
    assert_eq!(list[0].as_array().unwrap().len(), 0);
    assert_eq!(list[1].as_array().unwrap()[0].as_u64(), Some(3));
    assert!(list[2].as_array().unwrap()[0].as_array().is_some());
    assert!(list[2].get("x").is_none());
}
