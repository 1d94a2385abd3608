use wall_sync::pair::{get_pairs, make_pair, parse_u8};

#[test]
fn descriptor_with_count() {
    assert_eq!(make_pair("42:-97665403:10"), (String::from("42"), String::from("-97665403"), 10));
}

#[test]
fn descriptor_without_count_defaults() {
    assert_eq!(make_pair("42:-97665403"), (String::from("42"), String::from("-97665403"), 5));
}

#[test]
fn descriptor_with_bad_count_defaults() {
    assert_eq!(make_pair("42:chat:many"), (String::from("42"), String::from("chat"), 5));
    assert_eq!(make_pair("42:chat:256"), (String::from("42"), String::from("chat"), 5));
    assert_eq!(make_pair("42:chat:-1"), (String::from("42"), String::from("chat"), 5));
    assert_eq!(make_pair("42:chat:"), (String::from("42"), String::from("chat"), 5));
}

#[test]
fn descriptor_extra_fields_are_ignored() {
    assert_eq!(make_pair("1:2:255:9"), (String::from("1"), String::from("2"), 255));
}

#[test]
fn descriptor_with_owner_only() {
    assert_eq!(make_pair("42"), (String::from("42"), String::new(), 5));
    assert_eq!(make_pair(""), (String::new(), String::new(), 5));
}

#[test]
fn parse_u8_follows_std() {
    for s in ["0", "7", "+7", "007", "255", "256", "", "+", "-3", "1a", " 1", "999999"] {
        assert_eq!(parse_u8(s), s.parse::<u8>().ok(), "input {:?}", s);
    }
}

#[test]
fn registry_entries_decode_in_order() {
    let entries = vec![String::from("1:a:3"), String::from("2:b")];
    let pairs = get_pairs(&entries);
    assert_eq!(pairs, vec![(String::from("1"), String::from("a"), 3), (String::from("2"), String::from("b"), 5)]);
}
