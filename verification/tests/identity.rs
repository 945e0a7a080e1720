use rssq::data::identity::hex_prefix;
use rssq::data::Item;

#[test]
fn identity_of_an_upstream_id() {
    // SHA-1("a") = 86f7e437faa5a7fce15d1ddcb9eaeaea377667b8
    assert_eq!(Item::gen_id(Some("a"), "https://example.org/a"), "86f7e437faa5a7fc");
}

#[test]
fn identity_falls_back_to_the_link() {
    // SHA-1("abc") = a9993e364706816aba3e25717850c26c9cd0d89d
    assert_eq!(Item::gen_id(None, "abc"), "a9993e364706816a");
}

#[test]
fn identity_ignores_the_link_when_there_is_an_id() {
    assert_eq!(Item::gen_id(Some("a"), "one"), Item::gen_id(Some("a"), "two"));
    assert_ne!(Item::gen_id(None, "one"), Item::gen_id(None, "two"));
}

#[test]
fn identity_of_nothing_is_stable() {
    // SHA-1("") = da39a3ee5e6b4b0d3255bfef95601890afd80709
    assert_eq!(Item::gen_id(None, ""), "da39a3ee5e6b4b0d");
    assert_eq!(Item::gen_id(Some(""), ""), "da39a3ee5e6b4b0d");
    assert_eq!(Item::gen_id(Some(""), "ignored"), "da39a3ee5e6b4b0d");
}

#[test]
fn identity_is_deterministic() {
    let cases = [
        (Some("urn:uuid:1225c695-cfb8-4ebb-aaaa-80da344efa6a"), "https://example.org/1"),
        (None, "https://example.org/2"),
        (Some("tag:example.org,2024:3"), ""),
        (None, ""),
    ];
    for (id, link) in cases {
        assert_eq!(Item::gen_id(id, link), Item::gen_id(id, link));
    }
}

#[test]
fn identity_is_sixteen_hex_digits() {
    let id = Item::gen_id(Some("a"), "https://example.org/a");
    assert_eq!(id.len(), 16);
    assert!(id.chars().all(|c| c.is_ascii_digit() || ('a'..='f').contains(&c)));
}

#[test]
fn identity_hashes_the_utf8_bytes() {
    // SHA-1 of the two bytes c3 a9 ("é") = bf15be717ac1b080b4f1c456692825891ff5073d
    assert_eq!(Item::gen_id(Some("\u{e9}"), ""), "bf15be717ac1b080");
}

#[test]
fn hex_prefix_writes_two_lower_case_digits_per_byte() {
    let bytes = [0x00u8, 0x0f, 0xa0, 0xff, 0x3c];
    assert_eq!(hex_prefix(&bytes, 0), "");
    assert_eq!(hex_prefix(&bytes, 1), "00");
    assert_eq!(hex_prefix(&bytes, 4), "000fa0ff");
    assert_eq!(hex_prefix(&bytes, 5), "000fa0ff3c");
}
