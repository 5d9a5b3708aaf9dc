use device_fingerprint::device::{create_hash, fingerprint, get_device_identifiers};
use device_fingerprint::greet;

fn is_lower_hex(s: &str) -> bool {
    s.chars().all(|c| ('0'..='9').contains(&c) || ('a'..='f').contains(&c))
}

#[test]
fn create_hash_of_empty_input() {
    assert_eq!(
        create_hash(""),
        "e3b0c44298fc1c149afbf4c8996fb92427ae41e4649b934ca495991b7852b855"
    );
}

#[test]
fn create_hash_of_known_input() {
    assert_eq!(
        create_hash("abc"),
        "ba7816bf8f01cfea414140de5dae2223b00361a396177a9cb410ff61f20015ad"
    );
}

#[test]
fn create_hash_of_colon() {
    assert_eq!(
        create_hash(":"),
        "e7ac0786668e0ff0f02b62bd04f45ff636fd82db63b1104601c975dc005f3a67"
    );
}

#[test]
fn fingerprint_matches_hash_of_joined_inputs() {
    let mac = "AA:BB:CC";
    let disk = "WD-1234";
    assert_eq!(fingerprint(mac, disk), create_hash("AA:BB:CC:WD-1234"));
}

#[test]
fn fingerprint_of_placeholders_is_pinned() {
    assert_eq!(
        fingerprint("unknown_mac", "unknown_disk"),
        "18e2088bf37188ac973ffd0ed192c20972e72a8010c98e322dfd8c43f498ec77"
    );
}

#[test]
fn fingerprint_of_empty_inputs_is_hash_of_colon() {
    assert_eq!(fingerprint("", ""), create_hash(":"));
    assert_eq!(
        fingerprint("", ""),
        "e7ac0786668e0ff0f02b62bd04f45ff636fd82db63b1104601c975dc005f3a67"
    );
}

#[test]
fn hash_is_64_lowercase_hex_chars() {
    for input in ["", "abc", "h\u{e9}llo:w\u{f6}rld", "unknown_mac:unknown_disk", "\n\r\t"] {
        let h = create_hash(input);
        assert_eq!(h.len(), 64);
        assert!(is_lower_hex(&h));
    }
}

#[test]
fn hash_of_non_ascii_input_is_pinned() {
    assert_eq!(
        create_hash("h\u{e9}llo:w\u{f6}rld"),
        "820ac9ff229a57a890731a39b6efab8f4909783e595adefcf06c66ce1b8fe676"
    );
}

#[test]
fn fingerprint_is_deterministic() {
    let first = fingerprint("AA:BB:CC", "WD-1234");
    let second = fingerprint("AA:BB:CC", "WD-1234");
    assert_eq!(first, second);
}

#[test]
fn orchestration_succeeds_when_both_collections_fail() {
    let r = get_device_identifiers(
        Err("spawn failed".to_string()),
        Err("spawn failed".to_string()),
    );
    assert_eq!(
        r,
        Ok("18e2088bf37188ac973ffd0ed192c20972e72a8010c98e322dfd8c43f498ec77".to_string())
    );
}

#[test]
fn orchestration_succeeds_when_one_collection_fails() {
    let r = get_device_identifiers(Ok("AA:BB:CC".to_string()), Err("spawn failed".to_string()));
    assert_eq!(r, Ok(fingerprint("AA:BB:CC", "unknown_disk")));
}

#[test]
fn orchestration_uses_collected_strings() {
    let r = get_device_identifiers(Ok("AA:BB:CC".to_string()), Ok("WD-1234".to_string()));
    assert_eq!(r, Ok(fingerprint("AA:BB:CC", "WD-1234")));
}

#[test]
fn encode_hex_renders_bytes() {
    assert_eq!(device_fingerprint::hex::encode_hex(&vec![0xab, 0x00, 0x5f]), "ab005f");
    assert_eq!(device_fingerprint::hex::encode_hex(&Vec::new()), "");
}

#[test]
fn greet_builds_greeting() {
    assert_eq!(greet("World"), "Hello, World! You've been greeted from Rust!");
}
