use unremarkable_notes::ident::ItemId;

#[test]
fn parses_canonical_uuid() {
    let id = ItemId::parse_str("7063a1a0-26e6-4941-aa0e-b8786aaf28bd").unwrap();
    assert_eq!(id.value, 149390851073396545157451206422873188541u128);
}

#[test]
fn parses_uppercase_hex_digits() {
    let lower = ItemId::parse_str("7063a1a0-26e6-4941-aa0e-b8786aaf28bd").unwrap();
    let upper = ItemId::parse_str("7063A1A0-26E6-4941-AA0E-B8786AAF28BD").unwrap();
    assert_eq!(lower, upper);
}

#[test]
fn parses_small_value() {
    let id = ItemId::parse_str("00000000-0000-0000-0000-000000000001").unwrap();
    assert_eq!(id.value, 1u128);
    assert!(!id.is_nil());
}

#[test]
fn parses_nil_uuid() {
    let id = ItemId::parse_str("00000000-0000-0000-0000-000000000000").unwrap();
    assert_eq!(id.value, 0u128);
    assert!(id.is_nil());
}

#[test]
fn rejects_wrong_length() {
    assert!(ItemId::parse_str("").is_none());
    assert!(ItemId::parse_str("7063a1a0").is_none());
    assert!(ItemId::parse_str("7063a1a0-26e6-4941-aa0e-b8786aaf28bd0").is_none());
}

#[test]
fn rejects_misplaced_hyphens() {
    assert!(ItemId::parse_str("7063a1a02-6e6-4941-aa0e-b8786aaf28bd").is_none());
    assert!(ItemId::parse_str("7063a1a0x26e6x4941xaa0exb8786aaf28bd").is_none());
}

#[test]
fn rejects_non_hex_characters() {
    assert!(ItemId::parse_str("g063a1a0-26e6-4941-aa0e-b8786aaf28bd").is_none());
    assert!(ItemId::parse_str("non-existant").is_none());
}

#[test]
fn formats_canonical_lowercase() {
    let id = ItemId::parse_str("7063A1A0-26E6-4941-AA0E-B8786AAF28BD").unwrap();
    assert_eq!(id.to_canonical(), "7063a1a0-26e6-4941-aa0e-b8786aaf28bd");
}

#[test]
fn canonical_form_round_trips() {
    let texts = [
        "00000000-0000-0000-0000-000000000000",
        "7063a1a0-26e6-4941-aa0e-b8786aaf28bd",
        "ffffffff-ffff-ffff-ffff-ffffffffffff",
    ];
    for t in texts {
        let id = ItemId::parse_str(t).unwrap();
        assert_eq!(id.to_canonical(), *t);
        assert_eq!(ItemId::parse_str(id.to_canonical().as_str()).unwrap(), id);
    }
}

#[test]
fn agrees_with_uuid_crate() {
    let text = "7063a1a0-26e6-4941-aa0e-b8786aaf28bd";
    let ours = ItemId::parse_str(text).unwrap();
    let theirs = uuid::Uuid::parse_str(text).unwrap();
    assert_eq!(ours.value, theirs.as_u128());
    assert_eq!(ours.to_canonical(), theirs.to_string());
}
