use rdoc::item_type::{decode_item_type, ItemType};

#[test]
fn item_type_code_round_trip() {
    for code in 0u32..28 {
        let kind = decode_item_type(code);
        assert_eq!(kind.code(), code);
        assert_eq!(decode_item_type(kind.code()), kind);
    }
}

#[test]
fn item_type_unknown_codes_fall_back() {
    assert_eq!(decode_item_type(28), ItemType::Module);
    assert_eq!(decode_item_type(1000), ItemType::Module);
    assert_eq!(decode_item_type(u32::MAX), ItemType::Module);
}

#[test]
fn item_type_known_codes() {
    assert_eq!(decode_item_type(0), ItemType::MutRef);
    assert_eq!(decode_item_type(10), ItemType::Trait);
    assert_eq!(decode_item_type(27), ItemType::TraitAlias);
    assert_eq!(ItemType::Method.code(), 13);
}
