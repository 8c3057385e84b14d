use rdoc::vlq::VlqHexDecoder;

#[test]
fn test_decode_zero() {
    let mut decoder = VlqHexDecoder::new("a");
    assert_eq!(decoder.next(), Some(0));
}

#[test]
fn test_decode_positive_number() {
    let mut decoder = VlqHexDecoder::new("b");
    assert_eq!(decoder.next(), Some(1));
}

#[test]
fn test_decode_multiple_values() {
    let mut decoder = VlqHexDecoder::new("aba");
    assert_eq!(decoder.next(), Some(0));
    assert_eq!(decoder.next(), Some(1));
    assert_eq!(decoder.next(), Some(0));
    assert_eq!(decoder.next(), None);
}

#[test]
fn vlq_negative_value() {
    // 'c' is 99: low nibble 3, sign bit set, magnitude 1.
    let mut decoder = VlqHexDecoder::new("c");
    assert_eq!(decoder.next(), Some(-1));
    assert_eq!(decoder.next(), None);
}

#[test]
fn vlq_multi_nibble_value() {
    // 'B' (66) continues with nibble 2, 'a' (97) ends with nibble 1: 0x21 = 33.
    let mut decoder = VlqHexDecoder::new("Bad");
    assert_eq!(decoder.next(), Some(-16));
    assert_eq!(decoder.next(), Some(2));
    assert_eq!(decoder.next(), None);
}

#[test]
fn vlq_continuation_without_terminal_ends_stream() {
    let mut decoder = VlqHexDecoder::new("bAB");
    assert_eq!(decoder.next(), Some(1));
    assert_eq!(decoder.next(), None);
    assert_eq!(decoder.next(), None);
}

#[test]
fn vlq_empty_stream() {
    let mut decoder = VlqHexDecoder::new("");
    assert_eq!(decoder.next(), None);
}
