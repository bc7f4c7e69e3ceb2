use tinkerlang::range::{decode_range, encode_range};

#[test]
fn range_packs_start_high_and_end_low() {
    assert_eq!(encode_range(1, 2), 0x0000_0001_0000_0002);
    assert_eq!(encode_range(0, 0), 0);
    assert_eq!(decode_range(0x0000_0003_0000_0009), (3, 9));
}

#[test]
fn range_round_trips() {
    for (start, end) in [(0u32, 0u32), (5, 17), (0, u32::MAX), (u32::MAX, u32::MAX), (12345, 67890)] {
        assert_eq!(decode_range(encode_range(start, end)), (start, end));
    }
}
