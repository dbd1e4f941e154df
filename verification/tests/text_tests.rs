use fea_engine::text::u32_to_string;
use fea_engine::text::u64_to_string;

#[test]
fn decimal_rendering_matches_the_digits() {
    assert_eq!(u64_to_string(0), "0");
    assert_eq!(u64_to_string(7), "7");
    assert_eq!(u64_to_string(10), "10");
    assert_eq!(u64_to_string(12345), "12345");
    assert_eq!(u64_to_string(18446744073709551615), "18446744073709551615");
    assert_eq!(u32_to_string(4294967295), "4294967295");
}
