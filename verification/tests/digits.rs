use guessing_game::digits::i32_to_string;
use guessing_game::digits::u64_to_string;

#[test]
fn unsigned_formatting() {
    assert_eq!(u64_to_string(0).as_str(), "0");
    assert_eq!(u64_to_string(7).as_str(), "7");
    assert_eq!(u64_to_string(10).as_str(), "10");
    assert_eq!(u64_to_string(12345).as_str(), "12345");
    assert_eq!(u64_to_string(u64::MAX).as_str(), "18446744073709551615");
}

#[test]
fn signed_formatting() {
    assert_eq!(i32_to_string(0).as_str(), "0");
    assert_eq!(i32_to_string(42).as_str(), "42");
    assert_eq!(i32_to_string(-1).as_str(), "-1");
    assert_eq!(i32_to_string(-100).as_str(), "-100");
    assert_eq!(i32_to_string(i32::MAX).as_str(), "2147483647");
    assert_eq!(i32_to_string(i32::MIN).as_str(), "-2147483648");
}
