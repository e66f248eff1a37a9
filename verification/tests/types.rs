use gunyah_vmm::types::{GuestAddress, GuestSize, ParseError, ZeroSize};

fn address(s: &str) -> Result<u64, ParseError> {
    GuestAddress::from_str(s).map(|a| a.get())
}

fn size(s: &str) -> Result<u64, ParseError> {
    GuestSize::from_str(s).map(|a| a.get())
}

#[test]
fn parses_decimal_hexadecimal_and_binary() {
    assert_eq!(address("1024"), Ok(1024));
    assert_eq!(address("0"), Ok(0));
    assert_eq!(address("0x10"), Ok(16));
    assert_eq!(address("0x8000_0000"), Ok(0x8000_0000));
    assert_eq!(address("0xffffffffffffffff"), Ok(u64::MAX));
    assert_eq!(address("0b101"), Ok(5));
    assert_eq!(address("0b1111_0000"), Ok(0xf0));
    assert_eq!(address("18446744073709551615"), Ok(u64::MAX));
}

#[test]
fn parses_units() {
    assert_eq!(size("100MB"), Ok(104857600));
    assert_eq!(size("100mib"), Ok(104857600));
    assert_eq!(size("100m"), Ok(104857600));
    assert_eq!(size("4KiB"), Ok(4096));
    assert_eq!(size("4kb"), Ok(4096));
    assert_eq!(size("4k"), Ok(4096));
    assert_eq!(size("1g"), Ok(1073741824));
    assert_eq!(size("2GiB"), Ok(2147483648));
    assert_eq!(size("3GB"), Ok(3221225472));
    assert_eq!(size("0x10k"), Ok(0x4000));
    assert_eq!(size("0b11m"), Ok(3 * 1048576));
}

#[test]
fn hexadecimal_digits_are_no_units() {
    assert_eq!(address("0xb"), Ok(0xb));
    assert_eq!(address("0x1b"), Ok(0x1b));
    assert_eq!(address("0xabcdef"), Ok(0xabcdef));
    assert_eq!(address("0x1mb"), Ok(1048576));
}

#[test]
fn skips_case_white_space_and_separators() {
    assert_eq!(address("0X1F"), Ok(31));
    assert_eq!(address("0B11"), Ok(3));
    assert_eq!(address("  16K  "), Ok(16384));
    assert_eq!(address("\t0x10\n"), Ok(16));
    assert_eq!(address("1_000"), Ok(1000));
    assert_eq!(address("1 000 000"), Ok(1000000));
    assert_eq!(address("0x 8000 0000"), Ok(0x8000_0000));
    assert_eq!(address("1_ 0 _k"), Ok(10240));
    assert_eq!(address("+5"), Ok(5));
    assert_eq!(address("+ 5"), Ok(5));
}

#[test]
fn lower_case_and_white_space_are_those_of_unicode() {
    // The Kelvin sign has the letter k as its lower case.
    assert_eq!(address("10\u{212a}"), Ok(10240));
    // An em space and an ideographic space are white space.
    assert_eq!(address("\u{2003}42\u{3000}"), Ok(42));
    // A zero width space is none.
    assert_eq!(address("\u{200b}42"), Err(ParseError::Number));
}

#[test]
fn rejects_what_is_no_number() {
    assert_eq!(address(""), Err(ParseError::Number));
    assert_eq!(address("   "), Err(ParseError::Number));
    assert_eq!(address("0x"), Err(ParseError::Number));
    assert_eq!(address("0b"), Err(ParseError::Number));
    assert_eq!(address("k"), Err(ParseError::Number));
    assert_eq!(address("0xg"), Err(ParseError::Number));
    assert_eq!(address("abc"), Err(ParseError::Number));
    assert_eq!(address("12q"), Err(ParseError::Number));
    assert_eq!(address("0b2"), Err(ParseError::Number));
    assert_eq!(address("-1"), Err(ParseError::Number));
    assert_eq!(address("+"), Err(ParseError::Number));
    assert_eq!(address("++1"), Err(ParseError::Number));
    assert_eq!(address("1+"), Err(ParseError::Number));
    assert_eq!(address("1.5k"), Err(ParseError::Number));
    assert_eq!(address("1kk"), Err(ParseError::Number));
    // Full width digits are no digits.
    assert_eq!(address("\u{ff11}\u{ff12}"), Err(ParseError::Number));
}

#[test]
fn rejects_what_does_not_fit() {
    assert_eq!(address("18446744073709551616"), Err(ParseError::Number));
    assert_eq!(address("0x10000000000000000"), Err(ParseError::Number));
    assert_eq!(address("99999999999999999999999999"), Err(ParseError::Number));
    assert_eq!(size("17179869184g"), Err(ParseError::Overflow));
    assert_eq!(size("17179869183g"), Ok(17179869183 * 1073741824));
    assert_eq!(size("0xffffffffffffffffk"), Err(ParseError::Overflow));
    // No number and too large a number are told before too large a product.
    assert_eq!(size("18446744073709551616k"), Err(ParseError::Number));
}

#[test]
fn address_is_shown_in_hexadecimal_with_six_digits_at_least() {
    assert_eq!(GuestAddress::new(0).to_string(), "0x000000");
    assert_eq!(GuestAddress::new(0x10).to_string(), "0x000010");
    assert_eq!(GuestAddress::new(0xfffff).to_string(), "0x0fffff");
    assert_eq!(GuestAddress::new(0x100000).to_string(), "0x100000");
    assert_eq!(GuestAddress::new(0x123456).to_string(), "0x123456");
    assert_eq!(GuestAddress::new(0x8000_0000).to_string(), "0x80000000");
    assert_eq!(GuestAddress::new(0xdead_beef_cafe).to_string(), "0xdeadbeefcafe");
    assert_eq!(GuestAddress::new(u64::MAX).to_string(), "0xffffffffffffffff");
    assert_eq!(GuestAddress::new(0x3f800).to_string(), format!("{:#08x}", 0x3f800));
}

#[test]
fn size_is_shown_in_its_largest_unit() {
    assert_eq!(GuestSize::new(0).to_string(), "0GiB");
    assert_eq!(GuestSize::new(1).to_string(), "1");
    assert_eq!(GuestSize::new(1023).to_string(), "1023");
    assert_eq!(GuestSize::new(1024).to_string(), "1KiB");
    assert_eq!(GuestSize::new(1536).to_string(), "1536");
    assert_eq!(GuestSize::new(1049600).to_string(), "1025KiB");
    assert_eq!(GuestSize::new(0x10_0000).to_string(), "1MiB");
    assert_eq!(GuestSize::new(104857600).to_string(), "100MiB");
    assert_eq!(GuestSize::new(0x4000_0000).to_string(), "1GiB");
    assert_eq!(GuestSize::new(0xc000_0000).to_string(), "3GiB");
    assert_eq!(GuestSize::new(0x4010_0000).to_string(), "1025MiB");
    assert_eq!(GuestSize::new(u64::MAX).to_string(), "18446744073709551615");
    assert_eq!(GuestSize::new(1 << 63).to_string(), "8589934592GiB");
}

#[test]
fn what_is_shown_can_be_read_again() {
    for v in [0u64, 1, 1024, 1536, 0x10_0000, 104857600, 0x4000_0000, 0x8000_0000, u64::MAX] {
        assert_eq!(size(&GuestSize::new(v).to_string()), Ok(v));
        assert_eq!(address(&GuestAddress::new(v).to_string()), Ok(v));
    }
}

#[test]
fn size_of_a_window_is_not_zero() {
    assert_eq!(GuestSize::new(0).to_nonzero(), Err(ZeroSize));
    assert_eq!(GuestSize::new(4096).to_nonzero(), Ok(4096));
    assert_eq!(GuestSize::new(1).to_nonzero(), Ok(1));
}

#[test]
fn address_arithmetic() {
    let base = GuestAddress::new(0x8000_0000);
    assert_eq!(base.add(GuestSize::new(0x1000)), GuestAddress::new(0x8000_1000));
    assert_eq!(base.sub(GuestSize::new(0x1000)), GuestAddress::new(0x7fff_f000));
    assert_eq!(base.add(GuestSize::new(0)), base);
    assert_eq!(GuestAddress::new(0).add(GuestSize::new(u64::MAX)).get(), u64::MAX);
}

#[test]
fn addresses_and_sizes_from_numbers() {
    assert_eq!(GuestAddress::from(0x3f800u64), GuestAddress::new(0x3f800));
    assert_eq!(GuestSize::from(0x10000u64), GuestSize::new(0x10000));
    assert_eq!(GuestSize::from(77usize), GuestSize::new(77));
    assert!(GuestAddress::new(1) < GuestAddress::new(2));
    assert!(GuestSize::new(3) > GuestSize::new(2));
}
