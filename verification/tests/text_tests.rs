use termhex::text::{
    decimal_digit_count, decode_text, digit_of, hex_padded, pad_left, radix_digits,
    text_from_ascii,
};

#[test]
fn digits_of_a_value() {
    assert_eq!(digit_of(0), b'0');
    assert_eq!(digit_of(9), b'9');
    assert_eq!(digit_of(10), b'a');
    assert_eq!(digit_of(15), b'f');
    assert_eq!(radix_digits(0, 16), b"0".to_vec());
    assert_eq!(radix_digits(255, 16), b"ff".to_vec());
    assert_eq!(radix_digits(4096, 16), b"1000".to_vec());
    assert_eq!(radix_digits(1234567890, 10), b"1234567890".to_vec());
    assert_eq!(radix_digits(5, 2), b"101".to_vec());
    assert_eq!(
        radix_digits(u128::MAX, 16),
        b"ffffffffffffffffffffffffffffffff".to_vec()
    );
}

#[test]
fn padding_on_the_left() {
    assert_eq!(pad_left(b"7".to_vec(), 3, b'0'), b"007".to_vec());
    assert_eq!(pad_left(b"1234".to_vec(), 3, b'0'), b"1234".to_vec());
    assert_eq!(pad_left(Vec::new(), 2, b' '), b"  ".to_vec());
    assert_eq!(pad_left(b"ab".to_vec(), 0, b' '), b"ab".to_vec());
}

#[test]
fn decimal_digit_counts() {
    assert_eq!(decimal_digit_count(0), 1);
    assert_eq!(decimal_digit_count(9), 1);
    assert_eq!(decimal_digit_count(10), 2);
    assert_eq!(decimal_digit_count(999), 3);
    assert_eq!(decimal_digit_count(10000), 5);
    assert_eq!(decimal_digit_count(usize::MAX), usize::MAX.to_string().len());
}

#[test]
fn hex_fields() {
    assert_eq!(hex_padded(0, 1), b"0".to_vec());
    assert_eq!(hex_padded(0x2a, 4), b"002a".to_vec());
    assert_eq!(hex_padded(0xabcdef, 2), b"abcdef".to_vec());
    for v in [0u128, 1, 15, 16, 255, 256, 65535, 1 << 40] {
        for w in 0..8usize {
            assert_eq!(
                String::from_utf8(hex_padded(v, w)).unwrap(),
                format!("{:0>width$x}", v, width = w)
            );
        }
    }
}

#[test]
fn decoding_text() {
    assert_eq!(text_from_ascii(b"hi there".to_vec()), "hi there");
    assert_eq!(text_from_ascii(Vec::new()), "");
    assert_eq!(decode_text(b"ok".to_vec()), Some("ok".to_string()));
    assert_eq!(decode_text(vec![0xe2, 0x82, 0xac]), Some("\u{20ac}".to_string()));
    assert_eq!(decode_text(vec![0xff]), None);
    assert_eq!(decode_text(vec![0xc3]), None);
}
