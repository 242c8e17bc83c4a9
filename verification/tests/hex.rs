use zerotier_utils::hex::{
    from_bytes, from_string, from_string_u64, to_hex_bytes, to_string, to_string_u64, to_vec_u64,
    u64_from_bytes, HEX_CHARS,
};

#[test]
fn hex_to_string_known_values() {
    assert_eq!(to_string(&[]), "");
    assert_eq!(to_string(&[0x01, 0xab, 0xff, 0x00, 0x9c]), "01abff009c");
    assert_eq!(&HEX_CHARS, b"0123456789abcdef");
}

#[test]
fn hex_u64_with_and_without_leading_zeroes() {
    assert_eq!(to_string_u64(0x1234, true), "1234");
    assert_eq!(to_string_u64(0x1234, false), "0000000000001234");
    assert_eq!(to_string_u64(0, true), "");
    assert_eq!(to_string_u64(0, false), "0000000000000000");
    assert_eq!(to_string_u64(u64::MAX, true), "ffffffffffffffff");
    assert_eq!(to_string_u64(0x0a00_0000_0000_0000, true), "a00000000000000");
    assert_eq!(to_string_u64(0x1002, true), "1002");
    assert_eq!(to_vec_u64(0xdeadbeef, true), b"deadbeef".to_vec());
    assert_eq!(to_vec_u64(0xdeadbeef, false), b"00000000deadbeef".to_vec());
    assert_eq!(to_vec_u64(0, true), Vec::<u8>::new());
}

#[test]
fn hex_from_string_skips_what_is_no_digit() {
    assert_eq!(from_string("01abFF"), vec![0x01, 0xab, 0xff]);
    assert_eq!(from_string("0 1:aB zz f"), vec![0x01, 0xab]);
    assert_eq!(from_string(""), Vec::<u8>::new());
    assert_eq!(from_string("f"), Vec::<u8>::new());
    assert_eq!(from_string("xyz"), Vec::<u8>::new());
    assert_eq!(from_string("/:@G`g"), Vec::<u8>::new());
    assert_eq!(from_string("09afAF"), vec![0x09, 0xaf, 0xaf]);
    assert_eq!(from_bytes(b"de-ad-be-ef"), vec![0xde, 0xad, 0xbe, 0xef]);
}

#[test]
fn hex_round_trip() {
    let bytes: Vec<u8> = (0..=255).collect();
    assert_eq!(from_string(&to_string(&bytes)), bytes);
}

#[test]
fn hex_from_string_u64_known_values() {
    assert_eq!(from_string_u64("ff"), 255);
    assert_eq!(from_string_u64(""), 0);
    assert_eq!(from_string_u64("f"), 0);
    assert_eq!(from_string_u64("fff"), 0xff);
    assert_eq!(from_string_u64("0102030405060708"), 0x0102030405060708);
    assert_eq!(from_string_u64("010203040506070809"), 0x0203040506070809);
    assert_eq!(from_string_u64("de:ad:BE:ef"), 0xdeadbeef);
    assert_eq!(u64_from_bytes(b"1234"), 0x1234);
    assert_eq!(from_string_u64(&to_string_u64(0x0123456789abcdef, false)), 0x0123456789abcdef);
}

#[test]
fn hex_to_hex_bytes_fills_the_front() {
    let mut dest = [b'.'; 8];
    assert_eq!(to_hex_bytes(&[0x1f, 0xa0, 0x07], &mut dest), 6);
    assert_eq!(&dest, b"1fa007..");
    assert_eq!(to_hex_bytes(&[], &mut dest), 0);
    assert_eq!(&dest, b"1fa007..");
}
