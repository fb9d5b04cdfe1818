use qdhex::{bare_dump, bare_dump_string, hex_digit, write_bare_dump_to_vec};

fn digit_value(c: u8) -> u8 {
    match c {
        b'0'..=b'9' => c - b'0',
        b'a'..=b'f' => c - b'a' + 10,
        _ => panic!("not a lowercase hex character: {}", c),
    }
}

/// Reads a bare dump back without any help from the library.
fn decode_pairs(text: &[u8]) -> Vec<u8> {
    let mut bytes = Vec::new();
    let mut at = 0;
    while at < text.len() {
        bytes.push(digit_value(text[at]) * 16 + digit_value(text[at + 1]));
        if at + 2 < text.len() {
            assert_eq!(text[at + 2], b' ');
        }
        at += 3;
    }
    bytes
}

fn sample(len: usize) -> Vec<u8> {
    (0..len).map(|i| (i * 37 + 11) as u8).collect()
}

#[test]
fn test_bare_dump() {
    let data: [u8; 9] = [0x12, 0x34, 0x56, 0x78, 0xab, 0xcd, 0xef, 0xa0, 0x0b];
    let mut target = Vec::new();
    write_bare_dump_to_vec(&data, &mut target);
    assert_eq!(target, b"12 34 56 78 ab cd ef a0 0b");

    let data: &[u8] = &b"Hello, World!"[..];
    let mut target = Vec::new();
    write_bare_dump_to_vec(&data, &mut target);
    assert_eq!(target, b"48 65 6c 6c 6f 2c 20 57 6f 72 6c 64 21");

    // Test with empty data
    let data: &[u8] = &b""[..];
    let mut target = Vec::new();
    write_bare_dump_to_vec(&data, &mut target);
    assert_eq!(target, b"");

    // Test with one byte
    let data: &[u8] = &b"\xab"[..];
    let mut target = Vec::new();
    write_bare_dump_to_vec(&data, &mut target);
    assert_eq!(target, b"ab");

    // Verify that the target is not cleared
    let data: &[u8] = &b"\xab\x30"[..];
    let mut target = b"Hello, World!".to_vec();
    write_bare_dump_to_vec(&data, &mut target);
    assert_eq!(target, b"Hello, World!ab 30");
}

#[test]
fn hex_digit_covers_the_alphabet() {
    let alphabet = b"0123456789abcdef";
    for nibble in 0..16u8 {
        assert_eq!(hex_digit(nibble), alphabet[nibble as usize]);
    }
}

#[test]
fn bare_dump_of_four_bytes() {
    assert_eq!(bare_dump(&[0x00, 0x01, 0x02, 0x03]), b"00 01 02 03");
}

#[test]
fn bare_dump_of_six_bytes() {
    let data = [0x00, 0x01, 0x02, 0x03, 0x04, 0x05];
    assert_eq!(bare_dump(&data), b"00 01 02 03 04 05");
    assert_eq!(bare_dump_string(&data), "00 01 02 03 04 05");
}

#[test]
fn bare_dump_of_nothing_is_empty() {
    assert_eq!(bare_dump(&[]), b"");
    assert_eq!(bare_dump_string(&[]), "");
}

#[test]
fn bare_dump_of_one_byte_has_no_separator() {
    assert_eq!(bare_dump(&[0x00]), b"00");
    assert_eq!(bare_dump(&[0xff]), b"ff");
    assert_eq!(bare_dump(&[0x0a]), b"0a");
    assert_eq!(bare_dump(&[0xa0]), b"a0");
}

#[test]
fn bare_dump_length_is_three_per_byte_less_one() {
    assert_eq!(bare_dump(&sample(0)).len(), 0);
    for len in 1..=64usize {
        assert_eq!(bare_dump(&sample(len)).len(), 3 * len - 1);
    }
    assert_eq!(bare_dump(&sample(1000)).len(), 2999);
}

#[test]
fn bare_dump_separators_stand_between_pairs_only() {
    for len in 1..=40usize {
        let dump = bare_dump(&sample(len));
        assert_ne!(dump[0], b' ');
        assert_ne!(dump[dump.len() - 1], b' ');
        let spaces = dump.iter().filter(|&&c| c == b' ').count();
        assert_eq!(spaces, len - 1);
        for (at, &c) in dump.iter().enumerate() {
            assert_eq!(c == b' ', at % 3 == 2);
        }
    }
}

#[test]
fn bare_dump_reads_back_as_the_data() {
    let every_byte: Vec<u8> = (0..=255u8).collect();
    assert_eq!(decode_pairs(&bare_dump(&every_byte)), every_byte);
    for len in 0..=33usize {
        let data = sample(len);
        assert_eq!(decode_pairs(&bare_dump(&data)), data);
    }
}

#[test]
fn bare_dump_uses_lowercase_digits() {
    assert_eq!(bare_dump(&[0xab, 0xcd, 0xef]), b"ab cd ef");
    assert_eq!(bare_dump(&[0x9a, 0xa9, 0xf0, 0x0f]), b"9a a9 f0 0f");
}

#[test]
fn write_bare_dump_keeps_what_the_target_held() {
    let mut target = b"prefix ".to_vec();
    write_bare_dump_to_vec(&[0xde, 0xad, 0xbe, 0xef], &mut target);
    assert_eq!(target, b"prefix de ad be ef");
    write_bare_dump_to_vec(&[0x01], &mut target);
    assert_eq!(target, b"prefix de ad be ef01");
}

#[test]
fn write_bare_dump_of_nothing_leaves_the_target_alone() {
    let mut target = b"Hello, World!".to_vec();
    write_bare_dump_to_vec(&[], &mut target);
    assert_eq!(target, b"Hello, World!");

    let mut target = b"ends with a space ".to_vec();
    write_bare_dump_to_vec(&[], &mut target);
    assert_eq!(target, b"ends with a space ");
}

#[test]
fn bare_dump_string_spells_the_same_bytes() {
    for len in 0..=20usize {
        let data = sample(len);
        assert_eq!(bare_dump_string(&data).into_bytes(), bare_dump(&data));
    }
    assert_eq!(bare_dump_string(b"Hello, World!"), "48 65 6c 6c 6f 2c 20 57 6f 72 6c 64 21");
}

#[test]
fn bare_dump_is_the_same_on_every_call() {
    let data = sample(50);
    assert_eq!(bare_dump(&data), bare_dump(&data));
    let mut target = Vec::new();
    write_bare_dump_to_vec(&data, &mut target);
    assert_eq!(target, bare_dump(&data));
}
