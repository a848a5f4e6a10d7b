use jetkvm_rdp::hexdump::hex_head;

#[test]
fn bytes_are_two_lower_case_digits_with_spaces_between() {
    assert_eq!(hex_head(&[]), "");
    assert_eq!(hex_head(&[0x0a]), "0a");
    assert_eq!(hex_head(&[0x00, 0x9f, 0xe5]), "00 9f e5");
}

#[test]
fn sixteen_bytes_are_shown() {
    let data: Vec<u8> = (0xf0..=0xffu8).chain(0..5).collect();
    assert_eq!(hex_head(&data), "f0 f1 f2 f3 f4 f5 f6 f7 f8 f9 fa fb fc fd fe ff");
    assert_eq!(hex_head(&data[..15]), "f0 f1 f2 f3 f4 f5 f6 f7 f8 f9 fa fb fc fd fe");
}

#[test]
fn the_text_tells_the_byte() {
    let mut texts: Vec<String> = Vec::new();
    for byte in 0..=255u8 {
        let text = hex_head(&[byte]);
        assert_eq!(text, format!("{:02x}", byte));
        assert!(!texts.contains(&text));
        texts.push(text);
    }
}
