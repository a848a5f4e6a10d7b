use jetkvm_rdp::scancode::{scancode_modifier, scancode_to_hid};

#[test]
fn modifiers_have_bits_of_their_own() {
    assert_eq!(scancode_modifier(0x1d, false), Some(0x01));
    assert_eq!(scancode_modifier(0x2a, false), Some(0x02));
    assert_eq!(scancode_modifier(0x38, false), Some(0x04));
    assert_eq!(scancode_modifier(0x5b, true), Some(0x08));
    assert_eq!(scancode_modifier(0x1d, true), Some(0x10));
    assert_eq!(scancode_modifier(0x36, false), Some(0x20));
    assert_eq!(scancode_modifier(0x38, true), Some(0x40));
    assert_eq!(scancode_modifier(0x5c, true), Some(0x80));
    let mut bits = 0u8;
    for code in 0..=255u8 {
        for extended in [false, true] {
            if let Some(bit) = scancode_modifier(code, extended) {
                assert_eq!(bits & bit, 0);
                bits |= bit;
            }
        }
    }
    assert_eq!(bits, 0xff);
    assert_eq!(scancode_modifier(0x36, true), None);
    assert_eq!(scancode_modifier(0x5b, false), None);
}

#[test]
fn letters_and_digits_have_their_usages() {
    assert_eq!(scancode_to_hid(0x1e, false), Some(0x04));
    assert_eq!(scancode_to_hid(0x2c, false), Some(0x1d));
    assert_eq!(scancode_to_hid(0x02, false), Some(0x1e));
    assert_eq!(scancode_to_hid(0x0b, false), Some(0x27));
    assert_eq!(scancode_to_hid(0x1c, false), Some(0x28));
    assert_eq!(scancode_to_hid(0x01, false), Some(0x29));
    assert_eq!(scancode_to_hid(0x39, false), Some(0x2c));
    assert_eq!(scancode_to_hid(0x3b, false), Some(0x3a));
}

#[test]
fn extended_keys_have_usages_of_their_own() {
    assert_eq!(scancode_to_hid(0x1c, true), Some(0x58));
    assert_eq!(scancode_to_hid(0x53, true), Some(0x4c));
    assert_eq!(scancode_to_hid(0x48, true), Some(0x52));
    assert_eq!(scancode_to_hid(0x5d, true), Some(0x65));
}

#[test]
fn usages_are_distinct_keyboard_keys() {
    let mut seen: Vec<u8> = Vec::new();
    for code in 0..=255u8 {
        for extended in [false, true] {
            if let Some(usage) = scancode_to_hid(code, extended) {
                assert!((0x04..=0x65).contains(&usage));
                assert!(!seen.contains(&usage));
                assert_eq!(scancode_modifier(code, extended), None);
                seen.push(usage);
            }
        }
    }
    assert_eq!(seen.len(), 94);
}

#[test]
fn unknown_keys_have_no_usage() {
    assert_eq!(scancode_to_hid(0x00, false), None);
    assert_eq!(scancode_to_hid(0xff, false), None);
    assert_eq!(scancode_to_hid(0x01, true), None);
}
