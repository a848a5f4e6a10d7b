//! From the scan codes of an RDP client to USB HID keyboard usages.

use vstd::prelude::*;

verus! {

/// The modifier bit of the key at a scan code, if it is a modifier.
pub open spec fn modifier_bit(code: u8, extended: bool) -> Option<u8> {
    match (code, extended) {
        (0x1d, false) => Some(0x01u8),
        (0x2a, false) => Some(0x02u8),
        (0x38, false) => Some(0x04u8),
        (0x5b, true) => Some(0x08u8),
        (0x1d, true) => Some(0x10u8),
        (0x36, false) => Some(0x20u8),
        (0x38, true) => Some(0x40u8),
        (0x5c, true) => Some(0x80u8),
        _ => None,
    }
}

/// The modifier bit of the key at a scan code, if it is a modifier: from the
/// lowest bit up, left Ctrl, Shift, Alt and GUI, then the same on the right.
pub fn scancode_modifier(code: u8, extended: bool) -> (r: Option<u8>)
    ensures
        r == modifier_bit(code, extended),
{
    match (code, extended) {
        (0x1d, false) => Some(0x01),
        (0x2a, false) => Some(0x02),
        (0x38, false) => Some(0x04),
        (0x5b, true) => Some(0x08),
        (0x1d, true) => Some(0x10),
        (0x36, false) => Some(0x20),
        (0x38, true) => Some(0x40),
        (0x5c, true) => Some(0x80),
        _ => None,
    }
}

/// The usages of the keys with an extended scan code.
pub open spec fn extended_usage(code: u8) -> Option<u8> {
    match code {
        0x1c => Some(0x58u8),
        0x35 => Some(0x54u8),
        0x47 => Some(0x4au8),
        0x48 => Some(0x52u8),
        0x49 => Some(0x4bu8),
        0x4b => Some(0x50u8),
        0x4d => Some(0x4fu8),
        0x4f => Some(0x4du8),
        0x50 => Some(0x51u8),
        0x51 => Some(0x4eu8),
        0x52 => Some(0x49u8),
        0x53 => Some(0x4cu8),
        0x5d => Some(0x65u8),
        _ => None,
    }
}

/// The usages of the keys with a plain scan code, row by row.
pub open spec fn plain_usage(code: u8) -> Option<u8> {
    if 0x02 <= code <= 0x0b {
        // the digits, from 1 to 0
        Some((0x1e + (code - 0x02)) as u8)
    } else if 0x3b <= code <= 0x44 {
        // F1 to F10
        Some((0x3a + (code - 0x3b)) as u8)
    } else {
        match code {
            0x01 => Some(0x29u8),
            0x0c => Some(0x2du8),
            0x0d => Some(0x2eu8),
            0x0e => Some(0x2au8),
            0x0f => Some(0x2bu8),
            0x10 => Some(0x14u8),
            0x11 => Some(0x1au8),
            0x12 => Some(0x08u8),
            0x13 => Some(0x15u8),
            0x14 => Some(0x17u8),
            0x15 => Some(0x1cu8),
            0x16 => Some(0x18u8),
            0x17 => Some(0x0cu8),
            0x18 => Some(0x12u8),
            0x19 => Some(0x13u8),
            0x1a => Some(0x2fu8),
            0x1b => Some(0x30u8),
            0x1c => Some(0x28u8),
            0x1e => Some(0x04u8),
            0x1f => Some(0x16u8),
            0x20 => Some(0x07u8),
            0x21 => Some(0x09u8),
            0x22 => Some(0x0au8),
            0x23 => Some(0x0bu8),
            0x24 => Some(0x0du8),
            0x25 => Some(0x0eu8),
            0x26 => Some(0x0fu8),
            0x27 => Some(0x33u8),
            0x28 => Some(0x34u8),
            0x29 => Some(0x35u8),
            0x2b => Some(0x31u8),
            0x2c => Some(0x1du8),
            0x2d => Some(0x1bu8),
            0x2e => Some(0x06u8),
            0x2f => Some(0x19u8),
            0x30 => Some(0x05u8),
            0x31 => Some(0x11u8),
            0x32 => Some(0x10u8),
            0x33 => Some(0x36u8),
            0x34 => Some(0x37u8),
            0x35 => Some(0x38u8),
            0x37 => Some(0x55u8),
            0x39 => Some(0x2cu8),
            0x3a => Some(0x39u8),
            0x45 => Some(0x53u8),
            0x46 => Some(0x47u8),
            0x47 => Some(0x5fu8),
            0x48 => Some(0x60u8),
            0x49 => Some(0x61u8),
            0x4a => Some(0x56u8),
            0x4b => Some(0x5cu8),
            0x4c => Some(0x5du8),
            0x4d => Some(0x5eu8),
            0x4e => Some(0x57u8),
            0x4f => Some(0x59u8),
            0x50 => Some(0x5au8),
            0x51 => Some(0x5bu8),
            0x52 => Some(0x62u8),
            0x53 => Some(0x63u8),
            0x57 => Some(0x44u8),
            0x58 => Some(0x45u8),
            _ => None,
        }
    }
}

/// The usage of the key at a scan code, if it is a key other than a modifier.
pub open spec fn usage_of(code: u8, extended: bool) -> Option<u8> {
    if extended {
        extended_usage(code)
    } else {
        plain_usage(code)
    }
}

/// The HID usage of the key at a scan code, if it is a key other than a
/// modifier.
pub fn scancode_to_hid(code: u8, extended: bool) -> (r: Option<u8>)
    ensures
        r == usage_of(code, extended),
{
    if extended {
        return match code {
            0x1c => Some(0x58),
            0x35 => Some(0x54),
            0x47 => Some(0x4a),
            0x48 => Some(0x52),
            0x49 => Some(0x4b),
            0x4b => Some(0x50),
            0x4d => Some(0x4f),
            0x4f => Some(0x4d),
            0x50 => Some(0x51),
            0x51 => Some(0x4e),
            0x52 => Some(0x49),
            0x53 => Some(0x4c),
            0x5d => Some(0x65),
            _ => None,
        };
    }
    match code {
        0x01 => Some(0x29),
        0x02..=0x0b => Some(0x1e + ((code - 0x02) % 10)),
        0x0c => Some(0x2d),
        0x0d => Some(0x2e),
        0x0e => Some(0x2a),
        0x0f => Some(0x2b),
        0x10 => Some(0x14),
        0x11 => Some(0x1a),
        0x12 => Some(0x08),
        0x13 => Some(0x15),
        0x14 => Some(0x17),
        0x15 => Some(0x1c),
        0x16 => Some(0x18),
        0x17 => Some(0x0c),
        0x18 => Some(0x12),
        0x19 => Some(0x13),
        0x1a => Some(0x2f),
        0x1b => Some(0x30),
        0x1c => Some(0x28),
        0x1e => Some(0x04),
        0x1f => Some(0x16),
        0x20 => Some(0x07),
        0x21 => Some(0x09),
        0x22 => Some(0x0a),
        0x23 => Some(0x0b),
        0x24 => Some(0x0d),
        0x25 => Some(0x0e),
        0x26 => Some(0x0f),
        0x27 => Some(0x33),
        0x28 => Some(0x34),
        0x29 => Some(0x35),
        0x2b => Some(0x31),
        0x2c => Some(0x1d),
        0x2d => Some(0x1b),
        0x2e => Some(0x06),
        0x2f => Some(0x19),
        0x30 => Some(0x05),
        0x31 => Some(0x11),
        0x32 => Some(0x10),
        0x33 => Some(0x36),
        0x34 => Some(0x37),
        0x35 => Some(0x38),
        0x37 => Some(0x55),
        0x39 => Some(0x2c),
        0x3a => Some(0x39),
        0x3b..=0x44 => Some(0x3a + (code - 0x3b)),
        0x45 => Some(0x53),
        0x46 => Some(0x47),
        0x47 => Some(0x5f),
        0x48 => Some(0x60),
        0x49 => Some(0x61),
        0x4a => Some(0x56),
        0x4b => Some(0x5c),
        0x4c => Some(0x5d),
        0x4d => Some(0x5e),
        0x4e => Some(0x57),
        0x4f => Some(0x59),
        0x50 => Some(0x5a),
        0x51 => Some(0x5b),
        0x52 => Some(0x62),
        0x53 => Some(0x63),
        0x57 => Some(0x44),
        0x58 => Some(0x45),
        _ => None,
    }
}

/// Where the key with a usage sits: its scan code, and whether that is extended.
pub open spec fn key_at(usage: u8) -> (u8, bool) {
    if 0x1e <= usage <= 0x27 {
        // the digits, from 1 to 0
        ((0x02 + (usage - 0x1e)) as u8, false)
    } else if 0x3a <= usage <= 0x43 {
        // F1 to F10
        ((0x3b + (usage - 0x3a)) as u8, false)
    } else {
        match usage {
            // the letters
            0x04 => (0x1eu8, false),
            0x05 => (0x30u8, false),
            0x06 => (0x2eu8, false),
            0x07 => (0x20u8, false),
            0x08 => (0x12u8, false),
            0x09 => (0x21u8, false),
            0x0a => (0x22u8, false),
            0x0b => (0x23u8, false),
            0x0c => (0x17u8, false),
            0x0d => (0x24u8, false),
            0x0e => (0x25u8, false),
            0x0f => (0x26u8, false),
            0x10 => (0x32u8, false),
            0x11 => (0x31u8, false),
            0x12 => (0x18u8, false),
            0x13 => (0x19u8, false),
            0x14 => (0x10u8, false),
            0x15 => (0x13u8, false),
            0x16 => (0x1fu8, false),
            0x17 => (0x14u8, false),
            0x18 => (0x16u8, false),
            0x19 => (0x2fu8, false),
            0x1a => (0x11u8, false),
            0x1b => (0x2du8, false),
            0x1c => (0x15u8, false),
            0x1d => (0x2cu8, false),
            // Enter, Escape, Backspace, Tab, Space and punctuation
            0x28 => (0x1cu8, false),
            0x29 => (0x01u8, false),
            0x2a => (0x0eu8, false),
            0x2b => (0x0fu8, false),
            0x2c => (0x39u8, false),
            0x2d => (0x0cu8, false),
            0x2e => (0x0du8, false),
            0x2f => (0x1au8, false),
            0x30 => (0x1bu8, false),
            0x31 => (0x2bu8, false),
            0x33 => (0x27u8, false),
            0x34 => (0x28u8, false),
            0x35 => (0x29u8, false),
            0x36 => (0x33u8, false),
            0x37 => (0x34u8, false),
            0x38 => (0x35u8, false),
            0x39 => (0x3au8, false),
            // F11 and F12, then Scroll Lock
            0x44 => (0x57u8, false),
            0x45 => (0x58u8, false),
            0x47 => (0x46u8, false),
            // the navigation keys
            0x49 => (0x52u8, true),
            0x4a => (0x47u8, true),
            0x4b => (0x49u8, true),
            0x4c => (0x53u8, true),
            0x4d => (0x4fu8, true),
            0x4e => (0x51u8, true),
            0x4f => (0x4du8, true),
            0x50 => (0x4bu8, true),
            0x51 => (0x50u8, true),
            0x52 => (0x48u8, true),
            // the keypad
            0x53 => (0x45u8, false),
            0x54 => (0x35u8, true),
            0x55 => (0x37u8, false),
            0x56 => (0x4au8, false),
            0x57 => (0x4eu8, false),
            0x58 => (0x1cu8, true),
            0x59 => (0x4fu8, false),
            0x5a => (0x50u8, false),
            0x5b => (0x51u8, false),
            0x5c => (0x4bu8, false),
            0x5d => (0x4cu8, false),
            0x5e => (0x4du8, false),
            0x5f => (0x47u8, false),
            0x60 => (0x48u8, false),
            0x61 => (0x49u8, false),
            0x62 => (0x52u8, false),
            0x63 => (0x53u8, false),
            // the menu key
            _ => (0x5du8, true),
        }
    }
}

/// A usage tells the key: no two keys have the same one.
pub proof fn law_keys_have_usages_of_their_own(code: u8, extended: bool)
    ensures
        usage_of(code, extended) matches Some(usage) ==> key_at(usage) == (code, extended),
{
}

/// Two scan codes with the same usage are the same key.
pub proof fn law_usages_are_injective(code: u8, extended: bool, other: u8, other_extended: bool)
    requires
        usage_of(code, extended) is Some,
        usage_of(code, extended) == usage_of(other, other_extended),
    ensures
        code == other,
        extended == other_extended,
{
    law_keys_have_usages_of_their_own(code, extended);
    law_keys_have_usages_of_their_own(other, other_extended);
}

/// Usages lie among the keys of the HID keyboard page that are not modifiers,
/// so that none is taken for an empty slot of a report.
pub proof fn law_usages_are_keyboard_keys(code: u8, extended: bool)
    ensures
        usage_of(code, extended) matches Some(usage) ==> 0x04 <= usage <= 0x65,
{
}

/// No key is both a modifier and a key with a usage.
pub proof fn law_modifiers_have_no_usage(code: u8, extended: bool)
    requires
        modifier_bit(code, extended) is Some,
    ensures
        usage_of(code, extended) is None,
{
}

/// Each modifier has one bit of its own.
pub proof fn law_modifiers_have_bits_of_their_own(
    code: u8,
    extended: bool,
    other: u8,
    other_extended: bool,
)
    requires
        modifier_bit(code, extended) is Some,
        modifier_bit(other, other_extended) is Some,
        (code, extended) != (other, other_extended),
    ensures
        modifier_bit(code, extended)->0 & modifier_bit(other, other_extended)->0 == 0,
{
    let a = modifier_bit(code, extended)->0;
    let b = modifier_bit(other, other_extended)->0;
    assert(a & b == 0) by (bit_vector)
        requires
            a == 0x01 || a == 0x02 || a == 0x04 || a == 0x08 || a == 0x10 || a == 0x20 || a == 0x40
                || a == 0x80,
            b == 0x01 || b == 0x02 || b == 0x04 || b == 0x08 || b == 0x10 || b == 0x20 || b == 0x40
                || b == 0x80,
            a != b,
    ;
}

/// The letters stand where a QWERTY keyboard has them, and their usages count up
/// from 4 in the order of the alphabet.
pub proof fn law_letters_follow_the_alphabet(i: int)
    ensures
        0 <= i < 10 ==> usage_of((0x10 + i) as u8, false) == Some(
            (4 + seq!['q', 'w', 'e', 'r', 't', 'y', 'u', 'i', 'o', 'p'][i] as int
                - 'a' as int) as u8,
        ),
        0 <= i < 9 ==> usage_of((0x1e + i) as u8, false) == Some(
            (4 + seq!['a', 's', 'd', 'f', 'g', 'h', 'j', 'k', 'l'][i] as int - 'a' as int) as u8,
        ),
        0 <= i < 7 ==> usage_of((0x2c + i) as u8, false) == Some(
            (4 + seq!['z', 'x', 'c', 'v', 'b', 'n', 'm'][i] as int - 'a' as int) as u8,
        ),
{
}

/// The digits of the main block go from 1 to 9 and then 0, the digits of the
/// keypad stand in rows of three from the bottom up with 0 below them, and the
/// function keys go from F1 to F12.
pub proof fn law_digits_and_function_keys_count_up(n: int)
    ensures
        1 <= n <= 9 ==> usage_of((1 + n) as u8, false) == Some((0x1d + n) as u8),
        usage_of(0x0b, false) == Some(0x27u8),
        1 <= n <= 9 ==> usage_of((0x4f - 4 * ((n - 1) / 3) + (n - 1) % 3) as u8, false) == Some(
            (0x58 + n) as u8,
        ),
        usage_of(0x52, false) == Some(0x62u8),
        1 <= n <= 10 ==> usage_of((0x3a + n) as u8, false) == Some((0x39 + n) as u8),
        11 <= n <= 12 ==> usage_of((0x4c + n) as u8, false) == Some((0x39 + n) as u8),
{
}

/// The other keys of the main block and the keypad have the usages that the HID
/// keyboard page names for them.
pub proof fn law_named_keys_have_their_usages()
    ensures
        // Enter, Escape, Backspace, Tab and the space bar
        usage_of(0x1c, false) == Some(0x28u8),
        usage_of(0x01, false) == Some(0x29u8),
        usage_of(0x0e, false) == Some(0x2au8),
        usage_of(0x0f, false) == Some(0x2bu8),
        usage_of(0x39, false) == Some(0x2cu8),
        // - = [ ] and the backslash
        usage_of(0x0c, false) == Some(0x2du8),
        usage_of(0x0d, false) == Some(0x2eu8),
        usage_of(0x1a, false) == Some(0x2fu8),
        usage_of(0x1b, false) == Some(0x30u8),
        usage_of(0x2b, false) == Some(0x31u8),
        // ; ' ` , . /
        usage_of(0x27, false) == Some(0x33u8),
        usage_of(0x28, false) == Some(0x34u8),
        usage_of(0x29, false) == Some(0x35u8),
        usage_of(0x33, false) == Some(0x36u8),
        usage_of(0x34, false) == Some(0x37u8),
        usage_of(0x35, false) == Some(0x38u8),
        // Caps Lock, Scroll Lock and Num Lock
        usage_of(0x3a, false) == Some(0x39u8),
        usage_of(0x46, false) == Some(0x47u8),
        usage_of(0x45, false) == Some(0x53u8),
        // / * - + Enter and . of the keypad
        usage_of(0x35, true) == Some(0x54u8),
        usage_of(0x37, false) == Some(0x55u8),
        usage_of(0x4a, false) == Some(0x56u8),
        usage_of(0x4e, false) == Some(0x57u8),
        usage_of(0x1c, true) == Some(0x58u8),
        usage_of(0x53, false) == Some(0x63u8),
        // Insert, Home, Page Up, Delete, End and Page Down
        usage_of(0x52, true) == Some(0x49u8),
        usage_of(0x47, true) == Some(0x4au8),
        usage_of(0x49, true) == Some(0x4bu8),
        usage_of(0x53, true) == Some(0x4cu8),
        usage_of(0x4f, true) == Some(0x4du8),
        usage_of(0x51, true) == Some(0x4eu8),
        // right, left, down and up
        usage_of(0x4d, true) == Some(0x4fu8),
        usage_of(0x4b, true) == Some(0x50u8),
        usage_of(0x50, true) == Some(0x51u8),
        usage_of(0x48, true) == Some(0x52u8),
        // the menu key
        usage_of(0x5d, true) == Some(0x65u8),
{
}

/// Every key of a PC keyboard is known: a scan code has no usage only where it is
/// a modifier or no key of that keyboard.
pub proof fn law_exactly_the_keys_have_usages(code: u8)
    ensures
        usage_of(code, false) is Some <==> {
            ||| 0x01 <= code <= 0x1c
            ||| 0x1e <= code <= 0x29
            ||| 0x2b <= code <= 0x35
            ||| code == 0x37
            ||| 0x39 <= code <= 0x53
            ||| code == 0x57
            ||| code == 0x58
        },
        usage_of(code, true) is Some <==> {
            ||| code == 0x1c
            ||| code == 0x35
            ||| 0x47 <= code <= 0x49
            ||| code == 0x4b
            ||| code == 0x4d
            ||| 0x4f <= code <= 0x53
            ||| code == 0x5d
        },
{
}

/// The modifiers are Ctrl, Shift, Alt and GUI from the lowest bit up, four bits
/// higher on the right than on the left, and no other key is one.
pub proof fn law_exactly_the_modifiers_have_bits(code: u8, extended: bool)
    ensures
        modifier_bit(0x1d, false) == Some(0x01u8),
        modifier_bit(0x2a, false) == Some(0x02u8),
        modifier_bit(0x38, false) == Some(0x04u8),
        modifier_bit(0x5b, true) == Some(0x08u8),
        modifier_bit(0x1d, true) == Some(0x10u8),
        modifier_bit(0x36, false) == Some(0x20u8),
        modifier_bit(0x38, true) == Some(0x40u8),
        modifier_bit(0x5c, true) == Some(0x80u8),
        modifier_bit(code, extended) is Some <==> {
            ||| code == 0x1d
            ||| code == 0x38
            ||| !extended && (code == 0x2a || code == 0x36)
            ||| extended && (code == 0x5b || code == 0x5c)
        },
{
}

} // verus!
