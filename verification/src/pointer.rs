//! From the pointer and wheel units of an RDP client to those of a USB HID
//! pointer.

use vstd::prelude::*;

use crate::video::DesktopSize;

verus! {

/// Largest coordinate of the absolute HID pointer.
pub const HID_MAX: u16 = 32767;

/// Wheel rotation of one notch.
pub const WHEEL_NOTCH: i16 = 120;

/// The wheel steps for a rotation: one for each whole notch, at least one where
/// the wheel moved at all, and no more than fit in a signed byte.
pub open spec fn wheel_steps(value: int) -> int {
    if value == 0 {
        0
    } else if value > 0 {
        vstd::math::min(127, vstd::math::max(1, value / WHEEL_NOTCH as int))
    } else {
        -vstd::math::min(128, vstd::math::max(1, -value / WHEEL_NOTCH as int))
    }
}

/// The wheel steps for a rotation.
pub fn wheel_units(value: i16) -> (steps: i8)
    ensures
        steps == wheel_steps(value as int),
{
    if value == 0 {
        return 0;
    }
    let value: i32 = value as i32;
    let magnitude: i32 = if value < 0 {
        -value
    } else {
        value
    };
    let notches: i32 = if magnitude >= WHEEL_NOTCH as i32 {
        magnitude / WHEEL_NOTCH as i32
    } else {
        1
    };
    if value < 0 {
        if notches > 128 {
            -128
        } else {
            -notches as i8
        }
    } else if notches > 127 {
        127
    } else {
        notches as i8
    }
}

/// A wheel step goes the way that the wheel was turned, and a turned wheel never
/// counts as still.
pub proof fn law_wheel_keeps_its_direction(value: i16)
    ensures
        value > 0 <==> wheel_steps(value as int) > 0,
        value < 0 <==> wheel_steps(value as int) < 0,
        -128 <= wheel_steps(value as int) <= 127,
{
}

/// Turning the wheel further never counts for less.
pub proof fn law_wheel_is_monotone(value: i16, further: i16)
    requires
        value <= further,
    ensures
        wheel_steps(value as int) <= wheel_steps(further as int),
{
}

/// The HID coordinate of a position along an axis with `extent` pixels: the
/// first pixel is 0, the last is [`HID_MAX`], and positions beyond count as the
/// last.
pub open spec fn scaled(value: u16, extent: u16) -> int {
    if extent <= 1 {
        0
    } else {
        vstd::math::min(value as int, extent - 1) * HID_MAX as int / (extent - 1)
    }
}

fn scale(value: u16, extent: u16) -> (r: u16)
    ensures
        r == scaled(value, extent),
{
    if extent <= 1 {
        return 0;
    }
    let last: u16 = extent - 1;
    let clamped: u16 = if value > last {
        last
    } else {
        value
    };
    proof {
        law_scaled_is_in_range(value, extent);
        assert(clamped * HID_MAX as int <= u32::MAX) by (nonlinear_arith)
            requires
                clamped <= 65535,
                HID_MAX == 32767,
        ;
    }
    ((clamped as u32 * HID_MAX as u32) / last as u32) as u16
}

/// The HID coordinates of a position on a desktop.
pub fn rdp_to_hid_coords(x: u16, y: u16, size: DesktopSize) -> (r: (u16, u16))
    ensures
        r.0 == scaled(x, size.width),
        r.1 == scaled(y, size.height),
{
    (scale(x, size.width), scale(y, size.height))
}

/// A HID coordinate lies between 0 and [`HID_MAX`], wherever the pointer is.
pub proof fn law_scaled_is_in_range(value: u16, extent: u16)
    ensures
        0 <= scaled(value, extent) <= HID_MAX,
{
    if extent > 1 {
        let clamped = vstd::math::min(value as int, extent - 1);
        let last = extent - 1;
        assert(0 <= clamped * 32767 / last <= 32767) by (nonlinear_arith)
            requires
                0 <= clamped <= last,
                0 < last,
        ;
    }
}

/// The first pixel of an axis is 0, and the last pixel and everything beyond it
/// is [`HID_MAX`].
pub proof fn law_scaled_reaches_both_ends(value: u16, extent: u16)
    requires
        extent > 1,
        value >= extent - 1,
    ensures
        scaled(0, extent) == 0,
        scaled(value, extent) == HID_MAX,
{
    let last = extent - 1;
    assert(last * 32767 / last == 32767) by (nonlinear_arith)
        requires
            0 < last,
    ;
    assert(0 * 32767int / last == 0) by (nonlinear_arith)
        requires
            0 < last,
    ;
}

/// Moving the pointer further along an axis never moves it back on the target.
pub proof fn law_scaled_is_monotone(value: u16, further: u16, extent: u16)
    requires
        value <= further,
    ensures
        scaled(value, extent) <= scaled(further, extent),
{
    if extent > 1 {
        let last = extent - 1;
        let a = vstd::math::min(value as int, last) * 32767;
        let b = vstd::math::min(further as int, last) * 32767;
        assert(a / last <= b / last) by (nonlinear_arith)
            requires
                0 <= a <= b,
                0 < last,
        ;
    }
}

/// Positions keep their proportion: a pixel goes to the coordinate that is as far
/// along the HID axis as the pixel is along the desktop, rounded down.
pub proof fn law_scaled_is_proportional(value: u16, extent: u16)
    requires
        extent > 1,
        value < extent,
    ensures
        scaled(value, extent) * (extent - 1) <= value * 32767,
        value * 32767 < (scaled(value, extent) + 1) * (extent - 1),
{
    let last = extent - 1;
    let product = value * 32767;
    let quotient = product / last;
    assert(quotient * last <= product < (quotient + 1) * last) by (nonlinear_arith)
        requires
            quotient == product / last,
            0 <= product,
            0 < last,
    ;
    assert(scaled(value, extent) == quotient);
}

/// A position beyond the desktop counts as the last one on it, and an axis of at
/// most one pixel has only the coordinate 0.
pub proof fn law_scaled_stops_at_the_edge(value: u16, extent: u16)
    ensures
        extent > 1 && value >= extent ==> scaled(value, extent) == scaled(
            (extent - 1) as u16,
            extent,
        ),
        extent <= 1 ==> scaled(value, extent) == 0,
{
}

/// A turned wheel counts its whole notches of 120, at least one and no more than
/// a signed byte holds.
pub proof fn law_wheel_counts_whole_notches(value: i16)
    ensures
        ({
            let steps = wheel_steps(value as int);
            &&& value == 0 ==> steps == 0
            &&& 0 < value < 120 ==> steps == 1
            &&& 120 <= value < 15240 ==> steps * 120 <= value < (steps + 1) * 120
            &&& 15240 <= value ==> steps == 127
            &&& -120 < value < 0 ==> steps == -1
            &&& -15360 < value <= -120 ==> (steps - 1) * 120 < value <= steps * 120
            &&& value <= -15360 ==> steps == -128
        }),
{
}

} // verus!
