//! Keyboard and mouse state, and the reports that keep the target in step with
//! it.

use std::collections::BTreeSet;
use vstd::prelude::*;

use crate::bridge::BridgeLink;
use crate::pointer::{rdp_to_hid_coords, wheel_units};
use crate::protocol::MessageView;
use crate::scancode::{scancode_modifier, scancode_to_hid};
use crate::video::DesktopSize;

verus! {

broadcast use {vstd::std_specs::btree::group_btree_axioms, vstd::laws_cmp::group_laws_cmp};

/// How many keys a keyboard report has room for.
pub const REPORT_KEYS: usize = 6;

/// The usages below `limit` that are in `keys`, in ascending order.
pub open spec fn held_below(keys: Set<u8>, limit: nat) -> Seq<u8>
    decreases limit,
{
    if limit == 0 {
        Seq::empty()
    } else {
        let below = held_below(keys, (limit - 1) as nat);
        if keys.contains((limit - 1) as u8) {
            below.push((limit - 1) as u8)
        } else {
            below
        }
    }
}

/// The usages in `keys`, in ascending order.
pub open spec fn held(keys: Set<u8>) -> Seq<u8> {
    held_below(keys, 256)
}

/// The keys of a report: the lowest usages that are held, in ascending order,
/// and zeros in the slots that are left.
pub open spec fn report_keys(keys: Set<u8>) -> Seq<u8> {
    Seq::new(
        REPORT_KEYS as nat,
        |i: int|
            if i < held(keys).len() {
                held(keys)[i]
            } else {
                0u8
            },
    )
}

pub open spec fn ascending(s: Seq<u8>) -> bool {
    forall|i: int, j: int| 0 <= i < j < s.len() ==> s[i] < s[j]
}

proof fn lemma_held_below(keys: Set<u8>, limit: nat)
    requires
        limit <= 256,
    ensures
        ascending(held_below(keys, limit)),
        forall|i: int|
            0 <= i < held_below(keys, limit).len() ==> {
                &&& keys.contains(#[trigger] held_below(keys, limit)[i])
                &&& held_below(keys, limit)[i] < limit
            },
        forall|key: u8|
            keys.contains(key) && key < limit ==> #[trigger] held_below(keys, limit).contains(key),
    decreases limit,
{
    if limit > 0 {
        let below = held_below(keys, (limit - 1) as nat);
        lemma_held_below(keys, (limit - 1) as nat);
        assert forall|key: u8| keys.contains(key) && key < limit implies #[trigger] held_below(
            keys,
            limit,
        ).contains(key) by {
            if key == limit - 1 {
                assert(held_below(keys, limit)[below.len() as int] == key);
            } else {
                assert(below.contains(key));
                let i = choose|i: int| 0 <= i < below.len() && below[i] == key;
                assert(held_below(keys, limit)[i] == key);
            }
        }
    }
}

/// Two ascending sequences with the same elements are the same.
proof fn lemma_ascending_unique(a: Seq<u8>, b: Seq<u8>)
    requires
        ascending(a),
        ascending(b),
        forall|key: u8| a.contains(key) <==> b.contains(key),
    ensures
        a == b,
    decreases a.len(),
{
    if a.len() == 0 {
        if b.len() > 0 {
            assert(b.contains(b[0]));
        }
        assert(a =~= b);
    } else {
        assert(a.contains(a.last()));
        assert(b.contains(a.last()));
        assert(b.contains(b.last()));
        assert(a.contains(b.last()));
        let i = choose|i: int| 0 <= i < b.len() && b[i] == a.last();
        let j = choose|j: int| 0 <= j < a.len() && a[j] == b.last();
        assert(a.last() == b.last());
        let (x, y) = (a.drop_last(), b.drop_last());
        assert forall|key: u8| x.contains(key) <==> y.contains(key) by {
            if x.contains(key) {
                let k = choose|k: int| 0 <= k < x.len() && x[k] == key;
                assert(a[k] == key);
                assert(b.contains(key));
                let m = choose|m: int| 0 <= m < b.len() && b[m] == key;
                assert(y[m] == key);
            }
            if y.contains(key) {
                let k = choose|k: int| 0 <= k < y.len() && y[k] == key;
                assert(b[k] == key);
                assert(a.contains(key));
                let m = choose|m: int| 0 <= m < a.len() && a[m] == key;
                assert(x[m] == key);
            }
        }
        lemma_ascending_unique(x, y);
        assert(a =~= x.push(a.last()));
        assert(b =~= y.push(b.last()));
    }
}

/// A set of usages is walked in ascending order.
proof fn lemma_walked_in_order(keys: &BTreeSet<u8>)
    ensures
        ascending(vstd::std_specs::iter::IteratorSpec::remaining(&keys.iter()).unref()),
{
    reveal(vstd::laws_eq::obeys_eq_spec_properties);
    reveal(vstd::laws_cmp::obeys_partial_cmp_spec_properties);
    reveal(vstd::laws_cmp::obeys_cmp_partial_ord);
    reveal(vstd::laws_cmp::obeys_cmp_ord);
    assert(vstd::laws_cmp::obeys_cmp::<&u8>());
    let visited = vstd::std_specs::iter::IteratorSpec::remaining(&keys.iter());
    assert(vstd::std_specs::btree::increasing_seq(visited));
    assert forall|i: int, j: int| 0 <= i < j < visited.len() implies visited.unref()[i]
        < visited.unref()[j] by {
        assert(vstd::std_specs::cmp::OrdSpec::cmp_spec(&visited[i], &visited[j]) is Less);
    }
}

/// The six lowest usages that are held, as a report has them.
fn first_keys(keys: &BTreeSet<u8>) -> (r: [u8; 6])
    ensures
        r@ == report_keys(keys@),
{
    let mut report: [u8; 6] = [0u8; 6];
    let mut count: usize = 0;
    for key in it: keys.iter()
        invariant
            count <= REPORT_KEYS,
            count == vstd::math::min(it.index() as int, REPORT_KEYS as int),
            forall|i: int| 0 <= i < count ==> report@[i] == *(#[trigger] it.seq()[i]),
            forall|i: int| count <= i < REPORT_KEYS ==> report@[i] == 0,
            it.seq() == vstd::std_specs::iter::IteratorSpec::remaining(&keys.iter()),
    {
        if count < REPORT_KEYS {
            report[count] = *key;
            count = count + 1;
        }
    }
    proof {
        let visited = vstd::std_specs::iter::IteratorSpec::remaining(&keys.iter());
        let usages = visited.unref();
        lemma_walked_in_order(keys);
        lemma_held_below(keys@, 256);
        assert(usages.to_set() == keys@);
        assert forall|key: u8| usages.contains(key) <==> held(keys@).contains(key) by {
            assert(usages.to_set().contains(key) == usages.contains(key));
        }
        lemma_ascending_unique(usages, held(keys@));
        assert(count == vstd::math::min(usages.len() as int, REPORT_KEYS as int));
    }
    report
}

/// A keyboard event of an RDP client.
#[derive(Clone, Copy, PartialEq, Eq, Structural, Debug)]
pub enum KeyboardEvent {
    /// The key at a scan code goes down.
    Pressed { code: u8, extended: bool },
    /// The key at a scan code comes up.
    Released { code: u8, extended: bool },
    /// A UTF-16 unit is typed.
    UnicodePressed(u16),
    /// A UTF-16 unit is let go.
    UnicodeReleased(u16),
    /// The client tells the state of its lock keys.
    Synchronize,
}

/// A mouse event of an RDP client.
#[derive(Clone, Copy, PartialEq, Eq, Structural, Debug)]
pub enum MouseEvent {
    Move { x: u16, y: u16 },
    LeftPressed,
    LeftReleased,
    RightPressed,
    RightReleased,
    MiddlePressed,
    MiddleReleased,
    Button4Pressed,
    Button4Released,
    Button5Pressed,
    Button5Released,
    VerticalScroll { value: i16 },
    Scroll { horizontal: i32, vertical: i32 },
    RelMove { dx: i32, dy: i32 },
}

/// The keys and buttons that are held down, and where the pointer is.
pub struct InputState {
    modifiers: u8,
    keys: BTreeSet<u8>,
    mouse_x: u16,
    mouse_y: u16,
    mouse_buttons: u8,
}

/// The mathematical content of an [`InputState`].
#[verifier::ext_equal]
pub struct InputView {
    pub modifiers: u8,
    pub keys: Set<u8>,
    pub mouse_x: u16,
    pub mouse_y: u16,
    pub mouse_buttons: u8,
}

/// `bits` with those of `mask` set or cleared.
pub open spec fn with_mask(bits: u8, mask: u8, down: bool) -> u8 {
    if down {
        bits | mask
    } else {
        bits & !mask
    }
}

/// The mask of the button that a mouse event is about, and whether it goes down.
pub open spec fn button_of(event: MouseEvent) -> Option<(u8, bool)> {
    match event {
        MouseEvent::LeftPressed => Some((0x01u8, true)),
        MouseEvent::LeftReleased => Some((0x01u8, false)),
        MouseEvent::RightPressed => Some((0x02u8, true)),
        MouseEvent::RightReleased => Some((0x02u8, false)),
        MouseEvent::MiddlePressed => Some((0x04u8, true)),
        MouseEvent::MiddleReleased => Some((0x04u8, false)),
        MouseEvent::Button4Pressed => Some((0x08u8, true)),
        MouseEvent::Button4Released => Some((0x08u8, false)),
        MouseEvent::Button5Pressed => Some((0x10u8, true)),
        MouseEvent::Button5Released => Some((0x10u8, false)),
        _ => None,
    }
}

/// The value in a range that is closest to `value`.
pub open spec fn clamped(value: int, low: int, high: int) -> int {
    vstd::math::min(high, vstd::math::max(low, value))
}

impl InputView {
    /// Nothing held down, and the pointer in the top left corner.
    pub open spec fn idle() -> InputView {
        InputView { modifiers: 0, keys: Set::empty(), mouse_x: 0, mouse_y: 0, mouse_buttons: 0 }
    }

    /// After the key at a scan code has gone down or come up. Keys that are
    /// neither a modifier nor have a usage leave the state as it is.
    pub open spec fn with_key(self, code: u8, extended: bool, down: bool) -> InputView {
        match crate::scancode::modifier_bit(code, extended) {
            Some(bit) => InputView { modifiers: with_mask(self.modifiers, bit, down), ..self },
            None => match crate::scancode::usage_of(code, extended) {
                Some(usage) => InputView {
                    keys: if down {
                        self.keys.insert(usage)
                    } else {
                        self.keys.remove(usage)
                    },
                    ..self
                },
                None => self,
            },
        }
    }

    /// The key at a scan code is held down.
    pub open spec fn is_down(self, code: u8, extended: bool) -> bool {
        match crate::scancode::modifier_bit(code, extended) {
            Some(bit) => self.modifiers & bit != 0,
            None => match crate::scancode::usage_of(code, extended) {
                Some(usage) => self.keys.contains(usage),
                None => false,
            },
        }
    }

    /// After a keyboard event.
    pub open spec fn typed(self, event: KeyboardEvent) -> InputView {
        match event {
            KeyboardEvent::Pressed { code, extended } => self.with_key(code, extended, true),
            KeyboardEvent::Released { code, extended } => self.with_key(code, extended, false),
            _ => self,
        }
    }

    /// After a mouse event.
    pub open spec fn moused(self, event: MouseEvent) -> InputView {
        match event {
            MouseEvent::Move { x, y } => InputView { mouse_x: x, mouse_y: y, ..self },
            _ => match button_of(event) {
                Some((mask, down)) => InputView {
                    mouse_buttons: with_mask(self.mouse_buttons, mask, down),
                    ..self
                },
                None => self,
            },
        }
    }

    /// The report of the keyboard.
    pub open spec fn keyboard_report(self) -> MessageView {
        crate::bridge::keyboard_message(self.modifiers, report_keys(self.keys))
    }

    /// The report of the pointer on a desktop.
    pub open spec fn pointer_report(self, size: DesktopSize) -> MessageView {
        crate::bridge::abs_mouse_message(
            crate::pointer::scaled(self.mouse_x, size.width) as u16,
            crate::pointer::scaled(self.mouse_y, size.height) as u16,
            self.mouse_buttons,
        )
    }

    /// What a mouse event that leads to this state is reported as.
    pub open spec fn mouse_report(self, event: MouseEvent, size: DesktopSize) -> MessageView {
        match event {
            MouseEvent::VerticalScroll { value } => crate::bridge::wheel_message(
                crate::pointer::wheel_steps(value as int) as i8,
                0,
            ),
            MouseEvent::Scroll { horizontal, vertical } => crate::bridge::wheel_message(
                crate::pointer::wheel_steps(
                    clamped(vertical as int, i16::MIN as int, i16::MAX as int),
                ) as i8,
                crate::pointer::wheel_steps(
                    clamped(horizontal as int, i16::MIN as int, i16::MAX as int),
                ) as i8,
            ),
            MouseEvent::RelMove { dx, dy } => crate::bridge::rel_mouse_message(
                clamped(dx as int, i8::MIN as int, i8::MAX as int) as i8,
                clamped(dy as int, i8::MIN as int, i8::MAX as int) as i8,
                self.mouse_buttons,
            ),
            _ => self.pointer_report(size),
        }
    }

    /// Only keys with a usage and the five buttons are ever held.
    pub open spec fn is_sound(self) -> bool {
        &&& forall|key: u8| self.keys.contains(key) ==> 0x04 <= key <= 0x65
        &&& self.keys.finite()
        &&& self.mouse_buttons & 0xe0u8 == 0
    }
}

impl View for InputState {
    type V = InputView;

    closed spec fn view(&self) -> InputView {
        InputView {
            modifiers: self.modifiers,
            keys: self.keys@,
            mouse_x: self.mouse_x,
            mouse_y: self.mouse_y,
            mouse_buttons: self.mouse_buttons,
        }
    }
}

fn clamp_i16(value: i32) -> (r: i16)
    ensures
        r == clamped(value as int, i16::MIN as int, i16::MAX as int),
{
    if value < i16::MIN as i32 {
        i16::MIN
    } else if value > i16::MAX as i32 {
        i16::MAX
    } else {
        value as i16
    }
}

fn clamp_i8(value: i32) -> (r: i8)
    ensures
        r == clamped(value as int, i8::MIN as int, i8::MAX as int),
{
    if value < i8::MIN as i32 {
        i8::MIN
    } else if value > i8::MAX as i32 {
        i8::MAX
    } else {
        value as i8
    }
}

impl InputState {
    /// Nothing held down, and the pointer in the top left corner.
    pub fn new() -> (state: InputState)
        ensures
            state@ == InputView::idle(),
    {
        InputState { modifiers: 0, keys: BTreeSet::new(), mouse_x: 0, mouse_y: 0, mouse_buttons: 0 }
    }

    /// Reports the modifiers and the six lowest usages that are held.
    pub fn send_keyboard(&self, link: &mut BridgeLink)
        ensures
            final(link)@ == old(link)@.sent(self@.keyboard_report()),
    {
        let keys: [u8; 6] = first_keys(&self.keys);
        link.keyboard_state(self.modifiers, keys);
    }

    /// Notes the key at a scan code as held down or not.
    fn set_key(&mut self, code: u8, extended: bool, down: bool)
        ensures
            final(self)@ == old(self)@.with_key(code, extended, down),
    {
        if let Some(bit) = scancode_modifier(code, extended) {
            if down {
                self.modifiers = self.modifiers | bit;
            } else {
                self.modifiers = self.modifiers & !bit;
            }
        } else if let Some(usage) = scancode_to_hid(code, extended) {
            if down {
                self.keys.insert(usage);
            } else {
                self.keys.remove(&usage);
            }
        }
    }

    /// Notes the buttons of `mask` as held down or not, and reports the pointer.
    fn set_button(&mut self, mask: u8, down: bool, link: &mut BridgeLink)
        ensures
            final(self)@ == (InputView {
                mouse_buttons: with_mask(old(self)@.mouse_buttons, mask, down),
                ..old(self)@
            }),
            final(link)@ == old(link)@.sent(
                final(self)@.pointer_report(old(link)@.video.desktop()),
            ),
    {
        if down {
            self.mouse_buttons = self.mouse_buttons | mask;
        } else {
            self.mouse_buttons = self.mouse_buttons & !mask;
        }
        self.send_pointer(link);
    }

    /// Reports where the pointer is.
    fn send_pointer(&self, link: &mut BridgeLink)
        ensures
            final(link)@ == old(link)@.sent(self@.pointer_report(old(link)@.video.desktop())),
    {
        let (x, y): (u16, u16) = rdp_to_hid_coords(
            self.mouse_x,
            self.mouse_y,
            link.desktop_size(),
        );
        link.abs_mouse(x, y, self.mouse_buttons);
    }

    /// Follows a keyboard event. Every key that goes down or comes up is
    /// answered by a report; Unicode and synchronize events are passed over.
    pub fn keyboard(&mut self, event: KeyboardEvent, link: &mut BridgeLink)
        ensures
            final(self)@ == old(self)@.typed(event),
            final(link)@ == (if event is Pressed || event is Released {
                old(link)@.sent(final(self)@.keyboard_report())
            } else {
                old(link)@
            }),
    {
        match event {
            KeyboardEvent::Pressed { code, extended } => {
                self.set_key(code, extended, true);
                self.send_keyboard(link);
            },
            KeyboardEvent::Released { code, extended } => {
                self.set_key(code, extended, false);
                self.send_keyboard(link);
            },
            KeyboardEvent::UnicodePressed(_) => {},
            KeyboardEvent::UnicodeReleased(_) => {},
            KeyboardEvent::Synchronize => {},
        }
    }

    /// Follows a mouse event, which is always reported.
    pub fn mouse(&mut self, event: MouseEvent, link: &mut BridgeLink)
        ensures
            final(self)@ == old(self)@.moused(event),
            final(link)@ == old(link)@.sent(
                final(self)@.mouse_report(event, old(link)@.video.desktop()),
            ),
    {
        match event {
            MouseEvent::Move { x, y } => {
                self.mouse_x = x;
                self.mouse_y = y;
                self.send_pointer(link);
            },
            MouseEvent::LeftPressed => self.set_button(0x01, true, link),
            MouseEvent::LeftReleased => self.set_button(0x01, false, link),
            MouseEvent::RightPressed => self.set_button(0x02, true, link),
            MouseEvent::RightReleased => self.set_button(0x02, false, link),
            MouseEvent::MiddlePressed => self.set_button(0x04, true, link),
            MouseEvent::MiddleReleased => self.set_button(0x04, false, link),
            MouseEvent::Button4Pressed => self.set_button(0x08, true, link),
            MouseEvent::Button4Released => self.set_button(0x08, false, link),
            MouseEvent::Button5Pressed => self.set_button(0x10, true, link),
            MouseEvent::Button5Released => self.set_button(0x10, false, link),
            MouseEvent::VerticalScroll { value } => link.wheel(wheel_units(value), 0),
            MouseEvent::Scroll { horizontal, vertical } => {
                link.wheel(
                    wheel_units(clamp_i16(vertical)),
                    wheel_units(clamp_i16(horizontal)),
                );
            },
            MouseEvent::RelMove { dx, dy } => {
                link.rel_mouse(clamp_i8(dx), clamp_i8(dy), self.mouse_buttons);
            },
        }
    }
}

/// A report holds the lowest usages that are held, each once and in ascending
/// order, and zeros behind them. Where no more than six keys are held, it holds
/// them all.
pub proof fn law_report_lists_the_held_keys(keys: Set<u8>)
    requires
        keys.finite(),
        !keys.contains(0),
    ensures
        report_keys(keys).len() == REPORT_KEYS,
        forall|i: int|
            0 <= i < REPORT_KEYS ==> (#[trigger] report_keys(keys)[i] == 0 <==> i >= keys.len()),
        forall|i: int|
            0 <= i < REPORT_KEYS && i < keys.len() ==> keys.contains(
                #[trigger] report_keys(keys)[i],
            ),
        forall|i: int, j: int|
            0 <= i < j < REPORT_KEYS && j < keys.len() ==> #[trigger] report_keys(keys)[i]
                < #[trigger] report_keys(keys)[j],
        forall|key: u8, i: int|
            #![trigger keys.contains(key), report_keys(keys)[i]]
            keys.contains(key) && !report_keys(keys).contains(key) && 0 <= i < REPORT_KEYS ==> 0
                < report_keys(keys)[i] < key,
        keys.len() <= REPORT_KEYS ==> forall|key: u8|
            keys.contains(key) ==> #[trigger] report_keys(keys).contains(key),
{
    lemma_held_below(keys, 256);
    let all = held(keys);
    assert(all.no_duplicates());
    all.unique_seq_to_set();
    assert(all.to_set() =~= keys) by {
        assert forall|key: u8| all.to_set().contains(key) <==> keys.contains(key) by {
            assert(all.to_set().contains(key) == all.contains(key));
        }
    }
    assert(all.len() == keys.len());
    let report = report_keys(keys);
    assert forall|key: u8| keys.contains(key) && !report.contains(key) implies forall|i: int|
        0 <= i < REPORT_KEYS ==> 0 < #[trigger] report[i] < key by {
        assert(all.contains(key));
        let k = choose|k: int| 0 <= k < all.len() && all[k] == key;
        if k < REPORT_KEYS {
            assert(report[k] == key);
        }
    }
    if keys.len() <= REPORT_KEYS {
        assert forall|key: u8| keys.contains(key) implies #[trigger] report.contains(key) by {
            assert(all.contains(key));
            let k = choose|k: int| 0 <= k < all.len() && all[k] == key;
            assert(report[k] == key);
        }
    }
}

/// Letting a key go undoes pressing it, where it was not held before.
pub proof fn law_release_undoes_press(state: InputView, code: u8, extended: bool)
    requires
        !state.is_down(code, extended),
    ensures
        state.typed(KeyboardEvent::Pressed { code, extended }).typed(
            KeyboardEvent::Released { code, extended },
        ) == state,
{
    let after = state.with_key(code, extended, true).with_key(code, extended, false);
    match crate::scancode::modifier_bit(code, extended) {
        Some(bit) => {
            let modifiers = state.modifiers;
            assert((modifiers | bit) & !bit == modifiers) by (bit_vector)
                requires
                    modifiers & bit == 0,
            ;
        },
        None => {},
    }
    assert(after =~= state);
}

/// A key that has gone down is held, one that has come up is not, and neither
/// changes whether any other key is held.
pub proof fn law_a_key_changes_itself_alone(
    state: InputView,
    code: u8,
    extended: bool,
    down: bool,
    other: u8,
    other_extended: bool,
)
    ensures
        crate::scancode::modifier_bit(code, extended) is Some || crate::scancode::usage_of(
            code,
            extended,
        ) is Some ==> state.with_key(code, extended, down).is_down(code, extended) == down,
        (code, extended) != (other, other_extended) ==> state.with_key(
            code,
            extended,
            down,
        ).is_down(other, other_extended) == state.is_down(other, other_extended),
{
    let modifiers = state.modifiers;
    match crate::scancode::modifier_bit(code, extended) {
        Some(bit) => {
            assert(bit == 0x01 || bit == 0x02 || bit == 0x04 || bit == 0x08 || bit == 0x10 || bit
                == 0x20 || bit == 0x40 || bit == 0x80);
            assert((modifiers | bit) & bit != 0 && (modifiers & !bit) & bit == 0) by (bit_vector)
                requires
                    bit != 0,
            ;
            if let Some(other_bit) = crate::scancode::modifier_bit(other, other_extended) {
                if (code, extended) != (other, other_extended) {
                    crate::scancode::law_modifiers_have_bits_of_their_own(
                        code,
                        extended,
                        other,
                        other_extended,
                    );
                    assert((modifiers | bit) & other_bit == modifiers & other_bit && (modifiers
                        & !bit) & other_bit == modifiers & other_bit) by (bit_vector)
                        requires
                            bit & other_bit == 0,
                    ;
                }
            }
        },
        None => {
            if crate::scancode::usage_of(code, extended) is Some && crate::scancode::usage_of(
                code,
                extended,
            ) == crate::scancode::usage_of(other, other_extended) {
                crate::scancode::law_usages_are_injective(code, extended, other, other_extended);
            }
        },
    }
}

/// A button that has gone down is held, one that has come up is not, and neither
/// changes whether any other button is held.
pub proof fn law_a_button_changes_itself_alone(state: InputView, event: MouseEvent, other: u8)
    requires
        button_of(event) is Some,
    ensures
        ({
            let (mask, down) = button_of(event)->0;
            let after = state.moused(event);
            &&& (after.mouse_buttons & mask != 0) == down
            &&& mask & other == 0 ==> after.mouse_buttons & other == state.mouse_buttons & other
        }),
{
    let (mask, down) = button_of(event)->0;
    let buttons = state.mouse_buttons;
    assert((buttons | mask) & mask != 0 && (buttons & !mask) & mask == 0) by (bit_vector)
        requires
            mask != 0,
    ;
    if mask & other == 0 {
        assert((buttons | mask) & other == buttons & other && (buttons & !mask) & other == buttons
            & other) by (bit_vector)
            requires
                mask & other == 0,
        ;
    }
}

/// What is held stays within the keys that have a usage and the five buttons,
/// from the first event on.
pub proof fn law_state_stays_sound(state: InputView, key: KeyboardEvent, event: MouseEvent)
    ensures
        InputView::idle().is_sound(),
        state.is_sound() ==> state.typed(key).is_sound(),
        state.is_sound() ==> state.moused(event).is_sound(),
{
    assert(0u8 & 0xe0u8 == 0) by (bit_vector);
    match key {
        KeyboardEvent::Pressed { code, extended } => {
            crate::scancode::law_usages_are_keyboard_keys(code, extended);
        },
        _ => {},
    }
    if let Some((mask, down)) = button_of(event) {
        let buttons = state.mouse_buttons;
        if buttons & 0xe0u8 == 0 {
            assert((buttons | mask) & 0xe0u8 == 0 && (buttons & !mask) & 0xe0u8 == 0)
                by (bit_vector)
                requires
                    buttons & 0xe0u8 == 0,
                    mask <= 0x1f,
            ;
        }
    }
}

/// The keyboard leaves the mouse alone, and the mouse leaves the keyboard alone.
pub proof fn law_keyboard_and_mouse_are_independent(
    state: InputView,
    key: KeyboardEvent,
    event: MouseEvent,
)
    ensures
        state.typed(key).mouse_x == state.mouse_x,
        state.typed(key).mouse_y == state.mouse_y,
        state.typed(key).mouse_buttons == state.mouse_buttons,
        state.moused(event).keyboard_report() == state.keyboard_report(),
        state.typed(key).moused(event) == state.moused(event).typed(key),
{
    assert(state.typed(key).moused(event) =~= state.moused(event).typed(key));
}

/// Before any event nothing is held, and the pointer is in the top left corner.
pub proof fn law_input_starts_idle()
    ensures
        InputView::idle().modifiers == 0,
        forall|key: u8| !InputView::idle().keys.contains(key),
        InputView::idle().mouse_x == 0,
        InputView::idle().mouse_y == 0,
        InputView::idle().mouse_buttons == 0,
{
}

/// A key that goes down or comes up moves its own modifier bit or its own usage,
/// and nothing else; a key that has neither moves nothing, and neither do Unicode
/// and synchronize events.
pub proof fn law_keyboard_events_move_their_key(
    state: InputView,
    code: u8,
    extended: bool,
    unit: u16,
)
    ensures
        ({
            let pressed = state.typed(KeyboardEvent::Pressed { code, extended });
            let released = state.typed(KeyboardEvent::Released { code, extended });
            match crate::scancode::modifier_bit(code, extended) {
                Some(bit) => {
                    &&& pressed == (InputView { modifiers: state.modifiers | bit, ..state })
                    &&& released == (InputView { modifiers: state.modifiers & !bit, ..state })
                },
                None => match crate::scancode::usage_of(code, extended) {
                    Some(usage) => {
                        &&& pressed == (InputView { keys: state.keys.insert(usage), ..state })
                        &&& released == (InputView { keys: state.keys.remove(usage), ..state })
                    },
                    None => pressed == state && released == state,
                },
            }
        }),
        state.typed(KeyboardEvent::UnicodePressed(unit)) == state,
        state.typed(KeyboardEvent::UnicodeReleased(unit)) == state,
        state.typed(KeyboardEvent::Synchronize) == state,
{
}

/// The keyboard report tells the modifiers whatever keys are held, and the keys
/// whatever modifiers are held: its first byte has the bit of a modifier exactly
/// where that modifier is held, and the six bytes behind it are the keys.
pub proof fn law_report_tells_modifiers_and_keys(state: InputView, code: u8, extended: bool)
    ensures
        ({
            let report = state.keyboard_report();
            &&& report.typ == 0x10
            &&& report.payload.len() == 7
            &&& report.payload[0] == state.modifiers
            &&& forall|i: int|
                0 <= i < 6 ==> #[trigger] report.payload[1 + i] == report_keys(state.keys)[i]
            &&& crate::scancode::modifier_bit(code, extended) matches Some(bit) ==> {
                &&& report.payload[0] & bit != 0 <==> state.modifiers & bit != 0
                &&& report.payload[0] & bit != 0 <==> state.is_down(code, extended)
            }
        }),
{
    crate::bridge::law_messages_have_their_bytes(
        state.modifiers,
        report_keys(state.keys),
        0,
        0,
        0,
        0,
        0,
        DesktopSize { width: 0, height: 0 },
    );
}

/// Where no more than six keys are held, the report shows exactly the keys that
/// are held: a key has a place in it exactly where it is down.
pub proof fn law_report_shows_exactly_the_held_keys(state: InputView, code: u8, extended: bool)
    requires
        state.keys.finite(),
        !state.keys.contains(0),
        state.keys.len() <= 6,
    ensures
        crate::scancode::modifier_bit(code, extended) is None ==> match crate::scancode::usage_of(
            code,
            extended,
        ) {
            Some(usage) => {
                &&& state.is_down(code, extended) <==> state.keys.contains(usage)
                &&& state.is_down(code, extended) <==> exists|i: int|
                    1 <= i < 7 && #[trigger] state.keyboard_report().payload[i] == usage
            },
            None => !state.is_down(code, extended),
        },
{
    if let Some(usage) = crate::scancode::usage_of(code, extended) {
        let report = report_keys(state.keys);
        let payload = state.keyboard_report().payload;
        law_report_lists_the_held_keys(state.keys);
        law_report_tells_modifiers_and_keys(state, code, extended);
        crate::scancode::law_usages_are_keyboard_keys(code, extended);
        if state.keys.contains(usage) {
            assert(report.contains(usage));
            let k = choose|k: int| 0 <= k < report.len() && report[k] == usage;
            assert(payload[1 + k] == usage);
        }
        if exists|i: int| 1 <= i < 7 && #[trigger] payload[i] == usage {
            let i = choose|i: int| 1 <= i < 7 && #[trigger] payload[i] == usage;
            assert(payload[1 + (i - 1)] == report[i - 1]);
        }
    }
}

/// A modifier that is held goes with every key that is pressed after it.
pub proof fn law_held_modifier_goes_with_every_key(
    state: InputView,
    code: u8,
    extended: bool,
    key: u8,
    key_extended: bool,
)
    requires
        crate::scancode::modifier_bit(code, extended) is Some,
        crate::scancode::modifier_bit(key, key_extended) is None,
    ensures
        ({
            let report = state.typed(KeyboardEvent::Pressed { code, extended }).typed(
                KeyboardEvent::Pressed { code: key, extended: key_extended },
            ).keyboard_report();
            let bit = crate::scancode::modifier_bit(code, extended)->0;
            &&& report.payload[0] == state.modifiers | bit
            &&& report.payload[0] & bit != 0
        }),
{
    let held = state.typed(KeyboardEvent::Pressed { code, extended });
    let both = held.typed(KeyboardEvent::Pressed { code: key, extended: key_extended });
    law_report_tells_modifiers_and_keys(both, code, extended);
    law_a_key_changes_itself_alone(state, code, extended, true, key, key_extended);
    law_a_key_changes_itself_alone(held, key, key_extended, true, code, extended);
}

/// A button that goes down or comes up moves its own bit, from the left button at
/// the lowest bit up, and nothing else.
pub proof fn law_buttons_move_their_bits(state: InputView)
    ensures
        state.moused(MouseEvent::LeftPressed) == (InputView {
            mouse_buttons: state.mouse_buttons | 0x01,
            ..state
        }),
        state.moused(MouseEvent::LeftReleased) == (InputView {
            mouse_buttons: state.mouse_buttons & !0x01,
            ..state
        }),
        state.moused(MouseEvent::RightPressed) == (InputView {
            mouse_buttons: state.mouse_buttons | 0x02,
            ..state
        }),
        state.moused(MouseEvent::RightReleased) == (InputView {
            mouse_buttons: state.mouse_buttons & !0x02,
            ..state
        }),
        state.moused(MouseEvent::MiddlePressed) == (InputView {
            mouse_buttons: state.mouse_buttons | 0x04,
            ..state
        }),
        state.moused(MouseEvent::MiddleReleased) == (InputView {
            mouse_buttons: state.mouse_buttons & !0x04,
            ..state
        }),
        state.moused(MouseEvent::Button4Pressed) == (InputView {
            mouse_buttons: state.mouse_buttons | 0x08,
            ..state
        }),
        state.moused(MouseEvent::Button4Released) == (InputView {
            mouse_buttons: state.mouse_buttons & !0x08,
            ..state
        }),
        state.moused(MouseEvent::Button5Pressed) == (InputView {
            mouse_buttons: state.mouse_buttons | 0x10,
            ..state
        }),
        state.moused(MouseEvent::Button5Released) == (InputView {
            mouse_buttons: state.mouse_buttons & !0x10,
            ..state
        }),
{
}

/// A move takes the pointer where it says and leaves the buttons as they are, and
/// neither wheel nor relative movement changes what is held or where the pointer
/// is.
pub proof fn law_moves_change_the_position_alone(
    state: InputView,
    x: u16,
    y: u16,
    value: i16,
    horizontal: i32,
    vertical: i32,
)
    ensures
        state.moused(MouseEvent::Move { x, y }) == (InputView { mouse_x: x, mouse_y: y, ..state }),
        state.moused(MouseEvent::VerticalScroll { value }) == state,
        state.moused(MouseEvent::Scroll { horizontal, vertical }) == state,
        state.moused(MouseEvent::RelMove { dx: horizontal, dy: vertical }) == state,
{
}

/// The coordinate `c` is as far along the HID axis as `value` is along an axis of
/// `extent` pixels, rounded down.
pub open spec fn in_proportion(c: int, value: int, extent: int) -> bool {
    c * (extent - 1) <= value * 32767 < (c + 1) * (extent - 1)
}

/// A move or a button is reported with the buttons that are held, and with the
/// position of the pointer in proportion to the desktop.
pub proof fn law_pointer_report_tells_position_and_buttons(
    state: InputView,
    event: MouseEvent,
    size: DesktopSize,
)
    requires
        !(event is VerticalScroll),
        !(event is Scroll),
        !(event is RelMove),
    ensures
        ({
            let report = state.mouse_report(event, size);
            let x = report.payload[0] + 0x100 * report.payload[1];
            let y = report.payload[2] + 0x100 * report.payload[3];
            &&& report.typ == 0x11
            &&& report.payload.len() == 5
            &&& report.payload[4] == state.mouse_buttons
            &&& state.mouse_x < size.width && size.width > 1 ==> in_proportion(
                x,
                state.mouse_x as int,
                size.width as int,
            )
            &&& state.mouse_x >= size.width > 1 ==> x == 32767
            &&& size.width <= 1 ==> x == 0
            &&& state.mouse_y < size.height && size.height > 1 ==> in_proportion(
                y,
                state.mouse_y as int,
                size.height as int,
            )
            &&& state.mouse_y >= size.height > 1 ==> y == 32767
            &&& size.height <= 1 ==> y == 0
        }),
{
    let (w, h) = (size.width, size.height);
    crate::pointer::law_scaled_is_in_range(state.mouse_x, w);
    crate::pointer::law_scaled_is_in_range(state.mouse_y, h);
    crate::bridge::law_messages_have_their_bytes(
        0,
        Seq::empty(),
        crate::pointer::scaled(state.mouse_x, w) as u16,
        crate::pointer::scaled(state.mouse_y, h) as u16,
        0,
        0,
        state.mouse_buttons,
        size,
    );
    crate::pointer::law_scaled_stops_at_the_edge(state.mouse_x, w);
    crate::pointer::law_scaled_stops_at_the_edge(state.mouse_y, h);
    if w > 1 {
        if state.mouse_x < w {
            crate::pointer::law_scaled_is_proportional(state.mouse_x, w);
        } else {
            crate::pointer::law_scaled_reaches_both_ends(state.mouse_x, w);
        }
    }
    if h > 1 {
        if state.mouse_y < h {
            crate::pointer::law_scaled_is_proportional(state.mouse_y, h);
        } else {
            crate::pointer::law_scaled_reaches_both_ends(state.mouse_y, h);
        }
    }
}

/// The byte stands for the signed number in two's complement.
pub open spec fn stands_for(byte: u8, value: int) -> bool {
    byte == value || byte == value + 0x100
}

/// A relative movement is reported as it is where it fits in signed bytes, and
/// as the furthest that does where it does not, with the buttons that are held.
pub proof fn law_relative_report_tells_the_movement(
    state: InputView,
    dx: i32,
    dy: i32,
    size: DesktopSize,
)
    ensures
        ({
            let report = state.mouse_report(MouseEvent::RelMove { dx, dy }, size);
            &&& report.typ == 0x12
            &&& report.payload.len() == 3
            &&& -128 <= dx <= 127 ==> stands_for(report.payload[0], dx as int)
            &&& dx > 127 ==> report.payload[0] == 0x7f
            &&& dx < -128 ==> report.payload[0] == 0x80
            &&& -128 <= dy <= 127 ==> stands_for(report.payload[1], dy as int)
            &&& dy > 127 ==> report.payload[1] == 0x7f
            &&& dy < -128 ==> report.payload[1] == 0x80
            &&& report.payload[2] == state.mouse_buttons
        }),
{
    crate::bridge::law_messages_have_their_bytes(
        0,
        Seq::empty(),
        0,
        0,
        clamped(dx as int, -128, 127) as i8,
        clamped(dy as int, -128, 127) as i8,
        state.mouse_buttons,
        size,
    );
}

/// A turn of the wheel is reported in steps, vertical first. A turn that is too
/// large for sixteen bits counts as the largest that is not.
pub proof fn law_wheel_report_tells_the_steps(
    state: InputView,
    value: i16,
    horizontal: i32,
    vertical: i32,
    size: DesktopSize,
)
    ensures
        ({
            let report = state.mouse_report(MouseEvent::VerticalScroll { value }, size);
            &&& report.typ == 0x13
            &&& report.payload.len() == 2
            &&& stands_for(report.payload[0], crate::pointer::wheel_steps(value as int))
            &&& report.payload[1] == 0
        }),
        ({
            let report = state.mouse_report(MouseEvent::Scroll { horizontal, vertical }, size);
            &&& report.typ == 0x13
            &&& report.payload.len() == 2
            &&& -32768 <= vertical <= 32767 ==> stands_for(
                report.payload[0],
                crate::pointer::wheel_steps(vertical as int),
            )
            &&& vertical > 32767 ==> report.payload[0] == 0x7f
            &&& vertical < -32768 ==> report.payload[0] == 0x80
            &&& -32768 <= horizontal <= 32767 ==> stands_for(
                report.payload[1],
                crate::pointer::wheel_steps(horizontal as int),
            )
            &&& horizontal > 32767 ==> report.payload[1] == 0x7f
            &&& horizontal < -32768 ==> report.payload[1] == 0x80
        }),
{
    let v = clamped(vertical as int, -32768, 32767);
    let h = clamped(horizontal as int, -32768, 32767);
    crate::pointer::law_wheel_counts_whole_notches(v as i16);
    crate::pointer::law_wheel_counts_whole_notches(h as i16);
    crate::pointer::law_wheel_keeps_its_direction(v as i16);
    crate::pointer::law_wheel_keeps_its_direction(h as i16);
    crate::pointer::law_wheel_keeps_its_direction(value);
    crate::pointer::law_wheel_counts_whole_notches(0);
    crate::bridge::law_messages_have_their_bytes(
        0,
        Seq::empty(),
        0,
        0,
        crate::pointer::wheel_steps(v) as i8,
        crate::pointer::wheel_steps(h) as i8,
        0,
        size,
    );
    crate::bridge::law_messages_have_their_bytes(
        0,
        Seq::empty(),
        0,
        0,
        crate::pointer::wheel_steps(value as int) as i8,
        0,
        0,
        size,
    );
}

} // verus!
