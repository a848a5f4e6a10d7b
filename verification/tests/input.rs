use jetkvm_rdp::bridge::BridgeLink;
use jetkvm_rdp::input::{InputState, KeyboardEvent, MouseEvent};

fn open_link() -> BridgeLink {
    let mut link = BridgeLink::new();
    link.open();
    link.take_outbox();
    link
}

fn only(link: &mut BridgeLink) -> (u8, Vec<u8>) {
    let mut messages = link.take_outbox();
    assert_eq!(messages.len(), 1);
    let message = messages.remove(0);
    (message.typ, message.payload)
}

fn press(state: &mut InputState, link: &mut BridgeLink, code: u8, extended: bool) -> Vec<u8> {
    state.keyboard(KeyboardEvent::Pressed { code, extended }, link);
    let (typ, payload) = only(link);
    assert_eq!(typ, 0x10);
    payload
}

fn release(state: &mut InputState, link: &mut BridgeLink, code: u8, extended: bool) -> Vec<u8> {
    state.keyboard(KeyboardEvent::Released { code, extended }, link);
    let (typ, payload) = only(link);
    assert_eq!(typ, 0x10);
    payload
}

fn mouse(state: &mut InputState, link: &mut BridgeLink, event: MouseEvent) -> (u8, Vec<u8>) {
    state.mouse(event, link);
    only(link)
}

#[test]
fn a_key_is_reported_when_it_goes_down_and_when_it_comes_up() {
    let (mut state, mut link) = (InputState::new(), open_link());
    assert_eq!(press(&mut state, &mut link, 0x1e, false), [0, 4, 0, 0, 0, 0, 0]);
    assert_eq!(release(&mut state, &mut link, 0x1e, false), [0; 7]);
}

#[test]
fn a_modifier_sets_its_bit() {
    let (mut state, mut link) = (InputState::new(), open_link());
    assert_eq!(press(&mut state, &mut link, 0x2a, false), [0x02, 0, 0, 0, 0, 0, 0]);
    assert_eq!(press(&mut state, &mut link, 0x1d, true), [0x12, 0, 0, 0, 0, 0, 0]);
    assert_eq!(press(&mut state, &mut link, 0x2a, false), [0x12, 0, 0, 0, 0, 0, 0]);
    assert_eq!(release(&mut state, &mut link, 0x2a, false), [0x10, 0, 0, 0, 0, 0, 0]);
}

#[test]
fn held_keys_are_reported_in_ascending_order() {
    let (mut state, mut link) = (InputState::new(), open_link());
    press(&mut state, &mut link, 0x39, false);
    press(&mut state, &mut link, 0x1e, false);
    press(&mut state, &mut link, 0x53, true);
    assert_eq!(
        press(&mut state, &mut link, 0x10, false),
        [0, 0x04, 0x14, 0x2c, 0x4c, 0, 0]
    );
}

#[test]
fn a_repeated_key_is_held_once() {
    let (mut state, mut link) = (InputState::new(), open_link());
    press(&mut state, &mut link, 0x1e, false);
    assert_eq!(press(&mut state, &mut link, 0x1e, false), [0, 4, 0, 0, 0, 0, 0]);
    assert_eq!(release(&mut state, &mut link, 0x1e, false), [0; 7]);
    assert_eq!(release(&mut state, &mut link, 0x1e, false), [0; 7]);
}

#[test]
fn the_six_lowest_keys_fit_in_a_report() {
    let (mut state, mut link) = (InputState::new(), open_link());
    for code in 0x02..0x09u8 {
        press(&mut state, &mut link, code, false);
    }
    // seven digits are held: 1 to 7
    assert_eq!(
        press(&mut state, &mut link, 0x1e, false),
        [0, 0x04, 0x1e, 0x1f, 0x20, 0x21, 0x22]
    );
    assert_eq!(
        release(&mut state, &mut link, 0x02, false),
        [0, 0x04, 0x1f, 0x20, 0x21, 0x22, 0x23]
    );
    // a key that did not fit comes back once there is room
    assert_eq!(
        release(&mut state, &mut link, 0x1e, false),
        [0, 0x1f, 0x20, 0x21, 0x22, 0x23, 0x24]
    );
}

#[test]
fn releasing_a_key_undoes_pressing_it() {
    let (mut state, mut link) = (InputState::new(), open_link());
    press(&mut state, &mut link, 0x1d, false);
    let before = press(&mut state, &mut link, 0x2d, false);
    press(&mut state, &mut link, 0x2e, false);
    assert_eq!(release(&mut state, &mut link, 0x2e, false), before);
    press(&mut state, &mut link, 0x38, true);
    assert_eq!(release(&mut state, &mut link, 0x38, true), before);
}

#[test]
fn a_key_changes_itself_alone() {
    let (mut state, mut link) = (InputState::new(), open_link());
    press(&mut state, &mut link, 0x1c, false);
    press(&mut state, &mut link, 0x1c, true);
    assert_eq!(release(&mut state, &mut link, 0x1c, false), [0, 0x58, 0, 0, 0, 0, 0]);
}

#[test]
fn an_unknown_key_is_reported_as_no_change() {
    let (mut state, mut link) = (InputState::new(), open_link());
    press(&mut state, &mut link, 0x1e, false);
    assert_eq!(press(&mut state, &mut link, 0x7f, false), [0, 4, 0, 0, 0, 0, 0]);
    assert_eq!(release(&mut state, &mut link, 0x7f, false), [0, 4, 0, 0, 0, 0, 0]);
}

#[test]
fn unicode_and_synchronize_are_passed_over() {
    let (mut state, mut link) = (InputState::new(), open_link());
    state.keyboard(KeyboardEvent::UnicodePressed(0x41), &mut link);
    state.keyboard(KeyboardEvent::UnicodeReleased(0x41), &mut link);
    state.keyboard(KeyboardEvent::Synchronize, &mut link);
    assert!(link.take_outbox().is_empty());
    assert_eq!(release(&mut state, &mut link, 0x1e, false), [0; 7]);
}

#[test]
fn a_move_is_reported_in_hid_coordinates() {
    let (mut state, mut link) = (InputState::new(), open_link());
    assert_eq!(
        mouse(&mut state, &mut link, MouseEvent::Move { x: 1919, y: 540 }),
        (0x11, vec![0xff, 0x7f, 0x0e, 0x40, 0])
    );
}

#[test]
fn a_move_follows_the_size_of_the_video() {
    let (mut state, mut link) = (InputState::new(), open_link());
    let report = vec![1, 0x00, 0x05, 0xd0, 0x02, 0, 0, 0, 0, 0, 0, 0, 0];
    assert!(link.handle_message(0x05, report).is_ok());
    assert_eq!(
        mouse(&mut state, &mut link, MouseEvent::Move { x: 1279, y: 719 }),
        (0x11, vec![0xff, 0x7f, 0xff, 0x7f, 0])
    );
}

#[test]
fn buttons_are_reported_where_the_pointer_is() {
    let (mut state, mut link) = (InputState::new(), open_link());
    mouse(&mut state, &mut link, MouseEvent::Move { x: 1919, y: 0 });
    let steps = [
        (MouseEvent::LeftPressed, 0x01u8),
        (MouseEvent::RightPressed, 0x03),
        (MouseEvent::MiddlePressed, 0x07),
        (MouseEvent::Button4Pressed, 0x0f),
        (MouseEvent::Button5Pressed, 0x1f),
        (MouseEvent::RightReleased, 0x1d),
        (MouseEvent::LeftReleased, 0x1c),
        (MouseEvent::LeftReleased, 0x1c),
        (MouseEvent::Button5Released, 0x0c),
        (MouseEvent::MiddleReleased, 0x08),
        (MouseEvent::Button4Released, 0x00),
    ];
    for (event, buttons) in steps {
        assert_eq!(
            mouse(&mut state, &mut link, event),
            (0x11, vec![0xff, 0x7f, 0, 0, buttons])
        );
    }
}

#[test]
fn a_held_button_goes_with_every_move() {
    let (mut state, mut link) = (InputState::new(), open_link());
    mouse(&mut state, &mut link, MouseEvent::MiddlePressed);
    assert_eq!(
        mouse(&mut state, &mut link, MouseEvent::Move { x: 0, y: 0 }),
        (0x11, vec![0, 0, 0, 0, 0x04])
    );
    assert_eq!(
        mouse(&mut state, &mut link, MouseEvent::RelMove { dx: 5, dy: -5 }),
        (0x12, vec![5, 0xfb, 0x04])
    );
}

#[test]
fn relative_moves_are_clamped_to_a_signed_byte() {
    let (mut state, mut link) = (InputState::new(), open_link());
    assert_eq!(
        mouse(&mut state, &mut link, MouseEvent::RelMove { dx: 1000, dy: -1000 }),
        (0x12, vec![0x7f, 0x80, 0])
    );
}

#[test]
fn wheels_are_reported_in_steps() {
    let (mut state, mut link) = (InputState::new(), open_link());
    assert_eq!(
        mouse(&mut state, &mut link, MouseEvent::VerticalScroll { value: -240 }),
        (0x13, vec![0xfe, 0])
    );
    assert_eq!(
        mouse(&mut state, &mut link, MouseEvent::Scroll { horizontal: 120, vertical: -1 }),
        (0x13, vec![0xff, 1])
    );
    assert_eq!(
        mouse(
            &mut state,
            &mut link,
            MouseEvent::Scroll { horizontal: i32::MIN, vertical: i32::MAX }
        ),
        (0x13, vec![0x7f, 0x80])
    );
}

#[test]
fn keyboard_and_mouse_are_independent() {
    let (mut state, mut link) = (InputState::new(), open_link());
    press(&mut state, &mut link, 0x1e, false);
    mouse(&mut state, &mut link, MouseEvent::LeftPressed);
    assert_eq!(press(&mut state, &mut link, 0x30, false), [0, 4, 5, 0, 0, 0, 0]);
    assert_eq!(
        mouse(&mut state, &mut link, MouseEvent::LeftReleased),
        (0x11, vec![0, 0, 0, 0, 0])
    );
}

#[test]
fn state_is_kept_without_a_connection() {
    let (mut state, mut link) = (InputState::new(), BridgeLink::new());
    state.keyboard(KeyboardEvent::Pressed { code: 0x1e, extended: false }, &mut link);
    assert!(link.take_outbox().is_empty());
    link.open();
    link.take_outbox();
    assert_eq!(press(&mut state, &mut link, 0x30, false), [0, 4, 5, 0, 0, 0, 0]);
}
