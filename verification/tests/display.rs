use jetkvm_rdp::bridge::BridgeLink;
use jetkvm_rdp::display::{request_initial_size, DisplayUpdates};
use jetkvm_rdp::video::DesktopSize;

#[test]
fn exactly_one_bitmap_is_sent() {
    let mut updates = DisplayUpdates::new();
    assert!(updates.next_update().is_some());
    assert!(updates.next_update().is_none());
    assert!(updates.next_update().is_none());
}

#[test]
fn the_bitmap_is_a_checkerboard() {
    let tile = DisplayUpdates::new().next_update().unwrap();
    assert_eq!((tile.x, tile.y, tile.width, tile.height), (0, 0, 64, 64));
    assert_eq!(tile.stride, 256);
    assert_eq!(tile.data.len(), 64 * 64 * 4);
    for y in 0..64usize {
        for x in 0..64usize {
            let offset = (y * 64 + x) * 4;
            let value = if ((x / 8) + (y / 8)) % 2 == 0 { 0x24 } else { 0x38 };
            assert_eq!(tile.data[offset..offset + 4], [value, value, value, 0xff]);
        }
    }
    assert_eq!(tile.data[0..4], [0x24, 0x24, 0x24, 0xff]);
    assert_eq!(tile.data[32..36], [0x38, 0x38, 0x38, 0xff]);
}

#[test]
fn the_requested_size_is_advisory() {
    let mut link = BridgeLink::new();
    link.open();
    link.take_outbox();
    let size = request_initial_size(&mut link, DesktopSize { width: 800, height: 600 });
    assert_eq!(size, DesktopSize { width: 1920, height: 1080 });
    let sent = link.take_outbox();
    assert_eq!(sent.len(), 1);
    assert_eq!(sent[0].typ, 0x14);
    assert_eq!(sent[0].payload, [0x20, 0x03, 0x58, 0x02]);
}
