//! What the display channel offers a client: the desktop size, and before any
//! video a small checkerboard that tells that the channel works.

use vstd::prelude::*;

use crate::bridge::{BridgeLink, LinkView};
use crate::video::DesktopSize;

verus! {

/// Width and height of the checkerboard, in pixels.
pub const PROBE_EXTENT: u16 = 64;

/// Width and height of one of its squares, in pixels.
pub const PROBE_SQUARE: usize = 8;

/// Bytes of a pixel: blue, green, red and alpha.
pub const PIXEL_LEN: usize = 4;

/// A bitmap of BGRA pixels, row by row from the top, and where it goes on the
/// desktop.
pub struct BitmapTile {
    pub x: u16,
    pub y: u16,
    pub width: u16,
    pub height: u16,
    /// Bytes from the start of a row to the start of the next.
    pub stride: usize,
    pub data: Vec<u8>,
}

/// The mathematical content of a [`BitmapTile`].
#[verifier::ext_equal]
pub struct TileView {
    pub x: u16,
    pub y: u16,
    pub width: u16,
    pub height: u16,
    pub stride: usize,
    pub data: Seq<u8>,
}

impl View for BitmapTile {
    type V = TileView;

    open spec fn view(&self) -> TileView {
        TileView {
            x: self.x,
            y: self.y,
            width: self.width,
            height: self.height,
            stride: self.stride,
            data: self.data@,
        }
    }
}

impl TileView {
    /// The colour channel of a pixel: 0 for blue, 1 for green, 2 for red and 3
    /// for alpha.
    pub open spec fn channel(self, column: int, row: int, index: int) -> u8 {
        self.data[row * self.stride + column * PIXEL_LEN + index]
    }
}

/// The grey of the checkerboard at a pixel.
pub open spec fn shade(column: int, row: int) -> u8 {
    if (column / PROBE_SQUARE as int + row / PROBE_SQUARE as int) % 2 == 0 {
        0x24
    } else {
        0x38
    }
}

/// The byte of the checkerboard at an offset.
pub open spec fn probe_byte(offset: int) -> u8 {
    let pixel = offset / PIXEL_LEN as int;
    if offset % PIXEL_LEN as int == 3 {
        0xff
    } else {
        shade(pixel % PROBE_EXTENT as int, pixel / PROBE_EXTENT as int)
    }
}

/// The checkerboard, in the top left corner of the desktop.
pub open spec fn probe_tile() -> TileView {
    TileView {
        x: 0,
        y: 0,
        width: PROBE_EXTENT,
        height: PROBE_EXTENT,
        stride: 256,
        data: Seq::new(16384, |offset: int| probe_byte(offset)),
    }
}

/// The bytes of the checkerboard.
fn probe_data() -> (data: Vec<u8>)
    ensures
        data@ == probe_tile().data,
{
    let extent: usize = PROBE_EXTENT as usize;
    let mut data: Vec<u8> = Vec::with_capacity(16384);
    let mut row: usize = 0;
    while row < extent
        invariant
            extent == 64,
            row <= extent,
            data@.len() == row * 256,
            forall|i: int| 0 <= i < data@.len() ==> data@[i] == probe_byte(i),
        decreases extent - row,
    {
        let mut column: usize = 0;
        while column < extent
            invariant
                extent == 64,
                row < extent,
                column <= extent,
                data@.len() == row * 256 + column * 4,
                forall|i: int| 0 <= i < data@.len() ==> data@[i] == probe_byte(i),
            decreases extent - column,
        {
            let value: u8 = if (column / PROBE_SQUARE + row / PROBE_SQUARE) % 2 == 0 {
                0x24
            } else {
                0x38
            };
            assert forall|k: int| 0 <= k < 4 implies #[trigger] probe_byte(
                row * 256 + column * 4 + k,
            ) == (if k == 3 {
                0xffu8
            } else {
                value
            }) by {
                assert((row * 256 + column * 4 + k) / 4 == row * 64 + column);
            }
            assert(probe_byte(row * 256 + column * 4 + 0) == value);
            assert(probe_byte(row * 256 + column * 4 + 1) == value);
            assert(probe_byte(row * 256 + column * 4 + 2) == value);
            assert(probe_byte(row * 256 + column * 4 + 3) == 0xff);
            data.push(value);
            data.push(value);
            data.push(value);
            data.push(0xff);
            column = column + 1;
        }
        row = row + 1;
    }
    assert(data@ =~= probe_tile().data);
    data
}

/// The updates of one display connection.
pub struct DisplayUpdates {
    sent_probe: bool,
}

/// What a display connection is sent next, and whether the checkerboard has been
/// sent after that.
pub open spec fn next_of(sent_probe: bool) -> (Option<TileView>, bool) {
    if sent_probe {
        (None, true)
    } else {
        (Some(probe_tile()), true)
    }
}

impl View for DisplayUpdates {
    type V = bool;

    /// The checkerboard has been sent.
    closed spec fn view(&self) -> bool {
        self.sent_probe
    }
}

impl DisplayUpdates {
    /// Nothing sent yet.
    pub fn new() -> (updates: DisplayUpdates)
        ensures
            !updates@,
    {
        DisplayUpdates { sent_probe: false }
    }

    /// The next bitmap to send: the checkerboard, and nothing from then on. All
    /// else that a client sees comes as video.
    pub fn next_update(&mut self) -> (update: Option<BitmapTile>)
        ensures
            final(self)@ == next_of(old(self)@).1,
            match update {
                Some(tile) => next_of(old(self)@).0 == Some(tile@),
                None => next_of(old(self)@).0 is None,
            },
    {
        if self.sent_probe {
            return None;
        }
        self.sent_probe = true;
        Some(
            BitmapTile {
                x: 0,
                y: 0,
                width: PROBE_EXTENT,
                height: PROBE_EXTENT,
                stride: PROBE_EXTENT as usize * PIXEL_LEN,
                data: probe_data(),
            },
        )
    }
}

/// Passes on the desktop size that a client asks for, and answers with the size
/// that it gets.
pub fn request_initial_size(link: &mut BridgeLink, wanted: DesktopSize) -> (size: DesktopSize)
    ensures
        final(link)@ == old(link)@.sent(crate::bridge::desktop_message(wanted)),
        size == old(link)@.video.desktop(),
{
    link.request_desktop(wanted);
    link.desktop_size()
}

/// The size that a client asks for is advisory: asking for it changes neither
/// the video state nor the size that is offered.
pub proof fn law_requested_size_is_advisory(link: LinkView, wanted: DesktopSize)
    ensures
        link.sent(crate::bridge::desktop_message(wanted)).video == link.video,
        link.sent(crate::bridge::desktop_message(wanted)).video.desktop() == link.video.desktop(),
{
}

/// A display connection is sent exactly one bitmap.
pub proof fn law_exactly_one_bitmap_is_sent(sent_probe: bool)
    ensures
        next_of(false).0 == Some(probe_tile()),
        next_of(next_of(sent_probe).1) == (None::<TileView>, true),
{
}

/// The checkerboard fills its rows without gaps, is opaque, grey, and changes
/// its shade from each square to the next.
pub proof fn law_probe_is_a_checkerboard(column: int, row: int)
    requires
        0 <= column < PROBE_EXTENT,
        0 <= row < PROBE_EXTENT,
    ensures
        probe_tile().stride == probe_tile().width * PIXEL_LEN,
        probe_tile().data.len() == probe_tile().stride * probe_tile().height,
        probe_tile().channel(column, row, 0) == shade(column, row),
        probe_tile().channel(column, row, 1) == shade(column, row),
        probe_tile().channel(column, row, 2) == shade(column, row),
        probe_tile().channel(column, row, 3) == 0xff,
        shade(column + PROBE_SQUARE, row) != shade(column, row),
        shade(column, row + PROBE_SQUARE) != shade(column, row),
        shade(column - column % PROBE_SQUARE as int, row - row % PROBE_SQUARE as int) == shade(
            column,
            row,
        ),
{
    assert((row * 256 + column * 4) / 4 == row * 64 + column);
    assert((row * 256 + column * 4 + 1) / 4 == row * 64 + column);
    assert((row * 256 + column * 4 + 2) / 4 == row * 64 + column);
}

/// In the square of eight by eight pixels at `(across, down)`, every pixel is
/// opaque and of the square's grey: the darker one where the square is an even
/// number of squares away from the top left corner, the lighter one where not.
pub proof fn law_every_pixel_has_the_grey_of_its_square(
    across: int,
    down: int,
    x: int,
    y: int,
    channel: int,
)
    requires
        0 <= across < 8,
        0 <= down < 8,
        0 <= x < 8,
        0 <= y < 8,
        0 <= channel < 4,
    ensures
        ({
            let tile = probe_tile();
            let offset = (8 * down + y) * 256 + (8 * across + x) * 4 + channel;
            &&& tile.x == 0 && tile.y == 0
            &&& tile.width == 64 && tile.height == 64
            &&& tile.stride == 256
            &&& tile.data.len() == 16384
            &&& channel == 3 ==> tile.data[offset] == 0xff
            &&& channel < 3 && (across + down) % 2 == 0 ==> tile.data[offset] == 0x24
            &&& channel < 3 && (across + down) % 2 == 1 ==> tile.data[offset] == 0x38
        }),
{
    let column = 8 * across + x;
    let row = 8 * down + y;
    assert((row * 256 + column * 4 + channel) / 4 == row * 64 + column);
    assert(column / 8 == across);
    assert(row / 8 == down);
}

/// The view of a bitmap is its fields and bytes.
pub proof fn law_view_tells_the_bitmap(tile: BitmapTile)
    ensures
        tile@.x == tile.x,
        tile@.y == tile.y,
        tile@.width == tile.width,
        tile@.height == tile.height,
        tile@.stride == tile.stride,
        tile@.data == tile.data@,
{
}

} // verus!
