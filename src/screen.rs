//! Opening a discovered screen and drawing on it: which link, which baud
//! rate, which frame layout, and the writes of one draw.

use vstd::prelude::*;
use crate::discovery::{UsbScreenInfo, DEFAULT_BAUD_RATE, ESP32_BAUD_RATE};
use crate::framing::{buffer_views, frame_writes, frame_writes_spec, FrameError, FrameLayout, MAX_COMPRESSED_LEN};
use crate::lz4::lz4_block;
use crate::text::{find_from, find_pattern};
use vstd::utf8::encode_utf8;
use crate::rgb565::{rgb565_of, rgb888_to_rgb565_be};

verus! {

/// `Screen` in ASCII.
pub open spec fn screen_word() -> Seq<u8> {
    seq![83u8, 99u8, 114u8, 101u8, 101u8, 110u8]
}

/// How a screen is reached.
#[derive(PartialEq, Eq, Structural, Clone, Copy, Debug)]
pub enum ScreenLink {
    /// Raw USB bulk transfers; the address is the USB device address.
    RawBulk,
    /// A serial port opened at `baud_rate`, frames written with `layout`.
    Serial { baud_rate: u32, layout: FrameLayout },
}

/// Raw USB screens carry `Screen` in their label (searched in its UTF-8 bytes).
pub open spec fn is_raw_label(label: Seq<char>) -> bool {
    find_from(encode_utf8(label), screen_word(), 0) is Some
}

/// The link of a screen record.
pub open spec fn link_of(info: UsbScreenInfo) -> ScreenLink {
    if is_raw_label(info.label@) {
        ScreenLink::RawBulk
    } else if info.is_esp32_wifi {
        ScreenLink::Serial { baud_rate: ESP32_BAUD_RATE, layout: FrameLayout::Combined }
    } else {
        ScreenLink::Serial { baud_rate: DEFAULT_BAUD_RATE, layout: FrameLayout::Segmented }
    }
}

/// The frame layout of a link: three writes on raw USB and older serial
/// screens, one write on probed WiFi screens.
pub open spec fn layout_of(link: ScreenLink) -> FrameLayout {
    match link {
        ScreenLink::RawBulk => FrameLayout::Segmented,
        ScreenLink::Serial { layout, .. } => layout,
    }
}

/// Chooses the link for a discovered screen.
pub fn open_plan(info: &UsbScreenInfo) -> (r: ScreenLink)
    ensures
        r == link_of(*info),
{
    let word: Vec<u8> = vec![83u8, 99, 114, 101, 101, 110];
    if find_pattern(info.label.as_str().as_bytes(), word.as_slice()).is_some() {
        ScreenLink::RawBulk
    } else if info.is_esp32_wifi {
        ScreenLink::Serial { baud_rate: ESP32_BAUD_RATE, layout: FrameLayout::Combined }
    } else {
        ScreenLink::Serial { baud_rate: DEFAULT_BAUD_RATE, layout: FrameLayout::Segmented }
    }
}

/// The writes that draw a `width` x `height` RGB888 image at (`x`, `y`) on a
/// screen reached through `link`. An image larger than the screen is not
/// drawn (no writes); a payload over the size ceiling is an error, also
/// before any write.
pub fn draw_writes(
    info: &UsbScreenInfo,
    link: ScreenLink,
    x: u16,
    y: u16,
    rgb: &[u8],
    width: u32,
    height: u32,
) -> (r: Result<Vec<Vec<u8>>, FrameError>)
    requires
        rgb@.len() % 3 == 0,
    ensures
        width > info.width || height > info.height ==> (r is Ok && r->Ok_0@.len() == 0),
        width <= info.width && height <= info.height ==> {
            &&& (r is Ok <==> lz4_block(rgb565_of(rgb@)).len() <= MAX_COMPRESSED_LEN)
            &&& r is Ok ==> buffer_views(r->Ok_0@) == frame_writes_spec(
                lz4_block(rgb565_of(rgb@)),
                width as u16,
                height as u16,
                x,
                y,
                layout_of(link),
            )
            &&& r is Err ==> (r matches Err(FrameError::TooLarge { compressed_len })
                && compressed_len == lz4_block(rgb565_of(rgb@)).len())
        },
{
    if width > info.width as u32 || height > info.height as u32 {
        return Ok(Vec::new());
    }
    let rgb565 = rgb888_to_rgb565_be(rgb, width as usize, height as usize);
    let layout = match link {
        ScreenLink::RawBulk => FrameLayout::Segmented,
        ScreenLink::Serial { layout, .. } => layout,
    };
    frame_writes(rgb565.as_slice(), x, y, width as u16, height as u16, layout)
}

} // verus!
