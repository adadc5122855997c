//! Host-side protocol engine for small USB, serial and WiFi attached screens:
//! pixel codec, frame layout, device identification and the differential
//! WiFi streaming protocol.

pub mod rgb565;
pub mod lz4;
pub mod framing;
pub mod delta;
pub mod text;
pub mod probe;
pub mod discovery;
pub mod screen;
pub mod wifi_screen;
pub mod rect;
