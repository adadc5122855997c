use usb_screen::discovery::{
    find_all_device, find_usb_serial_device, get_screen_size_from_serial_number, is_screen_serial,
    ports_to_probe, raw_screen_info, raw_screens, ProbeCache, RawUsbDevice, SerialPortEntry,
    UsbScreenInfo, DEFAULT_BAUD_RATE, ESP32_BAUD_RATE,
};
use usb_screen::framing::{frame_header, FrameLayout};
use usb_screen::probe::{parse_probe_response, probe_command, probe_reply, ProbeReply};
use usb_screen::rect::Rect;
use usb_screen::text::decimal_string;
use usb_screen::screen::{draw_writes, open_plan, ScreenLink};

fn port(name: &str, usb: bool, sn: Option<&str>) -> SerialPortEntry {
    SerialPortEntry {
        port_name: name.to_string(),
        is_usb: usb,
        serial_number: sn.map(|s| s.as_bytes().to_vec()),
    }
}

#[test]
fn serial_number_sizes() {
    assert_eq!(get_screen_size_from_serial_number("USBSCR160X128;REST"), (160, 128));
    assert_eq!(get_screen_size_from_serial_number("USBSCR320x240;abc"), (320, 240));
    assert_eq!(get_screen_size_from_serial_number("USBSCR240X240"), (240, 240));
    assert_eq!(get_screen_size_from_serial_number("USBSCR160128;REST"), (160, 128));
    assert_eq!(get_screen_size_from_serial_number("USBSCR320;REST"), (160, 128));
    assert_eq!(get_screen_size_from_serial_number("USBSCR240;R"), (160, 128));
    assert_eq!(get_screen_size_from_serial_number("USBSCR320Xabc;1"), (160, 128));
    assert_eq!(get_screen_size_from_serial_number("USBSCRabcX240;1"), (160, 128));
    assert_eq!(get_screen_size_from_serial_number("USBSCR80X160X9"), (80, 160));
    assert_eq!(get_screen_size_from_serial_number("USBSCRabcXdef;1"), (160, 128));
    assert_eq!(get_screen_size_from_serial_number("USBSCR"), (160, 128));
    assert_eq!(get_screen_size_from_serial_number("USB"), (160, 128));
    assert_eq!(get_screen_size_from_serial_number("USBSCR99999X70000;"), (160, 128));
}

#[test]
fn serial_prefix() {
    assert!(is_screen_serial(b"USBSCR160X128"));
    assert!(!is_screen_serial(b"usbscr160X128"));
    assert!(!is_screen_serial(b"USBSC"));
}

#[test]
fn probe_reply_parsing() {
    assert_eq!(parse_probe_response(b"ESP32-WIFI-SCREEN;320;240;PROTO:USB-SCREEN"), Some((320, 240)));
    assert_eq!(parse_probe_response(b"boot ok esp32-wifi-screen;240;135;PROTO:USB-SCREEN;v2"), Some((240, 135)));
    assert_eq!(parse_probe_response(b"ESP32-WIFI-SCREEN;PROTO:USB-SCREEN"), Some((240, 240)));
    assert_eq!(parse_probe_response(b"ESP32-WIFI-SCREEN;0;240;PROTO:USB-SCREEN"), Some((240, 240)));
    assert_eq!(parse_probe_response(b"ESP32-WIFI-SCREEN;x;240;PROTO:USB-SCREEN"), Some((240, 240)));
    assert_eq!(parse_probe_response(b"ESP32-WIFI-SCREEN;320;240"), None);
    assert_eq!(parse_probe_response(b"PROTO:USB-SCREEN ESP32-WIFI-SCREEN;1;2;3"), None);
    assert_eq!(parse_probe_response(b"hello"), None);
    assert_eq!(parse_probe_response(b""), None);
}

#[test]
fn probe_reply_waits_for_newline() {
    assert_eq!(probe_command(), b"ReadInfo\n".to_vec());
    assert!(matches!(probe_reply(b"ESP32-WIFI-SCREEN;320;24"), ProbeReply::Pending));
    assert!(matches!(
        probe_reply(b"ESP32-WIFI-SCREEN;320;240;PROTO:USB-SCREEN\r\nrest"),
        ProbeReply::Answered(Some((320, 240)))
    ));
    assert!(matches!(probe_reply(b"junk\nESP32-WIFI-SCREEN;1;1;PROTO:USB-SCREEN\n"), ProbeReply::Answered(None)));
}

#[test]
fn raw_devices_are_classified() {
    let good = RawUsbDevice { product: b"USB Screen".to_vec(), serial_number: b"USBSCR320X240;x".to_vec(), device_address: 12 };
    let info = raw_screen_info(&good).unwrap();
    assert_eq!(info.label, "USB Screen(12)");
    assert_eq!(info.address, "12");
    assert_eq!((info.width, info.height), (320, 240));
    assert!(!info.is_esp32_wifi);
    let other = RawUsbDevice { product: b"Keyboard".to_vec(), serial_number: b"USBSCR320X240".to_vec(), device_address: 3 };
    assert!(raw_screen_info(&other).is_none());
    let no_serial = RawUsbDevice { product: b"USB Screen".to_vec(), serial_number: vec![], device_address: 4 };
    assert!(raw_screen_info(&no_serial).is_none());
    let list = raw_screens(&vec![other, good, no_serial]);
    assert_eq!(list.len(), 1);
    assert_eq!(list[0].address, "12");
}

#[test]
fn serial_ports_three_passes() {
    let ports = vec![
        port("/dev/ttyACM0", true, Some("USBSCR160X80;1")),
        port("/dev/ttyS0", false, None),
        port("/dev/ttyACM1", true, Some("ABC")),
        port("/dev/ttyUSB0", true, None),
    ];
    assert_eq!(ports_to_probe(&ports), vec![false, false, true, true]);
    let mut cache = ProbeCache::new();
    let found = find_usb_serial_device(&ports, &vec![None, None, Some((320, 240)), None], &mut cache);
    let names: Vec<(&str, &str, u16, u16, bool)> = found
        .iter()
        .map(|i| (i.label.as_str(), i.address.as_str(), i.width, i.height, i.is_esp32_wifi))
        .collect();
    assert_eq!(
        names,
        vec![
            ("USB /dev/ttyACM0", "/dev/ttyACM0", 160, 80, false),
            ("ESP32 /dev/ttyACM1", "/dev/ttyACM1", 320, 240, true),
        ]
    );
    assert_eq!(cache.len(), 1);
    assert_eq!(cache.get(&"/dev/ttyACM1".to_string()), Some((320, 240)));

    // The probed screen is now open elsewhere: probing fails, the cache recovers it.
    let again = find_usb_serial_device(&ports, &vec![None, None, None, None], &mut cache);
    assert_eq!(again.len(), 2);
    assert_eq!(again[1].label, "ESP32 /dev/ttyACM1");
    assert_eq!((again[1].width, again[1].height), (320, 240));
    assert!(again[1].is_esp32_wifi);

    // Unplugged: no longer listed, not reported.
    let gone = find_usb_serial_device(&vec![port("/dev/ttyS0", false, None)], &vec![None], &mut cache);
    assert!(gone.is_empty());
}

#[test]
fn probe_cache_replaces_entries() {
    let mut cache = ProbeCache::new();
    let a = "/dev/a".to_string();
    cache.insert(&a, 1, 2);
    cache.insert(&"/dev/b".to_string(), 3, 4);
    cache.insert(&a, 5, 6);
    assert_eq!(cache.len(), 2);
    assert_eq!(cache.get(&a), Some((5, 6)));
    let (name, w, h) = cache.entry(1);
    assert_eq!((name.as_str(), w, h), ("/dev/b", 3, 4));
    assert_eq!(cache.get(&"/dev/c".to_string()), None);
}

#[test]
fn all_devices_raw_first() {
    let raw = vec![RawUsbDevice { product: b"USB Screen".to_vec(), serial_number: b"USBSCR160X128".to_vec(), device_address: 7 }];
    let ports = vec![port("COM3", true, Some("USBSCR240X240;z"))];
    let mut cache = ProbeCache::new();
    let all = find_all_device(&raw, &ports, &vec![None], &mut cache);
    assert_eq!(all.len(), 2);
    assert_eq!(all[0].label, "USB Screen(7)");
    assert_eq!(all[1].label, "USB COM3");
    assert_eq!((all[1].width, all[1].height), (240, 240));
}

fn info(label: &str, w: u16, h: u16, esp32: bool) -> UsbScreenInfo {
    UsbScreenInfo { label: label.to_string(), address: "x".to_string(), width: w, height: h, is_esp32_wifi: esp32 }
}

#[test]
fn links_of_screens() {
    assert_eq!(open_plan(&info("USB Screen(3)", 160, 128, false)), ScreenLink::RawBulk);
    assert_eq!(
        open_plan(&info("ESP32 /dev/ttyACM1", 320, 240, true)),
        ScreenLink::Serial { baud_rate: ESP32_BAUD_RATE, layout: FrameLayout::Combined }
    );
    assert_eq!(
        open_plan(&info("USB COM3", 160, 128, false)),
        ScreenLink::Serial { baud_rate: DEFAULT_BAUD_RATE, layout: FrameLayout::Segmented }
    );
}

#[test]
fn draws_are_bounded_by_the_screen() {
    let screen = info("ESP32 /dev/ttyACM1", 40, 30, true);
    let link = open_plan(&screen);
    let big = vec![0u8; 41 * 30 * 3];
    assert!(draw_writes(&screen, link, 0, 0, &big, 41, 30).unwrap().is_empty());
    let img = vec![255u8; 40 * 30 * 3];
    let writes = draw_writes(&screen, link, 0, 0, &img, 40, 30).unwrap();
    assert_eq!(writes.len(), 1);
    assert!(writes[0].starts_with(&frame_header(40, 30, 0, 0)));
    assert!(writes[0].ends_with(b"image_bb"));
    let raw = info("USB Screen(1)", 40, 30, false);
    let writes = draw_writes(&raw, open_plan(&raw), 1, 2, &img, 40, 30).unwrap();
    assert_eq!(writes.len(), 3);
    assert_eq!(lz4_flex::decompress_size_prepended(&writes[1]).unwrap(), vec![0xFF; 40 * 30 * 2]);
}

#[test]
fn rect_geometry() {
    let r = Rect::from(10, 20, 30, 40);
    assert_eq!((r.left, r.top, r.right, r.bottom), (10, 20, 40, 60));
    assert_eq!((r.width(), r.height()), (30, 40));
    let mut s = Rect::new(0, 0, 10, 10);
    s.set_size(4, 6);
    assert_eq!((s.left, s.top, s.right, s.bottom), (3, 2, 7, 8));
    let mut n = Rect::new(-5, -5, 0, 0);
    n.set_size(3, 3);
    assert_eq!((n.left, n.top, n.right, n.bottom), (-3, -3, -1, -1));
    let d = Rect::default();
    assert_eq!((d.left, d.top, d.right, d.bottom), (0, 0, 0, 0));
}

#[test]
fn decimal_text_of_bytes() {
    assert_eq!(decimal_string(0), "0");
    assert_eq!(decimal_string(7), "7");
    assert_eq!(decimal_string(42), "42");
    assert_eq!(decimal_string(100), "100");
    assert_eq!(decimal_string(255), "255");
}
