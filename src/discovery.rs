//! Device identification: USB serial-number convention, raw USB and serial
//! port classification, and the cache of probed WiFi screens.

use vstd::prelude::*;
use vstd::string::{StringExecFns, StringSliceAdditionalSpecFns};
use crate::text::{
    decimal_chars, decimal_string, find_either_from, first_match_from, occurs_at, occurs_at_exec,
    parse_u16, parse_u16_spec,
};

verus! {

/// Width used when the serial number carries none.
pub const DEFAULT_WIDTH: u16 = 160;

/// Height used when the serial number carries none.
pub const DEFAULT_HEIGHT: u16 = 128;

/// Baud rate of serial ports identified by probing.
pub const ESP32_BAUD_RATE: u32 = 2_000_000;

/// Baud rate of the other serial screens.
pub const DEFAULT_BAUD_RATE: u32 = 115_200;

/// `USBSCR`, the serial-number prefix of a screen.
pub open spec fn screen_prefix() -> Seq<u8> {
    seq![85u8, 83u8, 66u8, 83u8, 67u8, 82u8]
}

/// `USB Screen`, the product string of a raw USB screen.
pub open spec fn product_name() -> Seq<u8> {
    seq![85u8, 83u8, 66u8, 32u8, 83u8, 99u8, 114u8, 101u8, 101u8, 110u8]
}

/// The serial number follows the screen convention.
pub open spec fn has_screen_prefix(s: Seq<u8>) -> bool {
    occurs_at(s, screen_prefix(), 0)
}

/// The text of a serial number that holds the size: after the prefix, up to the
/// first `;`, or up to byte 13 when there is none.
pub open spec fn size_window(s: Seq<u8>) -> Seq<u8> {
    let semi = first_match_from(s, 59, 59, 0);
    let end = if semi < s.len() {
        semi
    } else if s.len() < 13 {
        s.len() as int
    } else {
        13
    };
    if end >= 6 {
        s.subrange(6, end)
    } else {
        Seq::empty()
    }
}

/// `<width>X<height>` (either case of `x`; the height ends at a further `x`
/// or at the end); 160 x 128 when there is no `x` or either part is not a `u16`.
pub open spec fn size_fields(w: Seq<u8>) -> (u16, u16) {
    let x1 = first_match_from(w, 120, 88, 0);
    if x1 < w.len() {
        let x2 = first_match_from(w, 120, 88, x1 + 1);
        match (parse_u16_spec(w.subrange(0, x1)), parse_u16_spec(w.subrange(x1 + 1, x2))) {
            (Some(width), Some(height)) => (width, height),
            _ => (DEFAULT_WIDTH, DEFAULT_HEIGHT),
        }
    } else {
        (DEFAULT_WIDTH, DEFAULT_HEIGHT)
    }
}

/// The screen size that a serial number declares.
pub open spec fn screen_size_spec(s: Seq<u8>) -> (u16, u16) {
    size_fields(size_window(s))
}

/// What a device record holds.
pub ghost struct ScreenInfoView {
    pub label: Seq<char>,
    pub address: Seq<char>,
    pub width: u16,
    pub height: u16,
    pub is_esp32_wifi: bool,
}

/// A discovered screen.
#[derive(Clone, Debug)]
pub struct UsbScreenInfo {
    /// Human-readable name.
    pub label: String,
    /// USB device address (raw USB) or serial port name.
    pub address: String,
    pub width: u16,
    pub height: u16,
    /// Found by probing: needs the high baud rate and the combined frame layout.
    pub is_esp32_wifi: bool,
}

impl View for UsbScreenInfo {
    type V = ScreenInfoView;

    open spec fn view(&self) -> ScreenInfoView {
        ScreenInfoView {
            label: self.label@,
            address: self.address@,
            width: self.width,
            height: self.height,
            is_esp32_wifi: self.is_esp32_wifi,
        }
    }
}

/// The records of a list of devices.
pub open spec fn infos_view(s: Seq<UsbScreenInfo>) -> Seq<ScreenInfoView> {
    s.map_values(|i: UsbScreenInfo| i@)
}

/// Whether `s` starts with `pat`.
fn starts_with_bytes(s: &[u8], pat: &[u8]) -> (r: bool)
    ensures
        r == occurs_at(s@, pat@, 0),
{
    occurs_at_exec(s, pat, 0)
}

/// Whether two byte strings are equal.
fn bytes_equal(a: &[u8], b: &[u8]) -> (r: bool)
    ensures
        r == (a@ == b@),
{
    if a.len() != b.len() {
        return false;
    }
    let r = occurs_at_exec(a, b, 0);
    assert(r ==> a@.subrange(0, b@.len() as int) == b@);
    assert(a@.subrange(0, a@.len() as int) =~= a@);
    r
}

/// Whether a serial number follows the screen convention (`USBSCR...`).
pub fn is_screen_serial(serial_number: &[u8]) -> (r: bool)
    ensures
        r == has_screen_prefix(serial_number@),
{
    let prefix: Vec<u8> = vec![85u8, 83, 66, 83, 67, 82];
    starts_with_bytes(serial_number, prefix.as_slice())
}

/// The screen size declared in a serial number, as bytes.
pub fn screen_size_from_bytes(s: &[u8]) -> (r: (u16, u16))
    ensures
        r == screen_size_spec(s@),
{
    let semi = find_either_from(s, 59, 59, 0);
    let end: usize = if semi < s.len() {
        semi
    } else if s.len() < 13 {
        s.len()
    } else {
        13
    };
    let w: &[u8] = if end >= 6 {
        &s[6..end]
    } else {
        &s[0..0]
    };
    assert(w@ =~= size_window(s@));
    let x1 = find_either_from(w, 120, 88, 0);
    if x1 >= w.len() {
        return (DEFAULT_WIDTH, DEFAULT_HEIGHT);
    }
    let x2 = find_either_from(w, 120, 88, x1 + 1);
    match (parse_u16(w, 0, x1), parse_u16(w, x1 + 1, x2)) {
        (Some(width), Some(height)) => (width, height),
        _ => (DEFAULT_WIDTH, DEFAULT_HEIGHT),
    }
}

/// The screen size declared in a serial number `USBSCR<w>X<h>;...`;
/// 160 x 128 when the text does not give both parts.
pub fn get_screen_size_from_serial_number(serial_number: &str) -> (r: (u16, u16))
    ensures
        r == screen_size_spec(serial_number.spec_bytes()),
{
    screen_size_from_bytes(serial_number.as_bytes())
}

/// One device of the raw USB listing.
pub struct RawUsbDevice {
    /// Product string, empty when the device reports none.
    pub product: Vec<u8>,
    /// Serial number, empty when the device reports none.
    pub serial_number: Vec<u8>,
    pub device_address: u8,
}

/// A raw USB device is a screen.
pub open spec fn raw_is_screen(d: RawUsbDevice) -> bool {
    d.product@ == product_name() && has_screen_prefix(d.serial_number@)
}

/// The record of a raw USB screen.
pub open spec fn raw_info(d: RawUsbDevice) -> ScreenInfoView {
    ScreenInfoView {
        label: "USB Screen("@ + decimal_chars(d.device_address as nat) + ")"@,
        address: decimal_chars(d.device_address as nat),
        width: screen_size_spec(d.serial_number@).0,
        height: screen_size_spec(d.serial_number@).1,
        is_esp32_wifi: false,
    }
}

/// The screens among the first `n` raw USB devices, in listing order.
pub open spec fn raw_screens_spec(devices: Seq<RawUsbDevice>, n: int) -> Seq<ScreenInfoView>
    decreases n,
{
    if n <= 0 {
        Seq::empty()
    } else if raw_is_screen(devices[n - 1]) {
        raw_screens_spec(devices, n - 1).push(raw_info(devices[n - 1]))
    } else {
        raw_screens_spec(devices, n - 1)
    }
}

/// Classifies one raw USB device: a screen has the product string `USB Screen`
/// and a serial number that starts with `USBSCR`.
pub fn raw_screen_info(device: &RawUsbDevice) -> (r: Option<UsbScreenInfo>)
    ensures
        r is Some <==> raw_is_screen(*device),
        r matches Some(info) ==> info@ == raw_info(*device),
{
    let product: Vec<u8> = vec![85u8, 83, 66, 32, 83, 99, 114, 101, 101, 110];
    if !bytes_equal(device.product.as_slice(), product.as_slice()) || !is_screen_serial(
        device.serial_number.as_slice(),
    ) {
        return None;
    }
    let (width, height) = screen_size_from_bytes(device.serial_number.as_slice());
    let address = decimal_string(device.device_address);
    let label = String::from_str("USB Screen(").concat(address.as_str()).concat(")");
    Some(UsbScreenInfo { label, address, width, height, is_esp32_wifi: false })
}

/// The screens of a raw USB listing, in listing order.
pub fn raw_screens(devices: &Vec<RawUsbDevice>) -> (r: Vec<UsbScreenInfo>)
    ensures
        infos_view(r@) == raw_screens_spec(devices@, devices@.len() as int),
{
    let mut r: Vec<UsbScreenInfo> = Vec::new();
    let mut i: usize = 0;
    while i < devices.len()
        invariant
            i <= devices@.len(),
            infos_view(r@) == raw_screens_spec(devices@, i as int),
        decreases devices@.len() - i,
    {
        let ghost before = r@;
        match raw_screen_info(&devices[i]) {
            Some(info) => {
                r.push(info);
                assert(infos_view(r@) =~= infos_view(before).push(raw_info(devices@[i as int])));
            },
            None => {},
        }
        i = i + 1;
    }
    r
}

/// One port of the serial port listing.
pub struct SerialPortEntry {
    pub port_name: String,
    /// The port is a USB serial port.
    pub is_usb: bool,
    /// The USB serial number, where the system reports one.
    pub serial_number: Option<Vec<u8>>,
}

/// A serial port that its serial number identifies as a screen.
pub open spec fn serial_match(p: SerialPortEntry) -> bool {
    p.is_usb && (p.serial_number matches Some(sn) && has_screen_prefix(sn@))
}

/// The record of a port identified by its serial number.
pub open spec fn serial_info(p: SerialPortEntry) -> ScreenInfoView {
    ScreenInfoView {
        label: "USB "@ + p.port_name@,
        address: p.port_name@,
        width: screen_size_spec(p.serial_number->Some_0@).0,
        height: screen_size_spec(p.serial_number->Some_0@).1,
        is_esp32_wifi: false,
    }
}

/// The record of a WiFi screen found behind port `name`.
pub open spec fn esp32_info(name: Seq<char>, width: u16, height: u16) -> ScreenInfoView {
    ScreenInfoView {
        label: "ESP32 "@ + name,
        address: name,
        width,
        height,
        is_esp32_wifi: true,
    }
}

/// Screens identified by serial number among the first `n` ports, in listing order.
pub open spec fn serial_pass(ports: Seq<SerialPortEntry>, n: int) -> Seq<ScreenInfoView>
    decreases n,
{
    if n <= 0 {
        Seq::empty()
    } else if serial_match(ports[n - 1]) {
        serial_pass(ports, n - 1).push(serial_info(ports[n - 1]))
    } else {
        serial_pass(ports, n - 1)
    }
}

/// Some port named `name` is identified by its serial number.
pub open spec fn matched_by_serial(ports: Seq<SerialPortEntry>, name: Seq<char>) -> bool {
    exists|j: int| 0 <= j < ports.len() && serial_match(#[trigger] ports[j]) && ports[j].port_name@ == name
}

/// Port `i` is to be probed: a USB port, not identified by serial number, and
/// the first port of its name in the listing.
pub open spec fn needs_probe(ports: Seq<SerialPortEntry>, i: int) -> bool {
    &&& ports[i].is_usb
    &&& !matched_by_serial(ports, ports[i].port_name@)
    &&& forall|j: int| 0 <= j < i ==> (#[trigger] ports[j]).port_name@ != ports[i].port_name@
}

/// Screens found by probing among the first `n` ports, in listing order.
pub open spec fn probe_pass(
    ports: Seq<SerialPortEntry>,
    probes: Seq<Option<(u16, u16)>>,
    n: int,
) -> Seq<ScreenInfoView>
    decreases n,
{
    if n <= 0 {
        Seq::empty()
    } else if needs_probe(ports, n - 1) && probes[n - 1] is Some {
        probe_pass(ports, probes, n - 1).push(
            esp32_info(ports[n - 1].port_name@, probes[n - 1]->Some_0.0, probes[n - 1]->Some_0.1),
        )
    } else {
        probe_pass(ports, probes, n - 1)
    }
}

/// Some port named `name` was identified by probing.
pub open spec fn found_by_probe(
    ports: Seq<SerialPortEntry>,
    probes: Seq<Option<(u16, u16)>>,
    name: Seq<char>,
) -> bool {
    exists|i: int|
        0 <= i < ports.len() && needs_probe(ports, i) && (#[trigger] probes[i]) is Some
            && ports[i].port_name@ == name
}

/// Some USB port named `name` is in the listing.
pub open spec fn usb_port_listed(ports: Seq<SerialPortEntry>, name: Seq<char>) -> bool {
    exists|i: int| 0 <= i < ports.len() && (#[trigger] ports[i]).is_usb && ports[i].port_name@ == name
}

/// A cache entry: port name, width, height.
pub type CacheEntryView = (Seq<char>, u16, u16);

/// No two entries share a port name.
pub open spec fn names_unique(c: Seq<CacheEntryView>) -> bool {
    forall|i: int, j: int| 0 <= i < c.len() && 0 <= j < c.len() && i != j ==> (#[trigger] c[i]).0 != (#[trigger] c[j]).0
}

/// The cache holds an entry for `name`.
pub open spec fn cache_has(c: Seq<CacheEntryView>, name: Seq<char>) -> bool {
    exists|i: int| 0 <= i < c.len() && (#[trigger] c[i]).0 == name
}

/// The cache after recording `(name, width, height)`: an entry of that name is
/// replaced in place, otherwise the entry is added at the end.
pub open spec fn cache_insert(c: Seq<CacheEntryView>, name: Seq<char>, width: u16, height: u16) -> Seq<
    CacheEntryView,
> {
    if cache_has(c, name) {
        let i = choose|i: int| 0 <= i < c.len() && (#[trigger] c[i]).0 == name;
        c.update(i, (name, width, height))
    } else {
        c.push((name, width, height))
    }
}

/// The cache after the successful probes among the first `n` ports.
pub open spec fn cache_after_probes(
    c: Seq<CacheEntryView>,
    ports: Seq<SerialPortEntry>,
    probes: Seq<Option<(u16, u16)>>,
    n: int,
) -> Seq<CacheEntryView>
    decreases n,
{
    if n <= 0 {
        c
    } else if needs_probe(ports, n - 1) && probes[n - 1] is Some {
        cache_insert(
            cache_after_probes(c, ports, probes, n - 1),
            ports[n - 1].port_name@,
            probes[n - 1]->Some_0.0,
            probes[n - 1]->Some_0.1,
        )
    } else {
        cache_after_probes(c, ports, probes, n - 1)
    }
}

/// Screens recovered from the first `n` cache entries: still listed as USB
/// ports, but identified neither by serial number nor by probing.
pub open spec fn cache_pass(
    c: Seq<CacheEntryView>,
    ports: Seq<SerialPortEntry>,
    probes: Seq<Option<(u16, u16)>>,
    n: int,
) -> Seq<ScreenInfoView>
    decreases n,
{
    if n <= 0 {
        Seq::empty()
    } else if usb_port_listed(ports, c[n - 1].0) && !matched_by_serial(ports, c[n - 1].0)
        && !found_by_probe(ports, probes, c[n - 1].0) {
        cache_pass(c, ports, probes, n - 1).push(esp32_info(c[n - 1].0, c[n - 1].1, c[n - 1].2))
    } else {
        cache_pass(c, ports, probes, n - 1)
    }
}

/// One remembered probe result.
pub struct CacheEntry {
    pub port_name: String,
    pub width: u16,
    pub height: u16,
}

/// Sizes of the WiFi screens found by probing, by port name, in the order they
/// were first found. A probed port cannot be probed again while it is open,
/// so its size is taken from here.
pub struct ProbeCache {
    entries: Vec<CacheEntry>,
}

impl View for ProbeCache {
    type V = Seq<CacheEntryView>;

    closed spec fn view(&self) -> Seq<CacheEntryView> {
        self.entries@.map_values(|e: CacheEntry| (e.port_name@, e.width, e.height))
    }
}

impl ProbeCache {
    /// Port names are unique.
    pub open spec fn wf(&self) -> bool {
        names_unique(self@)
    }

    /// An empty cache.
    pub fn new() -> (r: Self)
        ensures
            r@ == Seq::<CacheEntryView>::empty(),
            r.wf(),
    {
        let r = ProbeCache { entries: Vec::new() };
        assert(r@ =~= Seq::<CacheEntryView>::empty());
        r
    }

    /// Number of entries.
    pub fn len(&self) -> (r: usize)
        ensures
            r == self@.len(),
    {
        self.entries.len()
    }

    /// Entry `i`: port name, width, height.
    pub fn entry(&self, i: usize) -> (r: (&String, u16, u16))
        requires
            i < self@.len(),
        ensures
            (r.0@, r.1, r.2) == self@[i as int],
    {
        let e = &self.entries[i];
        (&e.port_name, e.width, e.height)
    }

    /// Index of the entry for `name`, if any.
    pub fn position(&self, name: &String) -> (r: Option<usize>)
        requires
            self.wf(),
        ensures
            r is Some <==> cache_has(self@, name@),
            r matches Some(i) ==> i < self@.len() && self@[i as int].0 == name@,
    {
        let mut i: usize = 0;
        while i < self.entries.len()
            invariant
                i <= self@.len(),
                self@.len() == self.entries@.len(),
                forall|j: int| 0 <= j < i ==> (#[trigger] self@[j]).0 != name@,
            decreases self.entries@.len() - i,
        {
            if self.entries[i].port_name == *name {
                assert(self@[i as int].0 == name@);
                return Some(i);
            }
            i = i + 1;
        }
        None
    }

    /// The size remembered for `name`, if any.
    pub fn get(&self, name: &String) -> (r: Option<(u16, u16)>)
        requires
            self.wf(),
        ensures
            r is Some <==> cache_has(self@, name@),
            r matches Some(wh) ==> exists|i: int|
                0 <= i < self@.len() && (#[trigger] self@[i]) == (name@, wh.0, wh.1),
    {
        match self.position(name) {
            Some(i) => {
                let e = &self.entries[i];
                assert(self@[i as int] == (name@, e.width, e.height));
                Some((e.width, e.height))
            },
            None => None,
        }
    }

    /// Records the size found for port `name`.
    pub fn insert(&mut self, name: &String, width: u16, height: u16)
        requires
            old(self).wf(),
        ensures
            final(self).wf(),
            final(self)@ == cache_insert(old(self)@, name@, width, height),
    {
        match self.position(name) {
            Some(i) => {
                let ghost c = self@;
                self.entries.set(i, CacheEntry { port_name: name.clone(), width, height });
                proof {
                    let k = choose|k: int| 0 <= k < c.len() && (#[trigger] c[k]).0 == name@;
                    assert(k == i as int);
                    assert(self@ =~= c.update(i as int, (name@, width, height)));
                }
            },
            None => {
                let ghost c = self@;
                self.entries.push(CacheEntry { port_name: name.clone(), width, height });
                assert(self@ =~= c.push((name@, width, height)));
            },
        }
    }
}

/// Whether some port named `name` is identified by its serial number.
fn matched_by_serial_exec(ports: &Vec<SerialPortEntry>, name: &String) -> (r: bool)
    ensures
        r == matched_by_serial(ports@, name@),
{
    let mut j: usize = 0;
    while j < ports.len()
        invariant
            j <= ports@.len(),
            forall|k: int| 0 <= k < j ==> !(serial_match(#[trigger] ports@[k]) && ports@[k].port_name@ == name@),
        decreases ports@.len() - j,
    {
        let p = &ports[j];
        if p.is_usb && p.port_name == *name {
            match &p.serial_number {
                Some(sn) => {
                    if is_screen_serial(sn.as_slice()) {
                        return true;
                    }
                },
                None => {},
            }
        }
        j = j + 1;
    }
    false
}

/// Whether some USB port named `name` is listed.
fn usb_port_listed_exec(ports: &Vec<SerialPortEntry>, name: &String) -> (r: bool)
    ensures
        r == usb_port_listed(ports@, name@),
{
    let mut j: usize = 0;
    while j < ports.len()
        invariant
            j <= ports@.len(),
            forall|k: int| 0 <= k < j ==> !((#[trigger] ports@[k]).is_usb && ports@[k].port_name@ == name@),
        decreases ports@.len() - j,
    {
        if ports[j].is_usb && ports[j].port_name == *name {
            return true;
        }
        j = j + 1;
    }
    false
}

/// Which ports are to be probed with the `ReadInfo` handshake.
pub fn ports_to_probe(ports: &Vec<SerialPortEntry>) -> (r: Vec<bool>)
    ensures
        r@.len() == ports@.len(),
        forall|i: int| 0 <= i < ports@.len() ==> r@[i] == needs_probe(ports@, i),
{
    let mut r: Vec<bool> = Vec::new();
    let mut i: usize = 0;
    while i < ports.len()
        invariant
            i <= ports@.len(),
            r@.len() == i,
            forall|k: int| 0 <= k < i ==> r@[k] == needs_probe(ports@, k),
        decreases ports@.len() - i,
    {
        let name = &ports[i].port_name;
        let mut first = true;
        let mut j: usize = 0;
        while j < i
            invariant
                i < ports@.len(),
                j <= i,
                *name == ports@[i as int].port_name,
                first == forall|k: int| 0 <= k < j ==> (#[trigger] ports@[k]).port_name@ != name@,
            decreases i - j,
        {
            if ports[j].port_name == *name {
                first = false;
            }
            j = j + 1;
        }
        let probe = ports[i].is_usb && first && !matched_by_serial_exec(ports, name);
        r.push(probe);
        i = i + 1;
    }
    r
}

/// Whether some port named `name` was identified by probing.
fn found_by_probe_exec(
    ports: &Vec<SerialPortEntry>,
    to_probe: &Vec<bool>,
    probes: &Vec<Option<(u16, u16)>>,
    name: &String,
) -> (r: bool)
    requires
        to_probe@.len() == ports@.len(),
        probes@.len() == ports@.len(),
        forall|i: int| 0 <= i < ports@.len() ==> to_probe@[i] == needs_probe(ports@, i),
    ensures
        r == found_by_probe(ports@, probes@, name@),
{
    let mut i: usize = 0;
    while i < ports.len()
        invariant
            i <= ports@.len(),
            to_probe@.len() == ports@.len(),
            probes@.len() == ports@.len(),
            forall|k: int| 0 <= k < ports@.len() ==> to_probe@[k] == needs_probe(ports@, k),
            forall|k: int|
                0 <= k < i ==> !(needs_probe(ports@, k) && (#[trigger] probes@[k]) is Some
                    && ports@[k].port_name@ == name@),
        decreases ports@.len() - i,
    {
        if to_probe[i] && probes[i].is_some() && ports[i].port_name == *name {
            return true;
        }
        i = i + 1;
    }
    false
}

/// The record of a WiFi screen found behind port `name`.
fn esp32_screen(name: &String, width: u16, height: u16) -> (r: UsbScreenInfo)
    ensures
        r@ == esp32_info(name@, width, height),
{
    let label = String::from_str("ESP32 ").concat(name.as_str());
    UsbScreenInfo { label, address: name.clone(), width, height, is_esp32_wifi: true }
}

/// Classifies the serial ports in three passes: by serial number; by the
/// outcome of probing (`probes[i]` is the size that port `i` announced, and is
/// read only for the ports that `ports_to_probe` selects), recording each find
/// in the cache; and from the cache, for listed USB ports that neither pass
/// identified.
pub fn find_usb_serial_device(
    ports: &Vec<SerialPortEntry>,
    probes: &Vec<Option<(u16, u16)>>,
    cache: &mut ProbeCache,
) -> (r: Vec<UsbScreenInfo>)
    requires
        probes@.len() == ports@.len(),
        old(cache).wf(),
    ensures
        final(cache).wf(),
        final(cache)@ == cache_after_probes(old(cache)@, ports@, probes@, ports@.len() as int),
        infos_view(r@) == serial_pass(ports@, ports@.len() as int) + probe_pass(
            ports@,
            probes@,
            ports@.len() as int,
        ) + cache_pass(final(cache)@, ports@, probes@, final(cache)@.len() as int),
{
    let n = ports.len();
    let mut devices: Vec<UsbScreenInfo> = Vec::new();
    let mut i: usize = 0;
    while i < n
        invariant
            n == ports@.len(),
            i <= n,
            infos_view(devices@) == serial_pass(ports@, i as int),
        decreases n - i,
    {
        let p = &ports[i];
        let ghost before = devices@;
        if p.is_usb {
            match &p.serial_number {
                Some(sn) => {
                    if is_screen_serial(sn.as_slice()) {
                        let (width, height) = screen_size_from_bytes(sn.as_slice());
                        let label = String::from_str("USB ").concat(p.port_name.as_str());
                        devices.push(
                            UsbScreenInfo {
                                label,
                                address: p.port_name.clone(),
                                width,
                                height,
                                is_esp32_wifi: false,
                            },
                        );
                        assert(infos_view(devices@) =~= infos_view(before).push(
                            serial_info(ports@[i as int]),
                        ));
                    }
                },
                None => {},
            }
        }
        i = i + 1;
    }
    let ghost first = infos_view(devices@);
    let to_probe = ports_to_probe(ports);
    let ghost c0 = cache@;
    i = 0;
    while i < n
        invariant
            n == ports@.len(),
            probes@.len() == n,
            to_probe@.len() == n,
            forall|k: int| 0 <= k < n ==> to_probe@[k] == needs_probe(ports@, k),
            i <= n,
            cache.wf(),
            cache@ == cache_after_probes(c0, ports@, probes@, i as int),
            first == serial_pass(ports@, n as int),
            infos_view(devices@) == first + probe_pass(ports@, probes@, i as int),
        decreases n - i,
    {
        if to_probe[i] {
            match probes[i] {
                Some((width, height)) => {
                    let ghost before = devices@;
                    let name = &ports[i].port_name;
                    cache.insert(name, width, height);
                    devices.push(esp32_screen(name, width, height));
                    assert(infos_view(devices@) =~= infos_view(before).push(
                        esp32_info(name@, width, height),
                    ));
                },
                None => {},
            }
        }
        i = i + 1;
    }
    let ghost second = infos_view(devices@);
    let mut k: usize = 0;
    while k < cache.len()
        invariant
            n == ports@.len(),
            probes@.len() == n,
            to_probe@.len() == n,
            forall|j: int| 0 <= j < n ==> to_probe@[j] == needs_probe(ports@, j),
            k <= cache@.len(),
            cache.wf(),
            cache@ == cache_after_probes(c0, ports@, probes@, n as int),
            second == serial_pass(ports@, n as int) + probe_pass(ports@, probes@, n as int),
            infos_view(devices@) == second + cache_pass(cache@, ports@, probes@, k as int),
        decreases cache@.len() - k,
    {
        let (name, width, height) = cache.entry(k);
        if usb_port_listed_exec(ports, name) && !matched_by_serial_exec(ports, name)
            && !found_by_probe_exec(ports, &to_probe, probes, name) {
            let ghost before = devices@;
            devices.push(esp32_screen(name, width, height));
            assert(infos_view(devices@) =~= infos_view(before).push(
                esp32_info(name@, width, height),
            ));
        }
        k = k + 1;
    }
    devices
}

/// Every screen in reach: raw USB screens first, then the serial ones.
pub fn find_all_device(
    raw_devices: &Vec<RawUsbDevice>,
    ports: &Vec<SerialPortEntry>,
    probes: &Vec<Option<(u16, u16)>>,
    cache: &mut ProbeCache,
) -> (r: Vec<UsbScreenInfo>)
    requires
        probes@.len() == ports@.len(),
        old(cache).wf(),
    ensures
        final(cache).wf(),
        final(cache)@ == cache_after_probes(old(cache)@, ports@, probes@, ports@.len() as int),
        infos_view(r@) == raw_screens_spec(raw_devices@, raw_devices@.len() as int) + serial_pass(
            ports@,
            ports@.len() as int,
        ) + probe_pass(ports@, probes@, ports@.len() as int) + cache_pass(
            final(cache)@,
            ports@,
            probes@,
            final(cache)@.len() as int,
        ),
{
    let mut devices = raw_screens(raw_devices);
    let mut serial = find_usb_serial_device(ports, probes, cache);
    let ghost a = devices@;
    let ghost b = serial@;
    devices.append(&mut serial);
    assert(infos_view(devices@) =~= infos_view(a) + infos_view(b));
    devices
}

} // verus!
