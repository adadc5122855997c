//! Connection state machine of the WiFi streaming worker, its shared status
//! record, and the single-slot command queue that feeds it.

use vstd::prelude::*;
use vstd::string::StringExecFns;
use crate::delta::{fresh_state, DeltaEncoder, EncoderState, FrameKind, encode_step, DEFAULT_KEY_FRAME_INTERVAL};

verus! {

/// Connection state of the streaming session.
#[derive(PartialEq, Eq, Structural, Clone, Copy, Debug)]
pub enum Status {
    NotConnected,
    Connected,
    ConnectFail,
    Disconnected,
    Connecting,
}

impl Status {
    /// Display name of the state.
    pub fn name(&self) -> (r: &'static str)
        ensures
            *self == Status::NotConnected ==> r@ == "未连接"@,
            *self == Status::Connected ==> r@ == "连接成功"@,
            *self == Status::ConnectFail ==> r@ == "连接失败"@,
            *self == Status::Disconnected ==> r@ == "连接断开"@,
            *self == Status::Connecting ==> r@ == "正在连接"@,
    {
        match self {
            Status::NotConnected => "未连接",
            Status::Connected => "连接成功",
            Status::ConnectFail => "连接失败",
            Status::Disconnected => "连接断开",
            Status::Connecting => "正在连接",
        }
    }
}

/// What the status record holds.
pub ghost struct StatusView {
    pub ip: Option<Seq<char>>,
    pub status: Status,
    pub delay_ms: u64,
}

/// The session status that callers read: endpoint, connection state, and the
/// pause after each frame.
#[derive(Clone, Debug)]
pub struct StatusInfo {
    pub ip: Option<String>,
    pub status: Status,
    pub delay_ms: u64,
}

/// The view of an optional string.
pub open spec fn opt_view(s: Option<String>) -> Option<Seq<char>> {
    match s {
        Some(v) => Some(v@),
        None => None,
    }
}

impl View for StatusInfo {
    type V = StatusView;

    open spec fn view(&self) -> StatusView {
        StatusView { ip: opt_view(self.ip), status: self.status, delay_ms: self.delay_ms }
    }
}

impl StatusInfo {
    /// The status of a session that never connected: no endpoint, 1 ms pause.
    pub fn new() -> (r: Self)
        ensures
            r@ == (StatusView { ip: None, status: Status::NotConnected, delay_ms: 1 }),
    {
        StatusInfo { ip: None, status: Status::NotConnected, delay_ms: 1 }
    }
}

/// Records a new connection state and endpoint.
pub fn set_status(info: &mut StatusInfo, ip: Option<String>, status: Status)
    ensures
        final(info)@ == (StatusView { ip: opt_view(ip), status, delay_ms: old(info)@.delay_ms }),
{
    info.status = status;
    info.ip = ip;
}

/// Sets the pause after each frame.
pub fn set_delay_ms(info: &mut StatusInfo, delay_ms: u64)
    ensures
        final(info)@ == (StatusView { delay_ms, ..old(info)@ }),
{
    info.delay_ms = delay_ms;
}

/// A copy of the status record.
pub fn get_status(info: &StatusInfo) -> (r: StatusInfo)
    ensures
        r@ == info@,
{
    let ip = match &info.ip {
        Some(s) => Some(s.clone()),
        None => None,
    };
    StatusInfo { ip, status: info.status, delay_ms: info.delay_ms }
}

/// An RGBA picture handed to the worker.
pub struct RgbaFrame {
    pub width: u32,
    pub height: u32,
    /// Row-major RGBA bytes.
    pub pixels: Vec<u8>,
}

/// A command for the streaming worker.
pub enum Message {
    /// Connect to the screen at this address.
    Connect(String),
    /// Close the connection.
    Disconnect,
    /// Send this picture.
    Image(RgbaFrame),
}

/// The slot and the result after a non-blocking send of `msg` into `slot`.
pub open spec fn slot_send<T>(slot: Option<T>, msg: T) -> (Option<T>, Result<(), T>) {
    if slot is Some {
        (slot, Err(msg))
    } else {
        (Some(msg), Ok(()))
    }
}

/// A queue of capacity one. A non-blocking send into a full slot hands the new
/// command back and leaves the queued one in place.
pub struct CommandSlot<T> {
    slot: Option<T>,
}

impl<T> View for CommandSlot<T> {
    type V = Option<T>;

    closed spec fn view(&self) -> Option<T> {
        self.slot
    }
}

impl<T> CommandSlot<T> {
    /// An empty slot.
    pub fn new() -> (r: Self)
        ensures
            r@ is None,
    {
        CommandSlot { slot: None }
    }

    /// Whether a command waits in the slot.
    pub fn is_full(&self) -> (r: bool)
        ensures
            r == self@ is Some,
    {
        self.slot.is_some()
    }

    /// Queues `msg` if the slot is free; otherwise returns it, dropped.
    pub fn try_send(&mut self, msg: T) -> (r: Result<(), T>)
        ensures
            (final(self)@, r) == slot_send(old(self)@, msg),
    {
        if self.slot.is_some() {
            Err(msg)
        } else {
            self.slot = Some(msg);
            Ok(())
        }
    }

    /// Takes the queued command, leaving the slot free.
    pub fn recv(&mut self) -> (r: Option<T>)
        ensures
            r == old(self)@,
            final(self)@ is None,
    {
        self.slot.take()
    }
}

/// Two non-blocking sends into an empty slot with no receive between them:
/// the first is queued, the second is handed back, and the slot then holds
/// only the first.
pub proof fn lemma_drop_latest<T>(first: T, second: T)
    ensures
        slot_send(slot_send(None, first).0, second) == (Some(first), Err::<(), T>(second)),
        slot_send(None, first).1 == Ok::<(), T>(()),
{
}

/// What the worker reads back after sending a frame.
#[derive(PartialEq, Eq, Structural, Clone, Copy, Debug)]
pub enum Reply {
    /// `ACK` or any other text: carry on.
    Ack,
    /// `NACK`: the screen lost track; the next frame must be a key frame.
    Nack,
    /// The screen closed the connection.
    Closed,
    /// No reply within the wait, or a read error.
    Failed,
}

/// What the worker does for an image command.
#[derive(PartialEq, Eq, Structural, Clone, Copy, Debug)]
pub enum ImageAction {
    /// Resize the picture to `width` x `height`, encode it and send it.
    Send { width: u32, height: u32 },
    /// Connected but the screen size is unknown: fetch the screen
    /// configuration and report it with `on_config_fetched`.
    FetchConfig,
    /// Close the socket and reconnect to the last endpoint after `delay_ms`.
    Reconnect { delay_ms: u64 },
}

/// Pause before reconnecting after the connection dropped.
pub const RECONNECT_DELAY_MS: u64 = 3000;

/// What the streaming worker holds.
pub ghost struct SessionView {
    pub status: StatusView,
    pub screen_ip: Seq<char>,
    pub encoder: EncoderState,
    pub connected: bool,
    pub display_size: Option<(u32, u32)>,
}

/// The state of the streaming worker: the shared status, the last endpoint,
/// the differential encoder, whether a socket is open, and the screen size
/// learnt from its configuration.
pub struct StreamSession {
    pub status: StatusInfo,
    screen_ip: String,
    encoder: DeltaEncoder,
    connected: bool,
    display_size: Option<(u32, u32)>,
}

impl View for StreamSession {
    type V = SessionView;

    closed spec fn view(&self) -> SessionView {
        SessionView {
            status: self.status@,
            screen_ip: self.screen_ip@,
            encoder: self.encoder@,
            connected: self.connected,
            display_size: self.display_size,
        }
    }
}

impl StreamSession {
    /// The encoder's key-frame interval is positive.
    pub closed spec fn wf(&self) -> bool {
        self.encoder.wf()
    }

    /// A session that never connected.
    pub fn new() -> (r: Self)
        ensures
            r.wf(),
            r@ == (SessionView {
                status: StatusView { ip: None, status: Status::NotConnected, delay_ms: 1 },
                screen_ip: Seq::empty(),
                encoder: fresh_state(DEFAULT_KEY_FRAME_INTERVAL),
                connected: false,
                display_size: None,
            }),
    {
        StreamSession {
            status: StatusInfo::new(),
            screen_ip: String::new(),
            encoder: DeltaEncoder::new(DEFAULT_KEY_FRAME_INTERVAL),
            connected: false,
            display_size: None,
        }
    }

    /// The last endpoint.
    pub fn screen_ip(&self) -> (r: &String)
        ensures
            r@ == self@.screen_ip,
    {
        &self.screen_ip
    }

    /// The screen size learnt from its configuration.
    pub fn display_size(&self) -> (r: Option<(u32, u32)>)
        ensures
            r == self@.display_size,
    {
        self.display_size
    }

    /// Whether a socket is open.
    pub fn is_connected(&self) -> (r: bool)
        ensures
            r == self@.connected,
    {
        self.connected
    }

    /// `Disconnect`: forget the endpoint, reset the encoder, close the socket.
    pub fn disconnect(&mut self)
        requires
            old(self).wf(),
        ensures
            final(self).wf(),
            final(self)@ == (SessionView {
                status: StatusView { status: Status::Disconnected, ..old(self)@.status },
                screen_ip: Seq::empty(),
                encoder: fresh_state(old(self)@.encoder.interval),
                connected: false,
                ..old(self)@
            }),
    {
        self.screen_ip = String::new();
        self.encoder.reset();
        self.status.status = Status::Disconnected;
        self.connected = false;
    }

    /// `Connect(ip)`: remember the endpoint, reset the encoder, close any old
    /// socket and mark the session as connecting.
    pub fn begin_connect(&mut self, ip: &String)
        requires
            old(self).wf(),
        ensures
            final(self).wf(),
            final(self)@ == (SessionView {
                status: StatusView { ip: Some(ip@), status: Status::Connecting, ..old(self)@.status },
                screen_ip: ip@,
                encoder: fresh_state(old(self)@.encoder.interval),
                connected: false,
                ..old(self)@
            }),
    {
        self.screen_ip = ip.clone();
        self.encoder.reset();
        self.connected = false;
        set_status(&mut self.status, Some(ip.clone()), Status::Connecting);
    }

    /// The screen configuration was fetched (`Some` size) or could not be.
    /// A known size is kept when the fetch fails.
    pub fn on_display_config(&mut self, size: Option<(u32, u32)>)
        ensures
            final(self).wf() == old(self).wf(),
            final(self)@ == (SessionView {
                display_size: if size is Some {
                    size
                } else {
                    old(self)@.display_size
                },
                ..old(self)@
            }),
    {
        if size.is_some() {
            self.display_size = size;
        }
    }

    /// The socket was opened (`true`) or could not be.
    pub fn finish_connect(&mut self, opened: bool)
        requires
            old(self).wf(),
        ensures
            final(self).wf(),
            final(self)@ == (SessionView {
                status: StatusView {
                    ip: None,
                    status: if opened {
                        Status::Connected
                    } else {
                        Status::ConnectFail
                    },
                    ..old(self)@.status
                },
                connected: opened,
                ..old(self)@
            }),
    {
        self.connected = opened;
        let status = if opened {
            Status::Connected
        } else {
            Status::ConnectFail
        };
        set_status(&mut self.status, None, status);
    }

    /// An image command arrived. Connected with a known size: send. Connected
    /// without one: fetch the configuration first. Not connected: reset, mark disconnected and reconnect
    /// to the last endpoint after a pause, if there is one.
    pub fn on_image(&mut self) -> (r: Option<ImageAction>)
        requires
            old(self).wf(),
        ensures
            final(self).wf(),
            old(self)@.connected ==> final(self)@ == (SessionView {
                status: StatusView { status: Status::Connected, ..old(self)@.status },
                ..old(self)@
            }),
            old(self)@.connected && old(self)@.display_size is Some ==> r == Some(
                ImageAction::Send {
                    width: old(self)@.display_size->Some_0.0,
                    height: old(self)@.display_size->Some_0.1,
                },
            ),
            old(self)@.connected && old(self)@.display_size is None ==> r == Some(ImageAction::FetchConfig),
            !old(self)@.connected ==> final(self)@ == (SessionView {
                status: StatusView { ip: None, status: Status::Disconnected, ..old(self)@.status },
                encoder: fresh_state(old(self)@.encoder.interval),
                ..old(self)@
            }),
            !old(self)@.connected ==> r == if old(self)@.screen_ip.len() > 0 {
                Some(ImageAction::Reconnect { delay_ms: RECONNECT_DELAY_MS })
            } else {
                None::<ImageAction>
            },
    {
        if self.connected {
            self.status.status = Status::Connected;
            match self.display_size {
                Some((width, height)) => Some(ImageAction::Send { width, height }),
                None => Some(ImageAction::FetchConfig),
            }
        } else {
            self.encoder.reset();
            set_status(&mut self.status, None, Status::Disconnected);
            if !self.screen_ip.as_str().is_empty() {
                Some(ImageAction::Reconnect { delay_ms: RECONNECT_DELAY_MS })
            } else {
                None
            }
        }
    }

    /// The configuration fetched after `FetchConfig`: with a size, send the
    /// picture at that size; without one, drop the picture and reconnect to
    /// the last endpoint after a pause, if there is one.
    pub fn on_config_fetched(&mut self, size: Option<(u32, u32)>) -> (r: Option<ImageAction>)
        ensures
            final(self).wf() == old(self).wf(),
            size is Some ==> final(self)@ == (SessionView { display_size: size, ..old(self)@ }),
            size is Some ==> r == Some(
                ImageAction::Send { width: size->Some_0.0, height: size->Some_0.1 },
            ),
            size is None ==> final(self)@ == old(self)@,
            size is None ==> r == if old(self)@.screen_ip.len() > 0 {
                Some(ImageAction::Reconnect { delay_ms: RECONNECT_DELAY_MS })
            } else {
                None::<ImageAction>
            },
    {
        match size {
            Some((width, height)) => {
                self.display_size = size;
                Some(ImageAction::Send { width, height })
            },
            None => {
                if !self.screen_ip.as_str().is_empty() {
                    Some(ImageAction::Reconnect { delay_ms: RECONNECT_DELAY_MS })
                } else {
                    None
                }
            },
        }
    }

    /// Encodes one RGB565 picture for sending.
    pub fn encode_frame(&mut self, rgb565: &[u8], width: u16, height: u16) -> (r: (Vec<u8>, FrameKind))
        requires
            old(self).wf(),
        ensures
            final(self).wf(),
            (final(self)@.encoder, r.0@, r.1) == encode_step(old(self)@.encoder, rgb565@, width, height),
            final(self)@ == (SessionView { encoder: final(self)@.encoder, ..old(self)@ }),
    {
        self.encoder.encode(rgb565, width, height)
    }

    /// Writing or flushing the frame failed: drop the socket and reset the encoder.
    pub fn on_write_failed(&mut self)
        requires
            old(self).wf(),
        ensures
            final(self).wf(),
            final(self)@ == (SessionView {
                encoder: fresh_state(old(self)@.encoder.interval),
                connected: false,
                ..old(self)@
            }),
    {
        self.connected = false;
        self.encoder.reset();
    }

    /// The reply to a frame. `NACK` or no reply resets the encoder so the next
    /// frame is a key frame; a close also drops the socket; `ACK` changes nothing.
    pub fn on_reply(&mut self, reply: Reply)
        requires
            old(self).wf(),
        ensures
            final(self).wf(),
            reply == Reply::Ack ==> final(self)@ == old(self)@,
            reply == Reply::Nack || reply == Reply::Failed ==> final(self)@ == (SessionView {
                encoder: fresh_state(old(self)@.encoder.interval),
                ..old(self)@
            }),
            reply == Reply::Closed ==> final(self)@ == (SessionView {
                encoder: fresh_state(old(self)@.encoder.interval),
                connected: false,
                ..old(self)@
            }),
    {
        match reply {
            Reply::Ack => {},
            Reply::Nack | Reply::Failed => {
                self.encoder.reset();
            },
            Reply::Closed => {
                self.connected = false;
                self.encoder.reset();
            },
        }
    }
}

/// Pause before asking an idle or failed session to connect.
pub const CONNECT_DELAY_MS: u64 = 2000;

/// What the render loop does with a freshly rendered frame.
#[derive(PartialEq, Eq, Structural, Clone, Copy, Debug)]
pub enum RenderStep {
    /// Not connected: wait `delay_ms`, then send `Connect` for the screen's address.
    ConnectAfter { delay_ms: u64 },
    /// Connected: offer the frame without blocking; it is dropped if the worker is busy.
    OfferFrame,
    /// A connection attempt is under way: drop the frame.
    Wait,
}

/// The render loop's step for a session in state `status`.
pub fn render_step(status: Status) -> (r: RenderStep)
    ensures
        r == match status {
            Status::NotConnected | Status::ConnectFail | Status::Disconnected => RenderStep::ConnectAfter {
                delay_ms: CONNECT_DELAY_MS,
            },
            Status::Connected => RenderStep::OfferFrame,
            Status::Connecting => RenderStep::Wait,
        },
{
    match status {
        Status::NotConnected | Status::ConnectFail | Status::Disconnected => RenderStep::ConnectAfter {
            delay_ms: CONNECT_DELAY_MS,
        },
        Status::Connected => RenderStep::OfferFrame,
        Status::Connecting => RenderStep::Wait,
    }
}

/// Whatever state the encoder was in, after a `NACK` or a missed reply the
/// next frame is a key frame.
pub proof fn lemma_key_frame_after_failed_reply(s: EncoderState, data: Seq<u8>, width: u16, height: u16)
    requires
        s.interval > 0,
    ensures
        encode_step(fresh_state(s.interval), data, width, height).2 == FrameKind::Key,
{
}

} // verus!
