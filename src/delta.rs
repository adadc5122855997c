//! Differential frame encoder of the WiFi streaming protocol: key frames,
//! XOR delta frames and no-change frames, each `MAGIC(8) + WIDTH(2) + HEIGHT(2) + LZ4 block`.

use vstd::prelude::*;
use crate::framing::{be16, push_u16_be};
use crate::lz4::{append_bytes, compress_prepend_size, lz4_block};

verus! {

/// A compressed delta shorter than this means the picture did not change.
pub const NO_CHANGE_THRESHOLD: usize = 200;

/// Key-frame interval used by the streaming worker.
pub const DEFAULT_KEY_FRAME_INTERVAL: u32 = 60;

/// The three kinds of WiFi frame.
#[derive(PartialEq, Eq, Structural, Clone, Copy, Debug)]
pub enum FrameKind {
    /// The whole compressed picture.
    Key,
    /// The compressed XOR of the picture with the reference frame.
    Delta,
    /// No payload: the picture is unchanged.
    NoChange,
}

impl FrameKind {
    /// Short tag of the kind: `KEY`, `DLT` or `NOP`.
    pub fn name(&self) -> &'static str {
        match self {
            FrameKind::Key => "KEY",
            FrameKind::Delta => "DLT",
            FrameKind::NoChange => "NOP",
        }
    }
}

/// The eight magic bytes that open a frame of each kind
/// (`wflz4ke_`, `wflz4dl_`, `wflz4no_` in ASCII).
pub open spec fn magic_of(kind: FrameKind) -> Seq<u8> {
    match kind {
        FrameKind::Key => seq![119u8, 102u8, 108u8, 122u8, 52u8, 107u8, 101u8, 95u8],
        FrameKind::Delta => seq![119u8, 102u8, 108u8, 122u8, 52u8, 100u8, 108u8, 95u8],
        FrameKind::NoChange => seq![119u8, 102u8, 108u8, 122u8, 52u8, 110u8, 111u8, 95u8],
    }
}

/// A complete WiFi frame.
pub open spec fn wifi_frame(kind: FrameKind, width: u16, height: u16, payload: Seq<u8>) -> Seq<u8> {
    magic_of(kind) + be16(width) + be16(height) + payload
}

/// Byte-wise XOR of two buffers of the same length.
pub open spec fn xor_seq(a: Seq<u8>, b: Seq<u8>) -> Seq<u8> {
    Seq::new(a.len(), |i: int| a[i] ^ b[i])
}

/// The frame counter after one more frame, wrapping at `u32::MAX`.
pub open spec fn next_count(c: u32) -> u32 {
    if c == u32::MAX {
        0
    } else {
        (c + 1) as u32
    }
}

/// What the encoder holds: the reference frame and its dimensions, the frame
/// counter and the key-frame interval.
pub ghost struct EncoderState {
    pub prev: Seq<u8>,
    pub size: Option<(u16, u16)>,
    pub count: u32,
    pub interval: u32,
}

/// The state of a new or reset encoder.
pub open spec fn fresh_state(interval: u32) -> EncoderState {
    EncoderState { prev: Seq::empty(), size: None, count: 0, interval }
}

/// A key frame is due: no reference of these dimensions or this length, first
/// frame, or interval reached.
pub open spec fn needs_key(s: EncoderState, data: Seq<u8>, width: u16, height: u16) -> bool {
    s.size != Some((width, height)) || s.prev.len() != data.len() || s.count == 0 || s.count
        % s.interval == 0
}

/// The next state, the frame sent and its kind, when `data` is encoded in state `s`.
pub open spec fn encode_step(s: EncoderState, data: Seq<u8>, width: u16, height: u16) -> (
    EncoderState,
    Seq<u8>,
    FrameKind,
) {
    let stored = EncoderState {
        prev: data,
        size: Some((width, height)),
        count: next_count(s.count),
        interval: s.interval,
    };
    if needs_key(s, data, width, height) {
        (stored, wifi_frame(FrameKind::Key, width, height, lz4_block(data)), FrameKind::Key)
    } else {
        let d = lz4_block(xor_seq(data, s.prev));
        if d.len() < NO_CHANGE_THRESHOLD {
            (
                EncoderState { count: next_count(s.count), ..s },
                wifi_frame(FrameKind::NoChange, width, height, Seq::empty()),
                FrameKind::NoChange,
            )
        } else if d.len() >= lz4_block(data).len() {
            (stored, wifi_frame(FrameKind::Key, width, height, lz4_block(data)), FrameKind::Key)
        } else {
            (stored, wifi_frame(FrameKind::Delta, width, height, d), FrameKind::Delta)
        }
    }
}

/// The kind of a non-key-due frame, from the compressed sizes of its delta and
/// of the whole picture: no change below the threshold, a key frame when the
/// delta is not smaller, a delta frame otherwise.
pub open spec fn kind_for(delta_len: nat, key_len: nat) -> FrameKind {
    if delta_len < NO_CHANGE_THRESHOLD {
        FrameKind::NoChange
    } else if delta_len >= key_len {
        FrameKind::Key
    } else {
        FrameKind::Delta
    }
}

/// The kinds of `n` frames of the same picture encoded one after another from state `s`.
pub open spec fn encode_run(s: EncoderState, data: Seq<u8>, width: u16, height: u16, n: nat) -> Seq<
    FrameKind,
>
    decreases n,
{
    if n == 0 {
        Seq::empty()
    } else {
        let (next, _frame, kind) = encode_step(s, data, width, height);
        seq![kind] + encode_run(next, data, width, height, (n - 1) as nat)
    }
}

/// Differential encoder for one streaming session.
pub struct DeltaEncoder {
    prev_frame: Vec<u8>,
    prev_size: Option<(u16, u16)>,
    frame_count: u32,
    key_frame_interval: u32,
}

impl View for DeltaEncoder {
    type V = EncoderState;

    closed spec fn view(&self) -> EncoderState {
        EncoderState {
            prev: self.prev_frame@,
            size: self.prev_size,
            count: self.frame_count,
            interval: self.key_frame_interval,
        }
    }
}

/// Appends the eight magic bytes of `kind`.
fn push_magic(out: &mut Vec<u8>, kind: FrameKind)
    ensures
        final(out)@ == old(out)@ + magic_of(kind),
{
    let tag: u8 = match kind {
        FrameKind::Key => 107u8,
        FrameKind::Delta => 100u8,
        FrameKind::NoChange => 110u8,
    };
    let tail: u8 = match kind {
        FrameKind::Key => 101u8,
        FrameKind::Delta => 108u8,
        FrameKind::NoChange => 111u8,
    };
    out.push(119u8);
    out.push(102u8);
    out.push(108u8);
    out.push(122u8);
    out.push(52u8);
    out.push(tag);
    out.push(tail);
    out.push(95u8);
    assert(final(out)@ =~= old(out)@ + magic_of(kind));
}

/// Builds a WiFi frame of the given kind around `payload`.
pub fn build_wifi_frame(kind: FrameKind, width: u16, height: u16, payload: &[u8]) -> (r: Vec<u8>)
    ensures
        r@ == wifi_frame(kind, width, height, payload@),
{
    let mut r: Vec<u8> = Vec::new();
    push_magic(&mut r, kind);
    push_u16_be(&mut r, width);
    push_u16_be(&mut r, height);
    append_bytes(&mut r, payload);
    assert(r@ =~= wifi_frame(kind, width, height, payload@));
    r
}

/// Byte-wise XOR of the current picture with the reference frame.
pub fn xor_delta(current: &[u8], reference: &[u8]) -> (r: Vec<u8>)
    requires
        current@.len() == reference@.len(),
    ensures
        r@ == xor_seq(current@, reference@),
{
    let mut r: Vec<u8> = Vec::new();
    let mut i: usize = 0;
    while i < current.len()
        invariant
            current@.len() == reference@.len(),
            i <= current@.len(),
            r@ =~= xor_seq(current@, reference@).subrange(0, i as int),
        decreases current@.len() - i,
    {
        r.push(current[i] ^ reference[i]);
        i = i + 1;
    }
    assert(r@ =~= xor_seq(current@, reference@));
    r
}

/// Chooses between a no-change, key or delta frame from the compressed size of
/// the delta and of the whole picture.
pub fn delta_frame_kind(delta_len: usize, key_len: usize) -> (r: FrameKind)
    ensures
        r == kind_for(delta_len as nat, key_len as nat),
{
    if delta_len < NO_CHANGE_THRESHOLD {
        FrameKind::NoChange
    } else if delta_len >= key_len {
        FrameKind::Key
    } else {
        FrameKind::Delta
    }
}

/// A copy of `data` in a new vector.
fn copy_bytes(data: &[u8]) -> (r: Vec<u8>)
    ensures
        r@ == data@,
{
    let mut r: Vec<u8> = Vec::new();
    append_bytes(&mut r, data);
    assert(r@ =~= data@);
    r
}

impl DeltaEncoder {
    /// The key-frame interval is the number of frames between forced key frames.
    pub open spec fn wf(&self) -> bool {
        self@.interval > 0
    }

    /// A new encoder: no reference frame, counter at zero.
    pub fn new(key_frame_interval: u32) -> (r: Self)
        requires
            key_frame_interval > 0,
        ensures
            r@ == fresh_state(key_frame_interval),
            r.wf(),
    {
        DeltaEncoder { prev_frame: Vec::new(), prev_size: None, frame_count: 0, key_frame_interval }
    }

    /// Encodes one RGB565 picture of `width` x `height`: returns the frame to send and its kind.
    pub fn encode(&mut self, rgb565_data: &[u8], width: u16, height: u16) -> (r: (Vec<u8>, FrameKind))
        requires
            old(self).wf(),
        ensures
            final(self).wf(),
            (final(self)@, r.0@, r.1) == encode_step(old(self)@, rgb565_data@, width, height),
    {
        let size_changed = match self.prev_size {
            Some((w, h)) => w != width || h != height,
            None => true,
        };
        let need_key_frame = size_changed || self.prev_frame.len() != rgb565_data.len()
            || self.frame_count == 0 || self.frame_count % self.key_frame_interval == 0;
        let next: u32 = if self.frame_count == u32::MAX {
            0
        } else {
            self.frame_count + 1
        };
        if need_key_frame {
            let compressed = compress_prepend_size(rgb565_data);
            let frame = build_wifi_frame(FrameKind::Key, width, height, compressed.as_slice());
            self.prev_frame = copy_bytes(rgb565_data);
            self.prev_size = Some((width, height));
            self.frame_count = next;
            (frame, FrameKind::Key)
        } else {
            let delta = xor_delta(rgb565_data, self.prev_frame.as_slice());
            let compressed_delta = compress_prepend_size(delta.as_slice());
            let compressed_key: Vec<u8> = if compressed_delta.len() < NO_CHANGE_THRESHOLD {
                Vec::new()
            } else {
                compress_prepend_size(rgb565_data)
            };
            match delta_frame_kind(compressed_delta.len(), compressed_key.len()) {
                FrameKind::NoChange => {
                    let frame = build_wifi_frame(FrameKind::NoChange, width, height, &[]);
                    self.frame_count = next;
                    (frame, FrameKind::NoChange)
                },
                FrameKind::Key => {
                    let frame = build_wifi_frame(FrameKind::Key, width, height, compressed_key.as_slice());
                    self.prev_frame = copy_bytes(rgb565_data);
                    self.prev_size = Some((width, height));
                    self.frame_count = next;
                    (frame, FrameKind::Key)
                },
                FrameKind::Delta => {
                    let frame = build_wifi_frame(FrameKind::Delta, width, height, compressed_delta.as_slice());
                    self.prev_frame = copy_bytes(rgb565_data);
                    self.prev_size = Some((width, height));
                    self.frame_count = next;
                    (frame, FrameKind::Delta)
                },
            }
        }
    }

    /// Forgets the reference frame and its size and restarts the counter, so the next frame is a key frame.
    pub fn reset(&mut self)
        requires
            old(self).wf(),
        ensures
            final(self)@ == fresh_state(old(self)@.interval),
            final(self).wf(),
    {
        self.prev_frame.clear();
        self.prev_size = None;
        self.frame_count = 0;
    }
}

/// XOR-ing a delta with the same reference again gives back the first buffer.
pub proof fn lemma_xor_delta_involution(current: Seq<u8>, reference: Seq<u8>)
    requires
        current.len() == reference.len(),
    ensures
        xor_seq(xor_seq(current, reference), reference) == current,
{
    assert forall|i: int| 0 <= i < current.len() implies #[trigger] xor_seq(
        xor_seq(current, reference),
        reference,
    )[i] == current[i] by {
        let a = current[i];
        let b = reference[i];
        assert((a ^ b) ^ b == a) by (bit_vector);
    }
    assert(xor_seq(xor_seq(current, reference), reference) =~= current);
}

/// From counter `c` (c > 0, no wrap within `m` frames) with the picture itself
/// as reference, frame `i` of `m` frames of the same picture is a key frame
/// exactly when `c + i` is a multiple of the interval, and a no-change frame
/// otherwise.
proof fn lemma_run_from(data: Seq<u8>, width: u16, height: u16, c: u32, k: u32, m: nat)
    requires
        k > 0,
        c > 0,
        c + m <= 0x1_0000_0000,
        lz4_block(xor_seq(data, data)).len() < NO_CHANGE_THRESHOLD,
    ensures
        ({
            let ks = encode_run(
                EncoderState { prev: data, size: Some((width, height)), count: c, interval: k },
                data,
                width,
                height,
                m,
            );
            &&& ks.len() == m
            &&& forall|i: int|
                0 <= i < m ==> ks[i] == if (c + i) % (k as int) == 0 {
                    FrameKind::Key
                } else {
                    FrameKind::NoChange
                }
        }),
    decreases m,
{
    let s = EncoderState { prev: data, size: Some((width, height)), count: c, interval: k };
    let ks = encode_run(s, data, width, height, m);
    if m > 0 {
        let step = encode_step(s, data, width, height);
        let next = EncoderState { count: next_count(c), ..s };
        assert(step.0 == next);
        assert(step.2 == if c % k == 0 {
            FrameKind::Key
        } else {
            FrameKind::NoChange
        });
        let rest = encode_run(next, data, width, height, (m - 1) as nat);
        assert(ks == seq![step.2] + rest);
        if m > 1 {
            assert(next.count == c + 1);
            lemma_run_from(data, width, height, (c + 1) as u32, k, (m - 1) as nat);
            assert forall|i: int| 0 <= i < m implies ks[i] == if (c + i) % (k as int) == 0 {
                FrameKind::Key
            } else {
                FrameKind::NoChange
            } by {
                if i > 0 {
                    assert(ks[i] == rest[i - 1]);
                    assert(c + 1 + (i - 1) == c + i);
                }
            }
        } else {
            assert(rest =~= Seq::<FrameKind>::empty());
        }
    }
}

/// With key-frame interval K, encoding the same picture N <= 2^32 times from a
/// fresh encoder gives a key frame at every index that is a multiple of K and
/// a no-change frame everywhere else, provided the XOR of the picture with
/// itself compresses below the no-change threshold.
pub proof fn lemma_identical_frames(data: Seq<u8>, width: u16, height: u16, k: u32, n: nat)
    requires
        k > 0,
        n <= 0x1_0000_0000,
        lz4_block(xor_seq(data, data)).len() < NO_CHANGE_THRESHOLD,
    ensures
        ({
            let ks = encode_run(fresh_state(k), data, width, height, n);
            &&& ks.len() == n
            &&& forall|i: int|
                0 <= i < n ==> ks[i] == if i % (k as int) == 0 {
                    FrameKind::Key
                } else {
                    FrameKind::NoChange
                }
        }),
{
    let s = fresh_state(k);
    let ks = encode_run(s, data, width, height, n);
    if n > 0 {
        let next = EncoderState { prev: data, size: Some((width, height)), count: 1, interval: k };
        assert(encode_step(s, data, width, height).0 == next);
        lemma_run_from(data, width, height, 1, k, (n - 1) as nat);
        let rest = encode_run(next, data, width, height, (n - 1) as nat);
        assert(ks == seq![FrameKind::Key] + rest);
        assert(0int % (k as int) == 0) by (nonlinear_arith)
            requires
                k > 0,
        ;
        assert forall|i: int| 0 <= i < n implies ks[i] == if i % (k as int) == 0 {
            FrameKind::Key
        } else {
            FrameKind::NoChange
        } by {
            if i > 0 {
                assert(ks[i] == rest[i - 1]);
                assert(1 + (i - 1) == i);
            }
        }
    }
}

/// With key-frame interval K, encoding the same picture K + 1 times from a fresh
/// encoder gives a key frame, then K - 1 no-change frames, then a key frame,
/// provided the XOR of the picture with itself compresses below the no-change
/// threshold.
pub proof fn lemma_identical_frames_one_period(data: Seq<u8>, width: u16, height: u16, k: u32)
    requires
        k > 0,
        lz4_block(xor_seq(data, data)).len() < NO_CHANGE_THRESHOLD,
    ensures
        ({
            let ks = encode_run(fresh_state(k), data, width, height, (k + 1) as nat);
            &&& ks.len() == k + 1
            &&& ks[0] == FrameKind::Key
            &&& forall|i: int| 1 <= i < k ==> ks[i] == FrameKind::NoChange
            &&& ks[k as int] == FrameKind::Key
        }),
{
    lemma_identical_frames(data, width, height, k, (k + 1) as nat);
    let ks = encode_run(fresh_state(k), data, width, height, (k + 1) as nat);
    assert(0int % (k as int) == 0 && (k as int) % (k as int) == 0) by (nonlinear_arith)
        requires
            k > 0,
    ;
    assert forall|i: int| 1 <= i < k implies ks[i] == FrameKind::NoChange by {
        assert(i % (k as int) == i) by (nonlinear_arith)
            requires
                1 <= i < k,
        ;
    }
}

} // verus!
