use usb_screen::framing::{
    frame_header, frame_writes, parse_frame_header, payload_writes, u64_be_bytes, FrameError, FrameLayout,
    IMAGE_AA, IMAGE_BB, MAX_COMPRESSED_LEN,
};

fn noise(n: usize) -> Vec<u8> {
    let mut x: u32 = 0x1234_5678;
    let mut v = Vec::with_capacity(n);
    for _ in 0..n {
        x ^= x << 13;
        x ^= x >> 17;
        x ^= x << 5;
        v.push((x >> 24) as u8);
    }
    v
}

struct CountingTransport {
    writes: usize,
    bytes: Vec<u8>,
}

impl CountingTransport {
    fn send(&mut self, plan: Result<Vec<Vec<u8>>, FrameError>) -> Result<(), FrameError> {
        for w in plan? {
            self.writes += 1;
            self.bytes.extend_from_slice(&w);
        }
        Ok(())
    }
}

#[test]
fn magic_constants_spell_their_tags() {
    assert_eq!(u64_be_bytes(IMAGE_AA), b"image_aa".to_vec());
    assert_eq!(u64_be_bytes(IMAGE_BB), b"image_bb".to_vec());
}

#[test]
fn header_layout_is_big_endian() {
    let h = frame_header(160, 128, 2, 0x0102);
    let mut expected = b"image_aa".to_vec();
    expected.extend_from_slice(&[0, 160, 0, 128, 0, 2, 1, 2]);
    assert_eq!(h, expected);
}

#[test]
fn header_round_trip() {
    for &(w, h, x, y) in &[(0u16, 0u16, 0u16, 0u16), (160, 128, 0, 0), (65535, 1, 300, 65535), (320, 240, 17, 99)] {
        let bytes = frame_header(w, h, x, y);
        assert_eq!(parse_frame_header(&bytes), Some((w, h, x, y)));
    }
}

#[test]
fn header_parse_rejects_short_or_wrong_magic() {
    let mut bytes = frame_header(1, 2, 3, 4);
    assert_eq!(parse_frame_header(&bytes[..15]), None);
    bytes[0] = b'X';
    assert_eq!(parse_frame_header(&bytes), None);
}

#[test]
fn segmented_frame_is_header_payload_trailer() {
    let pixels = vec![0u8; 160 * 128 * 2];
    let writes = frame_writes(&pixels, 5, 6, 160, 128, FrameLayout::Segmented).unwrap();
    assert_eq!(writes.len(), 3);
    assert_eq!(writes[0], frame_header(160, 128, 5, 6));
    assert_eq!(writes[2], b"image_bb".to_vec());
    assert!(writes[1].len() < pixels.len());
    assert_eq!(&writes[1][..4], &((pixels.len() as u32).to_le_bytes()));
    assert_eq!(lz4_flex::decompress_size_prepended(&writes[1]).unwrap(), pixels);
}

#[test]
fn combined_frame_is_one_write() {
    let pixels = noise(1000);
    let seg = frame_writes(&pixels, 0, 0, 25, 20, FrameLayout::Segmented).unwrap();
    let comb = frame_writes(&pixels, 0, 0, 25, 20, FrameLayout::Combined).unwrap();
    assert_eq!(comb.len(), 1);
    assert_eq!(comb[0], seg.concat());
}

#[test]
fn oversized_payload_makes_no_write() {
    let pixels = noise(40_000);
    let mut t = CountingTransport { writes: 0, bytes: Vec::new() };
    for layout in [FrameLayout::Segmented, FrameLayout::Combined] {
        let plan = frame_writes(&pixels, 0, 0, 200, 100, layout);
        match &plan {
            Err(FrameError::TooLarge { compressed_len }) => assert!(*compressed_len > MAX_COMPRESSED_LEN),
            Ok(_) => panic!("oversized payload accepted"),
        }
        assert!(t.send(plan).is_err());
    }
    assert_eq!(t.writes, 0);
    assert!(t.bytes.is_empty());
}

#[test]
fn payload_at_ceiling_is_sent() {
    let pixels = noise(20_000);
    let mut t = CountingTransport { writes: 0, bytes: Vec::new() };
    t.send(frame_writes(&pixels, 0, 0, 100, 100, FrameLayout::Segmented)).unwrap();
    assert_eq!(t.writes, 3);
}

#[test]
fn payload_writes_exact_bytes() {
    let w = payload_writes(vec![1, 2, 3], 0, 1, 2, 3, FrameLayout::Segmented).unwrap();
    assert_eq!(w, vec![frame_header(2, 3, 0, 1), vec![1, 2, 3], b"image_bb".to_vec()]);
    let c = payload_writes(vec![7], 4, 5, 6, 7, FrameLayout::Combined).unwrap();
    let mut expected = b"image_aa".to_vec();
    expected.extend_from_slice(&[0, 6, 0, 7, 0, 4, 0, 5, 7]);
    expected.extend_from_slice(b"image_bb");
    assert_eq!(c, vec![expected]);
}

#[test]
fn payload_ceiling_is_inclusive() {
    assert!(payload_writes(vec![0; MAX_COMPRESSED_LEN], 0, 0, 1, 1, FrameLayout::Segmented).is_ok());
    assert_eq!(
        payload_writes(vec![0; MAX_COMPRESSED_LEN + 1], 0, 0, 1, 1, FrameLayout::Combined),
        Err(FrameError::TooLarge { compressed_len: MAX_COMPRESSED_LEN + 1 })
    );
    assert_eq!(MAX_COMPRESSED_LEN, 28 * 1024);
}
