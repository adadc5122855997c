use usb_screen::delta::{build_wifi_frame, delta_frame_kind, xor_delta, DeltaEncoder, FrameKind};
use usb_screen::wifi_screen::{
    get_status, render_step, set_delay_ms, set_status, CommandSlot, ImageAction, Message,
    RenderStep, Reply, RgbaFrame, Status, StatusInfo, StreamSession,
};

fn noise(n: usize, seed: u32) -> Vec<u8> {
    let mut x: u32 = seed;
    let mut v = Vec::with_capacity(n);
    for _ in 0..n {
        x ^= x << 13;
        x ^= x >> 17;
        x ^= x << 5;
        v.push((x >> 24) as u8);
    }
    v
}

#[test]
fn xor_delta_twice_gives_back_the_picture() {
    let a = noise(4096, 7);
    let r = noise(4096, 99);
    let d = xor_delta(&a, &r);
    assert_ne!(d, a);
    assert_eq!(xor_delta(&d, &r), a);
    assert_eq!(xor_delta(&[], &[]), Vec::<u8>::new());
}

#[test]
fn identical_frames_follow_the_key_interval() {
    let k = 5u32;
    let mut enc = DeltaEncoder::new(k);
    let frame = noise(80 * 60 * 2, 3);
    let mut kinds = Vec::new();
    for _ in 0..=(k + 1) {
        kinds.push(enc.encode(&frame, 80, 60).1);
    }
    assert_eq!(
        kinds,
        vec![
            FrameKind::Key,
            FrameKind::NoChange,
            FrameKind::NoChange,
            FrameKind::NoChange,
            FrameKind::NoChange,
            FrameKind::Key,
            FrameKind::NoChange,
        ]
    );
}

#[test]
fn frame_layouts_carry_magic_and_size() {
    let mut enc = DeltaEncoder::new(60);
    let frame = vec![0u8; 80 * 60 * 2];
    let (key, kind) = enc.encode(&frame, 80, 60);
    assert_eq!(kind, FrameKind::Key);
    assert_eq!(&key[..8], b"wflz4ke_");
    assert_eq!(&key[8..12], &[0, 80, 0, 60]);
    assert_eq!(lz4_flex::decompress_size_prepended(&key[12..]).unwrap(), frame);
    let (nop, kind) = enc.encode(&frame, 80, 60);
    assert_eq!(kind, FrameKind::NoChange);
    assert_eq!(nop, b"wflz4no_\x00\x50\x00\x3c".to_vec());
    assert_eq!(kind.name(), "NOP");
}

#[test]
fn changed_region_gives_a_delta_frame() {
    let mut enc = DeltaEncoder::new(60);
    let base = noise(240 * 240 * 2, 11);
    enc.encode(&base, 240, 240);
    let mut next = base.clone();
    let patch = noise(2000, 5);
    next[1000..3000].copy_from_slice(&patch);
    let (out, kind) = enc.encode(&next, 240, 240);
    assert_eq!(kind, FrameKind::Delta);
    assert_eq!(kind.name(), "DLT");
    assert_eq!(&out[..8], b"wflz4dl_");
    let delta = lz4_flex::decompress_size_prepended(&out[12..]).unwrap();
    assert_eq!(xor_delta(&delta, &base), next);
}

#[test]
fn unrelated_picture_falls_back_to_a_key_frame() {
    let mut enc = DeltaEncoder::new(60);
    enc.encode(&noise(8000, 1), 80, 50);
    let (out, kind) = enc.encode(&noise(8000, 2), 80, 50);
    assert_eq!(kind, FrameKind::Key);
    assert_eq!(kind.name(), "KEY");
    assert_eq!(&out[..8], b"wflz4ke_");
}

#[test]
fn size_change_and_reset_force_key_frames() {
    let mut enc = DeltaEncoder::new(60);
    let a = vec![1u8; 1000];
    assert_eq!(enc.encode(&a, 25, 20).1, FrameKind::Key);
    assert_eq!(enc.encode(&a, 25, 20).1, FrameKind::NoChange);
    assert_eq!(enc.encode(&vec![1u8; 1200], 30, 20).1, FrameKind::Key);
    enc.reset();
    assert_eq!(enc.encode(&vec![1u8; 1200], 30, 20).1, FrameKind::Key);
}

#[test]
fn wifi_frame_builder_layout() {
    let f = build_wifi_frame(FrameKind::Delta, 0x0102, 0x0304, &[9, 8]);
    assert_eq!(f, b"wflz4dl_\x01\x02\x03\x04\x09\x08".to_vec());
}

#[test]
fn failed_replies_reset_encoder_and_reconnect_cycle() {
    let mut s = StreamSession::new();
    assert_eq!(s.status.status, Status::NotConnected);
    let ip = String::from("192.168.1.20");
    s.begin_connect(&ip);
    assert_eq!(s.status.status, Status::Connecting);
    assert_eq!(s.status.ip.as_deref(), Some("192.168.1.20"));
    s.on_display_config(Some((80, 60)));
    s.finish_connect(true);
    assert_eq!(s.status.status, Status::Connected);
    let frame = vec![0u8; 80 * 60 * 2];
    for reply in [Reply::Failed, Reply::Nack, Reply::Failed] {
        assert_eq!(s.on_image(), Some(ImageAction::Send { width: 80, height: 60 }));
        assert_eq!(s.encode_frame(&frame, 80, 60).1, FrameKind::Key);
        s.on_reply(reply);
        assert!(s.is_connected());
    }
    assert_eq!(s.on_image(), Some(ImageAction::Send { width: 80, height: 60 }));
    assert_eq!(s.encode_frame(&frame, 80, 60).1, FrameKind::Key);
    s.on_reply(Reply::Ack);
    assert_eq!(s.encode_frame(&frame, 80, 60).1, FrameKind::NoChange);
    s.on_reply(Reply::Closed);
    assert!(!s.is_connected());
    assert_eq!(s.on_image(), Some(ImageAction::Reconnect { delay_ms: 3000 }));
    assert_eq!(s.status.status, Status::Disconnected);
    let again = s.screen_ip().clone();
    s.begin_connect(&again);
    assert_eq!(s.status.status, Status::Connecting);
    s.finish_connect(true);
    assert_eq!(s.status.status, Status::Connected);
    assert_eq!(s.encode_frame(&frame, 80, 60).1, FrameKind::Key);
}

#[test]
fn write_failure_and_failed_connect() {
    let mut s = StreamSession::new();
    assert_eq!(s.on_image(), None);
    s.begin_connect(&String::from("10.0.0.2"));
    s.finish_connect(false);
    assert_eq!(s.status.status, Status::ConnectFail);
    assert_eq!(s.on_image(), Some(ImageAction::Reconnect { delay_ms: 3000 }));
    s.begin_connect(&String::from("10.0.0.2"));
    s.finish_connect(true);
    assert_eq!(s.on_image(), Some(ImageAction::FetchConfig));
    assert_eq!(s.on_config_fetched(None), Some(ImageAction::Reconnect { delay_ms: 3000 }));
    assert_eq!(s.display_size(), None);
    assert_eq!(s.on_image(), Some(ImageAction::FetchConfig));
    assert_eq!(s.on_config_fetched(Some((160, 128))), Some(ImageAction::Send { width: 160, height: 128 }));
    assert_eq!(s.on_image(), Some(ImageAction::Send { width: 160, height: 128 }));
    s.on_display_config(Some((320, 240)));
    s.on_display_config(None);
    assert_eq!(s.display_size(), Some((320, 240)));
    s.on_write_failed();
    assert!(!s.is_connected());
    s.disconnect();
    assert_eq!(s.status.status, Status::Disconnected);
    assert_eq!(s.screen_ip().as_str(), "");
    assert_eq!(s.on_image(), None);
}

#[test]
fn second_image_is_dropped_while_slot_is_full() {
    let mut slot: CommandSlot<Message> = CommandSlot::new();
    let first = RgbaFrame { width: 1, height: 1, pixels: vec![1, 2, 3, 255] };
    let second = RgbaFrame { width: 1, height: 1, pixels: vec![9, 9, 9, 255] };
    assert!(slot.try_send(Message::Image(first)).is_ok());
    match slot.try_send(Message::Image(second)) {
        Err(Message::Image(f)) => assert_eq!(f.pixels, vec![9, 9, 9, 255]),
        _ => panic!("second image was queued"),
    }
    match slot.recv() {
        Some(Message::Image(f)) => assert_eq!(f.pixels, vec![1, 2, 3, 255]),
        _ => panic!("first image lost"),
    }
    assert!(slot.recv().is_none());
    assert!(!slot.is_full());
}

#[test]
fn status_record_updates() {
    let mut info = StatusInfo::new();
    assert_eq!(info.delay_ms, 1);
    assert_eq!(info.status.name(), "未连接");
    set_status(&mut info, Some(String::from("1.2.3.4")), Status::Connected);
    set_delay_ms(&mut info, 40);
    let copy = get_status(&info);
    assert_eq!(copy.ip.as_deref(), Some("1.2.3.4"));
    assert_eq!(copy.status, Status::Connected);
    assert_eq!(copy.delay_ms, 40);
    assert_eq!(Status::Connected.name(), "连接成功");
    assert_eq!(Status::ConnectFail.name(), "连接失败");
    assert_eq!(Status::Disconnected.name(), "连接断开");
    assert_eq!(Status::Connecting.name(), "正在连接");
}

#[test]
fn delta_kind_thresholds() {
    assert_eq!(delta_frame_kind(199, 10), FrameKind::NoChange);
    assert_eq!(delta_frame_kind(200, 200), FrameKind::Key);
    assert_eq!(delta_frame_kind(300, 250), FrameKind::Key);
    assert_eq!(delta_frame_kind(200, 201), FrameKind::Delta);
}

#[test]
fn render_loop_steps() {
    for s in [Status::NotConnected, Status::ConnectFail, Status::Disconnected] {
        assert_eq!(render_step(s), RenderStep::ConnectAfter { delay_ms: 2000 });
    }
    assert_eq!(render_step(Status::Connected), RenderStep::OfferFrame);
    assert_eq!(render_step(Status::Connecting), RenderStep::Wait);
}

#[test]
fn dimension_change_forces_a_key_frame() {
    let mut enc = DeltaEncoder::new(60);
    let data = vec![0u8; 10 * 20 * 2];
    assert_eq!(enc.encode(&data, 10, 20).1, FrameKind::Key);
    assert_eq!(enc.encode(&data, 10, 20).1, FrameKind::NoChange);
    assert_eq!(enc.encode(&data, 20, 10).1, FrameKind::Key);
    assert_eq!(enc.encode(&data, 20, 10).1, FrameKind::NoChange);
}

#[test]
fn identical_frames_repeat_the_key_period() {
    let k = 3u32;
    let mut enc = DeltaEncoder::new(k);
    let frame = vec![7u8; 64 * 2];
    for i in 0..10u32 {
        let expected = if i % k == 0 { FrameKind::Key } else { FrameKind::NoChange };
        assert_eq!(enc.encode(&frame, 8, 8).1, expected, "frame {i}");
    }
}
