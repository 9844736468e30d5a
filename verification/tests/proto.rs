use lan_mouse::input_event::{Event, F64Bits, KeyboardEvent, Labels, PointerEvent};
use lan_mouse::proto::{
    ClipboardEvent, EventType, Position, ProtoEvent, ProtocolError, MAX_CLIPBOARD_CHUNK_SIZE,
    MAX_EVENT_SIZE, MAX_MIME_TYPE_LEN,
};

fn encode(event: ProtoEvent) -> ([u8; MAX_EVENT_SIZE], usize) {
    event.into()
}

fn bits(x: f64) -> F64Bits {
    F64Bits(x.to_bits())
}

fn mime(text: &str) -> [u8; MAX_MIME_TYPE_LEN] {
    let mut mime_type = [0u8; MAX_MIME_TYPE_LEN];
    mime_type[..text.len()].copy_from_slice(text.as_bytes());
    mime_type
}

fn no_labels() -> Labels {
    Labels { first_number: String::new(), second_number: String::new(), key_name: None }
}

fn samples() -> Vec<(ProtoEvent, u8, usize)> {
    let mut data = [0u8; MAX_CLIPBOARD_CHUNK_SIZE];
    for (i, byte) in data.iter_mut().enumerate() {
        *byte = (255 - i) as u8;
    }
    let pointer = |p| ProtoEvent::Input(Event::Pointer(p));
    let keyboard = |k| ProtoEvent::Input(Event::Keyboard(k));
    vec![
        (pointer(PointerEvent::Motion { time: 7, dx: bits(1.5), dy: bits(-2.25) }), 0, 21),
        (pointer(PointerEvent::Button { time: u32::MAX, button: 0x110, state: 1 }), 1, 13),
        (pointer(PointerEvent::Axis { time: 1, axis: 200, value: bits(f64::MIN_POSITIVE) }), 2, 14),
        (pointer(PointerEvent::AxisDiscrete120 { axis: 1, value: -120 }), 3, 6),
        (keyboard(KeyboardEvent::Key { time: 3, key: 30, state: 1 }), 4, 10),
        (
            keyboard(KeyboardEvent::Modifiers { depressed: 1, latched: 2, locked: 3, group: 4 }),
            5,
            17,
        ),
        (ProtoEvent::Ping, 6, 1),
        (ProtoEvent::Pong(true), 7, 2),
        (ProtoEvent::Pong(false), 7, 2),
        (ProtoEvent::Enter(Position::Bottom), 8, 2),
        (ProtoEvent::Leave(0x0102_0304), 9, 5),
        (ProtoEvent::Ack(0xffff_fffe), 10, 5),
        (
            ProtoEvent::Clipboard(ClipboardEvent::Notify { serial: 9, mime_type: mime("text/html") }),
            11,
            69,
        ),
        (ProtoEvent::Clipboard(ClipboardEvent::NotifyDone { serial: 10 }), 12, 5),
        (
            ProtoEvent::Clipboard(ClipboardEvent::Request { serial: 11, mime_type: mime("a/b") }),
            13,
            69,
        ),
        (
            ProtoEvent::Clipboard(ClipboardEvent::Data {
                serial: 12,
                offset: 255,
                data_len: 200,
                data,
            }),
            14,
            266,
        ),
        (ProtoEvent::Clipboard(ClipboardEvent::DataDone { serial: 13 }), 15, 5),
    ]
}

#[test]
fn sizes() {
    assert_eq!(MAX_MIME_TYPE_LEN, 64);
    assert_eq!(MAX_CLIPBOARD_CHUNK_SIZE, 256);
    assert_eq!(MAX_EVENT_SIZE, 266);
}

#[test]
fn every_event_survives_the_round_trip() {
    for (event, id, len) in samples() {
        let (buf, n) = encode(event);
        assert_eq!(buf[0], id);
        assert_eq!(n, len);
        assert_eq!(u8::from(event.event_type()), id);
        assert!(buf[n..].iter().all(|byte| *byte == 0));
        let back = ProtoEvent::try_from(buf).unwrap();
        assert_eq!(format!("{:?}", back), format!("{:?}", event));
    }
}

#[test]
fn decoding_ignores_what_follows_the_event() {
    for (event, _, len) in samples() {
        let (mut buf, n) = encode(event);
        for byte in buf[n..].iter_mut() {
            *byte = 0xab;
        }
        assert_eq!(n, len);
        let back = ProtoEvent::try_from(buf).unwrap();
        assert_eq!(format!("{:?}", back), format!("{:?}", event));
    }
}

#[test]
fn no_encoding_starts_another() {
    let all = samples();
    for (i, (a, _, _)) in all.iter().enumerate() {
        for (j, (b, _, _)) in all.iter().enumerate() {
            let (x, n) = encode(*a);
            let (y, m) = encode(*b);
            if i != j && n <= m {
                assert_ne!(x[..n], y[..n]);
            }
        }
    }
}

#[test]
fn encoding_restores_the_datagram() {
    let mut buf = [0u8; MAX_EVENT_SIZE];
    for (i, byte) in buf.iter_mut().enumerate() {
        *byte = (i * 7 + 3) as u8;
    }
    for id in 0..16u8 {
        buf[0] = id;
        buf[1] = 1;
        let event = ProtoEvent::try_from(buf).unwrap();
        let (again, n) = encode(event);
        assert_eq!(again[..n], buf[..n]);
    }
}

#[test]
fn exact_bytes() {
    let motion = PointerEvent::Motion { time: 0x0102_0304, dx: bits(1.0), dy: bits(-2.0) };
    let (buf, n) = encode(ProtoEvent::Input(Event::Pointer(motion)));
    let mut expected = vec![0, 1, 2, 3, 4];
    expected.extend_from_slice(&1.0f64.to_be_bytes());
    expected.extend_from_slice(&(-2.0f64).to_be_bytes());
    assert_eq!(buf[..n], expected[..]);
    let scroll = PointerEvent::AxisDiscrete120 { axis: 1, value: -120 };
    let (buf, n) = encode(ProtoEvent::Input(Event::Pointer(scroll)));
    assert_eq!(buf[..n], [3, 1, 0xff, 0xff, 0xff, 0x88]);
    let (buf, n) = encode(ProtoEvent::Leave(0x0102_0304));
    assert_eq!(buf[..n], [9, 1, 2, 3, 4]);
    let (buf, n) = encode(ProtoEvent::Enter(Position::Top));
    assert_eq!(buf[..n], [8, 2]);
}

#[test]
fn numbers_agree_with_the_standard_library() {
    for n in [0, 1, 255, 256, 65535, 65536, 0x7fff_ffff, 0x8000_0000, u32::MAX] {
        let (buf, _) = encode(ProtoEvent::Ack(n));
        assert_eq!(buf[1..5], n.to_be_bytes());
    }
    for value in [0, 1, -1, i32::MIN, i32::MAX, 12345, -54321] {
        let scroll = PointerEvent::AxisDiscrete120 { axis: 0, value };
        let (buf, _) = encode(ProtoEvent::Input(Event::Pointer(scroll)));
        assert_eq!(buf[2..6], value.to_be_bytes());
    }
    for value in [0.0, -0.0, 1.5, f64::MAX, f64::MIN, f64::INFINITY, f64::NAN] {
        let scroll = PointerEvent::Axis { time: 0, axis: 0, value: bits(value) };
        let (buf, _) = encode(ProtoEvent::Input(Event::Pointer(scroll)));
        assert_eq!(buf[6..14], value.to_be_bytes());
    }
}

#[test]
fn unknown_event_ids_are_refused() {
    for id in 16..=255u8 {
        let mut buf = [0u8; MAX_EVENT_SIZE];
        buf[0] = id;
        assert!(matches!(
            ProtoEvent::try_from(buf),
            Err(ProtocolError::InvalidEventId(n)) if n == id
        ));
    }
}

#[test]
fn unknown_positions_are_refused() {
    for id in 4..=255u8 {
        let mut buf = [0u8; MAX_EVENT_SIZE];
        buf[0] = 8;
        buf[1] = id;
        assert!(matches!(
            ProtoEvent::try_from(buf),
            Err(ProtocolError::InvalidPosition(n)) if n == id
        ));
    }
}

#[test]
fn empty_chunks_are_refused() {
    let mut buf = [0u8; MAX_EVENT_SIZE];
    buf[0] = 14;
    assert!(matches!(ProtoEvent::try_from(buf), Err(ProtocolError::EmptyChunk)));
    for len in 1..=255u8 {
        buf[9] = len;
        assert!(matches!(
            ProtoEvent::try_from(buf),
            Ok(ProtoEvent::Clipboard(ClipboardEvent::Data { data_len, .. })) if data_len == len
        ));
    }
    let empty = ClipboardEvent::Data { serial: 1, offset: 2, data_len: 0, data: [9; 256] };
    let (buf, n) = encode(ProtoEvent::Clipboard(empty));
    assert_eq!(n, 266);
    assert_eq!(buf[..10], [14, 0, 0, 0, 1, 0, 0, 0, 2, 0]);
    assert!(matches!(ProtoEvent::try_from(buf), Err(ProtocolError::EmptyChunk)));
}

#[test]
fn any_byte_but_zero_is_an_alive_pong() {
    for byte in 0..=255u8 {
        let mut buf = [0u8; MAX_EVENT_SIZE];
        buf[0] = 7;
        buf[1] = byte;
        let expected = byte != 0;
        let event = ProtoEvent::try_from(buf).unwrap();
        assert!(matches!(event, ProtoEvent::Pong(alive) if alive == expected));
        let (again, n) = encode(event);
        assert_eq!(again[..n], [7, expected as u8]);
    }
}

#[test]
fn numbering() {
    for id in 0..16u8 {
        assert_eq!(u8::from(EventType::try_from(id).unwrap()), id);
    }
    assert!(matches!(EventType::try_from(16), Err(ProtocolError::InvalidEventId(16))));
    for id in 0..4u8 {
        assert_eq!(u8::from(Position::try_from(id).unwrap()), id);
    }
    assert!(matches!(Position::try_from(4), Err(ProtocolError::InvalidPosition(4))));
}

#[test]
fn events_are_shown() {
    let labels = no_labels();
    assert_eq!(ProtoEvent::Enter(Position::Left).fmt(&labels), "Enter(left)");
    assert_eq!(ProtoEvent::Enter(Position::Right).fmt(&labels), "Enter(right)");
    assert_eq!(ProtoEvent::Enter(Position::Top).fmt(&labels), "Enter(top)");
    assert_eq!(ProtoEvent::Enter(Position::Bottom).fmt(&labels), "Enter(bottom)");
    assert_eq!(ProtoEvent::Leave(12).fmt(&labels), "Leave(12)");
    assert_eq!(ProtoEvent::Ack(4294967295).fmt(&labels), "Ack(4294967295)");
    assert_eq!(ProtoEvent::Ping.fmt(&labels), "ping");
    assert_eq!(ProtoEvent::Pong(true).fmt(&labels), "pong: alive");
    assert_eq!(ProtoEvent::Pong(false).fmt(&labels), "pong: not available");
    let done = ClipboardEvent::DataDone { serial: 3 };
    assert_eq!(ProtoEvent::Clipboard(done).fmt(&labels), "ClipboardDataDone(serial=3)");
    let key = KeyboardEvent::Key { time: 0, key: 30, state: 1 };
    assert_eq!(ProtoEvent::Input(Event::Keyboard(key)).fmt(&labels), "key(30, 1)");
}
