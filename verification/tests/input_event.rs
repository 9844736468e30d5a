use lan_mouse::input_event::{
    ClipboardEvent, Event, F64Bits, KeyboardEvent, Labels, PointerEvent, BTN_BACK, BTN_FORWARD,
    BTN_LEFT, BTN_MIDDLE, BTN_RIGHT, MAX_MIME_TYPE_LEN,
};
use lan_mouse::text::{is_white_space, push_i32, push_u32, trim, trim_end_matches};

fn bits(x: f64) -> F64Bits {
    F64Bits(x.to_bits())
}

fn labels() -> Labels {
    Labels {
        first_number: format!("{}", 1.5),
        second_number: format!("{}", -2.0),
        key_name: Some(format!("KeyA")),
    }
}

fn mime(bytes: &[u8]) -> [u8; MAX_MIME_TYPE_LEN] {
    let mut mime_type = [0u8; MAX_MIME_TYPE_LEN];
    mime_type[..bytes.len()].copy_from_slice(bytes);
    mime_type
}

#[test]
fn doubles_compare_as_numbers() {
    let numbers = [
        0.0,
        -0.0,
        1.0,
        -1.0,
        f64::NAN,
        -f64::NAN,
        f64::INFINITY,
        f64::NEG_INFINITY,
        f64::MAX,
        f64::MIN_POSITIVE,
        f64::from_bits(1),
        f64::from_bits(0x7ff0_0000_0000_0001),
    ];
    for x in numbers {
        assert_eq!(bits(x).is_nan(), x.is_nan());
        assert_eq!(bits(x).is_zero(), x == 0.0);
        for y in numbers {
            assert_eq!(bits(x) == bits(y), x == y);
            let a = PointerEvent::Motion { time: 1, dx: bits(x), dy: bits(2.0) };
            let b = PointerEvent::Motion { time: 1, dx: bits(y), dy: bits(2.0) };
            assert_eq!(a == b, x == y);
            assert_eq!(Event::Pointer(a) == Event::Pointer(b), x == y);
        }
    }
}

#[test]
fn events_compare_by_kind_and_fields() {
    let key = Event::Keyboard(KeyboardEvent::Key { time: 1, key: 2, state: 0 });
    let button = Event::Pointer(PointerEvent::Button { time: 1, button: 2, state: 0 });
    let later = Event::Pointer(PointerEvent::Button { time: 2, button: 2, state: 0 });
    let tick = Event::Pointer(PointerEvent::AxisDiscrete120 { axis: 0, value: 120 });
    assert!(key == key);
    assert!(button == button);
    assert!(tick == tick);
    assert!(key != button);
    assert!(button != key);
    assert!(button != later);
    assert!(button != tick);
    let nan = Event::Pointer(PointerEvent::Axis { time: 0, axis: 0, value: bits(f64::NAN) });
    assert!(nan != nan);
}

#[test]
fn pointer_events_are_shown() {
    let labels = labels();
    let motion = PointerEvent::Motion { time: 1, dx: bits(1.5), dy: bits(-2.0) };
    assert_eq!(motion.fmt(&labels), "motion(1.5,-2)");
    let button = |button| PointerEvent::Button { time: 1, button, state: 1 };
    assert_eq!(button(BTN_LEFT).fmt(&labels), "button(left, 1)");
    assert_eq!(button(BTN_RIGHT).fmt(&labels), "button(right, 1)");
    assert_eq!(button(BTN_MIDDLE).fmt(&labels), "button(middle, 1)");
    assert_eq!(button(BTN_BACK).fmt(&labels), "button(back, 1)");
    assert_eq!(button(BTN_FORWARD).fmt(&labels), "button(forward, 1)");
    assert_eq!(button(0x115).fmt(&labels), "button(277, 1");
    let scroll = PointerEvent::Axis { time: 1, axis: 3, value: bits(1.5) };
    assert_eq!(scroll.fmt(&labels), "scroll(3, 1.5)");
    let tick = PointerEvent::AxisDiscrete120 { axis: 0, value: -120 };
    assert_eq!(tick.fmt(&labels), "scroll-120 (0, -120)");
    assert_eq!(Event::Pointer(tick).fmt(&labels), "scroll-120 (0, -120)");
}

#[test]
fn keyboard_events_are_shown() {
    let mut labels = labels();
    let key = KeyboardEvent::Key { time: 1, key: 30, state: 1 };
    assert_eq!(key.fmt(&labels), "key(KeyA, 1)");
    labels.key_name = None;
    assert_eq!(key.fmt(&labels), "key(30, 1)");
    let modifiers = KeyboardEvent::Modifiers { depressed: 1, latched: 20, locked: 0, group: 300 };
    assert_eq!(modifiers.fmt(&labels), "modifiers(1,20,0,300)");
    assert_eq!(Event::Keyboard(modifiers).fmt(&labels), "modifiers(1,20,0,300)");
}

#[test]
fn clipboard_events_are_shown() {
    let notify = ClipboardEvent::Notify { serial: 1, mime_type: mime(b"text/plain") };
    assert_eq!(notify.fmt(), "ClipboardNotify(serial=1, mime=text/plain)");
    let wide = ClipboardEvent::Notify { serial: 1, mime_type: mime("gr\u{fc}\u{df}e\0x".as_bytes()) };
    assert_eq!(wide.fmt(), "ClipboardNotify(serial=1, mime=gr\u{fc}\u{df}e\0x)");
    let request = ClipboardEvent::Request { serial: 2, mime_type: mime(&[0xff, 0xfe]) };
    assert_eq!(request.fmt(), "ClipboardRequest(serial=2, mime=<invalid>)");
    let empty = ClipboardEvent::Request { serial: 2, mime_type: mime(&[]) };
    assert_eq!(empty.fmt(), "ClipboardRequest(serial=2, mime=)");
    let done = ClipboardEvent::NotifyDone { serial: 3 };
    assert_eq!(done.fmt(), "ClipboardNotifyDone(serial=3)");
    let data = ClipboardEvent::Data { serial: 4, offset: 255, data_len: 9, data: [0; 256] };
    assert_eq!(data.fmt(), "ClipboardData(serial=4, offset=255, len=9)");
    let done = ClipboardEvent::DataDone { serial: 5 };
    assert_eq!(done.fmt(), "ClipboardDataDone(serial=5)");
}

#[test]
fn numbers_are_written_in_decimal() {
    for n in [0, 1, 9, 10, 99, 100, 12345, 4294967295u32] {
        let mut text = String::from("n=");
        push_u32(&mut text, n);
        assert_eq!(text, format!("n={}", n));
    }
    for n in [0, -1, 7, i32::MIN, i32::MAX, -120] {
        let mut text = String::new();
        push_i32(&mut text, n);
        assert_eq!(text, format!("{}", n));
    }
}

#[test]
fn white_space_is_that_of_the_standard_library() {
    for n in 0..=0x10ffffu32 {
        if let Some(c) = char::from_u32(n) {
            assert_eq!(is_white_space(c), c.is_whitespace());
        }
    }
}

#[test]
fn text_is_trimmed() {
    for text in ["", " ", "a", " a", "a ", "\t a b \u{3000}\n", "\u{a0}\u{a0}", "\u{e9} \u{e9}"] {
        assert_eq!(trim(text), text.trim());
    }
    for text in ["", "\0", "a\0\0", "\0a", "a\0b\0"] {
        assert_eq!(trim_end_matches(text, '\0'), text.trim_end_matches('\0'));
    }
}
