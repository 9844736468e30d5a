use lan_mouse::input_event::{
    mime_type_text, ClipboardEvent, Event, F64Bits, KeyboardEvent, PointerEvent, MAX_CLIPBOARD_CHUNK_SIZE,
    MAX_MIME_TYPE_LEN,
};
use lan_mouse::libei::clipboard::{
    write_done, ClipboardStep, PeerClipboard, Rejection, WriteOutcome,
};
use lan_mouse::libei::devices::{
    capabilities, ButtonState, DeviceCapability, Devices, EiEvent, EiReply, Emit, EmulationError,
    Interfaces, KeyState, Request,
};
use lan_mouse::libei::emulation::{EiTaskStep, ErrorSlot, LibeiEmulation};
use lan_mouse::libei::portal::{
    PersistMode, PortalReply, PortalRequest, PortalSetup, StartResponse,
};
use lan_mouse::libei::tasks::{
    clipboard_event_task, poll_channel, poll_next, PollStep, Polled, PortalSignal, TaskStep,
};
use lan_mouse::libei::token::{get_token_file_path, read_token};
use lan_mouse::libei::ClipboardEvent as PortalEvent;

fn mime(bytes: &[u8]) -> [u8; MAX_MIME_TYPE_LEN] {
    let mut mime_type = [0u8; MAX_MIME_TYPE_LEN];
    mime_type[..bytes.len()].copy_from_slice(bytes);
    mime_type
}

fn notify(serial: u32, text: &str) -> ClipboardEvent {
    ClipboardEvent::Notify { serial, mime_type: mime(text.as_bytes()) }
}

fn data(serial: u32, offset: u32, bytes: &[u8]) -> ClipboardEvent {
    let mut data = [0xeeu8; MAX_CLIPBOARD_CHUNK_SIZE];
    data[..bytes.len()].copy_from_slice(bytes);
    ClipboardEvent::Data { serial, offset, data_len: bytes.len() as u8, data }
}

#[test]
fn announced_mime_types_are_offered_in_order() {
    let mut clipboard = PeerClipboard::new(true);
    assert!(matches!(clipboard.consume_clipboard(notify(1, "text/plain")), ClipboardStep::Done));
    assert!(matches!(clipboard.consume_clipboard(notify(2, "image/png")), ClipboardStep::Done));
    assert!(matches!(clipboard.consume_clipboard(notify(1, "text/html")), ClipboardStep::Done));
    match clipboard.consume_clipboard(ClipboardEvent::NotifyDone { serial: 1 }) {
        ClipboardStep::SetSelection { serial, mime_types } => {
            assert_eq!(serial, 1);
            assert_eq!(mime_types, vec!["text/plain", "text/html"]);
        }
        step => panic!("{:?}", step),
    }
    assert_eq!(clipboard.selection_set(1, Err("refused")), Err("refused"));
    assert!(matches!(
        clipboard.consume_clipboard(ClipboardEvent::NotifyDone { serial: 1 }),
        ClipboardStep::SetSelection { .. }
    ));
    assert_eq!(clipboard.selection_set::<&str>(1, Ok(())), Ok(()));
    assert!(matches!(
        clipboard.consume_clipboard(ClipboardEvent::NotifyDone { serial: 1 }),
        ClipboardStep::Done
    ));
    assert!(matches!(
        clipboard.consume_clipboard(ClipboardEvent::NotifyDone { serial: 2 }),
        ClipboardStep::SetSelection { .. }
    ));
}

#[test]
fn mime_types_must_be_utf8() {
    let mut clipboard = PeerClipboard::new(true);
    let bad = mime(&[0xc3, 0x28]);
    assert!(matches!(
        clipboard.consume_clipboard(ClipboardEvent::Notify { serial: 1, mime_type: bad }),
        ClipboardStep::Rejected(Rejection::InvalidMimeType)
    ));
    assert!(matches!(
        clipboard.consume_clipboard(ClipboardEvent::Request { serial: 1, mime_type: bad }),
        ClipboardStep::Rejected(Rejection::InvalidMimeType)
    ));
    assert!(matches!(
        clipboard.consume_clipboard(ClipboardEvent::NotifyDone { serial: 1 }),
        ClipboardStep::Done
    ));
    match clipboard.consume_clipboard(ClipboardEvent::Request {
        serial: 1,
        mime_type: mime("\u{e9}/\u{1f600}".as_bytes()),
    }) {
        ClipboardStep::ReadSelection { mime_type } => {
            assert_eq!(mime_type, "\u{e9}/\u{1f600}")
        }
        step => panic!("{:?}", step),
    }
}

#[test]
fn mime_types_end_at_their_null() {
    let cases: [(&[u8], Option<&str>); 6] = [
        (b"text/plain", Some("text/plain")),
        (b"", Some("")),
        (b"a/b\0c/d", Some("a/b")),
        (b"a/b\0\xff", Some("a/b")),
        (b"\0text", Some("")),
        (b"\xff\0", None),
    ];
    for (bytes, expected) in cases {
        assert_eq!(mime_type_text(&mime(bytes)).as_deref(), expected);
        let mut clipboard = PeerClipboard::new(true);
        let step = clipboard
            .consume_clipboard(ClipboardEvent::Notify { serial: 3, mime_type: mime(bytes) });
        match expected {
            Some(name) => {
                assert!(matches!(step, ClipboardStep::Done));
                assert_eq!(clipboard.incoming_mime_types[&3], vec![name]);
            }
            None => {
                assert!(matches!(step, ClipboardStep::Rejected(Rejection::InvalidMimeType)));
                assert!(clipboard.incoming_mime_types.is_empty());
            }
        }
    }
    let full = [b'x'; MAX_MIME_TYPE_LEN];
    assert_eq!(mime_type_text(&full), Some("x".repeat(64)));
}

#[test]
fn content_starts_at_its_beginning() {
    let mut clipboard = PeerClipboard::new(true);
    for offset in [1, 255, u32::MAX] {
        match clipboard.consume_clipboard(data(5, offset, b"tail")) {
            ClipboardStep::Rejected(why) => {
                assert_eq!(why, Rejection::OffsetMismatch { offset, expected: 0 })
            }
            step => panic!("{:?}", step),
        }
        assert!(clipboard.incoming_data.is_none());
    }
    assert!(matches!(clipboard.consume_clipboard(data(5, 0, b"head")), ClipboardStep::Done));
    assert_eq!(clipboard.incoming_data, Some((5, b"head".to_vec())));
}

#[test]
fn content_is_joined_and_written() {
    let mut clipboard = PeerClipboard::new(true);
    clipboard.transfer_serial = Some(77);
    assert!(matches!(clipboard.consume_clipboard(data(5, 0, b"hello ")), ClipboardStep::Done));
    assert!(matches!(
        clipboard.consume_clipboard(data(6, 6, b"other")),
        ClipboardStep::Rejected(Rejection::SerialMismatch { serial: 6, expected: 5 })
    ));
    assert!(matches!(
        clipboard.consume_clipboard(data(5, 5, b"late")),
        ClipboardStep::Rejected(Rejection::OffsetMismatch { offset: 5, expected: 6 })
    ));
    assert!(matches!(clipboard.consume_clipboard(data(5, 6, b"world")), ClipboardStep::Done));
    assert!(matches!(
        clipboard.consume_clipboard(ClipboardEvent::DataDone { serial: 6 }),
        ClipboardStep::Rejected(Rejection::SerialMismatch { serial: 6, expected: 5 })
    ));
    match clipboard.consume_clipboard(ClipboardEvent::DataDone { serial: 5 }) {
        ClipboardStep::WriteSelection { transfer_serial, serial, data } => {
            assert_eq!((transfer_serial, serial), (77, 5));
            assert_eq!(data, b"hello world");
        }
        step => panic!("{:?}", step),
    }
    assert_eq!(write_done(5, WriteOutcome::Written), Some((5, true)));
    assert_eq!(write_done(5, WriteOutcome::Failed), Some((5, false)));
    assert_eq!(write_done(5, WriteOutcome::NotOpened), None);
}

#[test]
fn content_without_a_transfer_is_not_written() {
    let mut clipboard = PeerClipboard::new(true);
    let done = ClipboardEvent::DataDone { serial: 5 };
    assert!(matches!(clipboard.consume_clipboard(done), ClipboardStep::Done));
    assert!(matches!(clipboard.consume_clipboard(data(5, 0, b"x")), ClipboardStep::Done));
    assert!(matches!(clipboard.consume_clipboard(done), ClipboardStep::Done));
    assert_eq!(clipboard.incoming_data, Some((5, vec![b'x'])));
}

#[test]
fn without_a_clipboard_nothing_happens() {
    let mut clipboard = PeerClipboard::new(false);
    clipboard.transfer_serial = Some(1);
    for event in [
        notify(1, "text/plain"),
        ClipboardEvent::NotifyDone { serial: 1 },
        ClipboardEvent::Request { serial: 1, mime_type: mime(b"text/plain") },
        data(1, 0, b"x"),
        ClipboardEvent::DataDone { serial: 1 },
    ] {
        assert!(matches!(clipboard.consume_clipboard(event), ClipboardStep::Done));
    }
    assert!(clipboard.incoming_mime_types.is_empty());
    assert!(clipboard.incoming_data.is_none());
}

fn all_devices() -> Devices {
    Devices { pointer: Some(1), scroll: Some(2), button: Some(3), keyboard: Some(4) }
}

#[test]
fn input_events_become_requests() {
    let devices = all_devices();
    let value = F64Bits(2.5f64.to_bits());
    let other = F64Bits((-1.0f64).to_bits());
    let zero = F64Bits(0.0f64.to_bits());
    assert!(matches!(
        devices.emit(Event::Pointer(PointerEvent::Motion { time: 0, dx: value, dy: other })),
        Some(Emit { device: 1, request: Request::MotionRelative { dx, dy } })
            if dx == value && dy == other
    ));
    for (state, expected) in [(0, ButtonState::Released), (1, ButtonState::Press), (9, ButtonState::Press)] {
        assert!(matches!(
            devices.emit(Event::Pointer(PointerEvent::Button { time: 0, button: 0x110, state })),
            Some(Emit { device: 3, request: Request::Button { button: 0x110, state } })
                if state == expected
        ));
    }
    assert!(matches!(
        devices.emit(Event::Pointer(PointerEvent::Axis { time: 0, axis: 0, value })),
        Some(Emit { device: 2, request: Request::Scroll { x, y } }) if x == zero && y == value
    ));
    assert!(matches!(
        devices.emit(Event::Pointer(PointerEvent::Axis { time: 0, axis: 1, value })),
        Some(Emit { device: 2, request: Request::Scroll { x, y } }) if x == value && y == zero
    ));
    assert!(matches!(
        devices.emit(Event::Pointer(PointerEvent::AxisDiscrete120 { axis: 0, value: 120 })),
        Some(Emit { device: 2, request: Request::ScrollDiscrete { x: 0, y: 120 } })
    ));
    assert!(matches!(
        devices.emit(Event::Pointer(PointerEvent::AxisDiscrete120 { axis: 7, value: -120 })),
        Some(Emit { device: 2, request: Request::ScrollDiscrete { x: -120, y: 0 } })
    ));
    for (state, expected) in [(0, KeyState::Released), (1, KeyState::Press), (2, KeyState::Press)] {
        assert!(matches!(
            devices.emit(Event::Keyboard(KeyboardEvent::Key { time: 0, key: 30, state })),
            Some(Emit { device: 4, request: Request::Key { key: 30, state } }) if state == expected
        ));
    }
    let modifiers = KeyboardEvent::Modifiers { depressed: 1, latched: 0, locked: 0, group: 0 };
    assert!(devices.emit(Event::Keyboard(modifiers)).is_none());
}

#[test]
fn nothing_is_emitted_without_a_device() {
    let devices = Devices::default();
    let key = Event::Keyboard(KeyboardEvent::Key { time: 0, key: 30, state: 1 });
    let tick = Event::Pointer(PointerEvent::AxisDiscrete120 { axis: 0, value: 120 });
    assert!(devices.emit(key).is_none());
    assert!(devices.emit(tick).is_none());
}

#[test]
fn the_latest_device_serves() {
    let mut devices = Devices::default();
    let mouse = Interfaces { pointer: true, keyboard: false, scroll: true, button: true };
    let both = Interfaces { pointer: true, keyboard: true, scroll: false, button: false };
    let added = |device, interfaces| Some(Ok::<EiEvent, ()>(EiEvent::DeviceAdded { device, interfaces }));
    assert!(matches!(devices.ei_event_handler(added(1, mouse)), Ok(EiReply::Nothing)));
    assert!(matches!(devices.ei_event_handler(added(2, both)), Ok(EiReply::Nothing)));
    for event in [EiEvent::DeviceRemoved, EiEvent::DevicePaused, EiEvent::SeatRemoved] {
        assert!(matches!(devices.ei_event_handler(Some(Ok::<EiEvent, ()>(event))), Ok(EiReply::Nothing)));
    }
    assert_eq!(devices.pointer, Some(2));
    assert_eq!(devices.keyboard, Some(2));
    assert_eq!(devices.scroll, Some(1));
    assert_eq!(devices.button, Some(1));
}

#[test]
fn libei_events_are_answered() {
    let mut devices = Devices::default();
    let mut handle = |event| devices.ei_event_handler(Some(Ok::<EiEvent, u8>(event)));
    assert!(matches!(
        handle(EiEvent::SeatAdded { seat: 9 }),
        Ok(EiReply::BindCapabilities { seat: 9, capabilities: bound }) if bound == capabilities()
    ));
    assert!(matches!(
        handle(EiEvent::DeviceResumed { device: 6 }),
        Ok(EiReply::StartEmulating { device: 6, last_serial: 0, sequence: 0 })
    ));
    assert!(matches!(handle(EiEvent::KeyboardModifiers), Ok(EiReply::Nothing)));
    assert!(matches!(handle(EiEvent::Disconnected), Err(EmulationError::EndOfStream)));
    assert!(matches!(
        devices.ei_event_handler(Some(Err(5u8))),
        Err(EmulationError::Desktop(5))
    ));
    assert!(matches!(
        devices.ei_event_handler::<u8>(None),
        Err(EmulationError::EndOfStream)
    ));
    assert_eq!(
        capabilities(),
        [
            DeviceCapability::Pointer,
            DeviceCapability::PointerAbsolute,
            DeviceCapability::Keyboard,
            DeviceCapability::Touch,
            DeviceCapability::Scroll,
            DeviceCapability::Button,
        ]
    );
}

#[test]
fn an_error_is_handed_out_once() {
    let mut emulation: LibeiEmulation<u8> = LibeiEmulation::new(true);
    let key = Event::Keyboard(KeyboardEvent::Key { time: 0, key: 30, state: 1 });
    emulation.devices = all_devices();
    assert!(matches!(emulation.consume(key), Ok(Some(Emit { device: 4, .. }))));
    assert_eq!(emulation.errors.ei_task(Ok(())), EiTaskStep::Listen);
    assert!(matches!(emulation.consume(key), Ok(Some(_))));
    assert_eq!(emulation.errors.ei_task(Err(EmulationError::Desktop(3))), EiTaskStep::Wait);
    assert!(matches!(emulation.consume(key), Err(EmulationError::Desktop(3))));
    assert!(matches!(emulation.consume(key), Ok(Some(Emit { device: 4, .. }))));
    assert!(matches!(emulation.consume_clipboard(notify(1, "a/b")), ClipboardStep::Done));
    assert!(emulation.clipboard.incoming_mime_types.contains_key(&1));
}

#[test]
fn an_error_that_was_not_raised_stays() {
    let mut errors = ErrorSlot { raised: false, error: Some(EmulationError::Desktop(1u8)) };
    assert!(errors.pick_up().is_none());
    assert!(errors.error.is_some());
}

fn answer(setup: &mut PortalSetup, reply: PortalReply<u8>) -> PortalRequest<u8> {
    assert!(setup.is_awaited(&reply));
    setup.step(reply)
}

fn set_up(version: u32, granted: bool, enabled: bool, token: Option<&str>) -> bool {
    let (mut setup, request) = PortalSetup::new::<u8>();
    assert!(matches!(request, PortalRequest::OpenRemoteDesktop));
    assert!(!setup.is_awaited(&PortalReply::<u8>::TokenSaved));
    assert!(matches!(
        answer(&mut setup, PortalReply::RemoteDesktop(Ok(()))),
        PortalRequest::ReadToken
    ));
    assert!(matches!(
        answer(&mut setup, PortalReply::Token(Some(String::from("old")))),
        PortalRequest::CreateSession
    ));
    match answer(&mut setup, PortalReply::Session(Ok(()))) {
        PortalRequest::SelectDevices { keyboard, pointer, restore_token, persist_mode } => {
            assert!(keyboard && pointer);
            assert_eq!(restore_token, Some(String::from("old")));
            assert_eq!(persist_mode, PersistMode::ExplicitlyRevoked);
        }
        request => panic!("{:?}", request),
    }
    let mut request = answer(&mut setup, PortalReply::Devices(Ok(version)));
    if version >= 2 {
        assert!(matches!(request, PortalRequest::OpenClipboard));
        assert!(matches!(
            answer(&mut setup, PortalReply::Clipboard(Ok(()))),
            PortalRequest::RequestClipboard
        ));
        request = answer(&mut setup, PortalReply::ClipboardAccess(granted));
    }
    assert!(matches!(request, PortalRequest::Start));
    let response =
        StartResponse { clipboard_enabled: enabled, restore_token: token.map(String::from) };
    request = answer(&mut setup, PortalReply::Started(Ok(response)));
    if let Some(new) = token {
        assert!(matches!(request, PortalRequest::SaveToken { token } if token == new));
        request = answer(&mut setup, PortalReply::TokenSaved);
    }
    assert!(matches!(request, PortalRequest::ConnectToEis));
    match answer(&mut setup, PortalReply::Eis(Ok(()))) {
        PortalRequest::Finished { clipboard } => clipboard,
        request => panic!("{:?}", request),
    }
}

#[test]
fn the_clipboard_needs_all_three() {
    for version in [0, 1, 2, 3] {
        for granted in [false, true] {
            for enabled in [false, true] {
                for token in [None, Some("new")] {
                    assert_eq!(
                        set_up(version, granted, enabled, token),
                        version >= 2 && granted && enabled
                    );
                }
            }
        }
    }
}

#[test]
fn the_first_portal_error_is_final() {
    let (mut setup, _) = PortalSetup::new::<u8>();
    assert!(matches!(
        answer(&mut setup, PortalReply::RemoteDesktop(Err(1))),
        PortalRequest::Failed(1)
    ));
    let (mut setup, _) = PortalSetup::new::<u8>();
    answer(&mut setup, PortalReply::RemoteDesktop(Ok(())));
    answer(&mut setup, PortalReply::Token(None));
    assert!(matches!(answer(&mut setup, PortalReply::Session(Err(2))), PortalRequest::Failed(2)));
    let (mut setup, _) = PortalSetup::new::<u8>();
    answer(&mut setup, PortalReply::RemoteDesktop(Ok(())));
    answer(&mut setup, PortalReply::Token(None));
    answer(&mut setup, PortalReply::Session(Ok(())));
    answer(&mut setup, PortalReply::Devices(Ok(2)));
    assert!(matches!(answer(&mut setup, PortalReply::Clipboard(Err(3))), PortalRequest::Failed(3)));
    assert!(!setup.is_awaited(&PortalReply::<u8>::Clipboard(Ok(()))));
}

#[test]
fn portal_signals_are_passed_on() {
    let types = vec![String::from("text/plain")];
    for (session_is_owner, expected) in [(None, false), (Some(false), false), (Some(true), true)] {
        let signal = PortalSignal::<u8>::OwnerChanged(Some((types.clone(), session_is_owner)));
        match clipboard_event_task(signal) {
            TaskStep::Send(event) => {
                assert_eq!(event, PortalEvent::OwnerChanged((expected, types.clone())))
            }
            step => panic!("{:?}", step),
        }
    }
    match clipboard_event_task(PortalSignal::<u8>::Transfer(Some((String::from("a/b"), 9)))) {
        TaskStep::Send(event) => {
            assert_eq!(event.clone(), PortalEvent::TransferRequest((9, String::from("a/b"))))
        }
        step => panic!("{:?}", step),
    }
    for signal in [PortalSignal::<u8>::OwnerChanged(None), PortalSignal::Transfer(None)] {
        assert!(matches!(
            clipboard_event_task(signal),
            TaskStep::Finish(Ok(PortalEvent::Noop))
        ));
    }
    assert!(matches!(
        clipboard_event_task(PortalSignal::NoSubscription(4u8)),
        TaskStep::Finish(Err(4))
    ));
}

#[test]
fn polling_for_clipboard_events() {
    assert!(matches!(poll_next::<u8>(None), PollStep::Answer(None)));
    assert!(matches!(poll_next::<u8>(Some(Polled::Pending)), PollStep::PollChannel));
    assert!(matches!(
        poll_next::<u8>(Some(Polled::Ready(Ok(PortalEvent::Noop)))),
        PollStep::Answer(Some(Ok(PortalEvent::Noop)))
    ));
    assert!(matches!(
        poll_next(Some(Polled::Ready(Err(4u8)))),
        PollStep::Answer(Some(Err(4)))
    ));
    assert!(matches!(poll_channel::<u8>(Polled::Pending), Polled::Pending));
    assert!(matches!(poll_channel::<u8>(Polled::Ready(None)), Polled::Ready(None)));
    assert!(matches!(
        poll_channel::<u8>(Polled::Ready(Some(PortalEvent::Noop))),
        Polled::Ready(Some(Ok(PortalEvent::Noop)))
    ));
}

#[test]
fn the_token_file_is_below_the_cache() {
    let s = |text: &str| Some(String::from(text));
    assert_eq!(
        get_token_file_path(s("/var/cache"), s("/home/me")),
        "/var/cache/lan-mouse/remote-desktop.token"
    );
    assert_eq!(
        get_token_file_path(None, s("/home/me")),
        "/home/me/.cache/lan-mouse/remote-desktop.token"
    );
    for base in ["/", "", "/tmp/", "relative"] {
        let expected = std::path::PathBuf::from(base).join("lan-mouse").join("remote-desktop.token");
        assert_eq!(get_token_file_path(s(base), None), expected.to_str().unwrap());
        let expected = std::path::PathBuf::from(base)
            .join(".cache")
            .join("lan-mouse")
            .join("remote-desktop.token");
        assert_eq!(get_token_file_path(None, s(base)), expected.to_str().unwrap());
    }
}

#[test]
fn the_token_is_trimmed() {
    assert_eq!(read_token(Some(String::from(" abc\n"))), Some(String::from("abc")));
    assert_eq!(read_token(Some(String::from("\n"))), Some(String::new()));
    assert_eq!(read_token(None), None);
    let again = read_token(read_token(Some(String::from("\ta b\u{a0}"))));
    assert_eq!(again, Some(String::from("a b")));
}
