//! The datagrams that two machines exchange.
//!
//! An event travels as one byte that names its kind, then its fields, one after the other
//! and big-endian; see [`ProtoEvent::encoded`].

use crate::input_event::{Event as InputEvent, KeyboardEvent, PointerEvent};
use crate::input_event::{F64Bits, Labels};
pub use crate::input_event::{ClipboardEvent, MAX_CLIPBOARD_CHUNK_SIZE, MAX_MIME_TYPE_LEN};
use crate::text::{decimal, push_u32};
use crate::wire::{
    array_of, be_bytes, be_value, decode_bytes, decode_f64, decode_i32, decode_u32, decode_u8,
    encode_bytes, encode_f64, encode_i32, encode_u32, encode_u8, from_twos_complement,
    law_read_bytes_are_digits, law_twos_complement_is_congruent, law_written_bytes_are_digits,
    lemma_array_of, lemma_be_bytes_len, lemma_be_capacities, lemma_be_round_trip,
    lemma_be_value_round_trip, lemma_twos_complement_round_trip, twos_complement,
};
use vstd::prelude::*;
use vstd::string::StringExecFns;

verus! {

/// defines the maximum size an encoded event can take up
/// this is currently the clipboard data event
/// type: u8, serial: u32, offset: u32, data_len: u8, data: [u8;256]
pub const MAX_EVENT_SIZE: usize = 1 + 4 * 2 + 1 + MAX_CLIPBOARD_CHUNK_SIZE;

/// error type for protocol violations
#[derive(Debug, Clone, Copy)]
pub enum ProtocolError {
    /// event type does not exist: the number that names none
    InvalidEventId(u8),
    /// position type does not exist: the number that names none
    InvalidPosition(u8),
    /// clipboard data event without a valid byte
    EmptyChunk,
}

/// Position of a client
#[derive(Debug, Clone, Copy)]
pub enum Position {
    Left,
    Right,
    Top,
    Bottom,
}

/// main lan-mouse protocol event type
#[derive(Debug, Clone, Copy)]
pub enum ProtoEvent {
    /// notify a client that the cursor entered its region at the given position
    /// [`ProtoEvent::Ack`] with the same serial is used for synchronization between devices
    Enter(Position),
    /// notify a client that the cursor left its region
    /// [`ProtoEvent::Ack`] with the same serial is used for synchronization between devices
    Leave(u32),
    /// acknowledge of an [`ProtoEvent::Enter`] or [`ProtoEvent::Leave`] event
    Ack(u32),
    /// Input event
    Input(InputEvent),
    /// Ping event for tracking unresponsive clients.
    /// A client has to respond with [`ProtoEvent::Pong`].
    Ping,
    /// Response to [`ProtoEvent::Ping`], true if emulation is enabled / available
    Pong(bool),
    /// A clipboard event
    Clipboard(ClipboardEvent),
}

/// The kinds of event, in the order of their numbers
#[derive(Debug, Clone, Copy)]
pub enum EventType {
    PointerMotion,
    PointerButton,
    PointerAxis,
    PointerAxisValue120,
    KeyboardKey,
    KeyboardModifiers,
    Ping,
    Pong,
    Enter,
    Leave,
    Ack,
    ClipboardNotify,
    ClipboardNotifyDone,
    ClipboardRequest,
    ClipboardData,
    ClipboardDataDone,
}

impl EventType {
    /// The number of this kind of event.
    pub open spec fn id(self) -> u8 {
        match self {
            EventType::PointerMotion => 0,
            EventType::PointerButton => 1,
            EventType::PointerAxis => 2,
            EventType::PointerAxisValue120 => 3,
            EventType::KeyboardKey => 4,
            EventType::KeyboardModifiers => 5,
            EventType::Ping => 6,
            EventType::Pong => 7,
            EventType::Enter => 8,
            EventType::Leave => 9,
            EventType::Ack => 10,
            EventType::ClipboardNotify => 11,
            EventType::ClipboardNotifyDone => 12,
            EventType::ClipboardRequest => 13,
            EventType::ClipboardData => 14,
            EventType::ClipboardDataDone => 15,
        }
    }

    /// The kind of event that a number names.
    pub open spec fn named(id: u8) -> Result<EventType, ProtocolError> {
        match id {
            0 => Ok(EventType::PointerMotion),
            1 => Ok(EventType::PointerButton),
            2 => Ok(EventType::PointerAxis),
            3 => Ok(EventType::PointerAxisValue120),
            4 => Ok(EventType::KeyboardKey),
            5 => Ok(EventType::KeyboardModifiers),
            6 => Ok(EventType::Ping),
            7 => Ok(EventType::Pong),
            8 => Ok(EventType::Enter),
            9 => Ok(EventType::Leave),
            10 => Ok(EventType::Ack),
            11 => Ok(EventType::ClipboardNotify),
            12 => Ok(EventType::ClipboardNotifyDone),
            13 => Ok(EventType::ClipboardRequest),
            14 => Ok(EventType::ClipboardData),
            15 => Ok(EventType::ClipboardDataDone),
            _ => Err(ProtocolError::InvalidEventId(id)),
        }
    }
}

impl From<EventType> for u8 {
    fn from(kind: EventType) -> (id: u8) {
        match kind {
            EventType::PointerMotion => 0,
            EventType::PointerButton => 1,
            EventType::PointerAxis => 2,
            EventType::PointerAxisValue120 => 3,
            EventType::KeyboardKey => 4,
            EventType::KeyboardModifiers => 5,
            EventType::Ping => 6,
            EventType::Pong => 7,
            EventType::Enter => 8,
            EventType::Leave => 9,
            EventType::Ack => 10,
            EventType::ClipboardNotify => 11,
            EventType::ClipboardNotifyDone => 12,
            EventType::ClipboardRequest => 13,
            EventType::ClipboardData => 14,
            EventType::ClipboardDataDone => 15,
        }
    }
}

impl vstd::std_specs::convert::FromSpecImpl<EventType> for u8 {
    open spec fn obeys_from_spec() -> bool {
        true
    }

    open spec fn from_spec(kind: EventType) -> u8 {
        kind.id()
    }
}

impl TryFrom<u8> for EventType {
    type Error = ProtocolError;

    fn try_from(id: u8) -> (result: Result<EventType, ProtocolError>) {
        match id {
            0 => Ok(EventType::PointerMotion),
            1 => Ok(EventType::PointerButton),
            2 => Ok(EventType::PointerAxis),
            3 => Ok(EventType::PointerAxisValue120),
            4 => Ok(EventType::KeyboardKey),
            5 => Ok(EventType::KeyboardModifiers),
            6 => Ok(EventType::Ping),
            7 => Ok(EventType::Pong),
            8 => Ok(EventType::Enter),
            9 => Ok(EventType::Leave),
            10 => Ok(EventType::Ack),
            11 => Ok(EventType::ClipboardNotify),
            12 => Ok(EventType::ClipboardNotifyDone),
            13 => Ok(EventType::ClipboardRequest),
            14 => Ok(EventType::ClipboardData),
            15 => Ok(EventType::ClipboardDataDone),
            _ => Err(ProtocolError::InvalidEventId(id)),
        }
    }
}

impl vstd::std_specs::convert::TryFromSpecImpl<u8> for EventType {
    open spec fn obeys_try_from_spec() -> bool {
        true
    }

    open spec fn try_from_spec(id: u8) -> Result<EventType, ProtocolError> {
        EventType::named(id)
    }
}

impl Position {
    /// The number of this position.
    pub open spec fn id(self) -> u8 {
        match self {
            Position::Left => 0,
            Position::Right => 1,
            Position::Top => 2,
            Position::Bottom => 3,
        }
    }

    /// The position that a number names.
    pub open spec fn named(id: u8) -> Result<Position, ProtocolError> {
        match id {
            0 => Ok(Position::Left),
            1 => Ok(Position::Right),
            2 => Ok(Position::Top),
            3 => Ok(Position::Bottom),
            _ => Err(ProtocolError::InvalidPosition(id)),
        }
    }
}

impl From<Position> for u8 {
    fn from(position: Position) -> (id: u8) {
        match position {
            Position::Left => 0,
            Position::Right => 1,
            Position::Top => 2,
            Position::Bottom => 3,
        }
    }
}

impl vstd::std_specs::convert::FromSpecImpl<Position> for u8 {
    open spec fn obeys_from_spec() -> bool {
        true
    }

    open spec fn from_spec(position: Position) -> u8 {
        position.id()
    }
}

impl TryFrom<u8> for Position {
    type Error = ProtocolError;

    fn try_from(id: u8) -> (result: Result<Position, ProtocolError>) {
        match id {
            0 => Ok(Position::Left),
            1 => Ok(Position::Right),
            2 => Ok(Position::Top),
            3 => Ok(Position::Bottom),
            _ => Err(ProtocolError::InvalidPosition(id)),
        }
    }
}

impl vstd::std_specs::convert::TryFromSpecImpl<u8> for Position {
    open spec fn obeys_try_from_spec() -> bool {
        true
    }

    open spec fn try_from_spec(id: u8) -> Result<Position, ProtocolError> {
        Position::named(id)
    }
}

impl ProtoEvent {
    /// The kind of this event.
    pub open spec fn kind(self) -> EventType {
        match self {
            ProtoEvent::Input(InputEvent::Pointer(p)) => match p {
                PointerEvent::Motion { .. } => EventType::PointerMotion,
                PointerEvent::Button { .. } => EventType::PointerButton,
                PointerEvent::Axis { .. } => EventType::PointerAxis,
                PointerEvent::AxisDiscrete120 { .. } => EventType::PointerAxisValue120,
            },
            ProtoEvent::Input(InputEvent::Keyboard(k)) => match k {
                KeyboardEvent::Key { .. } => EventType::KeyboardKey,
                KeyboardEvent::Modifiers { .. } => EventType::KeyboardModifiers,
            },
            ProtoEvent::Ping => EventType::Ping,
            ProtoEvent::Pong(_) => EventType::Pong,
            ProtoEvent::Enter(_) => EventType::Enter,
            ProtoEvent::Leave(_) => EventType::Leave,
            ProtoEvent::Ack(_) => EventType::Ack,
            ProtoEvent::Clipboard(e) => match e {
                ClipboardEvent::Notify { .. } => EventType::ClipboardNotify,
                ClipboardEvent::NotifyDone { .. } => EventType::ClipboardNotifyDone,
                ClipboardEvent::Request { .. } => EventType::ClipboardRequest,
                ClipboardEvent::Data { .. } => EventType::ClipboardData,
                ClipboardEvent::DataDone { .. } => EventType::ClipboardDataDone,
            },
        }
    }

    /// Whether this event has what its fields promise: a clipboard data event has at least one
    /// valid byte.
    pub open spec fn well_formed(self) -> bool {
        self matches ProtoEvent::Clipboard(ClipboardEvent::Data { data_len, .. }) ==> data_len >= 1
    }

    /// The fields of this event as they travel.
    pub open spec fn payload(self) -> Seq<u8> {
        match self {
            ProtoEvent::Input(InputEvent::Pointer(p)) => pointer_payload(p),
            ProtoEvent::Input(InputEvent::Keyboard(k)) => keyboard_payload(k),
            ProtoEvent::Ping => Seq::empty(),
            ProtoEvent::Pong(alive) => seq![if alive { 1u8 } else { 0u8 }],
            ProtoEvent::Enter(position) => seq![position.id()],
            ProtoEvent::Leave(serial) => be_bytes(serial as nat, 4),
            ProtoEvent::Ack(serial) => be_bytes(serial as nat, 4),
            ProtoEvent::Clipboard(e) => clipboard_payload(e),
        }
    }

    /// This event as it travels: the number of its kind, then its fields.
    pub open spec fn encoded(self) -> Seq<u8> {
        seq![self.kind().id()] + self.payload()
    }
}

/// The fields of a pointer event as they travel.
pub open spec fn pointer_payload(event: PointerEvent) -> Seq<u8> {
    match event {
        PointerEvent::Motion { time, dx, dy } => be_bytes(time as nat, 4) + be_bytes(
            dx.0 as nat,
            8,
        ) + be_bytes(dy.0 as nat, 8),
        PointerEvent::Button { time, button, state } => be_bytes(time as nat, 4) + be_bytes(
            button as nat,
            4,
        ) + be_bytes(state as nat, 4),
        PointerEvent::Axis { time, axis, value } => be_bytes(time as nat, 4) + seq![axis]
            + be_bytes(value.0 as nat, 8),
        PointerEvent::AxisDiscrete120 { axis, value } => seq![axis] + be_bytes(
            twos_complement(value),
            4,
        ),
    }
}

/// The fields of a keyboard event as they travel.
pub open spec fn keyboard_payload(event: KeyboardEvent) -> Seq<u8> {
    match event {
        KeyboardEvent::Key { time, key, state } => be_bytes(time as nat, 4) + be_bytes(
            key as nat,
            4,
        ) + seq![state],
        KeyboardEvent::Modifiers { depressed, latched, locked, group } => be_bytes(
            depressed as nat,
            4,
        ) + be_bytes(latched as nat, 4) + be_bytes(locked as nat, 4) + be_bytes(group as nat, 4),
    }
}

/// The fields of a clipboard event as they travel.
pub open spec fn clipboard_payload(event: ClipboardEvent) -> Seq<u8> {
    match event {
        ClipboardEvent::Notify { serial, mime_type } => be_bytes(serial as nat, 4) + mime_type@,
        ClipboardEvent::NotifyDone { serial } => be_bytes(serial as nat, 4),
        ClipboardEvent::Request { serial, mime_type } => be_bytes(serial as nat, 4) + mime_type@,
        ClipboardEvent::Data { serial, offset, data_len, data } => be_bytes(serial as nat, 4)
            + be_bytes(offset as nat, 4) + seq![data_len] + data@,
        ClipboardEvent::DataDone { serial } => be_bytes(serial as nat, 4),
    }
}

/// A datagram: the bytes of an event, then zeros.
pub open spec fn padded(bytes: Seq<u8>) -> Seq<u8> {
    bytes + Seq::new((MAX_EVENT_SIZE - bytes.len()) as nat, |i: int| 0u8)
}

/// The unsigned number in the four bytes of `s` from `at` on.
pub open spec fn u32_at(s: Seq<u8>, at: int) -> u32 {
    be_value(s.subrange(at, at + 4)) as u32
}

/// The signed number in the four bytes of `s` from `at` on.
pub open spec fn i32_at(s: Seq<u8>, at: int) -> i32 {
    from_twos_complement(be_value(s.subrange(at, at + 4)))
}

/// The double in the eight bytes of `s` from `at` on.
pub open spec fn f64_at(s: Seq<u8>, at: int) -> F64Bits {
    F64Bits(be_value(s.subrange(at, at + 8)) as u64)
}

/// The array of the `N` bytes of `s` from `at` on.
pub open spec fn bytes_at<const N: usize>(s: Seq<u8>, at: int) -> [u8; N] {
    array_of(s.subrange(at, at + N))
}

/// The clipboard data event whose fields a datagram holds.
pub open spec fn data_at(s: Seq<u8>) -> ClipboardEvent {
    ClipboardEvent::Data {
        serial: u32_at(s, 1),
        offset: u32_at(s, 5),
        data_len: s[9],
        data: bytes_at(s, 10),
    }
}

/// The event that a datagram stands for.
pub open spec fn decoded(s: Seq<u8>) -> Result<ProtoEvent, ProtocolError> {
    match EventType::named(s[0]) {
        Ok(kind) => decoded_as(kind, s),
        Err(e) => Err(e),
    }
}

/// The event that a datagram of the given kind stands for.
pub open spec fn decoded_as(kind: EventType, s: Seq<u8>) -> Result<ProtoEvent, ProtocolError> {
    match kind {
        EventType::PointerMotion => Ok(
            ProtoEvent::Input(
                InputEvent::Pointer(
                    PointerEvent::Motion {
                        time: u32_at(s, 1),
                        dx: f64_at(s, 5),
                        dy: f64_at(s, 13),
                    },
                ),
            ),
        ),
        EventType::PointerButton => Ok(
            ProtoEvent::Input(
                InputEvent::Pointer(
                    PointerEvent::Button {
                        time: u32_at(s, 1),
                        button: u32_at(s, 5),
                        state: u32_at(s, 9),
                    },
                ),
            ),
        ),
        EventType::PointerAxis => Ok(
            ProtoEvent::Input(
                InputEvent::Pointer(
                    PointerEvent::Axis { time: u32_at(s, 1), axis: s[5], value: f64_at(s, 6) },
                ),
            ),
        ),
        EventType::PointerAxisValue120 => Ok(
            ProtoEvent::Input(
                InputEvent::Pointer(
                    PointerEvent::AxisDiscrete120 { axis: s[1], value: i32_at(s, 2) },
                ),
            ),
        ),
        EventType::KeyboardKey => Ok(
            ProtoEvent::Input(
                InputEvent::Keyboard(
                    KeyboardEvent::Key { time: u32_at(s, 1), key: u32_at(s, 5), state: s[9] },
                ),
            ),
        ),
        EventType::KeyboardModifiers => Ok(
            ProtoEvent::Input(
                InputEvent::Keyboard(
                    KeyboardEvent::Modifiers {
                        depressed: u32_at(s, 1),
                        latched: u32_at(s, 5),
                        locked: u32_at(s, 9),
                        group: u32_at(s, 13),
                    },
                ),
            ),
        ),
        EventType::Ping => Ok(ProtoEvent::Ping),
        EventType::Pong => Ok(ProtoEvent::Pong(s[1] != 0)),
        EventType::Enter => match Position::named(s[1]) {
            Ok(position) => Ok(ProtoEvent::Enter(position)),
            Err(e) => Err(e),
        },
        EventType::Leave => Ok(ProtoEvent::Leave(u32_at(s, 1))),
        EventType::Ack => Ok(ProtoEvent::Ack(u32_at(s, 1))),
        EventType::ClipboardNotify => Ok(
            ProtoEvent::Clipboard(
                ClipboardEvent::Notify { serial: u32_at(s, 1), mime_type: bytes_at(s, 5) },
            ),
        ),
        EventType::ClipboardNotifyDone => Ok(
            ProtoEvent::Clipboard(ClipboardEvent::NotifyDone { serial: u32_at(s, 1) }),
        ),
        EventType::ClipboardRequest => Ok(
            ProtoEvent::Clipboard(
                ClipboardEvent::Request { serial: u32_at(s, 1), mime_type: bytes_at(s, 5) },
            ),
        ),
        EventType::ClipboardData => if s[9] == 0 {
            Err(ProtocolError::EmptyChunk)
        } else {
            Ok(ProtoEvent::Clipboard(data_at(s)))
        },
        EventType::ClipboardDataDone => Ok(
            ProtoEvent::Clipboard(ClipboardEvent::DataDone { serial: u32_at(s, 1) }),
        ),
    }
}

impl ProtoEvent {
    /// The kind of this event.
    pub fn event_type(&self) -> (kind: EventType)
        ensures
            kind == self.kind(),
    {
        match self {
            ProtoEvent::Input(e) => match e {
                InputEvent::Pointer(p) => match p {
                    PointerEvent::Motion { .. } => EventType::PointerMotion,
                    PointerEvent::Button { .. } => EventType::PointerButton,
                    PointerEvent::Axis { .. } => EventType::PointerAxis,
                    PointerEvent::AxisDiscrete120 { .. } => EventType::PointerAxisValue120,
                },
                InputEvent::Keyboard(k) => match k {
                    KeyboardEvent::Key { .. } => EventType::KeyboardKey,
                    KeyboardEvent::Modifiers { .. } => EventType::KeyboardModifiers,
                },
            },
            ProtoEvent::Ping => EventType::Ping,
            ProtoEvent::Pong(_) => EventType::Pong,
            ProtoEvent::Enter(_) => EventType::Enter,
            ProtoEvent::Leave(_) => EventType::Leave,
            ProtoEvent::Ack(_) => EventType::Ack,
            ProtoEvent::Clipboard(e) => match e {
                ClipboardEvent::Notify { .. } => EventType::ClipboardNotify,
                ClipboardEvent::NotifyDone { .. } => EventType::ClipboardNotifyDone,
                ClipboardEvent::Request { .. } => EventType::ClipboardRequest,
                ClipboardEvent::Data { .. } => EventType::ClipboardData,
                ClipboardEvent::DataDone { .. } => EventType::ClipboardDataDone,
            },
        }
    }
}

impl TryFrom<[u8; MAX_EVENT_SIZE]> for ProtoEvent {
    type Error = ProtocolError;

    fn try_from(buf: [u8; MAX_EVENT_SIZE]) -> (result: Result<ProtoEvent, ProtocolError>)
        ensures
            result == decoded(buf@),
            result matches Ok(ProtoEvent::Clipboard(event)) ==> match event {
                ClipboardEvent::Notify { mime_type, .. } => mime_type@ == buf@.subrange(5, 69),
                ClipboardEvent::Request { mime_type, .. } => mime_type@ == buf@.subrange(5, 69),
                ClipboardEvent::Data { data_len, data, .. } => {
                    &&& data_len >= 1
                    &&& data@ == buf@.subrange(10, 266)
                },
                _ => true,
            },
    {
        let ghost s = buf@;
        proof {
            lemma_array_of::<MAX_MIME_TYPE_LEN>(s.subrange(5, 69));
            lemma_array_of::<MAX_CLIPBOARD_CHUNK_SIZE>(s.subrange(10, 266));
        }
        let mut buf: &[u8] = &buf;
        let event_type: u8 = decode_u8(&mut buf)?;
        assert(buf@ =~= s.subrange(1, s.len() as int));
        let kind = match EventType::try_from(event_type) {
            Ok(kind) => kind,
            Err(e) => {
                return Err(e);
            },
        };
        // the fields that several kinds of event have in the same place
        assert(s.skip(1).take(4) =~= s.subrange(1, 5));
        assert(s.skip(1).skip(4).take(4) =~= s.subrange(5, 9));
        assert(s.skip(1).skip(4).skip(4).take(4) =~= s.subrange(9, 13));
        assert(s.skip(1).skip(4).take(64) =~= s.subrange(5, 69));
        match kind {
            EventType::PointerMotion => {
                let time: u32 = decode_u32(&mut buf)?;
                let dx = decode_f64(&mut buf)?;
                let dy = decode_f64(&mut buf)?;
                assert(s.skip(1).skip(4).take(8) =~= s.subrange(5, 13));
                assert(s.skip(1).skip(4).skip(8).take(8) =~= s.subrange(13, 21));
                Ok(ProtoEvent::Input(InputEvent::Pointer(PointerEvent::Motion { time, dx, dy })))
            },
            EventType::PointerButton => {
                let time: u32 = decode_u32(&mut buf)?;
                let button: u32 = decode_u32(&mut buf)?;
                let state: u32 = decode_u32(&mut buf)?;
                Ok(
                    ProtoEvent::Input(
                        InputEvent::Pointer(PointerEvent::Button { time, button, state }),
                    ),
                )
            },
            EventType::PointerAxis => {
                let time: u32 = decode_u32(&mut buf)?;
                let axis: u8 = decode_u8(&mut buf)?;
                let value = decode_f64(&mut buf)?;
                assert(s.skip(1).skip(4).skip(1).take(8) =~= s.subrange(6, 14));
                Ok(ProtoEvent::Input(InputEvent::Pointer(PointerEvent::Axis { time, axis, value })))
            },
            EventType::PointerAxisValue120 => {
                let axis: u8 = decode_u8(&mut buf)?;
                let value: i32 = decode_i32(&mut buf)?;
                assert(s.skip(1).skip(1).take(4) =~= s.subrange(2, 6));
                Ok(
                    ProtoEvent::Input(
                        InputEvent::Pointer(PointerEvent::AxisDiscrete120 { axis, value }),
                    ),
                )
            },
            EventType::KeyboardKey => {
                let time: u32 = decode_u32(&mut buf)?;
                let key: u32 = decode_u32(&mut buf)?;
                let state: u8 = decode_u8(&mut buf)?;
                Ok(ProtoEvent::Input(InputEvent::Keyboard(KeyboardEvent::Key { time, key, state })))
            },
            EventType::KeyboardModifiers => {
                let depressed: u32 = decode_u32(&mut buf)?;
                let latched: u32 = decode_u32(&mut buf)?;
                let locked: u32 = decode_u32(&mut buf)?;
                let group: u32 = decode_u32(&mut buf)?;
                assert(s.skip(1).skip(4).skip(4).skip(4).take(4) =~= s.subrange(13, 17));
                Ok(
                    ProtoEvent::Input(
                        InputEvent::Keyboard(
                            KeyboardEvent::Modifiers { depressed, latched, locked, group },
                        ),
                    ),
                )
            },
            EventType::Ping => Ok(ProtoEvent::Ping),
            EventType::Pong => {
                let alive: u8 = decode_u8(&mut buf)?;
                Ok(ProtoEvent::Pong(alive != 0))
            },
            EventType::Enter => {
                let position: u8 = decode_u8(&mut buf)?;
                match Position::try_from(position) {
                    Ok(position) => Ok(ProtoEvent::Enter(position)),
                    Err(e) => Err(e),
                }
            },
            EventType::Leave => {
                let serial: u32 = decode_u32(&mut buf)?;
                Ok(ProtoEvent::Leave(serial))
            },
            EventType::Ack => {
                let serial: u32 = decode_u32(&mut buf)?;
                Ok(ProtoEvent::Ack(serial))
            },
            EventType::ClipboardNotify => {
                let serial: u32 = decode_u32(&mut buf)?;
                let mime_type = decode_bytes::<MAX_MIME_TYPE_LEN>(&mut buf)?;
                Ok(ProtoEvent::Clipboard(ClipboardEvent::Notify { serial, mime_type }))
            },
            EventType::ClipboardNotifyDone => {
                let serial: u32 = decode_u32(&mut buf)?;
                Ok(ProtoEvent::Clipboard(ClipboardEvent::NotifyDone { serial }))
            },
            EventType::ClipboardRequest => {
                let serial: u32 = decode_u32(&mut buf)?;
                let mime_type = decode_bytes::<MAX_MIME_TYPE_LEN>(&mut buf)?;
                Ok(ProtoEvent::Clipboard(ClipboardEvent::Request { serial, mime_type }))
            },
            EventType::ClipboardData => {
                let serial: u32 = decode_u32(&mut buf)?;
                let offset: u32 = decode_u32(&mut buf)?;
                let data_len: u8 = decode_u8(&mut buf)?;
                if data_len == 0 {
                    return Err(ProtocolError::EmptyChunk);
                }
                let data = decode_bytes::<MAX_CLIPBOARD_CHUNK_SIZE>(&mut buf)?;
                assert(s.skip(1).skip(4).skip(4).skip(1).take(256) =~= s.subrange(10, 266));
                Ok(
                    ProtoEvent::Clipboard(
                        ClipboardEvent::Data { serial, offset, data_len, data },
                    ),
                )
            },
            EventType::ClipboardDataDone => {
                let serial: u32 = decode_u32(&mut buf)?;
                Ok(ProtoEvent::Clipboard(ClipboardEvent::DataDone { serial }))
            },
        }
    }
}

impl vstd::std_specs::convert::TryFromSpecImpl<[u8; MAX_EVENT_SIZE]> for ProtoEvent {
    open spec fn obeys_try_from_spec() -> bool {
        true
    }

    open spec fn try_from_spec(buf: [u8; MAX_EVENT_SIZE]) -> Result<ProtoEvent, ProtocolError> {
        decoded(buf@)
    }
}

/// Writes the fields of a pointer event.
fn encode_pointer(buf: &mut &mut [u8], len: &mut usize, event: PointerEvent)
    requires
        old(buf)@.len() >= pointer_payload(event).len(),
        *old(len) + pointer_payload(event).len() <= usize::MAX,
    ensures
        *final(len) == *old(len) + pointer_payload(event).len(),
        final(buf)@ == old(buf)@.skip(pointer_payload(event).len() as int),
        final(*old(buf))@ == pointer_payload(event) + final(*final(buf))@,
{
    let ghost before = *old(buf);
    proof {
        lemma_field_widths();
    }
    match event {
        PointerEvent::Motion { time, dx, dy } => {
            encode_u32(buf, len, time);
            encode_f64(buf, len, dx);
            encode_f64(buf, len, dy);
        },
        PointerEvent::Button { time, button, state } => {
            encode_u32(buf, len, time);
            encode_u32(buf, len, button);
            encode_u32(buf, len, state);
        },
        PointerEvent::Axis { time, axis, value } => {
            encode_u32(buf, len, time);
            encode_u8(buf, len, axis);
            encode_f64(buf, len, value);
        },
        PointerEvent::AxisDiscrete120 { axis, value } => {
            encode_u8(buf, len, axis);
            encode_i32(buf, len, value);
        },
    }
    assert(buf@ =~= old(buf)@.skip(pointer_payload(event).len() as int));
    assert(final(before)@ =~= pointer_payload(event) + final(*buf)@);
}

/// Writes the fields of a keyboard event.
fn encode_keyboard(buf: &mut &mut [u8], len: &mut usize, event: KeyboardEvent)
    requires
        old(buf)@.len() >= keyboard_payload(event).len(),
        *old(len) + keyboard_payload(event).len() <= usize::MAX,
    ensures
        *final(len) == *old(len) + keyboard_payload(event).len(),
        final(buf)@ == old(buf)@.skip(keyboard_payload(event).len() as int),
        final(*old(buf))@ == keyboard_payload(event) + final(*final(buf))@,
{
    let ghost before = *old(buf);
    proof {
        lemma_field_widths();
    }
    match event {
        KeyboardEvent::Key { time, key, state } => {
            encode_u32(buf, len, time);
            encode_u32(buf, len, key);
            encode_u8(buf, len, state);
        },
        KeyboardEvent::Modifiers { depressed, latched, locked, group } => {
            encode_u32(buf, len, depressed);
            encode_u32(buf, len, latched);
            encode_u32(buf, len, locked);
            encode_u32(buf, len, group);
        },
    }
    assert(buf@ =~= old(buf)@.skip(keyboard_payload(event).len() as int));
    assert(final(before)@ =~= keyboard_payload(event) + final(*buf)@);
}

/// Writes the fields of a clipboard event.
fn encode_clipboard(buf: &mut &mut [u8], len: &mut usize, event: ClipboardEvent)
    requires
        old(buf)@.len() >= clipboard_payload(event).len(),
        *old(len) + clipboard_payload(event).len() <= usize::MAX,
    ensures
        *final(len) == *old(len) + clipboard_payload(event).len(),
        final(buf)@ == old(buf)@.skip(clipboard_payload(event).len() as int),
        final(*old(buf))@ == clipboard_payload(event) + final(*final(buf))@,
{
    let ghost before = *old(buf);
    proof {
        lemma_field_widths();
    }
    match event {
        ClipboardEvent::Notify { serial, mime_type } => {
            encode_u32(buf, len, serial);
            encode_bytes(buf, len, &mime_type);
        },
        ClipboardEvent::NotifyDone { serial } => {
            encode_u32(buf, len, serial);
        },
        ClipboardEvent::Request { serial, mime_type } => {
            encode_u32(buf, len, serial);
            encode_bytes(buf, len, &mime_type);
        },
        ClipboardEvent::Data { serial, offset, data_len, data } => {
            encode_u32(buf, len, serial);
            encode_u32(buf, len, offset);
            encode_u8(buf, len, data_len);
            encode_bytes(buf, len, &data);
        },
        ClipboardEvent::DataDone { serial } => {
            encode_u32(buf, len, serial);
        },
    }
    assert(buf@ =~= old(buf)@.skip(clipboard_payload(event).len() as int));
    assert(final(before)@ =~= clipboard_payload(event) + final(*buf)@);
}

/// Writes the fields of an event.
fn encode_payload(buf: &mut &mut [u8], len: &mut usize, event: ProtoEvent)
    requires
        old(buf)@.len() >= event.payload().len(),
        *old(len) + event.payload().len() <= usize::MAX,
    ensures
        *final(len) == *old(len) + event.payload().len(),
        final(buf)@ == old(buf)@.skip(event.payload().len() as int),
        final(*old(buf))@ == event.payload() + final(*final(buf))@,
{
    let ghost before = *old(buf);
    proof {
        lemma_field_widths();
    }
    match event {
        ProtoEvent::Input(event) => match event {
            InputEvent::Pointer(p) => encode_pointer(buf, len, p),
            InputEvent::Keyboard(k) => encode_keyboard(buf, len, k),
        },
        ProtoEvent::Ping => {},
        ProtoEvent::Pong(alive) => encode_u8(
            buf,
            len,
            if alive {
                1
            } else {
                0
            },
        ),
        ProtoEvent::Enter(position) => encode_u8(buf, len, u8::from(position)),
        ProtoEvent::Leave(serial) => encode_u32(buf, len, serial),
        ProtoEvent::Ack(serial) => encode_u32(buf, len, serial),
        ProtoEvent::Clipboard(event) => encode_clipboard(buf, len, event),
    }
    assert(buf@ =~= old(buf)@.skip(event.payload().len() as int));
    assert(final(before)@ =~= event.payload() + final(*buf)@);
}

impl From<ProtoEvent> for ([u8; MAX_EVENT_SIZE], usize) {
    fn from(event: ProtoEvent) -> (result: ([u8; MAX_EVENT_SIZE], usize))
        ensures
            result.0@ == padded(event.encoded()),
            result.1 == event.encoded().len(),
    {
        proof {
            law_event_fits_datagram(event);
        }
        let mut buf: [u8; MAX_EVENT_SIZE] = [0u8; MAX_EVENT_SIZE];
        let mut len: usize = 0;
        {
            let mut rest: &mut [u8] = &mut buf;
            encode_u8(&mut rest, &mut len, u8::from(event.event_type()));
            encode_payload(&mut rest, &mut len, event);
        }
        proof {
            assert(buf@ =~= padded(event.encoded()));
            lemma_array_of::<MAX_EVENT_SIZE>(padded(event.encoded()));
        }
        (buf, len)
    }
}

impl vstd::std_specs::convert::FromSpecImpl<ProtoEvent> for ([u8; MAX_EVENT_SIZE], usize) {
    open spec fn obeys_from_spec() -> bool {
        true
    }

    open spec fn from_spec(event: ProtoEvent) -> ([u8; MAX_EVENT_SIZE], usize) {
        (array_of(padded(event.encoded())), event.encoded().len() as usize)
    }
}

impl Position {
    /// How this position is shown.
    pub open spec fn shown(self) -> Seq<char> {
        match self {
            Position::Left => "left"@,
            Position::Right => "right"@,
            Position::Top => "top"@,
            Position::Bottom => "bottom"@,
        }
    }

    /// How this position is shown.
    pub fn fmt(&self) -> (text: String)
        ensures
            text@ == self.shown(),
    {
        let pos = match self {
            Position::Left => "left",
            Position::Right => "right",
            Position::Top => "top",
            Position::Bottom => "bottom",
        };
        pos.to_owned()
    }
}

impl ProtoEvent {
    /// How this event is shown.
    pub open spec fn shown(self, labels: Labels) -> Seq<char> {
        match self {
            ProtoEvent::Enter(position) => "Enter("@ + position.shown() + ")"@,
            ProtoEvent::Leave(serial) => "Leave("@ + decimal(serial as nat) + ")"@,
            ProtoEvent::Ack(serial) => "Ack("@ + decimal(serial as nat) + ")"@,
            ProtoEvent::Input(e) => e.shown(labels),
            ProtoEvent::Ping => "ping"@,
            ProtoEvent::Pong(alive) => "pong: "@ + if alive {
                "alive"@
            } else {
                "not available"@
            },
            ProtoEvent::Clipboard(e) => e.shown(),
        }
    }

    /// How this event is shown.
    pub fn fmt(&self, labels: &Labels) -> (text: String)
        ensures
            text@ == self.shown(*labels),
    {
        let mut text = String::new();
        match self {
            ProtoEvent::Enter(position) => {
                text.append("Enter(");
                text.append(position.fmt().as_str());
                text.append(")");
            },
            ProtoEvent::Leave(serial) => {
                text.append("Leave(");
                push_u32(&mut text, *serial);
                text.append(")");
            },
            ProtoEvent::Ack(serial) => {
                text.append("Ack(");
                push_u32(&mut text, *serial);
                text.append(")");
            },
            ProtoEvent::Input(e) => text.append(e.fmt(labels).as_str()),
            ProtoEvent::Ping => text.append("ping"),
            ProtoEvent::Pong(alive) => {
                text.append("pong: ");
                text.append(
                    if *alive {
                        "alive"
                    } else {
                        "not available"
                    },
                );
            },
            ProtoEvent::Clipboard(e) => text.append(e.fmt().as_str()),
        }
        assert(text@ =~= self.shown(*labels));
        text
    }
}

proof fn lemma_field_widths()
    ensures
        forall|n: nat| #[trigger] be_bytes(n, 4).len() == 4,
        forall|n: nat| #[trigger] be_bytes(n, 8).len() == 8,
{
    assert forall|n: nat| #[trigger] be_bytes(n, 4).len() == 4 by {
        lemma_be_bytes_len(n, 4);
    }
    assert forall|n: nat| #[trigger] be_bytes(n, 8).len() == 8 by {
        lemma_be_bytes_len(n, 8);
    }
}

/// Every event fits a datagram, and none takes more room than a clipboard data event, which
/// fills it.
pub proof fn law_event_fits_datagram(event: ProtoEvent)
    ensures
        1 <= event.encoded().len() <= MAX_EVENT_SIZE,
        event.encoded().len() == MAX_EVENT_SIZE <==> event.kind() is ClipboardData,
        padded(event.encoded()).len() == MAX_EVENT_SIZE,
{
    lemma_field_widths();
}

/// The number of a kind of event names that kind, a number that names a kind is its number,
/// and the numbers from sixteen on name none.
pub proof fn law_event_type_numbers(kind: EventType, id: u8)
    ensures
        EventType::named(kind.id()) == Ok::<EventType, ProtocolError>(kind),
        EventType::named(id) == Ok::<EventType, ProtocolError>(kind) ==> kind.id() == id,
        EventType::named(id) is Err <==> id >= 16,
{
}

/// The number of a position names that position, a number that names a position is its
/// number, and the numbers from four on name none.
pub proof fn law_position_numbers(position: Position, id: u8)
    ensures
        Position::named(position.id()) == Ok::<Position, ProtocolError>(position),
        Position::named(id) == Ok::<Position, ProtocolError>(position) ==> position.id() == id,
        Position::named(id) is Err <==> id >= 4,
{
}

/// A datagram is refused if and only if its first byte names no kind of event, or it is of
/// the kind `Enter` and its second byte names no position, or it is of the kind
/// `ClipboardData` and its tenth byte says that no byte of it is valid.
pub proof fn law_refused_datagrams(s: Seq<u8>)
    ensures
        decoded(s) is Err <==> s[0] >= 16 || s[0] == EventType::Enter.id() && s[1] >= 4 || s[0]
            == EventType::ClipboardData.id() && s[9] == 0,
        s[0] >= 16 ==> decoded(s) == Err::<ProtoEvent, ProtocolError>(
            ProtocolError::InvalidEventId(s[0]),
        ),
        s[0] == EventType::Enter.id() && s[1] >= 4 ==> decoded(s) == Err::<
            ProtoEvent,
            ProtocolError,
        >(ProtocolError::InvalidPosition(s[1])),
        s[0] == EventType::ClipboardData.id() && s[9] == 0 ==> decoded(s) == Err::<
            ProtoEvent,
            ProtocolError,
        >(ProtocolError::EmptyChunk),
        decoded(s) matches Ok(event) ==> event.well_formed(),
{
}

/// A datagram that starts with the bytes of a clipboard data event holds its fields.
proof fn lemma_data_fields(event: ClipboardEvent, s: Seq<u8>)
    requires
        event is Data,
        ProtoEvent::Clipboard(event).encoded().len() <= s.len(),
        s.take(ProtoEvent::Clipboard(event).encoded().len() as int) == ProtoEvent::Clipboard(
            event,
        ).encoded(),
    ensures
        s[0] == EventType::ClipboardData.id(),
        data_at(s) == event,
{
    lemma_field_widths();
    lemma_be_capacities();
    let e = ProtoEvent::Clipboard(event).encoded();
    let prefix = s.take(e.len() as int);
    assert(s[0] == prefix[0]);
    if let ClipboardEvent::Data { serial, offset, data_len, data } = event {
        lemma_be_round_trip(serial as nat, 4);
        lemma_be_round_trip(offset as nat, 4);
        assert(s.subrange(1, 5) =~= prefix.subrange(1, 5));
        assert(e.subrange(1, 5) =~= be_bytes(serial as nat, 4));
        assert(s.subrange(5, 9) =~= prefix.subrange(5, 9));
        assert(e.subrange(5, 9) =~= be_bytes(offset as nat, 4));
        assert(s[9] == prefix[9]);
        assert(prefix[9] == data_len);
        assert(s.subrange(10, 266) =~= prefix.subrange(10, 266));
        assert(e.subrange(10, 266) =~= data@);
        lemma_array_of::<MAX_CLIPBOARD_CHUNK_SIZE>(data@);
    }
}

/// A datagram that starts with the bytes of an event is read as that event, whatever
/// follows them; a clipboard data event without a valid byte is refused.
pub proof fn law_decoding_reads_the_event(event: ProtoEvent, s: Seq<u8>)
    requires
        event.encoded().len() <= s.len(),
        s.take(event.encoded().len() as int) == event.encoded(),
    ensures
        event.well_formed() ==> decoded(s) == Ok::<ProtoEvent, ProtocolError>(event),
        !event.well_formed() ==> decoded(s) == Err::<ProtoEvent, ProtocolError>(
            ProtocolError::EmptyChunk,
        ),
{
    lemma_field_widths();
    lemma_be_capacities();
    let e = event.encoded();
    let prefix = s.take(e.len() as int);
    assert(s[0] == prefix[0]);
    law_event_type_numbers(event.kind(), s[0]);
    assert forall|i: int, j: int| 0 <= i <= j <= e.len() implies #[trigger] s.subrange(i, j)
        == e.subrange(i, j) by {
        assert(s.subrange(i, j) =~= prefix.subrange(i, j));
    }
    assert(e.len() >= 2 ==> s[1] == prefix[1]);
    match event {
        ProtoEvent::Input(InputEvent::Pointer(p)) => match p {
            PointerEvent::Motion { time, dx, dy } => {
                lemma_be_round_trip(time as nat, 4);
                lemma_be_round_trip(dx.0 as nat, 8);
                lemma_be_round_trip(dy.0 as nat, 8);
                assert(e.subrange(1, 5) =~= be_bytes(time as nat, 4));
                assert(e.subrange(5, 13) =~= be_bytes(dx.0 as nat, 8));
                assert(e.subrange(13, 21) =~= be_bytes(dy.0 as nat, 8));
            },
            PointerEvent::Button { time, button, state } => {
                lemma_be_round_trip(time as nat, 4);
                lemma_be_round_trip(button as nat, 4);
                lemma_be_round_trip(state as nat, 4);
                assert(e.subrange(1, 5) =~= be_bytes(time as nat, 4));
                assert(e.subrange(5, 9) =~= be_bytes(button as nat, 4));
                assert(e.subrange(9, 13) =~= be_bytes(state as nat, 4));
            },
            PointerEvent::Axis { time, axis, value } => {
                lemma_be_round_trip(time as nat, 4);
                lemma_be_round_trip(value.0 as nat, 8);
                assert(e.subrange(1, 5) =~= be_bytes(time as nat, 4));
                assert(prefix[5] == axis);
                assert(e.subrange(6, 14) =~= be_bytes(value.0 as nat, 8));
            },
            PointerEvent::AxisDiscrete120 { axis, value } => {
                lemma_twos_complement_round_trip(value);
                lemma_be_round_trip(twos_complement(value), 4);
                assert(prefix[1] == axis);
                assert(e.subrange(2, 6) =~= be_bytes(twos_complement(value), 4));
            },
        },
        ProtoEvent::Input(InputEvent::Keyboard(k)) => match k {
            KeyboardEvent::Key { time, key, state } => {
                lemma_be_round_trip(time as nat, 4);
                lemma_be_round_trip(key as nat, 4);
                assert(e.subrange(1, 5) =~= be_bytes(time as nat, 4));
                assert(e.subrange(5, 9) =~= be_bytes(key as nat, 4));
                assert(prefix[9] == state);
            },
            KeyboardEvent::Modifiers { depressed, latched, locked, group } => {
                lemma_be_round_trip(depressed as nat, 4);
                lemma_be_round_trip(latched as nat, 4);
                lemma_be_round_trip(locked as nat, 4);
                lemma_be_round_trip(group as nat, 4);
                assert(e.subrange(1, 5) =~= be_bytes(depressed as nat, 4));
                assert(e.subrange(5, 9) =~= be_bytes(latched as nat, 4));
                assert(e.subrange(9, 13) =~= be_bytes(locked as nat, 4));
                assert(e.subrange(13, 17) =~= be_bytes(group as nat, 4));
            },
        },
        ProtoEvent::Ping => {},
        ProtoEvent::Pong(alive) => {},
        ProtoEvent::Enter(position) => {
            law_position_numbers(position, s[1]);
        },
        ProtoEvent::Leave(serial) => {
            lemma_be_round_trip(serial as nat, 4);
            assert(e.subrange(1, 5) =~= be_bytes(serial as nat, 4));
        },
        ProtoEvent::Ack(serial) => {
            lemma_be_round_trip(serial as nat, 4);
            assert(e.subrange(1, 5) =~= be_bytes(serial as nat, 4));
        },
        ProtoEvent::Clipboard(c) => match c {
            ClipboardEvent::Notify { serial, mime_type } => {
                lemma_be_round_trip(serial as nat, 4);
                assert(e.subrange(1, 5) =~= be_bytes(serial as nat, 4));
                assert(e.subrange(5, 69) =~= mime_type@);
                lemma_array_of::<MAX_MIME_TYPE_LEN>(mime_type@);
            },
            ClipboardEvent::NotifyDone { serial } => {
                lemma_be_round_trip(serial as nat, 4);
                assert(e.subrange(1, 5) =~= be_bytes(serial as nat, 4));
            },
            ClipboardEvent::Request { serial, mime_type } => {
                lemma_be_round_trip(serial as nat, 4);
                assert(e.subrange(1, 5) =~= be_bytes(serial as nat, 4));
                assert(e.subrange(5, 69) =~= mime_type@);
                lemma_array_of::<MAX_MIME_TYPE_LEN>(mime_type@);
            },
            ClipboardEvent::Data { .. } => {
                lemma_data_fields(c, s);
            },
            ClipboardEvent::DataDone { serial } => {
                lemma_be_round_trip(serial as nat, 4);
                assert(e.subrange(1, 5) =~= be_bytes(serial as nat, 4));
            },
        },
    }
}

/// Decoding the datagram that an event was encoded to gives the event back. A clipboard data
/// event has to have a valid byte for that.
pub proof fn law_round_trip(event: ProtoEvent)
    requires
        event.well_formed(),
    ensures
        decoded(padded(event.encoded())) == Ok::<ProtoEvent, ProtocolError>(event),
        decoded(array_of::<MAX_EVENT_SIZE>(padded(event.encoded()))@) == Ok::<
            ProtoEvent,
            ProtocolError,
        >(event),
{
    law_event_fits_datagram(event);
    let s = padded(event.encoded());
    assert(s.take(event.encoded().len() as int) =~= event.encoded());
    law_decoding_reads_the_event(event, s);
    lemma_array_of::<MAX_EVENT_SIZE>(s);
}

/// No event's bytes are the start of another event's bytes; in particular, different events
/// travel as different bytes.
pub proof fn law_encodings_are_prefix_free(a: ProtoEvent, b: ProtoEvent)
    requires
        a.encoded().len() <= b.encoded().len(),
        b.encoded().take(a.encoded().len() as int) == a.encoded(),
    ensures
        a == b,
{
    assert(b.encoded().take(b.encoded().len() as int) =~= b.encoded());
    law_decoding_reads_the_event(a, b.encoded());
    law_decoding_reads_the_event(b, b.encoded());
    if !a.well_formed() {
        lemma_data_fields(a->Clipboard_0, b.encoded());
        lemma_data_fields(b->Clipboard_0, b.encoded());
    }
}

/// Encoding the event that was read from a datagram gives back the bytes it was read from,
/// except that any non-zero byte of a `Pong` comes back as one.
pub proof fn law_encoding_restores_the_datagram(s: Seq<u8>)
    requires
        s.len() == MAX_EVENT_SIZE,
        decoded(s) is Ok,
    ensures
        !(s[0] == EventType::Pong.id() && s[1] > 1) ==> decoded(s)->Ok_0.encoded() == s.take(
            decoded(s)->Ok_0.encoded().len() as int,
        ),
        s[0] == EventType::Pong.id() && s[1] > 1 ==> decoded(s)->Ok_0.encoded()
            == seq![EventType::Pong.id(), 1u8],
{
    lemma_field_widths();
    lemma_be_capacities();
    let event = decoded(s)->Ok_0;
    let kind = EventType::named(s[0])->Ok_0;
    law_event_type_numbers(kind, s[0]);
    assert forall|i: int| 0 <= i && i + 4 <= s.len() implies be_bytes(
        #[trigger] u32_at(s, i) as nat,
        4,
    ) == s.subrange(i, i + 4) by {
        lemma_be_value_round_trip(s.subrange(i, i + 4));
    }
    assert forall|i: int| 0 <= i && i + 4 <= s.len() implies be_bytes(
        twos_complement(#[trigger] i32_at(s, i)),
        4,
    ) == s.subrange(i, i + 4) by {
        lemma_be_value_round_trip(s.subrange(i, i + 4));
    }
    assert forall|i: int| 0 <= i && i + 8 <= s.len() implies be_bytes(
        (#[trigger] f64_at(s, i)).0 as nat,
        8,
    ) == s.subrange(i, i + 8) by {
        lemma_be_value_round_trip(s.subrange(i, i + 8));
    }
    lemma_array_of::<MAX_MIME_TYPE_LEN>(s.subrange(5, 69));
    lemma_array_of::<MAX_CLIPBOARD_CHUNK_SIZE>(s.subrange(10, 266));
    if kind is Enter {
        law_position_numbers(Position::named(s[1])->Ok_0, s[1]);
    }
    assert(event.kind() == kind);
    if kind is Pong && s[1] > 1 {
        assert(event.encoded() =~= seq![EventType::Pong.id(), 1u8]);
    } else {
        assert(event.encoded() =~= s.take(event.encoded().len() as int));
    }
}

/// The number whose digits in base 256 are the four bytes of `s` from `at` on, the most
/// significant first.
pub open spec fn four_digits(s: Seq<u8>, at: int) -> int {
    s[at] * 0x100_0000 + s[at + 1] * 0x1_0000 + s[at + 2] * 0x100 + s[at + 3]
}

/// The number whose digits in base 256 are the eight bytes of `s` from `at` on, the most
/// significant first.
pub open spec fn eight_digits(s: Seq<u8>, at: int) -> int {
    four_digits(s, at) * 0x1_0000_0000 + four_digits(s, at + 4)
}

/// What is read at a place is what the bytes there say, digit by digit.
proof fn lemma_fields_are_digits(s: Seq<u8>)
    ensures
        forall|at: int|
            0 <= at && at + 4 <= s.len() ==> #[trigger] u32_at(s, at) == four_digits(s, at),
        forall|at: int|
            0 <= at && at + 4 <= s.len() ==> (four_digits(s, at) - #[trigger] i32_at(s, at))
                % 0x1_0000_0000 == 0,
        forall|at: int|
            0 <= at && at + 8 <= s.len() ==> (#[trigger] f64_at(s, at)).0 == eight_digits(s, at),
{
    let pad = Seq::new(8, |i: int| 0u8);
    assert forall|at: int| 0 <= at && at + 4 <= s.len() implies #[trigger] u32_at(s, at)
        == four_digits(s, at) by {
        law_read_bytes_are_digits(s.subrange(at, at + 4), pad);
    }
    assert forall|at: int| 0 <= at && at + 4 <= s.len() implies (four_digits(s, at)
        - #[trigger] i32_at(s, at)) % 0x1_0000_0000 == 0 by {
        law_read_bytes_are_digits(s.subrange(at, at + 4), pad);
        law_twos_complement_is_congruent(0, four_digits(s, at) as u32);
    }
    assert forall|at: int| 0 <= at && at + 8 <= s.len() implies (#[trigger] f64_at(s, at)).0
        == eight_digits(s, at) by {
        law_read_bytes_are_digits(pad.take(4), s.subrange(at, at + 8));
    }
}

/// A number that was written in four bytes is what its digits say.
proof fn lemma_four_digits(s: Seq<u8>, at: int, n: u32)
    requires
        0 <= at,
        at + 4 <= s.len(),
        s.subrange(at, at + 4) == be_bytes(n as nat, 4),
    ensures
        four_digits(s, at) == n,
{
    law_written_bytes_are_digits(n, 0);
    let b = s.subrange(at, at + 4);
    assert(b[0] == s[at] && b[1] == s[at + 1] && b[2] == s[at + 2] && b[3] == s[at + 3]);
}

/// A number that was written in eight bytes is what its digits say.
proof fn lemma_eight_digits(s: Seq<u8>, at: int, n: u64)
    requires
        0 <= at,
        at + 8 <= s.len(),
        s.subrange(at, at + 8) == be_bytes(n as nat, 8),
    ensures
        eight_digits(s, at) == n,
{
    law_written_bytes_are_digits(0, n);
    let b = s.subrange(at, at + 8);
    assert(b[0] == s[at] && b[1] == s[at + 1] && b[2] == s[at + 2] && b[3] == s[at + 3]);
    assert(b[4] == s[at + 4] && b[5] == s[at + 5] && b[6] == s[at + 6] && b[7] == s[at + 7]);
}

/// Every kind of event has its number, and every number below sixteen its kind.
pub proof fn law_event_types_are_numbered_from_zero(kind: EventType)
    ensures
        kind.id() < 16,
        EventType::named(kind.id()) == Ok::<EventType, ProtocolError>(kind),
        kind is PointerMotion <==> kind.id() == 0,
        kind is PointerButton <==> kind.id() == 1,
        kind is PointerAxis <==> kind.id() == 2,
        kind is PointerAxisValue120 <==> kind.id() == 3,
        kind is KeyboardKey <==> kind.id() == 4,
        kind is KeyboardModifiers <==> kind.id() == 5,
        kind is Ping <==> kind.id() == 6,
        kind is Pong <==> kind.id() == 7,
        kind is Enter <==> kind.id() == 8,
        kind is Leave <==> kind.id() == 9,
        kind is Ack <==> kind.id() == 10,
        kind is ClipboardNotify <==> kind.id() == 11,
        kind is ClipboardNotifyDone <==> kind.id() == 12,
        kind is ClipboardRequest <==> kind.id() == 13,
        kind is ClipboardData <==> kind.id() == 14,
        kind is ClipboardDataDone <==> kind.id() == 15,
{
}

/// Every number that names nothing is refused with that number.
pub proof fn law_unknown_numbers_are_reported(id: u8)
    ensures
        EventType::named(id) matches Ok(kind) ==> kind.id() == id,
        EventType::named(id) matches Err(e) ==> e == ProtocolError::InvalidEventId(id),
        EventType::named(id) is Ok <==> id < 16,
        Position::named(id) matches Ok(position) ==> position.id() == id,
        Position::named(id) matches Err(e) ==> e == ProtocolError::InvalidPosition(id),
        Position::named(id) is Ok <==> id < 4,
{
}

/// The positions are numbered in the order left, right, top, bottom.
pub proof fn law_positions_are_numbered_from_zero(position: Position)
    ensures
        position is Left <==> position.id() == 0,
        position is Right <==> position.id() == 1,
        position is Top <==> position.id() == 2,
        position is Bottom <==> position.id() == 3,
{
}

/// A datagram is read by position: its first byte tells the kind of event, and each field is
/// what the bytes at its place say, the most significant first.
pub proof fn law_datagrams_are_read_by_position(s: Seq<u8>)
    requires
        s.len() == 266,
    ensures
        decoded(s) matches Ok(event) ==> match event {
            ProtoEvent::Input(InputEvent::Pointer(PointerEvent::Motion { time, dx, dy })) => {
                &&& s[0] == 0
                &&& time == four_digits(s, 1)
                &&& dx.0 == eight_digits(s, 5)
                &&& dy.0 == eight_digits(s, 13)
            },
            ProtoEvent::Input(
                InputEvent::Pointer(PointerEvent::Button { time, button, state }),
            ) => {
                &&& s[0] == 1
                &&& time == four_digits(s, 1)
                &&& button == four_digits(s, 5)
                &&& state == four_digits(s, 9)
            },
            ProtoEvent::Input(InputEvent::Pointer(PointerEvent::Axis { time, axis, value })) => {
                &&& s[0] == 2
                &&& time == four_digits(s, 1)
                &&& axis == s[5]
                &&& value.0 == eight_digits(s, 6)
            },
            ProtoEvent::Input(
                InputEvent::Pointer(PointerEvent::AxisDiscrete120 { axis, value }),
            ) => {
                &&& s[0] == 3
                &&& axis == s[1]
                &&& (four_digits(s, 2) - value) % 0x1_0000_0000 == 0
            },
            ProtoEvent::Input(InputEvent::Keyboard(KeyboardEvent::Key { time, key, state })) => {
                &&& s[0] == 4
                &&& time == four_digits(s, 1)
                &&& key == four_digits(s, 5)
                &&& state == s[9]
            },
            ProtoEvent::Input(
                InputEvent::Keyboard(
                    KeyboardEvent::Modifiers { depressed, latched, locked, group },
                ),
            ) => {
                &&& s[0] == 5
                &&& depressed == four_digits(s, 1)
                &&& latched == four_digits(s, 5)
                &&& locked == four_digits(s, 9)
                &&& group == four_digits(s, 13)
            },
            ProtoEvent::Ping => s[0] == 6,
            ProtoEvent::Pong(alive) => s[0] == 7 && alive == (s[1] != 0),
            ProtoEvent::Enter(position) => {
                &&& s[0] == 8
                &&& position is Left <==> s[1] == 0
                &&& position is Right <==> s[1] == 1
                &&& position is Top <==> s[1] == 2
                &&& position is Bottom <==> s[1] == 3
            },
            ProtoEvent::Leave(serial) => s[0] == 9 && serial == four_digits(s, 1),
            ProtoEvent::Ack(serial) => s[0] == 10 && serial == four_digits(s, 1),
            ProtoEvent::Clipboard(ClipboardEvent::Notify { serial, mime_type }) => {
                &&& s[0] == 11
                &&& serial == four_digits(s, 1)
                &&& mime_type@ == s.subrange(5, 69)
            },
            ProtoEvent::Clipboard(ClipboardEvent::NotifyDone { serial }) => {
                &&& s[0] == 12
                &&& serial == four_digits(s, 1)
            },
            ProtoEvent::Clipboard(ClipboardEvent::Request { serial, mime_type }) => {
                &&& s[0] == 13
                &&& serial == four_digits(s, 1)
                &&& mime_type@ == s.subrange(5, 69)
            },
            ProtoEvent::Clipboard(ClipboardEvent::Data { serial, offset, data_len, data }) => {
                &&& s[0] == 14
                &&& serial == four_digits(s, 1)
                &&& offset == four_digits(s, 5)
                &&& data_len == s[9]
                &&& data@ == s.subrange(10, 266)
            },
            ProtoEvent::Clipboard(ClipboardEvent::DataDone { serial }) => {
                &&& s[0] == 15
                &&& serial == four_digits(s, 1)
            },
        },
{
    lemma_fields_are_digits(s);
    lemma_array_of::<MAX_MIME_TYPE_LEN>(s.subrange(5, 69));
    lemma_array_of::<MAX_CLIPBOARD_CHUNK_SIZE>(s.subrange(10, 266));
}

/// An event is written by position: the first byte is the number of its kind, and each field
/// stands in the bytes at its place, the most significant first.
pub proof fn law_events_are_written_by_position(event: ProtoEvent)
    ensures
        event.encoded()[0] == event.kind().id(),
        match event {
            ProtoEvent::Input(InputEvent::Pointer(PointerEvent::Motion { time, dx, dy })) => {
                &&& event.encoded()[0] == 0
                &&& time == four_digits(event.encoded(), 1)
                &&& dx.0 == eight_digits(event.encoded(), 5)
                &&& dy.0 == eight_digits(event.encoded(), 13)
            },
            ProtoEvent::Input(
                InputEvent::Pointer(PointerEvent::Button { time, button, state }),
            ) => {
                &&& event.encoded()[0] == 1
                &&& time == four_digits(event.encoded(), 1)
                &&& button == four_digits(event.encoded(), 5)
                &&& state == four_digits(event.encoded(), 9)
            },
            ProtoEvent::Input(InputEvent::Pointer(PointerEvent::Axis { time, axis, value })) => {
                &&& event.encoded()[0] == 2
                &&& time == four_digits(event.encoded(), 1)
                &&& axis == event.encoded()[5]
                &&& value.0 == eight_digits(event.encoded(), 6)
            },
            ProtoEvent::Input(
                InputEvent::Pointer(PointerEvent::AxisDiscrete120 { axis, value }),
            ) => {
                &&& event.encoded()[0] == 3
                &&& axis == event.encoded()[1]
                &&& (four_digits(event.encoded(), 2) - value) % 0x1_0000_0000 == 0
            },
            ProtoEvent::Input(InputEvent::Keyboard(KeyboardEvent::Key { time, key, state })) => {
                &&& event.encoded()[0] == 4
                &&& time == four_digits(event.encoded(), 1)
                &&& key == four_digits(event.encoded(), 5)
                &&& state == event.encoded()[9]
            },
            ProtoEvent::Input(
                InputEvent::Keyboard(
                    KeyboardEvent::Modifiers { depressed, latched, locked, group },
                ),
            ) => {
                &&& event.encoded()[0] == 5
                &&& depressed == four_digits(event.encoded(), 1)
                &&& latched == four_digits(event.encoded(), 5)
                &&& locked == four_digits(event.encoded(), 9)
                &&& group == four_digits(event.encoded(), 13)
            },
            ProtoEvent::Ping => event.encoded()[0] == 6,
            ProtoEvent::Pong(alive) => event.encoded()[0] == 7 && event.encoded()[1] == if alive { 1u8 } else { 0u8 },
            ProtoEvent::Enter(position) => {
                &&& event.encoded()[0] == 8
                &&& position is Left <==> event.encoded()[1] == 0
                &&& position is Right <==> event.encoded()[1] == 1
                &&& position is Top <==> event.encoded()[1] == 2
                &&& position is Bottom <==> event.encoded()[1] == 3
            },
            ProtoEvent::Leave(serial) => event.encoded()[0] == 9 && serial == four_digits(event.encoded(), 1),
            ProtoEvent::Ack(serial) => event.encoded()[0] == 10 && serial == four_digits(event.encoded(), 1),
            ProtoEvent::Clipboard(ClipboardEvent::Notify { serial, mime_type }) => {
                &&& event.encoded()[0] == 11
                &&& serial == four_digits(event.encoded(), 1)
                &&& mime_type@ == event.encoded().subrange(5, 69)
            },
            ProtoEvent::Clipboard(ClipboardEvent::NotifyDone { serial }) => {
                &&& event.encoded()[0] == 12
                &&& serial == four_digits(event.encoded(), 1)
            },
            ProtoEvent::Clipboard(ClipboardEvent::Request { serial, mime_type }) => {
                &&& event.encoded()[0] == 13
                &&& serial == four_digits(event.encoded(), 1)
                &&& mime_type@ == event.encoded().subrange(5, 69)
            },
            ProtoEvent::Clipboard(ClipboardEvent::Data { serial, offset, data_len, data }) => {
                &&& event.encoded()[0] == 14
                &&& serial == four_digits(event.encoded(), 1)
                &&& offset == four_digits(event.encoded(), 5)
                &&& data_len == event.encoded()[9]
                &&& data@ == event.encoded().subrange(10, 266)
            },
            ProtoEvent::Clipboard(ClipboardEvent::DataDone { serial }) => {
                &&& event.encoded()[0] == 15
                &&& serial == four_digits(event.encoded(), 1)
            },
        },
{
    let e = event.encoded();
    lemma_field_widths();
    match event {
        ProtoEvent::Input(InputEvent::Pointer(p)) => match p {
            PointerEvent::Motion { time, dx, dy } => {
                assert(e.subrange(1, 5) =~= be_bytes(time as nat, 4));
                lemma_four_digits(e, 1, time);
                assert(e.subrange(5, 13) =~= be_bytes(dx.0 as nat, 8));
                lemma_eight_digits(e, 5, dx.0);
                assert(e.subrange(13, 21) =~= be_bytes(dy.0 as nat, 8));
                lemma_eight_digits(e, 13, dy.0);
            },
            PointerEvent::Button { time, button, state } => {
                assert(e.subrange(1, 5) =~= be_bytes(time as nat, 4));
                lemma_four_digits(e, 1, time);
                assert(e.subrange(5, 9) =~= be_bytes(button as nat, 4));
                lemma_four_digits(e, 5, button);
                assert(e.subrange(9, 13) =~= be_bytes(state as nat, 4));
                lemma_four_digits(e, 9, state);
            },
            PointerEvent::Axis { time, axis, value } => {
                assert(e.subrange(1, 5) =~= be_bytes(time as nat, 4));
                lemma_four_digits(e, 1, time);
                assert(e.subrange(6, 14) =~= be_bytes(value.0 as nat, 8));
                lemma_eight_digits(e, 6, value.0);
            },
            PointerEvent::AxisDiscrete120 { axis, value } => {
                law_twos_complement_is_congruent(value, 0);
                assert(e.subrange(2, 6) =~= be_bytes(twos_complement(value) as u32 as nat, 4));
                lemma_four_digits(e, 2, twos_complement(value) as u32);
            },
        },
        ProtoEvent::Input(InputEvent::Keyboard(k)) => match k {
            KeyboardEvent::Key { time, key, state } => {
                assert(e.subrange(1, 5) =~= be_bytes(time as nat, 4));
                lemma_four_digits(e, 1, time);
                assert(e.subrange(5, 9) =~= be_bytes(key as nat, 4));
                lemma_four_digits(e, 5, key);
            },
            KeyboardEvent::Modifiers { depressed, latched, locked, group } => {
                assert(e.subrange(1, 5) =~= be_bytes(depressed as nat, 4));
                lemma_four_digits(e, 1, depressed);
                assert(e.subrange(5, 9) =~= be_bytes(latched as nat, 4));
                lemma_four_digits(e, 5, latched);
                assert(e.subrange(9, 13) =~= be_bytes(locked as nat, 4));
                lemma_four_digits(e, 9, locked);
                assert(e.subrange(13, 17) =~= be_bytes(group as nat, 4));
                lemma_four_digits(e, 13, group);
            },
        },
        ProtoEvent::Leave(serial) => {
            assert(e.subrange(1, 5) =~= be_bytes(serial as nat, 4));
            lemma_four_digits(e, 1, serial);
        },
        ProtoEvent::Ack(serial) => {
            assert(e.subrange(1, 5) =~= be_bytes(serial as nat, 4));
            lemma_four_digits(e, 1, serial);
        },
        ProtoEvent::Clipboard(c) => match c {
            ClipboardEvent::Notify { serial, mime_type } => {
                assert(e.subrange(1, 5) =~= be_bytes(serial as nat, 4));
                lemma_four_digits(e, 1, serial);
                assert(e.subrange(5, 69) =~= mime_type@);
            },
            ClipboardEvent::NotifyDone { serial } => {
                assert(e.subrange(1, 5) =~= be_bytes(serial as nat, 4));
                lemma_four_digits(e, 1, serial);
            },
            ClipboardEvent::Request { serial, mime_type } => {
                assert(e.subrange(1, 5) =~= be_bytes(serial as nat, 4));
                lemma_four_digits(e, 1, serial);
                assert(e.subrange(5, 69) =~= mime_type@);
            },
            ClipboardEvent::Data { serial, offset, data_len, data } => {
                assert(e.subrange(1, 5) =~= be_bytes(serial as nat, 4));
                lemma_four_digits(e, 1, serial);
                assert(e.subrange(5, 9) =~= be_bytes(offset as nat, 4));
                lemma_four_digits(e, 5, offset);
                assert(e.subrange(10, 266) =~= data@);
            },
            ClipboardEvent::DataDone { serial } => {
                assert(e.subrange(1, 5) =~= be_bytes(serial as nat, 4));
                lemma_four_digits(e, 1, serial);
            },
        },
        _ => {},
    }
}

/// How many bytes an event takes: one for its kind, and then the widths of its fields.
pub proof fn law_sizes_of_events(event: ProtoEvent)
    ensures
        event.encoded().len() == match event {
            ProtoEvent::Input(InputEvent::Pointer(PointerEvent::Motion { .. })) => 21int,
            ProtoEvent::Input(InputEvent::Pointer(PointerEvent::Button { .. })) => 13,
            ProtoEvent::Input(InputEvent::Pointer(PointerEvent::Axis { .. })) => 14,
            ProtoEvent::Input(InputEvent::Pointer(PointerEvent::AxisDiscrete120 { .. })) => 6,
            ProtoEvent::Input(InputEvent::Keyboard(KeyboardEvent::Key { .. })) => 10,
            ProtoEvent::Input(InputEvent::Keyboard(KeyboardEvent::Modifiers { .. })) => 17,
            ProtoEvent::Ping => 1,
            ProtoEvent::Pong(_) => 2,
            ProtoEvent::Enter(_) => 2,
            ProtoEvent::Leave(_) => 5,
            ProtoEvent::Ack(_) => 5,
            ProtoEvent::Clipboard(ClipboardEvent::Notify { .. }) => 69,
            ProtoEvent::Clipboard(ClipboardEvent::NotifyDone { .. }) => 5,
            ProtoEvent::Clipboard(ClipboardEvent::Request { .. }) => 69,
            ProtoEvent::Clipboard(ClipboardEvent::Data { .. }) => 266,
            ProtoEvent::Clipboard(ClipboardEvent::DataDone { .. }) => 5,
        },
{
    lemma_field_widths();
}

/// A datagram is as long as the longest event; after the bytes of its event it holds zeros.
pub proof fn law_datagrams_are_filled_with_zeros(bytes: Seq<u8>)
    requires
        bytes.len() <= 266,
    ensures
        padded(bytes).len() == 266,
        padded(bytes).take(bytes.len() as int) == bytes,
        forall|i: int| bytes.len() <= i < 266 ==> #[trigger] padded(bytes)[i] == 0,
{
    assert(padded(bytes).take(bytes.len() as int) =~= bytes);
}

/// The text of a position is its name in lower case.
pub proof fn law_text_of_positions(position: Position)
    ensures
        position is Left ==> position.shown() == "left"@,
        position is Right ==> position.shown() == "right"@,
        position is Top ==> position.shown() == "top"@,
        position is Bottom ==> position.shown() == "bottom"@,
{
}

/// The text of an event names what happens and gives its serial or position; input and
/// clipboard events are shown as they are by themselves.
pub proof fn law_text_of_events(event: ProtoEvent, labels: Labels)
    ensures
        ({
            let text = event.shown(labels);
            match event {
                ProtoEvent::Enter(position) => text == "Enter("@ + position.shown() + ")"@,
                ProtoEvent::Leave(serial) => text == "Leave("@ + decimal(serial as nat) + ")"@,
                ProtoEvent::Ack(serial) => text == "Ack("@ + decimal(serial as nat) + ")"@,
                ProtoEvent::Input(e) => text == e.shown(labels),
                ProtoEvent::Ping => text == "ping"@,
                ProtoEvent::Pong(true) => text == "pong: "@ + "alive"@,
                ProtoEvent::Pong(false) => text == "pong: "@ + "not available"@,
                ProtoEvent::Clipboard(e) => text == e.shown(),
            }
        }),
{
}

} // verus!
