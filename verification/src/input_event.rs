//! Input events and clipboard events, as they are captured on one machine and replayed on
//! another.

use crate::text::{
    decimal, from_utf8, law_only_the_trailing_character_is_dropped, push_i32, push_u32,
    signed_decimal, trim_end_matches, without_trailing,
};
use vstd::prelude::*;
use vstd::slice::{slice_subrange, slice_to_vec};
use vstd::string::StringExecFns;
use vstd::utf8::{decode_utf8, valid_utf8};

verus! {

/// Max length of a mime type string in bytes
pub const MAX_MIME_TYPE_LEN: usize = 64;

/// Max clipboard data chunk size in bytes
pub const MAX_CLIPBOARD_CHUNK_SIZE: usize = 256;

/// Code of the left mouse button
pub const BTN_LEFT: u32 = 0x110;

/// Code of the right mouse button
pub const BTN_RIGHT: u32 = 0x111;

/// Code of the middle mouse button
pub const BTN_MIDDLE: u32 = 0x112;

/// Code of the mouse button that goes back
pub const BTN_BACK: u32 = 0x113;

/// Code of the mouse button that goes forward
pub const BTN_FORWARD: u32 = 0x114;

/// A double-precision number, given by its IEEE 754 bit pattern: one sign bit, then eleven
/// exponent bits, then fifty-two fraction bits.
#[derive(Debug, Clone, Copy)]
pub struct F64Bits(pub u64);

#[allow(inconsistent_fields)]
/// An event of a pointing device
#[derive(Debug, Clone, Copy)]
pub enum PointerEvent {
    /// relative motion event
    Motion { time: u32, dx: F64Bits, dy: F64Bits },
    /// mouse button event
    Button { time: u32, button: u32, state: u32 },
    /// axis event, scroll event for touchpads
    Axis { time: u32, axis: u8, value: F64Bits },
    /// discrete axis event, scroll event for mice - 120 = one scroll tick
    AxisDiscrete120 { axis: u8, value: i32 },
}

/// An event of a keyboard
#[derive(Debug, Clone, Copy, PartialEq, Eq, Structural)]
pub enum KeyboardEvent {
    /// a key press / release event
    Key { time: u32, key: u32, state: u8 },
    /// modifiers changed state
    Modifiers { depressed: u32, latched: u32, locked: u32, group: u32 },
}

/// An input event
#[derive(Debug, Clone, Copy)]
pub enum Event {
    /// pointer event (motion / button / axis)
    Pointer(PointerEvent),
    /// keyboard events (key / modifiers)
    Keyboard(KeyboardEvent),
}

/// A message about the clipboard of one of the machines
#[derive(Debug, Clone, Copy)]
pub enum ClipboardEvent {
    /// Notify a client that clipboard content is available with the given mime type.
    ///
    /// This event is sent by the owner of the clipboard context.
    Notify {
        /// Serial number for this clipboard notification session
        serial: u32,
        /// Mime type string (null-terminated)
        mime_type: [u8; MAX_MIME_TYPE_LEN],
    },
    /// Signals the end of clipboard mime type notifications
    ///
    /// The serial number must match the previous `Notify` (if any).
    /// An empty sequence consisting of just a `NotifyDone` indicates
    /// that the clipboard content was lost.
    NotifyDone {
        /// Serial number of the completed notification
        serial: u32,
    },
    /// Request clipboard data for a specific mime type.
    ///
    /// This is sent *to* the owner of the clipboard context
    Request {
        /// Serial number for this request
        serial: u32,
        /// Mime type string being requested (null-terminated)
        mime_type: [u8; MAX_MIME_TYPE_LEN],
    },
    /// Clipboard data chunk - multiple events sent for large data
    /// in response to a `Request`
    ///
    /// The serial must match the `Request` serial.
    ///
    /// This event is sent by the owner of the clipboard context.
    Data {
        /// Serial number identifying this clipboard transfer
        serial: u32,
        /// Byte offset of this chunk in the complete data
        offset: u32,
        /// Number of valid bytes in the data field (1-256, of which a `u8` holds 1 to 255)
        data_len: u8,
        /// Clipboard data bytes for this chunk
        data: [u8; MAX_CLIPBOARD_CHUNK_SIZE],
    },
    /// Signals the end of clipboard data transfer
    ///
    /// The serial must match the `Request` serial.
    /// An empty sequence consisting of only `DataDone`
    /// indicates that no data for this mime type was available.
    DataDone {
        /// Serial number of the completed clipboard transfer
        serial: u32,
    },
}

impl F64Bits {
    /// The bit pattern without its sign bit.
    pub open spec fn magnitude(self) -> u64 {
        self.0 % 0x8000_0000_0000_0000
    }

    /// Whether the bit pattern is one of those that stand for no number.
    pub open spec fn is_nan_spec(self) -> bool {
        self.magnitude() > 0x7ff0_0000_0000_0000
    }

    /// Whether the bit pattern is that of positive or negative zero.
    pub open spec fn is_zero_spec(self) -> bool {
        self.magnitude() == 0
    }

    /// Equality of doubles: not-a-number equals nothing, the two zeros equal each other, and
    /// any other double equals itself alone.
    pub open spec fn equals(self, other: F64Bits) -> bool {
        &&& !self.is_nan_spec()
        &&& !other.is_nan_spec()
        &&& self.0 == other.0 || self.is_zero_spec() && other.is_zero_spec()
    }

    /// Whether the double is not a number.
    pub fn is_nan(&self) -> (result: bool)
        ensures
            result == self.is_nan_spec(),
    {
        self.0 % 0x8000_0000_0000_0000 > 0x7ff0_0000_0000_0000
    }

    /// Whether the double is positive or negative zero.
    pub fn is_zero(&self) -> (result: bool)
        ensures
            result == self.is_zero_spec(),
    {
        self.0 % 0x8000_0000_0000_0000 == 0
    }
}

impl PartialEq for F64Bits {
    fn eq(&self, other: &F64Bits) -> (result: bool) {
        !self.is_nan() && !other.is_nan() && (self.0 == other.0 || self.is_zero()
            && other.is_zero())
    }
}

impl vstd::std_specs::cmp::PartialEqSpecImpl for F64Bits {
    open spec fn obeys_eq_spec() -> bool {
        true
    }

    open spec fn eq_spec(&self, other: &F64Bits) -> bool {
        self.equals(*other)
    }
}

impl PointerEvent {
    /// Equality of pointer events: the same kind of event with equal fields, where doubles
    /// are compared as numbers.
    pub open spec fn equals(self, other: PointerEvent) -> bool {
        match (self, other) {
            (
                PointerEvent::Motion { time: t1, dx: x1, dy: y1 },
                PointerEvent::Motion { time: t2, dx: x2, dy: y2 },
            ) => t1 == t2 && x1.equals(x2) && y1.equals(y2),
            (
                PointerEvent::Axis { time: t1, axis: a1, value: v1 },
                PointerEvent::Axis { time: t2, axis: a2, value: v2 },
            ) => t1 == t2 && a1 == a2 && v1.equals(v2),
            (PointerEvent::Button { .. }, PointerEvent::Button { .. }) => self == other,
            (
                PointerEvent::AxisDiscrete120 { .. },
                PointerEvent::AxisDiscrete120 { .. },
            ) => self == other,
            _ => false,
        }
    }
}

impl PartialEq for PointerEvent {
    fn eq(&self, other: &PointerEvent) -> (result: bool) {
        match (*self, *other) {
            (
                PointerEvent::Motion { time: t1, dx: x1, dy: y1 },
                PointerEvent::Motion { time: t2, dx: x2, dy: y2 },
            ) => t1 == t2 && x1 == x2 && y1 == y2,
            (
                PointerEvent::Button { time: t1, button: b1, state: s1 },
                PointerEvent::Button { time: t2, button: b2, state: s2 },
            ) => t1 == t2 && b1 == b2 && s1 == s2,
            (
                PointerEvent::Axis { time: t1, axis: a1, value: v1 },
                PointerEvent::Axis { time: t2, axis: a2, value: v2 },
            ) => t1 == t2 && a1 == a2 && v1 == v2,
            (
                PointerEvent::AxisDiscrete120 { axis: a1, value: v1 },
                PointerEvent::AxisDiscrete120 { axis: a2, value: v2 },
            ) => a1 == a2 && v1 == v2,
            _ => false,
        }
    }
}

impl vstd::std_specs::cmp::PartialEqSpecImpl for PointerEvent {
    open spec fn obeys_eq_spec() -> bool {
        true
    }

    open spec fn eq_spec(&self, other: &PointerEvent) -> bool {
        self.equals(*other)
    }
}

impl Event {
    /// Equality of input events.
    pub open spec fn equals(self, other: Event) -> bool {
        match (self, other) {
            (Event::Pointer(p1), Event::Pointer(p2)) => p1.equals(p2),
            (Event::Keyboard(k1), Event::Keyboard(k2)) => k1 == k2,
            _ => false,
        }
    }

    /// Whether the event holds a double that is not a number.
    pub open spec fn holds_nan(self) -> bool {
        match self {
            Event::Pointer(PointerEvent::Motion { dx, dy, .. }) => dx.is_nan_spec()
                || dy.is_nan_spec(),
            Event::Pointer(PointerEvent::Axis { value, .. }) => value.is_nan_spec(),
            _ => false,
        }
    }
}

impl PartialEq for Event {
    fn eq(&self, other: &Event) -> (result: bool) {
        match (*self, *other) {
            (Event::Pointer(p1), Event::Pointer(p2)) => p1 == p2,
            (Event::Keyboard(k1), Event::Keyboard(k2)) => k1 == k2,
            _ => false,
        }
    }
}

impl vstd::std_specs::cmp::PartialEqSpecImpl for Event {
    open spec fn obeys_eq_spec() -> bool {
        true
    }

    open spec fn eq_spec(&self, other: &Event) -> bool {
        self.equals(*other)
    }
}

/// An event equals itself, unless it holds a double that is not a number.
pub proof fn law_event_equals_itself(event: Event)
    ensures
        event.equals(event) <==> !event.holds_nan(),
{
}

/// Equality of events goes both ways.
pub proof fn law_event_equality_is_symmetric(a: Event, b: Event)
    ensures
        a.equals(b) == b.equals(a),
{
}

/// Two events that equal a third equal each other.
pub proof fn law_event_equality_is_transitive(a: Event, b: Event, c: Event)
    requires
        a.equals(b),
        b.equals(c),
    ensures
        a.equals(c),
{
}

/// The wording of what an event holds as a code: its doubles in decimal, and the name of its
/// key. Whoever shows an event brings it along.
#[derive(Debug)]
pub struct Labels {
    /// The double of a scroll event, or the horizontal one of a motion event
    pub first_number: String,
    /// The vertical double of a motion event
    pub second_number: String,
    /// The name of the scancode that the key of a key event is, if it is one
    pub key_name: Option<String>,
}

/// The name of a mouse button, if it has one.
pub open spec fn button_name(button: u32) -> Option<Seq<char>> {
    if button == BTN_LEFT {
        Some("left"@)
    } else if button == BTN_RIGHT {
        Some("right"@)
    } else if button == BTN_MIDDLE {
        Some("middle"@)
    } else if button == BTN_FORWARD {
        Some("forward"@)
    } else if button == BTN_BACK {
        Some("back"@)
    } else {
        None
    }
}

impl PointerEvent {
    /// How this event is shown.
    pub open spec fn shown(self, labels: Labels) -> Seq<char> {
        match self {
            PointerEvent::Motion { .. } => "motion("@ + labels.first_number@ + ","@
                + labels.second_number@ + ")"@,
            PointerEvent::Button { button, state, .. } => match button_name(button) {
                Some(name) => "button("@ + name + ", "@ + decimal(state as nat) + ")"@,
                None => "button("@ + decimal(button as nat) + ", "@ + decimal(state as nat),
            },
            PointerEvent::Axis { axis, .. } => "scroll("@ + decimal(axis as nat) + ", "@
                + labels.first_number@ + ")"@,
            PointerEvent::AxisDiscrete120 { axis, value } => "scroll-120 ("@ + decimal(
                axis as nat,
            ) + ", "@ + signed_decimal(value as int) + ")"@,
        }
    }

    /// How this event is shown.
    pub fn fmt(&self, labels: &Labels) -> (text: String)
        ensures
            text@ == self.shown(*labels),
    {
        let mut text = String::new();
        match self {
            PointerEvent::Motion { .. } => {
                text.append("motion(");
                text.append(labels.first_number.as_str());
                text.append(",");
                text.append(labels.second_number.as_str());
                text.append(")");
            },
            PointerEvent::Button { time: _, button, state } => {
                text.append("button(");
                let name: Option<&str> = if *button == BTN_LEFT {
                    Some("left")
                } else if *button == BTN_RIGHT {
                    Some("right")
                } else if *button == BTN_MIDDLE {
                    Some("middle")
                } else if *button == BTN_FORWARD {
                    Some("forward")
                } else if *button == BTN_BACK {
                    Some("back")
                } else {
                    None
                };
                if let Some(name) = name {
                    text.append(name);
                    text.append(", ");
                    push_u32(&mut text, *state);
                    text.append(")");
                } else {
                    push_u32(&mut text, *button);
                    text.append(", ");
                    push_u32(&mut text, *state);
                }
            },
            PointerEvent::Axis { time: _, axis, value: _ } => {
                text.append("scroll(");
                push_u32(&mut text, *axis as u32);
                text.append(", ");
                text.append(labels.first_number.as_str());
                text.append(")");
            },
            PointerEvent::AxisDiscrete120 { axis, value } => {
                text.append("scroll-120 (");
                push_u32(&mut text, *axis as u32);
                text.append(", ");
                push_i32(&mut text, *value);
                text.append(")");
            },
        }
        assert(text@ =~= self.shown(*labels));
        text
    }
}

impl KeyboardEvent {
    /// How this event is shown.
    pub open spec fn shown(self, labels: Labels) -> Seq<char> {
        match self {
            KeyboardEvent::Key { key, state, .. } => match labels.key_name {
                Some(name) => "key("@ + name@ + ", "@ + decimal(state as nat) + ")"@,
                None => "key("@ + decimal(key as nat) + ", "@ + decimal(state as nat) + ")"@,
            },
            KeyboardEvent::Modifiers { depressed, latched, locked, group } => "modifiers("@
                + decimal(depressed as nat) + ","@ + decimal(latched as nat) + ","@ + decimal(
                locked as nat,
            ) + ","@ + decimal(group as nat) + ")"@,
        }
    }

    /// How this event is shown.
    pub fn fmt(&self, labels: &Labels) -> (text: String)
        ensures
            text@ == self.shown(*labels),
    {
        let mut text = String::new();
        match self {
            KeyboardEvent::Key { time: _, key, state } => {
                text.append("key(");
                match &labels.key_name {
                    Some(name) => text.append(name.as_str()),
                    None => push_u32(&mut text, *key),
                }
                text.append(", ");
                push_u32(&mut text, *state as u32);
                text.append(")");
            },
            KeyboardEvent::Modifiers { depressed, latched, locked, group } => {
                text.append("modifiers(");
                push_u32(&mut text, *depressed);
                text.append(",");
                push_u32(&mut text, *latched);
                text.append(",");
                push_u32(&mut text, *locked);
                text.append(",");
                push_u32(&mut text, *group);
                text.append(")");
            },
        }
        assert(text@ =~= self.shown(*labels));
        text
    }
}

impl Event {
    /// How this event is shown.
    pub open spec fn shown(self, labels: Labels) -> Seq<char> {
        match self {
            Event::Pointer(p) => p.shown(labels),
            Event::Keyboard(k) => k.shown(labels),
        }
    }

    /// How this event is shown.
    pub fn fmt(&self, labels: &Labels) -> (text: String)
        ensures
            text@ == self.shown(*labels),
    {
        match self {
            Event::Pointer(p) => p.fmt(labels),
            Event::Keyboard(k) => k.fmt(labels),
        }
    }
}

/// The bytes of a null-terminated mime type: those before the first null, or all of them where
/// there is none.
pub open spec fn mime_text(field: Seq<u8>) -> Seq<u8> {
    match field.index_of_first(0) {
        Some(end) => field.take(end),
        None => field,
    }
}

/// A mime type ends at its first null, whatever follows, and fills its field if it has none.
pub proof fn law_mime_type_ends_at_its_null(text: Seq<u8>, rest: Seq<u8>)
    requires
        !text.contains(0),
    ensures
        mime_text(text) == text,
        mime_text(text + seq![0u8] + rest) == text,
{
    text.index_of_first_ensures(0);
    lemma_mime_text(text + seq![0u8] + rest, text.len() as int);
    assert((text + seq![0u8] + rest).take(text.len() as int) =~= text);
}

/// Where the first null is, or the end of the field, the text of a mime type ends.
proof fn lemma_mime_text(field: Seq<u8>, end: int)
    requires
        0 <= end <= field.len(),
        forall|i: int| 0 <= i < end ==> #[trigger] field[i] != 0,
        end < field.len() ==> field[end] == 0,
    ensures
        mime_text(field) == field.take(end),
{
    field.index_of_first_ensures(0);
    if end == field.len() {
        assert(field.take(end) =~= field);
    }
}

/// The text of a null-terminated mime type, if it is UTF-8.
pub fn mime_type_text(field: &[u8; MAX_MIME_TYPE_LEN]) -> (result: Option<String>)
    ensures
        result is Some <==> valid_utf8(mime_text(field@)),
        result matches Some(text) ==> text@ == decode_utf8(mime_text(field@)),
{
    let mut end: usize = 0;
    while end < MAX_MIME_TYPE_LEN && field[end] != 0
        invariant
            end <= MAX_MIME_TYPE_LEN,
            forall|i: int| 0 <= i < end ==> #[trigger] field@[i] != 0,
        decreases MAX_MIME_TYPE_LEN - end,
    {
        end = end + 1;
    }
    let text = slice_subrange(field, 0, end);
    proof {
        lemma_mime_text(field@, end as int);
        assert(text@ =~= field@.take(end as int));
    }
    from_utf8(slice_to_vec(text))
}

/// How a mime type is shown: its text without the null characters at its end, or a
/// placeholder if it is not UTF-8.
pub open spec fn shown_mime_type(mime_type: Seq<u8>) -> Seq<char> {
    if valid_utf8(mime_type) {
        without_trailing(decode_utf8(mime_type), '\0')
    } else {
        "<invalid>"@
    }
}

/// Appends a mime type as it is shown.
fn push_mime_type(text: &mut String, mime_type: &[u8; MAX_MIME_TYPE_LEN])
    ensures
        final(text)@ == old(text)@ + shown_mime_type(mime_type@),
{
    match from_utf8(slice_to_vec(mime_type)) {
        Some(mime_str) => text.append(trim_end_matches(mime_str.as_str(), '\0')),
        None => text.append("<invalid>"),
    }
}

impl ClipboardEvent {
    /// How this event is shown.
    pub open spec fn shown(self) -> Seq<char> {
        match self {
            ClipboardEvent::Notify { serial, mime_type } => "ClipboardNotify(serial="@ + decimal(
                serial as nat,
            ) + ", mime="@ + shown_mime_type(mime_type@) + ")"@,
            ClipboardEvent::NotifyDone { serial } => "ClipboardNotifyDone(serial="@ + decimal(
                serial as nat,
            ) + ")"@,
            ClipboardEvent::Request { serial, mime_type } => "ClipboardRequest(serial="@ + decimal(
                serial as nat,
            ) + ", mime="@ + shown_mime_type(mime_type@) + ")"@,
            ClipboardEvent::Data { serial, offset, data_len, .. } => "ClipboardData(serial="@
                + decimal(serial as nat) + ", offset="@ + decimal(offset as nat) + ", len="@
                + decimal(data_len as nat) + ")"@,
            ClipboardEvent::DataDone { serial } => "ClipboardDataDone(serial="@ + decimal(
                serial as nat,
            ) + ")"@,
        }
    }

    /// How this event is shown.
    pub fn fmt(&self) -> (text: String)
        ensures
            text@ == self.shown(),
    {
        let mut text = String::new();
        match self {
            ClipboardEvent::Notify { serial, mime_type } => {
                text.append("ClipboardNotify(serial=");
                push_u32(&mut text, *serial);
                text.append(", mime=");
                push_mime_type(&mut text, mime_type);
                text.append(")");
            },
            ClipboardEvent::NotifyDone { serial } => {
                text.append("ClipboardNotifyDone(serial=");
                push_u32(&mut text, *serial);
                text.append(")");
            },
            ClipboardEvent::Request { serial, mime_type } => {
                text.append("ClipboardRequest(serial=");
                push_u32(&mut text, *serial);
                text.append(", mime=");
                push_mime_type(&mut text, mime_type);
                text.append(")");
            },
            ClipboardEvent::Data { serial, offset, data_len, data: _ } => {
                text.append("ClipboardData(serial=");
                push_u32(&mut text, *serial);
                text.append(", offset=");
                push_u32(&mut text, *offset);
                text.append(", len=");
                push_u32(&mut text, *data_len as u32);
                text.append(")");
            },
            ClipboardEvent::DataDone { serial } => {
                text.append("ClipboardDataDone(serial=");
                push_u32(&mut text, *serial);
                text.append(")");
            },
        }
        assert(text@ =~= self.shown());
        text
    }
}

/// The bit patterns that stand for no number are those above the two infinities, and those of
/// zero are the two in which no bit but the sign is set.
pub proof fn law_bit_patterns_of_nan_and_zero(x: F64Bits)
    ensures
        x.is_nan_spec() <==> 0x7ff0_0000_0000_0000 < x.0 < 0x8000_0000_0000_0000
            || 0xfff0_0000_0000_0000 < x.0,
        x.is_zero_spec() <==> x.0 == 0 || x.0 == 0x8000_0000_0000_0000,
{
}

/// A double with the sign of zero forgotten.
pub open spec fn unsigned_zero(x: F64Bits) -> F64Bits {
    if x.0 == 0x8000_0000_0000_0000 {
        F64Bits(0)
    } else {
        x
    }
}

/// An event with the signs of its zeros forgotten.
pub open spec fn unsigned_zeros(event: Event) -> Event {
    match event {
        Event::Pointer(PointerEvent::Motion { time, dx, dy }) => Event::Pointer(
            PointerEvent::Motion { time, dx: unsigned_zero(dx), dy: unsigned_zero(dy) },
        ),
        Event::Pointer(PointerEvent::Axis { time, axis, value }) => Event::Pointer(
            PointerEvent::Axis { time, axis, value: unsigned_zero(value) },
        ),
        _ => event,
    }
}

/// Two doubles are equal if and only if both are numbers and their bits are the same, up to the
/// sign of zero.
pub proof fn law_doubles_are_equal_as_numbers(a: F64Bits, b: F64Bits)
    ensures
        a.equals(b) <==> {
            &&& a.0 % 0x8000_0000_0000_0000 <= 0x7ff0_0000_0000_0000
            &&& b.0 % 0x8000_0000_0000_0000 <= 0x7ff0_0000_0000_0000
            &&& unsigned_zero(a) == unsigned_zero(b)
        },
{
}

/// Two events are equal if and only if neither holds a double that is not a number and they are
/// the same in every field, up to the sign of zero.
pub proof fn law_events_are_equal_field_by_field(a: Event, b: Event)
    ensures
        a.equals(b) <==> !a.holds_nan() && !b.holds_nan() && unsigned_zeros(a) == unsigned_zeros(
            b,
        ),
        a.holds_nan() <==> {
            ||| a matches Event::Pointer(PointerEvent::Motion { dx, .. })
                && 0x7ff0_0000_0000_0000 < dx.0 % 0x8000_0000_0000_0000
            ||| a matches Event::Pointer(PointerEvent::Motion { dy, .. })
                && 0x7ff0_0000_0000_0000 < dy.0 % 0x8000_0000_0000_0000
            ||| a matches Event::Pointer(PointerEvent::Axis { value, .. })
                && 0x7ff0_0000_0000_0000 < value.0 % 0x8000_0000_0000_0000
        },
{
}

/// The text of a pointer event names what happens and then gives its numbers; a button that
/// has a name goes by it, and by its code otherwise. The time is not shown.
pub proof fn law_text_of_pointer_events(event: PointerEvent, labels: Labels)
    ensures
        Event::Pointer(event).shown(labels) == event.shown(labels),
        ({
            let text = event.shown(labels);
            match event {
                PointerEvent::Motion { .. } => text == "motion("@ + labels.first_number@ + ","@
                    + labels.second_number@ + ")"@,
                PointerEvent::Button { button, state, .. } => {
                    &&& button == 0x110 ==> text == "button("@ + "left"@ + ", "@ + decimal(
                        state as nat,
                    ) + ")"@
                    &&& button == 0x111 ==> text == "button("@ + "right"@ + ", "@ + decimal(
                        state as nat,
                    ) + ")"@
                    &&& button == 0x112 ==> text == "button("@ + "middle"@ + ", "@ + decimal(
                        state as nat,
                    ) + ")"@
                    &&& button == 0x113 ==> text == "button("@ + "back"@ + ", "@ + decimal(
                        state as nat,
                    ) + ")"@
                    &&& button == 0x114 ==> text == "button("@ + "forward"@ + ", "@ + decimal(
                        state as nat,
                    ) + ")"@
                    &&& !(0x110 <= button <= 0x114) ==> text == "button("@ + decimal(button as nat)
                        + ", "@ + decimal(state as nat)
                },
                PointerEvent::Axis { axis, .. } => text == "scroll("@ + decimal(axis as nat) + ", "@
                    + labels.first_number@ + ")"@,
                PointerEvent::AxisDiscrete120 { axis, value } => text == "scroll-120 ("@ + decimal(
                    axis as nat,
                ) + ", "@ + signed_decimal(value as int) + ")"@,
            }
        }),
{
}

/// The text of a keyboard event gives the key by its name if it has one, and by its code
/// otherwise, then its state; or all the modifiers. The time is not shown.
pub proof fn law_text_of_keyboard_events(event: KeyboardEvent, labels: Labels)
    ensures
        event matches KeyboardEvent::Key { key, state, .. } ==> {
            let name = match labels.key_name {
                Some(name) => name@,
                None => decimal(key as nat),
            };
            event.shown(labels) == "key("@ + name + ", "@ + decimal(state as nat) + ")"@
        },
        event matches KeyboardEvent::Modifiers { depressed, latched, locked, group }
            ==> event.shown(labels) == "modifiers("@ + decimal(depressed as nat) + ","@ + decimal(
            latched as nat,
        ) + ","@ + decimal(locked as nat) + ","@ + decimal(group as nat) + ")"@,
        Event::Keyboard(event).shown(labels) == event.shown(labels),
{
}

/// The text of a clipboard event gives its serial first; content is shown by its offset and
/// length alone.
pub proof fn law_text_of_clipboard_events(event: ClipboardEvent)
    ensures
        ({
            let text = event.shown();
            match event {
                ClipboardEvent::Notify { serial, mime_type } => text == "ClipboardNotify(serial="@
                    + decimal(serial as nat) + ", mime="@ + shown_mime_type(mime_type@) + ")"@,
                ClipboardEvent::NotifyDone { serial } => text == "ClipboardNotifyDone(serial="@
                    + decimal(serial as nat) + ")"@,
                ClipboardEvent::Request { serial, mime_type } => text
                    == "ClipboardRequest(serial="@ + decimal(serial as nat) + ", mime="@
                    + shown_mime_type(mime_type@) + ")"@,
                ClipboardEvent::Data { serial, offset, data_len, .. } => text
                    == "ClipboardData(serial="@ + decimal(serial as nat) + ", offset="@ + decimal(
                    offset as nat,
                ) + ", len="@ + decimal(data_len as nat) + ")"@,
                ClipboardEvent::DataDone { serial } => text == "ClipboardDataDone(serial="@
                    + decimal(serial as nat) + ")"@,
            }
        }),
{
}

/// A mime type that is UTF-8 is shown as its characters up to the last that is not null, and one
/// that is not as a placeholder.
pub proof fn law_text_of_mime_types(mime_type: Seq<u8>)
    ensures
        !valid_utf8(mime_type) ==> shown_mime_type(mime_type) == "<invalid>"@,
        valid_utf8(mime_type) ==> {
            let all = decode_utf8(mime_type);
            let text = shown_mime_type(mime_type);
            &&& text.len() <= all.len()
            &&& text == all.take(text.len() as int)
            &&& text.len() > 0 ==> text.last() != '\0'
            &&& forall|i: int| text.len() <= i < all.len() ==> #[trigger] all[i] == '\0'
        },
{
    law_only_the_trailing_character_is_dropped(decode_utf8(mime_type), '\0');
}

} // verus!
