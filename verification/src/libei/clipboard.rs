//! The clipboard events of a peer, and what they make this machine ask of the clipboard
//! portal.

use crate::input_event::{
    law_mime_type_ends_at_its_null, mime_text, mime_type_text, ClipboardEvent, MAX_CLIPBOARD_CHUNK_SIZE,
    MAX_MIME_TYPE_LEN,
};
use crate::text::texts;
use std::collections::HashMap;
use vstd::prelude::*;
use vstd::slice::{slice_subrange, slice_to_vec};
use vstd::utf8::{decode_utf8, valid_utf8};

verus! {

broadcast use vstd::std_specs::hash::group_hash_axioms;

/// What is known of the clipboard of a peer
pub struct PeerClipboard {
    /// Whether the desktop gives access to the clipboard
    pub available: bool,
    /// The serial of the transfer that the portal waits for
    pub transfer_serial: Option<u32>,
    /// The mime types announced so far, by the serial of the announcement
    pub incoming_mime_types: HashMap<u32, Vec<String>>,
    /// The content received so far, and its serial
    pub incoming_data: Option<(u32, Vec<u8>)>,
}

/// What is to be done about a clipboard event
#[derive(Debug)]
pub enum ClipboardStep {
    /// Nothing
    Done,
    /// Nothing, since the event was turned down
    Rejected(Rejection),
    /// Own the clipboard, offering these mime types; see [`PeerClipboard::selection_set`]
    SetSelection { serial: u32, mime_types: Vec<String> },
    /// Read the clipboard as this mime type
    ReadSelection { mime_type: String },
    /// Write this content for the transfer; see [`write_done`]
    WriteSelection { transfer_serial: u32, serial: u32, data: Vec<u8> },
}

#[allow(inconsistent_fields)]
/// Why a clipboard event was turned down
#[derive(Debug, Clone, Copy, PartialEq, Eq, Structural)]
pub enum Rejection {
    /// The mime type is not UTF-8
    InvalidMimeType,
    /// The content belongs to another transfer than the one under way
    SerialMismatch { serial: u32, expected: u32 },
    /// The chunk does not start where the content ends so far
    OffsetMismatch { offset: u32, expected: usize },
}

/// How far writing to the clipboard came
#[derive(Debug, Clone, Copy)]
pub enum WriteOutcome {
    /// The portal gave nothing to write to
    NotOpened,
    /// Everything was written
    Written,
    /// Writing failed
    Failed,
}

/// A [`PeerClipboard`] in terms of mathematics
#[verifier::ext_equal]
pub struct PeerClipboardView {
    pub available: bool,
    pub transfer_serial: Option<u32>,
    pub incoming_mime_types: Map<u32, Seq<Seq<char>>>,
    pub incoming_data: Option<(u32, Seq<u8>)>,
}

/// A [`ClipboardStep`] in terms of mathematics
#[verifier::ext_equal]
pub enum ClipboardStepView {
    Done,
    Rejected(Rejection),
    SetSelection { serial: u32, mime_types: Seq<Seq<char>> },
    ReadSelection { mime_type: Seq<char> },
    WriteSelection { transfer_serial: u32, serial: u32, data: Seq<u8> },
}

impl View for PeerClipboard {
    type V = PeerClipboardView;

    open spec fn view(&self) -> PeerClipboardView {
        PeerClipboardView {
            available: self.available,
            transfer_serial: self.transfer_serial,
            incoming_mime_types: self.incoming_mime_types@.map_values(
                |list: Vec<String>| texts(list@),
            ),
            incoming_data: match self.incoming_data {
                Some((serial, data)) => Some((serial, data@)),
                None => None,
            },
        }
    }
}

impl View for ClipboardStep {
    type V = ClipboardStepView;

    open spec fn view(&self) -> ClipboardStepView {
        match *self {
            ClipboardStep::Done => ClipboardStepView::Done,
            ClipboardStep::Rejected(why) => ClipboardStepView::Rejected(why),
            ClipboardStep::SetSelection { serial, mime_types } => ClipboardStepView::SetSelection {
                serial,
                mime_types: texts(mime_types@),
            },
            ClipboardStep::ReadSelection { mime_type } => ClipboardStepView::ReadSelection {
                mime_type: mime_type@,
            },
            ClipboardStep::WriteSelection { transfer_serial, serial, data } =>
                ClipboardStepView::WriteSelection { transfer_serial, serial, data: data@ },
        }
    }
}

impl PeerClipboardView {
    /// The mime types announced so far under a serial.
    pub open spec fn announced(self, serial: u32) -> Seq<Seq<char>> {
        if self.incoming_mime_types.contains_key(serial) {
            self.incoming_mime_types[serial]
        } else {
            Seq::empty()
        }
    }

    /// The state in which one more mime type is announced under a serial.
    pub open spec fn with_mime_type(self, serial: u32, mime_type: Seq<char>) -> PeerClipboardView {
        PeerClipboardView {
            incoming_mime_types: self.incoming_mime_types.insert(
                serial,
                self.announced(serial).push(mime_type),
            ),
            ..self
        }
    }

    /// The state in which nothing is announced under a serial.
    pub open spec fn without_mime_types(self, serial: u32) -> PeerClipboardView {
        PeerClipboardView {
            incoming_mime_types: self.incoming_mime_types.remove(serial),
            ..self
        }
    }

    /// The state in which this is the content received so far.
    pub open spec fn with_data(self, serial: u32, data: Seq<u8>) -> PeerClipboardView {
        PeerClipboardView { incoming_data: Some((serial, data)), ..self }
    }

    /// The state after a clipboard event, and what is to be done about the event.
    pub open spec fn step(self, event: ClipboardEvent) -> (PeerClipboardView, ClipboardStepView) {
        if !self.available {
            (self, ClipboardStepView::Done)
        } else {
            match event {
                ClipboardEvent::Notify { serial, mime_type } => if valid_utf8(
                    mime_text(mime_type@),
                ) {
                    (
                        self.with_mime_type(serial, decode_utf8(mime_text(mime_type@))),
                        ClipboardStepView::Done,
                    )
                } else {
                    (self, ClipboardStepView::Rejected(Rejection::InvalidMimeType))
                },
                ClipboardEvent::NotifyDone { serial } => if self.incoming_mime_types.contains_key(
                    serial,
                ) {
                    (
                        self,
                        ClipboardStepView::SetSelection {
                            serial,
                            mime_types: self.incoming_mime_types[serial],
                        },
                    )
                } else {
                    (self, ClipboardStepView::Done)
                },
                ClipboardEvent::Request { serial, mime_type } => if valid_utf8(
                    mime_text(mime_type@),
                ) {
                    (
                        self,
                        ClipboardStepView::ReadSelection {
                            mime_type: decode_utf8(mime_text(mime_type@)),
                        },
                    )
                } else {
                    (self, ClipboardStepView::Rejected(Rejection::InvalidMimeType))
                },
                ClipboardEvent::Data { serial, offset, data_len, data } => {
                    let chunk = data@.take(data_len as int);
                    match self.incoming_data {
                        Some((expected, received)) => if serial != expected {
                            (
                                self,
                                ClipboardStepView::Rejected(
                                    Rejection::SerialMismatch { serial, expected },
                                ),
                            )
                        } else if offset != received.len() {
                            (
                                self,
                                ClipboardStepView::Rejected(
                                    Rejection::OffsetMismatch {
                                        offset,
                                        expected: received.len() as usize,
                                    },
                                ),
                            )
                        } else {
                            (self.with_data(serial, received + chunk), ClipboardStepView::Done)
                        },
                        None => if offset != 0 {
                            (
                                self,
                                ClipboardStepView::Rejected(
                                    Rejection::OffsetMismatch { offset, expected: 0 },
                                ),
                            )
                        } else {
                            (self.with_data(serial, chunk), ClipboardStepView::Done)
                        },
                    }
                },
                ClipboardEvent::DataDone { serial } => match self.incoming_data {
                    Some((expected, received)) => if serial != expected {
                        (
                            self,
                            ClipboardStepView::Rejected(
                                Rejection::SerialMismatch { serial, expected },
                            ),
                        )
                    } else {
                        match self.transfer_serial {
                            Some(transfer_serial) => (
                                self,
                                ClipboardStepView::WriteSelection {
                                    transfer_serial,
                                    serial,
                                    data: received,
                                },
                            ),
                            None => (self, ClipboardStepView::Done),
                        }
                    },
                    None => (self, ClipboardStepView::Done),
                },
            }
        }
    }

    /// The state after some clipboard events.
    pub open spec fn after(self, events: Seq<ClipboardEvent>) -> PeerClipboardView
        decreases events.len(),
    {
        if events.len() == 0 {
            self
        } else {
            self.after(events.drop_last()).step(events.last()).0
        }
    }

    /// Whether something is announced under every serial that is remembered.
    pub open spec fn well_formed(self) -> bool {
        forall|serial: u32|
            self.incoming_mime_types.contains_key(serial) ==> (
            #[trigger] self.incoming_mime_types[serial]).len() > 0
    }
}

impl PeerClipboard {
    /// Nothing is known yet.
    pub fn new(available: bool) -> (result: PeerClipboard)
        ensures
            result@ == (PeerClipboardView {
                available,
                transfer_serial: None,
                incoming_mime_types: Map::empty(),
                incoming_data: None,
            }),
            result@.well_formed(),
    {
        let result = PeerClipboard {
            available,
            transfer_serial: None,
            incoming_mime_types: HashMap::new(),
            incoming_data: None,
        };
        assert(result@.incoming_mime_types =~= Map::empty());
        result
    }

    /// Takes in a clipboard event of the peer and says what is to be done about it.
    pub fn consume_clipboard(&mut self, event: ClipboardEvent) -> (result: ClipboardStep)
        ensures
            (final(self)@, result@) == old(self)@.step(event),
            old(self)@.well_formed() ==> final(self)@.well_formed(),
    {
        proof {
            if self@.well_formed() {
                law_remembered_announcements_are_not_empty(self@, event, 0);
            }
        }
        if !self.available {
            return ClipboardStep::Done;
        }
        match event {
            ClipboardEvent::Notify { serial, mime_type } => {
                match mime_type_text(&mime_type) {
                    Some(mime_type) => {
                        self.announce(serial, mime_type);
                        ClipboardStep::Done
                    },
                    None => ClipboardStep::Rejected(Rejection::InvalidMimeType),
                }
            },
            ClipboardEvent::NotifyDone { serial } => {
                match self.incoming_mime_types.get(&serial) {
                    Some(list) => {
                        let mime_types = list.clone();
                        assert(mime_types@ =~= list@);
                        ClipboardStep::SetSelection { serial, mime_types }
                    },
                    None => ClipboardStep::Done,
                }
            },
            ClipboardEvent::Request { serial: _, mime_type } => {
                match mime_type_text(&mime_type) {
                    Some(mime_type) => ClipboardStep::ReadSelection { mime_type },
                    None => ClipboardStep::Rejected(Rejection::InvalidMimeType),
                }
            },
            ClipboardEvent::Data { serial, offset, data_len, data } => {
                let chunk = slice_subrange(&data, 0, data_len as usize);
                assert(chunk@ =~= data@.take(data_len as int));
                match &mut self.incoming_data {
                    Some((expected, received)) => {
                        if serial != *expected {
                            ClipboardStep::Rejected(
                                Rejection::SerialMismatch { serial, expected: *expected },
                            )
                        } else if offset as usize != received.len() {
                            ClipboardStep::Rejected(
                                Rejection::OffsetMismatch { offset, expected: received.len() },
                            )
                        } else {
                            let ghost before = received@;
                            received.extend_from_slice(chunk);
                            assert(received@ =~= before + chunk@);
                            ClipboardStep::Done
                        }
                    },
                    None => {
                        if offset != 0 {
                            ClipboardStep::Rejected(
                                Rejection::OffsetMismatch { offset, expected: 0 },
                            )
                        } else {
                            self.incoming_data = Some((serial, slice_to_vec(chunk)));
                            ClipboardStep::Done
                        }
                    },
                }
            },
            ClipboardEvent::DataDone { serial } => {
                match &self.incoming_data {
                    Some((expected, received)) => {
                        if serial != *expected {
                            ClipboardStep::Rejected(
                                Rejection::SerialMismatch { serial, expected: *expected },
                            )
                        } else {
                            match self.transfer_serial {
                                Some(transfer_serial) => {
                                    let data = received.clone();
                                    assert(data@ =~= received@);
                                    ClipboardStep::WriteSelection { transfer_serial, serial, data }
                                },
                                None => ClipboardStep::Done,
                            }
                        }
                    },
                    None => ClipboardStep::Done,
                }
            },
        }
    }

    /// Takes in how owning the clipboard went, which [`ClipboardStep::SetSelection`] asked for.
    ///
    /// If it went well, the announcement is forgotten. If not, it is kept and the error is
    /// passed on.
    pub fn selection_set<E>(&mut self, serial: u32, outcome: Result<(), E>) -> (result: Result<
        (),
        E,
    >)
        ensures
            result == outcome,
            final(self)@ == if outcome is Ok {
                old(self)@.without_mime_types(serial)
            } else {
                old(self)@
            },
            old(self)@.well_formed() ==> final(self)@.well_formed(),
    {
        if outcome.is_ok() {
            self.incoming_mime_types.remove(&serial);
            assert(self@.incoming_mime_types =~= old(self)@.without_mime_types(
                serial,
            ).incoming_mime_types);
        }
        outcome
    }

    /// Adds a mime type to those announced under a serial.
    fn announce(&mut self, serial: u32, mime_type: String)
        ensures
            final(self)@ == old(self)@.with_mime_type(serial, mime_type@),
    {
        let ghost before = self.incoming_mime_types@;
        let ghost list = if before.contains_key(serial) {
            before[serial]@
        } else {
            Seq::empty()
        };
        self.incoming_mime_types.entry(serial).or_insert(Vec::new()).push(mime_type);
        assert(self.incoming_mime_types@[serial]@ == list.push(mime_type));
        assert(texts(list.push(mime_type)) =~= texts(list).push(mime_type@));
        assert(old(self)@.announced(serial) =~= texts(list));
        assert(self@.incoming_mime_types =~= old(self)@.with_mime_type(
            serial,
            mime_type@,
        ).incoming_mime_types);
    }
}

/// What the portal is told after a write.
pub open spec fn told_after_writing(serial: u32, outcome: WriteOutcome) -> Option<(u32, bool)> {
    if outcome is NotOpened {
        None
    } else {
        Some((serial, outcome is Written))
    }
}

/// What the portal is told once [`ClipboardStep::WriteSelection`] was carried out: the serial
/// and whether all went well. If there was nothing to write to, it is told nothing.
pub fn write_done(serial: u32, outcome: WriteOutcome) -> (result: Option<(u32, bool)>)
    ensures
        result == match outcome {
            WriteOutcome::NotOpened => None,
            WriteOutcome::Written => Some((serial, true)),
            WriteOutcome::Failed => Some((serial, false)),
        },
        result == told_after_writing(serial, outcome),
{
    match outcome {
        WriteOutcome::NotOpened => None,
        WriteOutcome::Written => Some((serial, true)),
        WriteOutcome::Failed => Some((serial, false)),
    }
}

/// The valid bytes of a data event.
pub open spec fn chunk(event: ClipboardEvent) -> Seq<u8> {
    match event {
        ClipboardEvent::Data { data_len, data, .. } => data@.take(data_len as int),
        _ => Seq::empty(),
    }
}

/// The valid bytes of some data events, one after the other.
pub open spec fn joined(events: Seq<ClipboardEvent>) -> Seq<u8>
    decreases events.len(),
{
    if events.len() == 0 {
        Seq::empty()
    } else {
        joined(events.drop_last()) + chunk(events.last())
    }
}

/// Whether some events carry content under a serial, each chunk with the offset at which it
/// starts.
pub open spec fn is_transfer(events: Seq<ClipboardEvent>, serial: u32) -> bool {
    forall|i: int|
        0 <= i < events.len() ==> (#[trigger] events[i] matches ClipboardEvent::Data {
            serial: s,
            offset,
            ..
        } && s == serial && offset == joined(events.take(i)).len())
}

/// Whether some events announce mime types, all of them UTF-8, under a serial.
pub open spec fn is_announcement(events: Seq<ClipboardEvent>, serial: u32) -> bool {
    forall|i: int|
        0 <= i < events.len() ==> (#[trigger] events[i] matches ClipboardEvent::Notify {
            serial: s,
            mime_type,
        } && s == serial && valid_utf8(mime_text(mime_type@)))
}

/// The mime type that an event announces.
pub open spec fn announced_mime_type(event: ClipboardEvent) -> Seq<char> {
    match event {
        ClipboardEvent::Notify { mime_type, .. } => decode_utf8(mime_text(mime_type@)),
        _ => Seq::empty(),
    }
}

/// Without access to the clipboard, nothing is done and nothing is remembered.
pub proof fn law_unavailable_clipboard_is_left_alone(
    clipboard: PeerClipboardView,
    event: ClipboardEvent,
)
    requires
        !clipboard.available,
    ensures
        clipboard.step(event) == (clipboard, ClipboardStepView::Done),
{
}

/// An event that is turned down changes nothing.
pub proof fn law_rejection_changes_nothing(clipboard: PeerClipboardView, event: ClipboardEvent)
    requires
        clipboard.step(event).1 is Rejected,
    ensures
        clipboard.step(event).0 == clipboard,
{
}

/// A mime type is announced and read under the name before its null: what follows the null
/// neither enters the name nor has it turned down.
pub proof fn law_mime_type_is_known_by_its_name(
    clipboard: PeerClipboardView,
    serial: u32,
    mime_type: [u8; MAX_MIME_TYPE_LEN],
    name: Seq<u8>,
    rest: Seq<u8>,
)
    requires
        clipboard.available,
        mime_type@ == name + seq![0u8] + rest,
        !name.contains(0),
        valid_utf8(name),
    ensures
        clipboard.step(ClipboardEvent::Notify { serial, mime_type }) == (
            clipboard.with_mime_type(serial, decode_utf8(name)),
            ClipboardStepView::Done,
        ),
        clipboard.step(ClipboardEvent::Request { serial, mime_type }) == (
            clipboard,
            ClipboardStepView::ReadSelection { mime_type: decode_utf8(name) },
        ),
{
    law_mime_type_ends_at_its_null(name, rest);
}

/// A clipboard event never changes whether the clipboard is available or which transfer the
/// portal waits for; only announcements change what is announced, and only under their own
/// serial; only data changes the content received.
pub proof fn law_events_keep_to_their_part(
    clipboard: PeerClipboardView,
    event: ClipboardEvent,
    other: u32,
)
    ensures
        clipboard.step(event).0.available == clipboard.available,
        clipboard.step(event).0.transfer_serial == clipboard.transfer_serial,
        !(event is Notify) ==> clipboard.step(event).0.incoming_mime_types
            == clipboard.incoming_mime_types,
        event is Notify && event->Notify_serial != other ==> clipboard.step(event).0.announced(
            other,
        ) == clipboard.announced(other),
        !(event is Data) ==> clipboard.step(event).0.incoming_data == clipboard.incoming_data,
{
}

/// Something is announced under every serial that is remembered: this holds of a fresh
/// clipboard, and every event and every selection that was set keep it.
pub proof fn law_remembered_announcements_are_not_empty(
    clipboard: PeerClipboardView,
    event: ClipboardEvent,
    serial: u32,
)
    requires
        clipboard.well_formed(),
    ensures
        clipboard.step(event).0.well_formed(),
        clipboard.without_mime_types(serial).well_formed(),
        clipboard.step(event).1 matches ClipboardStepView::SetSelection { mime_types, .. }
            ==> mime_types.len() > 0,
{
}

/// The end of an announcement that announced nothing sets no selection.
pub proof fn law_empty_announcement_sets_nothing(clipboard: PeerClipboardView, serial: u32)
    requires
        clipboard.well_formed(),
        clipboard.announced(serial).len() == 0,
    ensures
        clipboard.step(ClipboardEvent::NotifyDone { serial }) == (
            clipboard,
            ClipboardStepView::Done,
        ),
{
}

/// The end of a transfer of which nothing was received writes nothing.
pub proof fn law_empty_transfer_writes_nothing(clipboard: PeerClipboardView, serial: u32)
    requires
        clipboard.incoming_data is None,
    ensures
        clipboard.step(ClipboardEvent::DataDone { serial }) == (clipboard, ClipboardStepView::Done),
{
}

/// Announcing mime types under a serial remembers them in the order in which they came, and
/// changes nothing else.
pub proof fn law_announcement_is_remembered(
    clipboard: PeerClipboardView,
    events: Seq<ClipboardEvent>,
    serial: u32,
)
    requires
        clipboard.available,
        is_announcement(events, serial),
    ensures
        clipboard.after(events).announced(serial) == clipboard.announced(serial)
            + events.map_values(|event: ClipboardEvent| announced_mime_type(event)),
        clipboard.after(events).without_mime_types(serial) == clipboard.without_mime_types(serial),
        events.len() > 0 ==> clipboard.after(events).incoming_mime_types.contains_key(serial),
    decreases events.len(),
{
    let names = |event: ClipboardEvent| announced_mime_type(event);
    if events.len() == 0 {
        assert(clipboard.announced(serial) + events.map_values(names) =~= clipboard.announced(
            serial,
        ));
    } else {
        let earlier = events.drop_last();
        assert forall|i: int| 0 <= i < earlier.len() implies (
        #[trigger] earlier[i] matches ClipboardEvent::Notify { serial: s, mime_type } && s == serial
            && valid_utf8(mime_text(mime_type@))) by {
            assert(earlier[i] == events[i]);
        }
        law_announcement_is_remembered(clipboard, earlier, serial);
        let before = clipboard.after(earlier);
        assert(before.without_mime_types(serial).available == clipboard.available);
        assert(events.last() == events[events.len() - 1]);
        assert(clipboard.after(events) == before.with_mime_type(
            serial,
            announced_mime_type(events.last()),
        ));
        assert(events.map_values(names) =~= earlier.map_values(names).push(
            announced_mime_type(events.last()),
        ));
        assert(clipboard.after(events).announced(serial) =~= clipboard.announced(serial)
            + events.map_values(names));
        assert(clipboard.after(events).without_mime_types(serial).incoming_mime_types
            =~= before.without_mime_types(serial).incoming_mime_types);
    }
}

/// A clipboard announced from scratch is offered as announced: the end of the announcement
/// sets a selection of exactly the announced mime types, in order, and once that is done
/// the announcement is forgotten.
pub proof fn law_announcement_is_offered(
    clipboard: PeerClipboardView,
    events: Seq<ClipboardEvent>,
    serial: u32,
)
    requires
        clipboard.available,
        !clipboard.incoming_mime_types.contains_key(serial),
        is_announcement(events, serial),
        events.len() > 0,
    ensures
        clipboard.after(events).step(ClipboardEvent::NotifyDone { serial }) == (
            clipboard.after(events),
            ClipboardStepView::SetSelection {
                serial,
                mime_types: events.map_values(|event: ClipboardEvent| announced_mime_type(event)),
            },
        ),
        clipboard.after(events).without_mime_types(serial) == clipboard,
{
    law_announcement_is_remembered(clipboard, events, serial);
    let names = events.map_values(|event: ClipboardEvent| announced_mime_type(event));
    assert(clipboard.announced(serial) + names =~= names);
    assert(clipboard.after(events).without_mime_types(serial).available == clipboard.available);
    assert(clipboard.without_mime_types(serial).incoming_mime_types
        =~= clipboard.incoming_mime_types);
}

/// Content that arrives in chunks is put together again: after the chunks of one transfer,
/// the content received is their bytes, one after the other, and nothing else has changed.
pub proof fn law_chunks_are_joined(
    clipboard: PeerClipboardView,
    events: Seq<ClipboardEvent>,
    serial: u32,
)
    requires
        clipboard.available,
        clipboard.incoming_data is None,
        events.len() > 0,
        is_transfer(events, serial),
    ensures
        clipboard.after(events) == clipboard.with_data(serial, joined(events)),
    decreases events.len(),
{
    let earlier = events.drop_last();
    let last = events.last();
    assert(last == events[events.len() - 1]);
    assert(earlier =~= events.take(events.len() - 1));
    if earlier.len() == 0 {
        assert(clipboard.after(earlier) == clipboard);
        assert(joined(earlier) == Seq::<u8>::empty());
        assert(joined(events) =~= chunk(last));
    } else {
        assert forall|i: int| 0 <= i < earlier.len() implies (
        #[trigger] earlier[i] matches ClipboardEvent::Data { serial: s, offset, .. } && s == serial
            && offset == joined(earlier.take(i)).len()) by {
            assert(earlier[i] == events[i]);
            assert(earlier.take(i) =~= events.take(i));
        }
        law_chunks_are_joined(clipboard, earlier, serial);
    }
}

/// Content that arrived in chunks is written as it was sent: the end of the transfer writes
/// exactly the bytes of the chunks, one after the other, for the transfer that the portal
/// waits for.
pub proof fn law_transfer_is_written(
    clipboard: PeerClipboardView,
    events: Seq<ClipboardEvent>,
    serial: u32,
    transfer_serial: u32,
)
    requires
        clipboard.available,
        clipboard.incoming_data is None,
        clipboard.transfer_serial == Some(transfer_serial),
        events.len() > 0,
        is_transfer(events, serial),
    ensures
        clipboard.after(events).step(ClipboardEvent::DataDone { serial }).1
            == (ClipboardStepView::WriteSelection {
            transfer_serial,
            serial,
            data: joined(events),
        }),
{
    law_chunks_are_joined(clipboard, events, serial);
}

/// A chunk is taken in if and only if it belongs to the transfer under way, if there is one, and
/// starts where the content ends so far, which is at zero if there is none. Its bytes then stand
/// in the content at its offset, after what was there before. Any other chunk is turned down,
/// for its serial first and then for its offset, and changes nothing.
pub proof fn law_chunks_stand_at_their_offset(
    clipboard: PeerClipboardView,
    serial: u32,
    offset: u32,
    data_len: u8,
    data: [u8; MAX_CLIPBOARD_CHUNK_SIZE],
)
    requires
        clipboard.available,
        clipboard.incoming_data matches Some((_, received)) ==> received.len() <= usize::MAX,
    ensures
        ({
            let (after, step) = clipboard.step(
                ClipboardEvent::Data { serial, offset, data_len, data },
            );
            let before: Seq<u8> = match clipboard.incoming_data {
                Some((_, received)) => received,
                None => Seq::empty(),
            };
            let same_transfer = clipboard.incoming_data matches Some((s, _)) ==> s == serial;
            &&& after.available && after.transfer_serial == clipboard.transfer_serial
            &&& after.incoming_mime_types == clipboard.incoming_mime_types
            &&& step is Done <==> same_transfer && offset == before.len()
            &&& step is Done ==> {
                &&& after.incoming_data matches Some((s, content))
                &&& s == serial
                &&& content.len() == offset + data_len
                &&& content.take(offset as int) == before
                &&& forall|i: int|
                    0 <= i < data_len ==> #[trigger] data@[i] == content[offset + i]
            }
            &&& !(step is Done) ==> after.incoming_data == clipboard.incoming_data
            &&& !same_transfer ==> {
                &&& step matches ClipboardStepView::Rejected(
                    Rejection::SerialMismatch { serial: got, expected },
                )
                &&& got == serial
                &&& expected == (clipboard.incoming_data->0).0
            }
            &&& same_transfer && offset != before.len() ==> {
                &&& step matches ClipboardStepView::Rejected(
                    Rejection::OffsetMismatch { offset: got, expected },
                )
                &&& got == offset
                &&& expected == before.len()
            }
        }),
{
    let (after, step) = clipboard.step(ClipboardEvent::Data { serial, offset, data_len, data });
    if step is Done {
        let content = (after.incoming_data->0).1;
        let before: Seq<u8> = match clipboard.incoming_data {
            Some((_, received)) => received,
            None => Seq::empty(),
        };
        assert(content =~= before + data@.take(data_len as int));
        assert(content.take(offset as int) =~= before);
    }
}

/// The end of a transfer changes nothing. It writes, for the transfer that the portal waits for,
/// exactly what was received under its serial; it is turned down if something was received under
/// another; and otherwise it does nothing.
pub proof fn law_end_of_transfer(clipboard: PeerClipboardView, serial: u32)
    requires
        clipboard.available,
    ensures
        ({
            let (after, step) = clipboard.step(ClipboardEvent::DataDone { serial });
            &&& after == clipboard
            &&& step is Done <==> clipboard.incoming_data is None || (
            (clipboard.incoming_data->0).0 == serial && clipboard.transfer_serial is None)
            &&& step is WriteSelection <==> clipboard.transfer_serial is Some
                && clipboard.incoming_data is Some && (clipboard.incoming_data->0).0 == serial
            &&& step matches ClipboardStepView::WriteSelection {
                transfer_serial,
                serial: told,
                data,
            } ==> {
                &&& clipboard.transfer_serial == Some(transfer_serial)
                &&& told == serial
                &&& clipboard.incoming_data == Some((serial, data))
            }
            &&& clipboard.incoming_data is Some && (clipboard.incoming_data->0).0 != serial ==> {
                &&& step matches ClipboardStepView::Rejected(
                    Rejection::SerialMismatch { serial: got, expected },
                )
                &&& got == serial
                &&& expected == (clipboard.incoming_data->0).0
            }
        }),
{
}

/// An announced mime type goes to the end of the list of its serial if its name, which ends
/// before its first null, is UTF-8; it is turned down and changes nothing otherwise.
pub proof fn law_mime_types_are_listed_by_serial(
    clipboard: PeerClipboardView,
    serial: u32,
    mime_type: [u8; MAX_MIME_TYPE_LEN],
    name: Seq<u8>,
    rest: Seq<u8>,
    other: u32,
)
    requires
        clipboard.available,
        mime_type@ == name + rest,
        !name.contains(0),
        rest.len() > 0 ==> rest[0] == 0,
        other != serial,
    ensures
        ({
            let (after, step) = clipboard.step(ClipboardEvent::Notify { serial, mime_type });
            let before = clipboard.incoming_mime_types;
            let now = after.incoming_mime_types;
            &&& after.available && after.transfer_serial == clipboard.transfer_serial
            &&& after.incoming_data == clipboard.incoming_data
            &&& now.contains_key(other) == before.contains_key(other)
            &&& before.contains_key(other) ==> now[other] == before[other]
            &&& valid_utf8(name) ==> {
                &&& step is Done
                &&& now.contains_key(serial)
                &&& now[serial].len() > 0
                &&& now[serial].last() == decode_utf8(name)
                &&& before.contains_key(serial) ==> now[serial].drop_last() == before[serial]
                &&& !before.contains_key(serial) ==> now[serial].len() == 1
            }
            &&& !valid_utf8(name) ==> now == before && step == ClipboardStepView::Rejected(
                Rejection::InvalidMimeType,
            )
        }),
{
    lemma_name_of(mime_type@, name, rest);
    let (after, step) = clipboard.step(ClipboardEvent::Notify { serial, mime_type });
    if valid_utf8(name) && clipboard.incoming_mime_types.contains_key(serial) {
        assert(after.incoming_mime_types[serial].drop_last()
            =~= clipboard.incoming_mime_types[serial]);
    }
}

/// A request changes nothing. It reads the clipboard as the mime type that it names, which ends
/// before its first null, if that is UTF-8; it is turned down otherwise.
pub proof fn law_requests_are_read(
    clipboard: PeerClipboardView,
    serial: u32,
    mime_type: [u8; MAX_MIME_TYPE_LEN],
    name: Seq<u8>,
    rest: Seq<u8>,
)
    requires
        clipboard.available,
        mime_type@ == name + rest,
        !name.contains(0),
        rest.len() > 0 ==> rest[0] == 0,
    ensures
        ({
            let (after, step) = clipboard.step(ClipboardEvent::Request { serial, mime_type });
            &&& after == clipboard
            &&& valid_utf8(name) ==> {
                &&& step matches ClipboardStepView::ReadSelection { mime_type: read }
                &&& read == decode_utf8(name)
            }
            &&& !valid_utf8(name) ==> step == ClipboardStepView::Rejected(
                Rejection::InvalidMimeType,
            )
        }),
{
    lemma_name_of(mime_type@, name, rest);
}

proof fn lemma_name_of(field: Seq<u8>, name: Seq<u8>, rest: Seq<u8>)
    requires
        field == name + rest,
        !name.contains(0),
        rest.len() > 0 ==> rest[0] == 0,
    ensures
        mime_text(field) == name,
{
    if rest.len() > 0 {
        assert(field =~= name + seq![0u8] + rest.skip(1));
        law_mime_type_ends_at_its_null(name, rest.skip(1));
    } else {
        assert(field =~= name);
        law_mime_type_ends_at_its_null(name, rest);
    }
}

/// The end of an announcement changes nothing yet. It offers what was announced under its serial
/// if anything was, and does nothing otherwise.
pub proof fn law_end_of_announcement(clipboard: PeerClipboardView, serial: u32)
    requires
        clipboard.available,
    ensures
        ({
            let (after, step) = clipboard.step(ClipboardEvent::NotifyDone { serial });
            let announced = clipboard.incoming_mime_types;
            &&& after == clipboard
            &&& step is Done <==> !announced.contains_key(serial)
            &&& announced.contains_key(serial) ==> {
                &&& step matches ClipboardStepView::SetSelection { serial: told, mime_types }
                &&& told == serial
                &&& mime_types == announced[serial]
            }
        }),
{
}

/// Forgetting an announcement forgets that one alone.
pub proof fn law_one_announcement_is_forgotten(
    clipboard: PeerClipboardView,
    serial: u32,
    other: u32,
)
    requires
        other != serial,
    ensures
        ({
            let after = clipboard.without_mime_types(serial);
            let before = clipboard.incoming_mime_types;
            &&& !after.incoming_mime_types.contains_key(serial)
            &&& after.incoming_mime_types.contains_key(other) == before.contains_key(other)
            &&& before.contains_key(other) ==> after.incoming_mime_types[other] == before[other]
            &&& after.available == clipboard.available
            &&& after.transfer_serial == clipboard.transfer_serial
            &&& after.incoming_data == clipboard.incoming_data
        }),
{
}

/// Once something was opened to write to, the portal is told so under the serial of the event,
/// well if and only if everything was written; otherwise it is told nothing.
pub proof fn law_portal_is_told_after_writing(serial: u32, outcome: WriteOutcome)
    ensures
        told_after_writing(serial, outcome) is None <==> outcome is NotOpened,
        told_after_writing(serial, outcome) matches Some((told, success)) ==> told == serial && (
        success <==> outcome is Written),
{
}

/// The view of a clipboard shows every field of it.
pub proof fn law_view_of_clipboards(clipboard: PeerClipboard, serial: u32)
    ensures
        clipboard@.available == clipboard.available,
        clipboard@.transfer_serial == clipboard.transfer_serial,
        clipboard@.incoming_mime_types.contains_key(serial)
            == clipboard.incoming_mime_types@.contains_key(serial),
        clipboard.incoming_mime_types@.contains_key(serial) ==> {
            let names = clipboard@.incoming_mime_types[serial];
            let list = clipboard.incoming_mime_types@[serial]@;
            &&& names.len() == list.len()
            &&& forall|i: int| 0 <= i < list.len() ==> #[trigger] names[i] == list[i]@
        },
        clipboard@.incoming_data is Some <==> clipboard.incoming_data is Some,
        clipboard.incoming_data matches Some((s, data)) ==> {
            &&& (clipboard@.incoming_data->0).0 == s
            &&& (clipboard@.incoming_data->0).1 == data@
        },
{
}

/// The view of a step tells its kind and all it holds.
pub proof fn law_view_of_steps(step: ClipboardStep)
    ensures
        step is Done <==> step@ is Done,
        step matches ClipboardStep::Rejected(why) ==> step@ == ClipboardStepView::Rejected(why),
        step matches ClipboardStep::SetSelection { serial, mime_types } ==> {
            &&& step@ matches ClipboardStepView::SetSelection { serial: seen, mime_types: names }
            &&& seen == serial
            &&& names.len() == mime_types@.len()
            &&& forall|i: int| 0 <= i < names.len() ==> #[trigger] names[i] == mime_types@[i]@
        },
        step matches ClipboardStep::ReadSelection { mime_type } ==> {
            &&& step@ matches ClipboardStepView::ReadSelection { mime_type: name }
            &&& name == mime_type@
        },
        step matches ClipboardStep::WriteSelection { transfer_serial, serial, data } ==> {
            &&& step@ matches ClipboardStepView::WriteSelection {
                transfer_serial: t,
                serial: s,
                data: d,
            }
            &&& t == transfer_serial
            &&& s == serial
            &&& d == data@
        },
{
}

} // verus!
