//! Replaying events through the desktop portal and libei: everything about it that is
//! decided rather than asked of the desktop.

use crate::text::texts;
use vstd::prelude::*;

pub mod clipboard;
pub mod devices;
pub mod emulation;
pub mod portal;
pub mod tasks;
pub mod token;

verus! {

/// What the clipboard portal reports
#[derive(Debug, PartialEq)]
pub enum ClipboardEvent {
    /// Nothing: the task that listens to the portal has ended
    Noop,
    /// The clipboard has a new owner: whether that is this session, and the mime types on offer
    OwnerChanged((bool, Vec<String>)),
    /// Content is wanted: the serial of the transfer, and the mime type
    TransferRequest((u32, String)),
}

/// A [`ClipboardEvent`] in terms of mathematics
#[verifier::ext_equal]
pub enum ClipboardEventView {
    Noop,
    OwnerChanged((bool, Seq<Seq<char>>)),
    TransferRequest((u32, Seq<char>)),
}

impl View for ClipboardEvent {
    type V = ClipboardEventView;

    open spec fn view(&self) -> ClipboardEventView {
        match *self {
            ClipboardEvent::Noop => ClipboardEventView::Noop,
            ClipboardEvent::OwnerChanged((is_owner, mime_types)) =>
                ClipboardEventView::OwnerChanged((is_owner, texts(mime_types@))),
            ClipboardEvent::TransferRequest((serial, mime_type)) =>
                ClipboardEventView::TransferRequest((serial, mime_type@)),
        }
    }
}

impl Clone for ClipboardEvent {
    fn clone(&self) -> (result: ClipboardEvent)
        ensures
            result@ == self@,
    {
        match self {
            ClipboardEvent::Noop => ClipboardEvent::Noop,
            ClipboardEvent::OwnerChanged((is_owner, mime_types)) => {
                let copy = mime_types.clone();
                assert(copy@ =~= mime_types@);
                ClipboardEvent::OwnerChanged((*is_owner, copy))
            },
            ClipboardEvent::TransferRequest((serial, mime_type)) => {
                ClipboardEvent::TransferRequest((*serial, mime_type.clone()))
            },
        }
    }
}

/// The view of an event tells its kind and all it holds.
pub proof fn law_view_of_portal_events(event: ClipboardEvent)
    ensures
        event is Noop <==> event@ is Noop,
        event matches ClipboardEvent::OwnerChanged((is_owner, mime_types)) ==> {
            &&& event@ matches ClipboardEventView::OwnerChanged((seen, names))
            &&& seen == is_owner
            &&& names.len() == mime_types@.len()
            &&& forall|i: int| 0 <= i < names.len() ==> #[trigger] names[i] == mime_types@[i]@
        },
        event matches ClipboardEvent::TransferRequest((serial, mime_type)) ==> {
            &&& event@ matches ClipboardEventView::TransferRequest((seen, name))
            &&& seen == serial
            &&& name == mime_type@
        },
{
}

} // verus!
