//! Emulation as a whole: the devices, the errors, and the clipboard of the peer.

use crate::input_event::{ClipboardEvent, Event};
use crate::libei::clipboard::{ClipboardStep, PeerClipboard, PeerClipboardView};
use crate::libei::devices::{Devices, Emit, EmulationError};
use vstd::prelude::*;

verus! {

/// Where the task that listens to libei leaves its error for whoever emulates next
#[derive(Debug)]
pub struct ErrorSlot<E> {
    /// Whether there ever was an error
    pub raised: bool,
    /// The last error, until it is picked up
    pub error: Option<EmulationError<E>>,
}

/// The state of emulation
pub struct LibeiEmulation<E> {
    pub devices: Devices,
    pub errors: ErrorSlot<E>,
    pub clipboard: PeerClipboard,
}

/// What the task that listens to libei does next
#[derive(Debug, Clone, Copy, PartialEq, Eq, Structural)]
pub enum EiTaskStep {
    /// Listen again
    Listen,
    /// Wait to be ended
    Wait,
}

/// How the task that listens to libei goes on once listening has ended.
pub open spec fn after_listening<E>(outcome: Result<(), EmulationError<E>>) -> EiTaskStep {
    match outcome {
        Ok(_) => EiTaskStep::Listen,
        Err(_) => EiTaskStep::Wait,
    }
}

impl<E> ErrorSlot<E> {
    /// The error that is waiting to be picked up.
    pub open spec fn pending(self) -> Option<EmulationError<E>> {
        if self.raised {
            self.error
        } else {
            None
        }
    }

    /// The slot once an error was left in it.
    pub open spec fn with_error(self, error: EmulationError<E>) -> ErrorSlot<E> {
        ErrorSlot { raised: true, error: Some(error) }
    }

    /// The slot once its error was picked up.
    pub open spec fn picked_up(self) -> ErrorSlot<E> {
        if self.raised {
            ErrorSlot { error: None, ..self }
        } else {
            self
        }
    }

    /// Takes in how listening to libei ended, leaves the error if there is one, and says how
    /// the task goes on.
    pub fn ei_task(&mut self, outcome: Result<(), EmulationError<E>>) -> (result: EiTaskStep)
        ensures
            result == if outcome is Ok {
                EiTaskStep::Listen
            } else {
                EiTaskStep::Wait
            },
            *final(self) == match outcome {
                Ok(_) => *old(self),
                Err(error) => old(self).with_error(error),
            },
            result == after_listening(outcome),
    {
        match outcome {
            Ok(_) => EiTaskStep::Listen,
            Err(error) => {
                self.raised = true;
                self.error = Some(error);
                EiTaskStep::Wait
            },
        }
    }

    /// Picks up the error that is waiting, if there is one.
    pub fn pick_up(&mut self) -> (result: Option<EmulationError<E>>)
        ensures
            result == old(self).pending(),
            *final(self) == old(self).picked_up(),
    {
        if self.raised {
            self.error.take()
        } else {
            None
        }
    }
}

impl<E> LibeiEmulation<E> {
    /// What emulating an input event gives: the error that is waiting, or else what the
    /// devices are to do.
    pub open spec fn outcome(self, event: Event) -> Result<Option<Emit>, EmulationError<E>> {
        match self.errors.pending() {
            Some(error) => Err(error),
            None => Ok(self.devices.emitted(event)),
        }
    }

    /// The state once an input event was emulated.
    pub open spec fn consumed(self) -> LibeiEmulation<E> {
        LibeiEmulation { errors: self.errors.picked_up(), ..self }
    }

    /// Nothing has happened yet; the clipboard is there or not.
    pub fn new(clipboard: bool) -> (result: LibeiEmulation<E>)
        ensures
            result.devices == (Devices { pointer: None, scroll: None, button: None, keyboard: None }),
            result.errors == (ErrorSlot::<E> { raised: false, error: None }),
            result.clipboard@ == (PeerClipboardView {
                available: clipboard,
                transfer_serial: None,
                incoming_mime_types: Map::empty(),
                incoming_data: None,
            }),
            result.clipboard@.well_formed(),
    {
        LibeiEmulation {
            devices: Devices::default(),
            errors: ErrorSlot { raised: false, error: None },
            clipboard: PeerClipboard::new(clipboard),
        }
    }

    /// Emulates an input event: hands out the error that is waiting, or else says what the
    /// devices are to do. Then the connection to libei is to be flushed.
    pub fn consume(&mut self, event: Event) -> (result: Result<Option<Emit>, EmulationError<E>>)
        ensures
            result == old(self).outcome(event),
            *final(self) == old(self).consumed(),
    {
        match self.errors.pick_up() {
            Some(error) => Err(error),
            None => Ok(self.devices.emit(event)),
        }
    }

    /// Takes in a clipboard event of the peer and says what is to be done about it.
    pub fn consume_clipboard(&mut self, event: ClipboardEvent) -> (result: ClipboardStep)
        ensures
            (final(self).clipboard@, result@) == old(self).clipboard@.step(event),
            final(self).devices == old(self).devices,
            final(self).errors == old(self).errors,
            old(self).clipboard@.well_formed() ==> final(self).clipboard@.well_formed(),
    {
        self.clipboard.consume_clipboard(event)
    }
}

/// An error is handed out once: the next input event reports it, and the one after that is
/// emulated as if there had been none.
pub proof fn law_error_is_handed_out_once<E>(
    emulation: LibeiEmulation<E>,
    error: EmulationError<E>,
    first: Event,
    second: Event,
)
    ensures
        ({
            let failed = LibeiEmulation { errors: emulation.errors.with_error(error), ..emulation };
            &&& failed.outcome(first) == Err::<Option<Emit>, EmulationError<E>>(error)
            &&& failed.consumed().outcome(second) == Ok::<Option<Emit>, EmulationError<E>>(
                emulation.devices.emitted(second),
            )
        }),
{
}

/// As long as no error is left, input events are emulated and change nothing.
pub proof fn law_emulation_without_errors<E>(emulation: LibeiEmulation<E>, event: Event)
    requires
        emulation.errors.pending() is None,
    ensures
        emulation.outcome(event) == Ok::<Option<Emit>, EmulationError<E>>(
            emulation.devices.emitted(event),
        ),
        emulation.consumed() == emulation,
{
}

/// The task that listens to libei listens again until there is an error, and then for ever waits.
pub proof fn law_listening_stops_at_an_error<E>(outcome: Result<(), EmulationError<E>>)
    ensures
        after_listening(outcome) is Wait <==> outcome is Err,
{
}

/// An error that is left replaces the one before it and raises the flag.
pub proof fn law_left_error_replaces_the_last<E>(slot: ErrorSlot<E>, error: EmulationError<E>)
    ensures
        slot.with_error(error).raised,
        slot.with_error(error).error == Some(error),
{
}

/// Emulating reports an error if and only if one was raised and not yet picked up, and then that
/// one; otherwise it gives what the devices do. Either way no raised error is left afterwards,
/// and nothing else has changed.
pub proof fn law_errors_come_before_events<E>(emulation: LibeiEmulation<E>, event: Event)
    ensures
        ({
            let waiting = emulation.errors.raised && emulation.errors.error is Some;
            let after = emulation.consumed();
            &&& emulation.outcome(event) is Err <==> waiting
            &&& waiting ==> emulation.errors.error == Some(emulation.outcome(event)->Err_0)
            &&& !waiting ==> emulation.outcome(event)->Ok_0 == emulation.devices.emitted(event)
            &&& after.errors.raised == emulation.errors.raised
            &&& emulation.errors.raised ==> after.errors.error is None
            &&& !emulation.errors.raised ==> after.errors.error == emulation.errors.error
            &&& after.devices == emulation.devices
            &&& after.clipboard == emulation.clipboard
        }),
{
}

} // verus!
