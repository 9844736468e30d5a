//! Listening to the clipboard portal, and passing on what it reports.

use crate::libei::ClipboardEvent;
use vstd::prelude::*;

verus! {

/// What the clipboard portal signals
#[derive(Debug)]
pub enum PortalSignal<E> {
    /// The portal cannot be listened to
    NoSubscription(E),
    /// The clipboard has a new owner: the mime types on offer, and whether the owner is this
    /// session; nothing if there are no more such signals
    OwnerChanged(Option<(Vec<String>, Option<bool>)>),
    /// Content is wanted: the mime type, and the serial of the transfer; nothing if there are
    /// no more such signals
    Transfer(Option<(String, u32)>),
}

/// What the task that listens to the clipboard portal does next
#[derive(Debug)]
pub enum TaskStep<E> {
    /// Pass this on and listen again
    Send(ClipboardEvent),
    /// End with this result
    Finish(Result<ClipboardEvent, E>),
}

/// A value that is there or not yet
#[derive(Debug)]
pub enum Polled<T> {
    Ready(T),
    Pending,
}

/// What polling for the next clipboard event does after polling the task
#[derive(Debug)]
pub enum PollStep<E> {
    /// Answer with this
    Answer(Option<Result<ClipboardEvent, E>>),
    /// Poll the channel that the task sends to; see [`poll_channel`]
    PollChannel,
}

/// What is passed on when the clipboard has a new owner. Where the portal does not say
/// whether that is this session, it is taken not to be.
pub fn handle_clipboard_owner_changed(
    mime_types: Vec<String>,
    session_is_owner: Option<bool>,
) -> (event: ClipboardEvent)
    ensures
        event == ClipboardEvent::OwnerChanged((session_is_owner == Some(true), mime_types)),
{
    let is_owner = match session_is_owner {
        Some(is_owner) => is_owner,
        None => false,
    };
    ClipboardEvent::OwnerChanged((is_owner, mime_types))
}

/// What is passed on when content is wanted.
pub fn handle_clipboard_transfer(mime_type: String, serial: u32) -> (event: ClipboardEvent)
    ensures
        event == ClipboardEvent::TransferRequest((serial, mime_type)),
{
    ClipboardEvent::TransferRequest((serial, mime_type))
}

/// What the task does about a signal of the clipboard portal.
pub open spec fn task_step<E>(signal: PortalSignal<E>) -> TaskStep<E> {
    match signal {
        PortalSignal::NoSubscription(e) => TaskStep::Finish(Err(e)),
        PortalSignal::OwnerChanged(Some((mime_types, session_is_owner))) => TaskStep::Send(
            ClipboardEvent::OwnerChanged((session_is_owner == Some(true), mime_types)),
        ),
        PortalSignal::Transfer(Some((mime_type, serial))) => TaskStep::Send(
            ClipboardEvent::TransferRequest((serial, mime_type)),
        ),
        PortalSignal::OwnerChanged(None) => TaskStep::Finish(Ok(ClipboardEvent::Noop)),
        PortalSignal::Transfer(None) => TaskStep::Finish(Ok(ClipboardEvent::Noop)),
    }
}

/// Takes in a signal of the clipboard portal and says what the task does about it: it passes
/// on what happened, and ends once either kind of signal ends.
pub fn clipboard_event_task<E>(signal: PortalSignal<E>) -> (step: TaskStep<E>)
    ensures
        step == task_step(signal),
{
    match signal {
        PortalSignal::NoSubscription(e) => TaskStep::Finish(Err(e)),
        PortalSignal::OwnerChanged(changed) => match changed {
            Some((mime_types, session_is_owner)) => TaskStep::Send(
                handle_clipboard_owner_changed(mime_types, session_is_owner),
            ),
            None => TaskStep::Finish(Ok(ClipboardEvent::Noop)),
        },
        PortalSignal::Transfer(transfer) => match transfer {
            Some((mime_type, serial)) => TaskStep::Send(
                handle_clipboard_transfer(mime_type, serial),
            ),
            None => TaskStep::Finish(Ok(ClipboardEvent::Noop)),
        },
    }
}

/// How polling goes on after polling the task.
pub open spec fn after_polling_task<E>(
    task: Option<Polled<Result<ClipboardEvent, E>>>,
) -> PollStep<E> {
    match task {
        None => PollStep::Answer(None),
        Some(Polled::Ready(result)) => PollStep::Answer(Some(result)),
        Some(Polled::Pending) => PollStep::PollChannel,
    }
}

/// The answer after polling the channel.
pub open spec fn after_polling_channel<E>(
    received: Polled<Option<ClipboardEvent>>,
) -> Polled<Option<Result<ClipboardEvent, E>>> {
    match received {
        Polled::Ready(Some(event)) => Polled::Ready(Some(Ok(event))),
        Polled::Ready(None) => Polled::Ready(None),
        Polled::Pending => Polled::Pending,
    }
}

/// How polling for the next clipboard event goes on, given the task that listens to the
/// portal, if there is one, as it was polled: without a task there are no events, a task that
/// ended answers with its result, and otherwise the channel is polled.
pub fn poll_next<E>(task: Option<Polled<Result<ClipboardEvent, E>>>) -> (step: PollStep<E>)
    ensures
        step == match task {
            None => PollStep::Answer(None),
            Some(Polled::Ready(result)) => PollStep::Answer(Some(result)),
            Some(Polled::Pending) => PollStep::PollChannel,
        },
        step == after_polling_task(task),
{
    match task {
        Some(polled) => match polled {
            Polled::Ready(r) => match r {
                Ok(event) => PollStep::Answer(Some(Ok(event))),
                Err(e) => PollStep::Answer(Some(Err(e))),
            },
            Polled::Pending => PollStep::PollChannel,
        },
        None => PollStep::Answer(None),
    }
}

/// The answer to polling for the next clipboard event, given the channel as it was polled.
pub fn poll_channel<E>(received: Polled<Option<ClipboardEvent>>) -> (answer: Polled<
    Option<Result<ClipboardEvent, E>>,
>)
    ensures
        answer == match received {
            Polled::Ready(Some(event)) => Polled::Ready(Some(Ok::<ClipboardEvent, E>(event))),
            Polled::Ready(None) => Polled::Ready(None),
            Polled::Pending => Polled::Pending,
        },
        answer == after_polling_channel::<E>(received),
{
    match received {
        Polled::Ready(event) => match event {
            Some(event) => Polled::Ready(Some(Ok(event))),
            None => Polled::Ready(None),
        },
        Polled::Pending => Polled::Pending,
    }
}

/// The task ends well exactly when either kind of signal ends, and its result is then no
/// news; it fails exactly when the portal cannot be listened to.
pub proof fn law_task_ends_with_its_signals<E>(signal: PortalSignal<E>)
    ensures
        task_step(signal) == TaskStep::<E>::Finish(Ok(ClipboardEvent::Noop)) <==> (signal
            == PortalSignal::<E>::OwnerChanged(None) || signal == PortalSignal::<E>::Transfer(
            None,
        )),
        (task_step(signal) matches TaskStep::Finish(r) && r is Err) <==> signal is NoSubscription,
{
}

/// A new owner is always passed on, with all the mime types on offer, and so is every transfer
/// that is wanted: the task ends only when one kind of signal ends or cannot be listened to.
pub proof fn law_every_signal_is_passed_on<E>(signal: PortalSignal<E>)
    ensures
        task_step(signal) is Finish <==> {
            ||| signal is NoSubscription
            ||| signal matches PortalSignal::OwnerChanged(changed) && changed is None
            ||| signal matches PortalSignal::Transfer(transfer) && transfer is None
        },
        signal matches PortalSignal::OwnerChanged(Some((offered, owner))) ==> {
            &&& task_step(signal) matches TaskStep::Send(
                ClipboardEvent::OwnerChanged((is_owner, mime_types)),
            )
            &&& mime_types == offered
            &&& is_owner <==> owner is Some && owner->0
        },
        signal matches PortalSignal::Transfer(Some((wanted, number))) ==> {
            &&& task_step(signal) matches TaskStep::Send(
                ClipboardEvent::TransferRequest((serial, mime_type)),
            )
            &&& mime_type == wanted
            &&& serial == number
        },
        signal matches PortalSignal::NoSubscription(e) ==> task_step(signal) == TaskStep::Finish(
            Err::<ClipboardEvent, E>(e),
        ),
        task_step(signal) matches TaskStep::Finish(Ok(event)) ==> event is Noop,
{
}

/// Without a task there are no more events; a task that ended answers with its result; while it
/// runs, the channel is asked.
pub proof fn law_task_is_asked_before_the_channel<E>(
    task: Option<Polled<Result<ClipboardEvent, E>>>,
)
    ensures
        after_polling_task(task) is PollChannel <==> task is Some && task->0 is Pending,
        task is None ==> after_polling_task(task) == PollStep::<E>::Answer(None),
        task matches Some(Polled::Ready(result)) ==> {
            &&& after_polling_task(task) matches PollStep::Answer(Some(answer))
            &&& answer == result
        },
{
}

/// What the channel brings is the answer, unchanged and never an error.
pub proof fn law_channel_brings_events<E>(received: Polled<Option<ClipboardEvent>>)
    ensures
        after_polling_channel::<E>(received) is Pending <==> received is Pending,
        received matches Polled::Ready(Some(event)) ==> {
            &&& after_polling_channel::<E>(received) matches Polled::Ready(Some(Ok(answer)))
            &&& answer == event
        },
        received matches Polled::Ready(None) ==> {
            &&& after_polling_channel::<E>(received) matches Polled::Ready(answer)
            &&& answer is None
        },
{
}

} // verus!
