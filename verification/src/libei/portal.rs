//! Getting permission to emulate input: the conversation with the remote desktop portal, one
//! request and one reply at a time.

use vstd::prelude::*;

verus! {

/// How long the portal is to remember a permission
#[derive(Debug, Clone, Copy, PartialEq, Eq, Structural)]
pub enum PersistMode {
    /// Not at all
    DoNot,
    /// As long as the application runs
    Application,
    /// Until it is revoked
    ExplicitlyRevoked,
}

/// What the portal is asked for next
#[derive(Debug)]
pub enum PortalRequest<E> {
    /// Find the remote desktop portal
    OpenRemoteDesktop,
    /// Read the token of the last session from its file
    ReadToken,
    /// Create a session
    CreateSession,
    /// Choose the devices to emulate
    SelectDevices {
        keyboard: bool,
        pointer: bool,
        restore_token: Option<String>,
        persist_mode: PersistMode,
    },
    /// Find the clipboard portal
    OpenClipboard,
    /// Ask for access to the clipboard
    RequestClipboard,
    /// Start the session, which asks the user for permission
    Start,
    /// Write the token of this session to its file
    SaveToken { token: String },
    /// Connect to the emulation server
    ConnectToEis,
    /// Nothing: the session is there, with or without the clipboard
    Finished { clipboard: bool },
    /// Nothing: there is no session
    Failed(E),
}

/// How the portal replied
#[derive(Debug)]
pub enum PortalReply<E> {
    /// To [`PortalRequest::OpenRemoteDesktop`]
    RemoteDesktop(Result<(), E>),
    /// To [`PortalRequest::ReadToken`]: the token, if there is one
    Token(Option<String>),
    /// To [`PortalRequest::CreateSession`]
    Session(Result<(), E>),
    /// To [`PortalRequest::SelectDevices`]: the version of the portal
    Devices(Result<u32, E>),
    /// To [`PortalRequest::OpenClipboard`]
    Clipboard(Result<(), E>),
    /// To [`PortalRequest::RequestClipboard`]: whether it was granted
    ClipboardAccess(bool),
    /// To [`PortalRequest::Start`]
    Started(Result<StartResponse, E>),
    /// To [`PortalRequest::SaveToken`]
    TokenSaved,
    /// To [`PortalRequest::ConnectToEis`]
    Eis(Result<(), E>),
}

/// What comes with a started session
#[derive(Debug)]
pub struct StartResponse {
    /// Whether the clipboard can be used
    pub clipboard_enabled: bool,
    /// The token with which this session can be restored once
    pub restore_token: Option<String>,
}

/// Which reply is awaited
#[derive(Debug, Clone, Copy, PartialEq, Eq, Structural)]
pub enum Stage {
    RemoteDesktop,
    Token,
    Session,
    Devices,
    Clipboard,
    ClipboardAccess,
    Start,
    TokenSaved,
    Eis,
    Ended,
}

/// How far the conversation has come
#[derive(Debug)]
pub struct PortalSetup {
    /// Which reply is awaited
    pub stage: Stage,
    /// The token of the last session, until it is handed on
    pub restore_token: Option<String>,
    /// Whether the clipboard can be used, as far as is known
    pub clipboard: bool,
}

impl PortalSetup {
    /// Whether a reply is one to the last request.
    pub open spec fn awaits<E>(self, reply: PortalReply<E>) -> bool {
        self.stage == match reply {
            PortalReply::RemoteDesktop(_) => Stage::RemoteDesktop,
            PortalReply::Token(_) => Stage::Token,
            PortalReply::Session(_) => Stage::Session,
            PortalReply::Devices(_) => Stage::Devices,
            PortalReply::Clipboard(_) => Stage::Clipboard,
            PortalReply::ClipboardAccess(_) => Stage::ClipboardAccess,
            PortalReply::Started(_) => Stage::Start,
            PortalReply::TokenSaved => Stage::TokenSaved,
            PortalReply::Eis(_) => Stage::Eis,
        }
    }

    /// The conversation before the first reply.
    pub open spec fn fresh() -> PortalSetup {
        PortalSetup { stage: Stage::RemoteDesktop, restore_token: None, clipboard: false }
    }

    /// The conversation with another reply awaited.
    pub open spec fn at(self, stage: Stage) -> PortalSetup {
        PortalSetup { stage, ..self }
    }

    /// The conversation after a reply, and the request that follows.
    pub open spec fn next<E>(self, reply: PortalReply<E>) -> (PortalSetup, PortalRequest<E>) {
        match reply {
            PortalReply::RemoteDesktop(Ok(_)) => (self.at(Stage::Token), PortalRequest::ReadToken),
            PortalReply::RemoteDesktop(Err(e)) => (self.at(Stage::Ended), PortalRequest::Failed(e)),
            PortalReply::Token(restore_token) => (
                (PortalSetup { restore_token, ..self }).at(Stage::Session),
                PortalRequest::CreateSession,
            ),
            PortalReply::Session(Ok(_)) => (
                (PortalSetup { restore_token: None, ..self }).at(Stage::Devices),
                PortalRequest::SelectDevices {
                    keyboard: true,
                    pointer: true,
                    restore_token: self.restore_token,
                    persist_mode: PersistMode::ExplicitlyRevoked,
                },
            ),
            PortalReply::Session(Err(e)) => (self.at(Stage::Ended), PortalRequest::Failed(e)),
            PortalReply::Devices(Ok(version)) => if version >= 2 {
                (self.at(Stage::Clipboard), PortalRequest::OpenClipboard)
            } else {
                (
                    (PortalSetup { clipboard: false, ..self }).at(Stage::Start),
                    PortalRequest::Start,
                )
            },
            PortalReply::Devices(Err(e)) => (self.at(Stage::Ended), PortalRequest::Failed(e)),
            PortalReply::Clipboard(Ok(_)) => (
                self.at(Stage::ClipboardAccess),
                PortalRequest::RequestClipboard,
            ),
            PortalReply::Clipboard(Err(e)) => (self.at(Stage::Ended), PortalRequest::Failed(e)),
            PortalReply::ClipboardAccess(granted) => (
                (PortalSetup { clipboard: granted, ..self }).at(Stage::Start),
                PortalRequest::Start,
            ),
            PortalReply::Started(Ok(response)) => {
                let started = PortalSetup {
                    clipboard: self.clipboard && response.clipboard_enabled,
                    ..self
                };
                match response.restore_token {
                    Some(token) => (
                        started.at(Stage::TokenSaved),
                        PortalRequest::SaveToken { token },
                    ),
                    None => (started.at(Stage::Eis), PortalRequest::ConnectToEis),
                }
            },
            PortalReply::Started(Err(e)) => (self.at(Stage::Ended), PortalRequest::Failed(e)),
            PortalReply::TokenSaved => (self.at(Stage::Eis), PortalRequest::ConnectToEis),
            PortalReply::Eis(Ok(_)) => (
                self.at(Stage::Ended),
                PortalRequest::Finished { clipboard: self.clipboard },
            ),
            PortalReply::Eis(Err(e)) => (self.at(Stage::Ended), PortalRequest::Failed(e)),
        }
    }

    /// Opens the conversation with its first request.
    pub fn new<E>() -> (result: (PortalSetup, PortalRequest<E>))
        ensures
            result == (PortalSetup::fresh(), PortalRequest::<E>::OpenRemoteDesktop),
    {
        (
            PortalSetup { stage: Stage::RemoteDesktop, restore_token: None, clipboard: false },
            PortalRequest::OpenRemoteDesktop,
        )
    }

    /// Whether a reply is one to the last request.
    pub fn is_awaited<E>(&self, reply: &PortalReply<E>) -> (result: bool)
        ensures
            result == self.awaits(*reply),
    {
        let stage = match reply {
            PortalReply::RemoteDesktop(_) => Stage::RemoteDesktop,
            PortalReply::Token(_) => Stage::Token,
            PortalReply::Session(_) => Stage::Session,
            PortalReply::Devices(_) => Stage::Devices,
            PortalReply::Clipboard(_) => Stage::Clipboard,
            PortalReply::ClipboardAccess(_) => Stage::ClipboardAccess,
            PortalReply::Started(_) => Stage::Start,
            PortalReply::TokenSaved => Stage::TokenSaved,
            PortalReply::Eis(_) => Stage::Eis,
        };
        self.stage == stage
    }

    /// Takes in the reply to the last request, and says what to ask for next.
    pub fn step<E>(&mut self, reply: PortalReply<E>) -> (request: PortalRequest<E>)
        requires
            old(self).awaits(reply),
        ensures
            (*final(self), request) == old(self).next(reply),
    {
        match reply {
            PortalReply::RemoteDesktop(Ok(_)) => {
                self.stage = Stage::Token;
                PortalRequest::ReadToken
            },
            PortalReply::Token(token) => {
                self.restore_token = token;
                self.stage = Stage::Session;
                PortalRequest::CreateSession
            },
            PortalReply::Session(Ok(_)) => {
                self.stage = Stage::Devices;
                PortalRequest::SelectDevices {
                    keyboard: true,
                    pointer: true,
                    restore_token: self.restore_token.take(),
                    persist_mode: PersistMode::ExplicitlyRevoked,
                }
            },
            PortalReply::Devices(Ok(version)) => {
                if version >= 2 {
                    self.stage = Stage::Clipboard;
                    PortalRequest::OpenClipboard
                } else {
                    self.clipboard = false;
                    self.stage = Stage::Start;
                    PortalRequest::Start
                }
            },
            PortalReply::Clipboard(Ok(_)) => {
                self.stage = Stage::ClipboardAccess;
                PortalRequest::RequestClipboard
            },
            PortalReply::ClipboardAccess(granted) => {
                self.clipboard = granted;
                self.stage = Stage::Start;
                PortalRequest::Start
            },
            PortalReply::Started(Ok(response)) => {
                self.clipboard = self.clipboard && response.clipboard_enabled;
                match response.restore_token {
                    Some(token) => {
                        self.stage = Stage::TokenSaved;
                        PortalRequest::SaveToken { token }
                    },
                    None => {
                        self.stage = Stage::Eis;
                        PortalRequest::ConnectToEis
                    },
                }
            },
            PortalReply::TokenSaved => {
                self.stage = Stage::Eis;
                PortalRequest::ConnectToEis
            },
            PortalReply::Eis(Ok(_)) => {
                self.stage = Stage::Ended;
                PortalRequest::Finished { clipboard: self.clipboard }
            },
            PortalReply::RemoteDesktop(Err(e)) => {
                self.stage = Stage::Ended;
                PortalRequest::Failed(e)
            },
            PortalReply::Session(Err(e)) => {
                self.stage = Stage::Ended;
                PortalRequest::Failed(e)
            },
            PortalReply::Devices(Err(e)) => {
                self.stage = Stage::Ended;
                PortalRequest::Failed(e)
            },
            PortalReply::Clipboard(Err(e)) => {
                self.stage = Stage::Ended;
                PortalRequest::Failed(e)
            },
            PortalReply::Started(Err(e)) => {
                self.stage = Stage::Ended;
                PortalRequest::Failed(e)
            },
            PortalReply::Eis(Err(e)) => {
                self.stage = Stage::Ended;
                PortalRequest::Failed(e)
            },
        }
    }
}

/// The error in a reply, if it carries one.
pub open spec fn failure<E>(reply: PortalReply<E>) -> Option<E> {
    match reply {
        PortalReply::RemoteDesktop(Err(e)) => Some(e),
        PortalReply::Session(Err(e)) => Some(e),
        PortalReply::Devices(Err(e)) => Some(e),
        PortalReply::Clipboard(Err(e)) => Some(e),
        PortalReply::Started(Err(e)) => Some(e),
        PortalReply::Eis(Err(e)) => Some(e),
        _ => None,
    }
}

/// Whether a reply is one to a request.
pub open spec fn answers<E>(request: PortalRequest<E>, reply: PortalReply<E>) -> bool {
    match request {
        PortalRequest::OpenRemoteDesktop => reply is RemoteDesktop,
        PortalRequest::ReadToken => reply is Token,
        PortalRequest::CreateSession => reply is Session,
        PortalRequest::SelectDevices { .. } => reply is Devices,
        PortalRequest::OpenClipboard => reply is Clipboard,
        PortalRequest::RequestClipboard => reply is ClipboardAccess,
        PortalRequest::Start => reply is Started,
        PortalRequest::SaveToken { .. } => reply is TokenSaved,
        PortalRequest::ConnectToEis => reply is Eis,
        PortalRequest::Finished { .. } => false,
        PortalRequest::Failed(_) => false,
    }
}

/// The conversation after some replies, from the start.
pub open spec fn conversation<E>(replies: Seq<PortalReply<E>>) -> (PortalSetup, PortalRequest<E>)
    decreases replies.len(),
{
    if replies.len() == 0 {
        (PortalSetup::fresh(), PortalRequest::OpenRemoteDesktop)
    } else {
        conversation(replies.drop_last()).0.next(replies.last())
    }
}

/// Whether each reply is one to the request before it.
pub open spec fn orderly<E>(replies: Seq<PortalReply<E>>) -> bool
    decreases replies.len(),
{
    replies.len() > 0 ==> orderly(replies.drop_last()) && answers(
        conversation(replies.drop_last()).1,
        replies.last(),
    )
}

/// Whatever is asked for next, the replies to it are those that are awaited.
pub proof fn law_every_reply_is_awaited<E>(replies: Seq<PortalReply<E>>, reply: PortalReply<E>)
    requires
        orderly(replies),
    ensures
        answers(conversation(replies).1, reply) <==> conversation(replies).0.awaits(reply),
{
}

/// The first error ends the conversation and is what it fails with; a clipboard that is
/// refused is no error.
pub proof fn law_first_error_is_final<E>(replies: Seq<PortalReply<E>>)
    requires
        orderly(replies),
        replies.len() > 0,
    ensures
        failure(replies.last()) matches Some(e) ==> conversation(replies).1
            == PortalRequest::Failed(e),
        conversation(replies).1 is Failed <==> failure(replies.last()) is Some,
        forall|i: int| 0 <= i < replies.len() - 1 ==> failure(#[trigger] replies[i]) is None,
    decreases replies.len(),
{
    let earlier = replies.drop_last();
    if earlier.len() > 0 {
        law_first_error_is_final(earlier);
        assert forall|i: int| 0 <= i < replies.len() - 1 implies failure(
            #[trigger] replies[i],
        ) is None by {
            assert(earlier[i] == replies[i]);
            assert(earlier.last() == earlier[earlier.len() - 1]);
        }
    }
}

/// Whether some reply gives access to the clipboard.
pub open spec fn access_granted<E>(replies: Seq<PortalReply<E>>) -> bool {
    exists|i: int| 0 <= i < replies.len() && #[trigger] replies[i] == PortalReply::<
        E,
    >::ClipboardAccess(true)
}

/// Whether some reply comes from a portal that is recent enough to have a clipboard.
pub open spec fn recent_portal<E>(replies: Seq<PortalReply<E>>) -> bool {
    exists|i: int|
        0 <= i < replies.len() && (#[trigger] replies[i] matches PortalReply::Devices(Ok(version))
            && version >= 2)
}

/// Whether some reply says that the started session has the clipboard.
pub open spec fn clipboard_enabled<E>(replies: Seq<PortalReply<E>>) -> bool {
    exists|i: int|
        0 <= i < replies.len() && (#[trigger] replies[i] matches PortalReply::Started(Ok(response))
            && response.clipboard_enabled)
}

/// What the replies so far say about the clipboard, with one more reply.
proof fn lemma_one_more_reply<E>(replies: Seq<PortalReply<E>>)
    requires
        replies.len() > 0,
    ensures
        access_granted(replies) <==> access_granted(replies.drop_last()) || replies.last()
            == PortalReply::<E>::ClipboardAccess(true),
        recent_portal(replies) <==> recent_portal(replies.drop_last()) || (
        replies.last() matches PortalReply::Devices(Ok(version)) && version >= 2),
        clipboard_enabled(replies) <==> clipboard_enabled(replies.drop_last()) || (
        replies.last() matches PortalReply::Started(Ok(response)) && response.clipboard_enabled),
{
    let earlier = replies.drop_last();
    let n = replies.len() - 1;
    assert(replies[n] == replies.last());
    assert forall|i: int| 0 <= i < n implies #[trigger] replies[i] == earlier[i] by {}
    if access_granted(earlier) {
        let i = choose|i: int|
            0 <= i < earlier.len() && #[trigger] earlier[i] == PortalReply::<E>::ClipboardAccess(
                true,
            );
        assert(replies[i] == earlier[i]);
    }
    if recent_portal(earlier) {
        let i = choose|i: int|
            0 <= i < earlier.len() && (#[trigger] earlier[i] matches PortalReply::Devices(
                Ok(version),
            ) && version >= 2);
        assert(replies[i] == earlier[i]);
    }
    if clipboard_enabled(earlier) {
        let i = choose|i: int|
            0 <= i < earlier.len() && (#[trigger] earlier[i] matches PortalReply::Started(
                Ok(response),
            ) && response.clipboard_enabled);
        assert(replies[i] == earlier[i]);
    }
}

/// How the clipboard stands at each stage.
proof fn lemma_clipboard_by_stage<E>(replies: Seq<PortalReply<E>>)
    requires
        orderly(replies),
    ensures
        ({
            let (setup, request) = conversation(replies);
            let granted = access_granted(replies);
            let recent = recent_portal(replies);
            let enabled = clipboard_enabled(replies);
            match setup.stage {
                Stage::RemoteDesktop | Stage::Token | Stage::Session | Stage::Devices => !granted
                    && !recent && !enabled && !setup.clipboard,
                Stage::Clipboard | Stage::ClipboardAccess => !granted && recent && !enabled
                    && !setup.clipboard,
                Stage::Start => !enabled && setup.clipboard == granted && (granted ==> recent),
                Stage::TokenSaved | Stage::Eis => setup.clipboard == (granted && enabled) && (
                granted ==> recent),
                Stage::Ended => request matches PortalRequest::Finished { clipboard }
                    ==> clipboard == (granted && enabled) && (granted ==> recent),
            }
        }),
    decreases replies.len(),
{
    if replies.len() > 0 {
        lemma_clipboard_by_stage(replies.drop_last());
        lemma_one_more_reply(replies);
        law_every_reply_is_awaited(replies.drop_last(), replies.last());
    }
}

/// The session has the clipboard if and only if the portal is recent enough to have one,
/// access to it was granted, and the started session has it enabled.
pub proof fn law_clipboard_needs_all_three<E>(replies: Seq<PortalReply<E>>, clipboard: bool)
    requires
        orderly(replies),
        conversation(replies).1 == (PortalRequest::<E>::Finished { clipboard }),
    ensures
        clipboard <==> recent_portal(replies) && access_granted(replies) && clipboard_enabled(
            replies,
        ),
{
    lemma_clipboard_by_stage(replies);
    law_every_reply_is_awaited(replies.drop_last(), replies.last());
}

/// The token that was read is the one that the session is restored with.
pub proof fn law_read_token_is_used<E>(
    replies: Seq<PortalReply<E>>,
    token: Option<String>,
    session: PortalReply<E>,
)
    requires
        orderly(replies),
        replies.len() > 0,
        replies.last() == PortalReply::<E>::Token(token),
        session == PortalReply::<E>::Session(Ok(())),
    ensures
        orderly(replies.push(session)),
        conversation(replies.push(session)).1 == (PortalRequest::<E>::SelectDevices {
            keyboard: true,
            pointer: true,
            restore_token: token,
            persist_mode: PersistMode::ExplicitlyRevoked,
        }),
{
    assert(replies.push(session).drop_last() =~= replies);
}

/// The token of a started session is saved if it has one, and no other token ever is.
pub proof fn law_new_token_is_saved<E>(replies: Seq<PortalReply<E>>, token: String)
    requires
        orderly(replies),
        replies.len() > 0,
    ensures
        conversation(replies).1 == (PortalRequest::<E>::SaveToken { token }) <==> (
        replies.last() matches PortalReply::Started(Ok(response)) && response.restore_token == Some(
            token,
        )),
{
}

/// A conversation without errors asks for the portal, the token, a session, the devices, then
/// for the clipboard if the portal has version two or later, for the start, then saves the new
/// token if there is one, and connects. Both kinds of device are asked for, with the token that
/// was read, to be remembered until revoked. In the end the clipboard is there if and only if
/// the portal is recent, it was granted and it is enabled.
pub proof fn law_order_of_the_conversation<E>(
    token: Option<String>,
    version: u32,
    granted: bool,
    response: StartResponse,
)
    ensures
        ({
            let opened = PortalSetup::fresh().next(PortalReply::<E>::RemoteDesktop(Ok(())));
            let read = opened.0.next(PortalReply::<E>::Token(token));
            let created = read.0.next(PortalReply::<E>::Session(Ok(())));
            let selected = created.0.next(PortalReply::<E>::Devices(Ok(version)));
            let found = selected.0.next(PortalReply::<E>::Clipboard(Ok(())));
            let asked = found.0.next(PortalReply::<E>::ClipboardAccess(granted));
            let ready = if version >= 2 {
                asked
            } else {
                selected
            };
            let started = ready.0.next(PortalReply::<E>::Started(Ok(response)));
            let saved = started.0.next(PortalReply::<E>::TokenSaved);
            let connecting = if response.restore_token is Some {
                saved
            } else {
                started
            };
            let connected = connecting.0.next(PortalReply::<E>::Eis(Ok(())));
            &&& opened.1 is ReadToken
            &&& read.1 is CreateSession
            &&& created.1 matches PortalRequest::SelectDevices {
                keyboard,
                pointer,
                restore_token,
                persist_mode,
            }
            &&& keyboard && pointer
            &&& restore_token == token
            &&& persist_mode is ExplicitlyRevoked
            &&& version >= 2 ==> selected.1 is OpenClipboard && found.1 is RequestClipboard
            &&& ready.1 is Start
            &&& response.restore_token matches Some(new) ==> {
                &&& started.1 matches PortalRequest::SaveToken { token: kept }
                &&& kept == new
            }
            &&& connecting.1 is ConnectToEis
            &&& connected.1 matches PortalRequest::Finished { clipboard }
            &&& clipboard <==> version >= 2 && granted && response.clipboard_enabled
        }),
{
}

/// Every reply leads to the request that comes next, whatever was said before; an error leads to
/// the end, with that error.
pub proof fn law_requests_follow_replies<E>(setup: PortalSetup, reply: PortalReply<E>)
    ensures
        ({
            let request = setup.next(reply).1;
            &&& request is Failed <==> failure(reply) is Some
            &&& failure(reply) matches Some(e) ==> request == PortalRequest::Failed(e)
            &&& request is ReadToken <==> (reply matches PortalReply::RemoteDesktop(done) && done is Ok)
            &&& request is CreateSession <==> reply is Token
            &&& request is SelectDevices <==> (reply matches PortalReply::Session(done) && done is Ok)
            &&& request is OpenClipboard <==> (reply matches PortalReply::Devices(Ok(version))
                && version >= 2)
            &&& request is RequestClipboard <==> (reply matches PortalReply::Clipboard(done) && done is Ok)
            &&& request is Start <==> (reply is ClipboardAccess || (
            reply matches PortalReply::Devices(Ok(version)) && version < 2))
            &&& request is SaveToken <==> (reply matches PortalReply::Started(Ok(response))
                && response.restore_token is Some)
            &&& request is ConnectToEis <==> (reply is TokenSaved || (
            reply matches PortalReply::Started(Ok(response)) && response.restore_token is None))
            &&& request is Finished <==> (reply matches PortalReply::Eis(done) && done is Ok)
            &&& !(request is OpenRemoteDesktop)
        }),
{
}

/// A reply is awaited after every step exactly if it answers the request that the step made, and
/// the token that was read is kept until the devices are asked for, and no longer.
pub proof fn law_steps_await_their_answer<E>(
    setup: PortalSetup,
    reply: PortalReply<E>,
    answer: PortalReply<E>,
)
    ensures
        ({
            let (after, request) = setup.next(reply);
            &&& after.awaits(answer) <==> answers(request, answer)
            &&& reply matches PortalReply::Token(token) ==> after.restore_token == token
            &&& request is SelectDevices ==> after.restore_token is None
            &&& !(reply is Token) && !(request is SelectDevices) ==> after.restore_token
                == setup.restore_token
        }),
        PortalSetup::fresh().awaits(answer) <==> answer is RemoteDesktop,
        PortalSetup::fresh().restore_token is None,
{
}

} // verus!
