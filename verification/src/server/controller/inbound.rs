//! The session of one log source with the server: who it speaks for, what
//! becomes of each frame it sends, when it is asked to pause and to resume,
//! and what is cleaned up when it is lost.

use vstd::prelude::*;
use crate::message::wire::{from_slice, read_message};
use crate::message::{Message, MessageView, SystemMessage, SystemMessages};
use crate::server::broadcaster::Broadcasters;
use crate::{
    asks_for_pod_name, lemma_lowest_free_pod_exists, lowest_free_pod, pod_of, resolved,
    Applicatiton, ApplicatitonView, MultiPodApplicationView,
};

verus! {

/// Seconds between two pings of the peer.
pub const PING_INTERVAL_SECONDS: u64 = 1;

/// Seconds between two looks at the number of subscribers while a session
/// is paused.
pub const SUBSCRIBER_POLL_SECONDS: u64 = 1;

/// Milliseconds to wait for one more frame while a paused session is
/// drained.
pub const DRAIN_TIMEOUT_MILLIS: u64 = 50;

/// Largest message, in bytes, that is put together from continuation
/// frames.
pub const MAX_CONTINUATION_SIZE: usize = 1048576;

/// The `Application` header of a session request. A header that is text
/// holds the identity that its JSON spells, or nothing where it spells
/// none.
#[derive(Debug, Clone, PartialEq, Eq)]
pub enum ApplicationHeader {
    Missing,
    NotText,
    Text(Option<Applicatiton>),
}

/// Why a request is turned away.
#[derive(Debug, Clone, Copy, PartialEq, Eq, Structural)]
pub enum Rejection {
    /// Something that the request must carry is missing.
    BadRequest,
    /// The identity cannot be read as text.
    FailedDependency,
    /// The identity is text but spells no identity.
    UnprocessableEntity,
    /// The identity asked for is not registered.
    NotFound,
    /// The server could not do its own part.
    InternalServerError,
}

impl Rejection {
    /// The HTTP status that tells the peer of this rejection.
    pub fn status_code(&self) -> (code: u16)
        ensures
            code == match *self {
                Rejection::BadRequest => 400u16,
                Rejection::FailedDependency => 424u16,
                Rejection::UnprocessableEntity => 422u16,
                Rejection::NotFound => 404u16,
                Rejection::InternalServerError => 500u16,
            },
    {
        match self {
            Rejection::BadRequest => 400,
            Rejection::FailedDependency => 424,
            Rejection::UnprocessableEntity => 422,
            Rejection::NotFound => 404,
            Rejection::InternalServerError => 500,
        }
    }
}

/// The identity that a session request speaks for, or why it is turned
/// away.
pub open spec fn identified(header: ApplicationHeader) -> Result<Applicatiton, Rejection> {
    match header {
        ApplicationHeader::Missing => Err(Rejection::BadRequest),
        ApplicationHeader::NotText => Err(Rejection::FailedDependency),
        ApplicationHeader::Text(None) => Err(Rejection::UnprocessableEntity),
        ApplicationHeader::Text(Some(application)) => Ok(application),
    }
}

/// Reads the identity of a session request.
pub fn identify(header: ApplicationHeader) -> (identity: Result<Applicatiton, Rejection>)
    ensures
        identity == identified(header),
{
    match header {
        ApplicationHeader::Missing => Err(Rejection::BadRequest),
        ApplicationHeader::NotText => Err(Rejection::FailedDependency),
        ApplicationHeader::Text(parsed) => match parsed {
            Some(application) => Ok(application),
            None => Err(Rejection::UnprocessableEntity),
        },
    }
}

/// Whether `message` is the control signal `kind` for `application`.
pub open spec fn is_signal(message: MessageView, kind: SystemMessages, application: ApplicatitonView) -> bool {
    message matches MessageView::System(system) && system.message_type == "System"@
        && system.application == application && system.message == kind
}

/// The control signal `kind` for `application`, stamped with the current
/// time.
pub fn control_signal(application: &Applicatiton, kind: SystemMessages) -> (message: Message)
    ensures
        is_signal(message@, kind, application@),
        message@.well_stamped(),
{
    Message::System(SystemMessage::new(application.duplicate(), kind))
}

/// Opens the session of a log source: reads its identity, resolves it
/// against the registry as it stands (see [`resolved`]), and registers
/// `channel` for the resolved identity, in place of any channel registered
/// for it before. A request that is turned away leaves the registry as it
/// was. On success the resolved identity comes back with the `Start` signal
/// that is sent to the peer at once.
pub fn open_session<H>(
    broadcasters: &mut Broadcasters<H>,
    header: ApplicationHeader,
    channel: H,
) -> (opened: Result<(Applicatiton, Message), Rejection>)
    ensures
        match identified(header) {
            Ok(application) => {
                let identity = resolved(application@, old(broadcasters)@.dom());
                &&& opened matches Ok((registered, start))
                &&& registered@ == identity
                &&& is_signal(start@, SystemMessages::Start, identity)
                &&& start@.well_stamped()
                &&& final(broadcasters)@ == old(broadcasters)@.insert(identity, channel)
            },
            Err(rejection) => {
                &&& opened == Err::<(Applicatiton, Message), Rejection>(rejection)
                &&& final(broadcasters)@ == old(broadcasters)@
            },
        },
{
    match identify(header) {
        Ok(application) => {
            let identity = application.configure_default_pods(broadcasters);
            let start = control_signal(&identity, SystemMessages::Start);
            let _ = broadcasters.register(identity.duplicate(), channel);
            Ok((identity, start))
        },
        Err(rejection) => Err(rejection),
    }
}

/// A session that asks for a synthetic pod name takes no channel from
/// another: the identity it is registered under was free, so the registry
/// grows by one identity and keeps every channel it held.
pub proof fn lemma_default_pod_replaces_nothing<H>(
    before: Map<ApplicatitonView, H>,
    application: Seq<char>,
    pod_name: Seq<char>,
    channel: H,
)
    requires
        asks_for_pod_name(pod_name),
        before.dom().finite(),
    ensures
        ({
            let asked = ApplicatitonView::MultiPod(
                MultiPodApplicationView { application, pod_name },
            );
            let identity = resolved(asked, before.dom());
            &&& !before.contains_key(identity)
            &&& identity == pod_of(application, lowest_free_pod(before.dom(), application))
            &&& forall|other: ApplicatitonView|
                before.contains_key(other) ==> before.insert(identity, channel).contains_key(other)
                    && before.insert(identity, channel)[other] == before[other]
        }),
{
    lemma_lowest_free_pod_exists(before.dom(), application);
}

/// Cleans up after a session whose peer no longer answers: the identity
/// leaves the registry. Its channel comes back, if it had one, with the
/// sentinel that is broadcast on it to end the streams of its subscribers.
pub fn close_session<H>(broadcasters: &mut Broadcasters<H>, application: &Applicatiton) -> (closed: (
    Option<H>,
    Message,
))
    ensures
        final(broadcasters)@ == old(broadcasters)@.remove(application@),
        closed.0 == if old(broadcasters)@.contains_key(application@) {
            Some(old(broadcasters)@[application@])
        } else {
            None::<H>
        },
        closed.1@ == MessageView::ClientDisconnect,
{
    let channel = broadcasters.remove(application);
    (channel, Message::ClientDisconnect)
}

/// What the watch over a session does after a ping.
#[derive(Debug, Clone, Copy, PartialEq, Eq, Structural)]
pub enum LivenessStep {
    /// Wait for the ping interval, then ping again.
    PauseThenPing,
    /// Stop the relaying of the session and clean up after it: see
    /// [`close_session`].
    CleanUp,
}

/// Decides what the watch over a session does after a ping: a peer that
/// could be pinged is pinged again after the interval; one that could not
/// is given up.
pub fn after_ping(delivered: bool) -> (step: LivenessStep)
    ensures
        step == if delivered {
            LivenessStep::PauseThenPing
        } else {
            LivenessStep::CleanUp
        },
{
    if delivered {
        LivenessStep::PauseThenPing
    } else {
        LivenessStep::CleanUp
    }
}

/// A frame that a log source sent. A text frame holds the message that its
/// JSON spells, or nothing where it spells none.
#[derive(Debug, Clone, PartialEq, Eq)]
pub enum InboundFrame {
    Text(Option<Message>),
    Binary(Vec<u8>),
    Ping(Vec<u8>),
    Pong,
    Close,
    /// What arrived was no frame.
    Invalid,
}

/// What the server does with a frame.
#[derive(Debug, Clone, PartialEq, Eq)]
pub enum FrameReply {
    /// Broadcast the message to the subscribers.
    Publish(Message),
    /// Answer the ping with a pong that carries the same bytes.
    Pong(Vec<u8>),
    Nothing,
    /// End the session.
    Close,
}

/// Mathematical value of a [`FrameReply`].
pub enum FrameReplyView {
    Publish(MessageView),
    Pong(Seq<u8>),
    Nothing,
    Close,
}

impl View for FrameReply {
    type V = FrameReplyView;

    open spec fn view(&self) -> FrameReplyView {
        match self {
            FrameReply::Publish(message) => FrameReplyView::Publish(message@),
            FrameReply::Pong(bytes) => FrameReplyView::Pong(bytes@),
            FrameReply::Nothing => FrameReplyView::Nothing,
            FrameReply::Close => FrameReplyView::Close,
        }
    }
}

/// The answer to a frame while there are subscribers: a message is
/// broadcast, whether it came as text or as bytes; what spells no message
/// is passed over; a ping is answered; a close frame ends the session.
pub open spec fn reply_to(frame: InboundFrame) -> FrameReplyView {
    match frame {
        InboundFrame::Text(Some(message)) => FrameReplyView::Publish(message@),
        InboundFrame::Text(None) => FrameReplyView::Nothing,
        InboundFrame::Binary(bytes) => match read_message(bytes@) {
            Some(binary) => FrameReplyView::Publish(binary.to_message()),
            None => FrameReplyView::Nothing,
        },
        InboundFrame::Ping(bytes) => FrameReplyView::Pong(bytes@),
        InboundFrame::Pong => FrameReplyView::Nothing,
        InboundFrame::Close => FrameReplyView::Close,
        InboundFrame::Invalid => FrameReplyView::Nothing,
    }
}

/// Decides what to do with a frame while there are subscribers.
pub fn handle_message(msg: InboundFrame) -> (reply: FrameReply)
    ensures
        reply@ == reply_to(msg),
{
    match msg {
        InboundFrame::Text(parsed) => match parsed {
            Some(message) => FrameReply::Publish(message),
            None => FrameReply::Nothing,
        },
        InboundFrame::Binary(bin) => match from_slice(bin.as_slice()) {
            Some(binary_message) => FrameReply::Publish(Message::from(binary_message)),
            None => FrameReply::Nothing,
        },
        InboundFrame::Ping(bytes) => FrameReply::Pong(bytes),
        InboundFrame::Pong => FrameReply::Nothing,
        InboundFrame::Close => FrameReply::Close,
        InboundFrame::Invalid => FrameReply::Nothing,
    }
}

/// Where the relaying of a session stands.
#[derive(Debug, Clone, Copy, PartialEq, Eq, Structural)]
pub enum RelayPhase {
    /// Frames are broadcast.
    Relaying,
    /// The peer was asked to pause; the server waits for a subscriber.
    Paused,
    /// A subscriber has come; frames that arrived meanwhile are thrown
    /// away before the peer is asked to resume.
    Draining,
    /// The session is over.
    Closed,
}

/// What happened in a session.
#[derive(Debug, Clone, PartialEq, Eq)]
pub enum RelayEvent {
    /// A frame arrived while the channel had `subscribers` subscribers.
    Frame { frame: InboundFrame, subscribers: usize },
    /// The channel was found to have so many subscribers.
    Subscribers(usize),
    /// No frame arrived within the drain timeout.
    Quiet,
    /// The peer's frames have come to an end.
    Ended,
    /// Something could not be sent to the peer.
    SendFailed,
}

/// What to wait for next in a session.
#[derive(Debug, Clone, Copy, PartialEq, Eq, Structural)]
pub enum RelayNext {
    /// The next frame.
    Receive,
    /// The number of subscribers, now.
    CountSubscribers,
    /// The number of subscribers, after the poll interval.
    PauseThenCountSubscribers,
    /// The next frame, for no longer than the drain timeout.
    ReceiveBriefly,
    /// Nothing: the session is over.
    Stop,
}

/// What to do in a session.
#[derive(Debug, Clone, PartialEq, Eq)]
pub enum RelayAction {
    /// Answer a frame: see [`FrameReply`].
    Reply(FrameReply),
    /// Send the peer a control signal.
    Signal(SystemMessages),
    Nothing,
}

/// Mathematical value of a [`RelayAction`].
pub enum RelayActionView {
    Reply(FrameReplyView),
    Signal(SystemMessages),
    Nothing,
}

impl View for RelayAction {
    type V = RelayActionView;

    open spec fn view(&self) -> RelayActionView {
        match self {
            RelayAction::Reply(reply) => RelayActionView::Reply(reply@),
            RelayAction::Signal(kind) => RelayActionView::Signal(*kind),
            RelayAction::Nothing => RelayActionView::Nothing,
        }
    }
}

/// The phase after an event, what is done, and what is waited for next.
///
/// While frames are relayed, a frame that finds subscribers is answered. A
/// frame that finds none is thrown away and the peer is asked to pause.
/// While paused, the server looks for subscribers; once there is one, it
/// throws away every frame that arrives until none has arrived for the
/// drain timeout, and only then asks the peer to resume.
pub open spec fn relay(phase: RelayPhase, event: RelayEvent) -> (
    RelayPhase,
    RelayActionView,
    RelayNext,
) {
    if phase is Closed || event is Ended || event is SendFailed {
        (RelayPhase::Closed, RelayActionView::Nothing, RelayNext::Stop)
    } else {
        match phase {
            RelayPhase::Relaying => match event {
                RelayEvent::Frame { frame, subscribers } => if subscribers > 0 {
                    if reply_to(frame) is Close {
                        (RelayPhase::Closed, RelayActionView::Reply(reply_to(frame)), RelayNext::Stop)
                    } else {
                        (
                            RelayPhase::Relaying,
                            RelayActionView::Reply(reply_to(frame)),
                            RelayNext::Receive,
                        )
                    }
                } else {
                    (
                        RelayPhase::Paused,
                        RelayActionView::Signal(SystemMessages::Pause),
                        RelayNext::CountSubscribers,
                    )
                },
                _ => (RelayPhase::Relaying, RelayActionView::Nothing, RelayNext::Receive),
            },
            RelayPhase::Paused => match event {
                RelayEvent::Subscribers(count) => if count > 0 {
                    (RelayPhase::Draining, RelayActionView::Nothing, RelayNext::ReceiveBriefly)
                } else {
                    (
                        RelayPhase::Paused,
                        RelayActionView::Nothing,
                        RelayNext::PauseThenCountSubscribers,
                    )
                },
                _ => (RelayPhase::Paused, RelayActionView::Nothing, RelayNext::CountSubscribers),
            },
            RelayPhase::Draining => match event {
                RelayEvent::Quiet => (
                    RelayPhase::Relaying,
                    RelayActionView::Signal(SystemMessages::Resume),
                    RelayNext::Receive,
                ),
                _ => (RelayPhase::Draining, RelayActionView::Nothing, RelayNext::ReceiveBriefly),
            },
            RelayPhase::Closed => (RelayPhase::Closed, RelayActionView::Nothing, RelayNext::Stop),
        }
    }
}

impl RelayPhase {
    /// A session starts relaying.
    pub fn initial() -> (phase: RelayPhase)
        ensures
            phase is Relaying,
    {
        RelayPhase::Relaying
    }

    /// Takes in one event of the session: the phase after it, what to do
    /// and what to wait for next.
    pub fn step(self, event: RelayEvent) -> (taken: (RelayPhase, RelayAction, RelayNext))
        ensures
            taken.0 == relay(self, event).0,
            taken.1@ == relay(self, event).1,
            taken.2 == relay(self, event).2,
    {
        match self {
            RelayPhase::Closed => {
                return (RelayPhase::Closed, RelayAction::Nothing, RelayNext::Stop);
            },
            _ => {},
        }
        match event {
            RelayEvent::Ended => (RelayPhase::Closed, RelayAction::Nothing, RelayNext::Stop),
            RelayEvent::SendFailed => (RelayPhase::Closed, RelayAction::Nothing, RelayNext::Stop),
            RelayEvent::Frame { frame, subscribers } => match self {
                RelayPhase::Relaying => {
                    if subscribers > 0 {
                        let reply = handle_message(frame);
                        match reply {
                            FrameReply::Close => (
                                RelayPhase::Closed,
                                RelayAction::Reply(reply),
                                RelayNext::Stop,
                            ),
                            _ => (
                                RelayPhase::Relaying,
                                RelayAction::Reply(reply),
                                RelayNext::Receive,
                            ),
                        }
                    } else {
                        (
                            RelayPhase::Paused,
                            RelayAction::Signal(SystemMessages::Pause),
                            RelayNext::CountSubscribers,
                        )
                    }
                },
                RelayPhase::Paused => (
                    RelayPhase::Paused,
                    RelayAction::Nothing,
                    RelayNext::CountSubscribers,
                ),
                _ => (RelayPhase::Draining, RelayAction::Nothing, RelayNext::ReceiveBriefly),
            },
            RelayEvent::Subscribers(count) => match self {
                RelayPhase::Paused => {
                    if count > 0 {
                        (RelayPhase::Draining, RelayAction::Nothing, RelayNext::ReceiveBriefly)
                    } else {
                        (
                            RelayPhase::Paused,
                            RelayAction::Nothing,
                            RelayNext::PauseThenCountSubscribers,
                        )
                    }
                },
                RelayPhase::Relaying => (
                    RelayPhase::Relaying,
                    RelayAction::Nothing,
                    RelayNext::Receive,
                ),
                _ => (RelayPhase::Draining, RelayAction::Nothing, RelayNext::ReceiveBriefly),
            },
            RelayEvent::Quiet => match self {
                RelayPhase::Draining => (
                    RelayPhase::Relaying,
                    RelayAction::Signal(SystemMessages::Resume),
                    RelayNext::Receive,
                ),
                RelayPhase::Paused => (
                    RelayPhase::Paused,
                    RelayAction::Nothing,
                    RelayNext::CountSubscribers,
                ),
                _ => (RelayPhase::Relaying, RelayAction::Nothing, RelayNext::Receive),
            },
        }
    }
}

/// Whether `action` broadcasts a message.
pub open spec fn publishes(action: RelayActionView) -> bool {
    action matches RelayActionView::Reply(FrameReplyView::Publish(_))
}

/// What is sent while there are no subscribers is thrown away, not played
/// back. A frame that finds no subscriber is not broadcast; no event at all
/// leads to a broadcast while the session is paused or drained; and the
/// peer is asked to resume by one event only: the drain timeout passing
/// without a frame, which leaves no frame of the pause behind.
pub proof fn lemma_paused_frames_are_not_replayed(phase: RelayPhase, event: RelayEvent)
    ensures
        event matches RelayEvent::Frame { subscribers, .. } && subscribers == 0 ==> !publishes(
            relay(phase, event).1,
        ),
        phase is Paused || phase is Draining ==> !publishes(relay(phase, event).1),
        relay(phase, event).1 == RelayActionView::Signal(SystemMessages::Resume) ==> phase
            is Draining && event is Quiet && relay(phase, event).0 is Relaying,
        phase is Paused ==> !(relay(phase, event).0 is Relaying),
{
}

} // verus!
