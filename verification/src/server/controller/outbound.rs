//! The event stream of one viewer: which channel it follows, which
//! messages become events, and when the stream ends.

use vstd::prelude::*;
use crate::message::Message;
use crate::server::broadcaster::Broadcasters;
use crate::server::controller::inbound::Rejection;
use crate::Applicatiton;

verus! {

/// The `application` parameter of a stream request. A parameter that is
/// there holds the identity that its JSON spells, or nothing where it
/// spells none.
#[derive(Debug, Clone, PartialEq, Eq)]
pub enum ApplicationQuery {
    Missing,
    Given(Option<Applicatiton>),
}

/// The identity that a stream request asks for, if it names one.
pub open spec fn asked_for(query: ApplicationQuery) -> Option<Applicatiton> {
    match query {
        ApplicationQuery::Given(Some(application)) => Some(application),
        _ => None,
    }
}

/// Finds the channel that a stream request asks for. The request is turned
/// away as a bad request where it names no identity, and as not found where
/// the identity is not registered now: the stream does not wait for a
/// registration to come.
pub fn find_channel<H>(broadcasters: &Broadcasters<H>, query: ApplicationQuery) -> (found: Result<
    &H,
    Rejection,
>)
    ensures
        match asked_for(query) {
            Some(application) => if broadcasters@.contains_key(application@) {
                found matches Ok(channel) && *channel == broadcasters@[application@]
            } else {
                found == Err::<&H, Rejection>(Rejection::NotFound)
            },
            None => found == Err::<&H, Rejection>(Rejection::BadRequest),
        },
{
    match query {
        ApplicationQuery::Missing => Err(Rejection::BadRequest),
        ApplicationQuery::Given(parsed) => match parsed {
            Some(application) => match broadcasters.subscribe(&application) {
                Some(channel) => Ok(channel),
                None => Err(Rejection::NotFound),
            },
            None => Err(Rejection::BadRequest),
        },
    }
}

/// The subscriber fell so far behind that messages were lost to it.
#[derive(Debug, Clone, Copy, PartialEq, Eq, Structural)]
pub struct Lagged;

/// What a stream does with what its channel gave.
#[derive(Debug, Clone, PartialEq, Eq)]
pub enum StreamStep {
    /// Send the message as one event.
    Event(Message),
    /// End the stream.
    End,
}

/// What a stream does with what its channel gave: a record or a control
/// signal becomes an event; the disconnect sentinel and a lag end the
/// stream.
pub open spec fn streamed(received: Result<Message, Lagged>) -> StreamStep {
    match received {
        Ok(Message::ClientDisconnect) => StreamStep::End,
        Ok(message) => StreamStep::Event(message),
        Err(_) => StreamStep::End,
    }
}

/// Decides what a stream does with what its channel gave.
pub fn stream_step(received: Result<Message, Lagged>) -> (step: StreamStep)
    ensures
        step == streamed(received),
{
    match received {
        Ok(message) => match message {
            Message::ClientDisconnect => StreamStep::End,
            Message::Data(data) => StreamStep::Event(Message::Data(data)),
            Message::System(system) => StreamStep::Event(Message::System(system)),
        },
        Err(_) => StreamStep::End,
    }
}

/// One event of the stream: the payload on a line that starts with
/// `data: `, and an empty line after it.
pub open spec fn event_text(payload: Seq<char>) -> Seq<char> {
    "data: "@ + payload + "\n\n"@
}

/// The event that carries `payload`.
pub fn event(payload: &str) -> (text: String)
    ensures
        text@ == event_text(payload@),
{
    let mut text = String::from_str("data: ");
    text.append(payload);
    text.append("\n\n");
    text
}

/// The event that tells of an error in place of a message.
pub fn error_event(error: &str) -> (text: String)
    ensures
        text@ == event_text("Error: "@ + error@),
{
    let mut payload = String::from_str("Error: ");
    payload.append(error);
    event(payload.as_str())
}

/// A stream carries what was broadcast after it began, in the order of
/// broadcast, up to the first disconnect sentinel or lag, and nothing
/// after that.
pub open spec fn stream_of(received: Seq<Result<Message, Lagged>>) -> Seq<Message>
    decreases received.len(),
{
    if received.len() == 0 {
        Seq::empty()
    } else {
        match streamed(received[0]) {
            StreamStep::Event(message) => seq![message] + stream_of(received.drop_first()),
            StreamStep::End => Seq::empty(),
        }
    }
}

/// Nothing that follows the disconnect sentinel is streamed, and the
/// sentinel itself is no event.
pub proof fn lemma_stream_ends_at_disconnect(
    before: Seq<Message>,
    after: Seq<Result<Message, Lagged>>,
)
    requires
        forall|i: int| 0 <= i < before.len() ==> !(#[trigger] before[i] is ClientDisconnect),
    ensures
        stream_of(
            before.map_values(|m: Message| Ok::<Message, Lagged>(m)) + seq![
                Ok::<Message, Lagged>(Message::ClientDisconnect),
            ] + after,
        ) == before,
    decreases before.len(),
{
    let lifted = before.map_values(|m: Message| Ok::<Message, Lagged>(m));
    let all = lifted + seq![Ok::<Message, Lagged>(Message::ClientDisconnect)] + after;
    if before.len() == 0 {
        assert(all[0] == Ok::<Message, Lagged>(Message::ClientDisconnect));
    } else {
        let rest = before.drop_first();
        assert(all[0] == Ok::<Message, Lagged>(before[0]));
        assert(all.drop_first() == rest.map_values(|m: Message| Ok::<Message, Lagged>(m)) + seq![
            Ok::<Message, Lagged>(Message::ClientDisconnect),
        ] + after);
        assert forall|i: int| 0 <= i < rest.len() implies !(#[trigger] rest[i] is ClientDisconnect) by {
            assert(rest[i] == before[i + 1]);
        }
        lemma_stream_ends_at_disconnect(rest, after);
        assert(seq![before[0]] + rest == before);
    }
}

} // verus!
