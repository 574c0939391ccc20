use webtail::message::timestamp::Timestamp;
use webtail::message::{DataMessage, Message, SystemMessage, SystemMessages};
use webtail::server::broadcaster::Broadcasters;
use webtail::server::controller::inbound::Rejection;
use webtail::server::controller::outbound::{
    error_event, event, find_channel, stream_step, ApplicationQuery, Lagged, StreamStep,
};
use webtail::Applicatiton;

fn shop() -> Applicatiton {
    Applicatiton::SinglePod("shop".to_string())
}

fn record(text: &str) -> Message {
    Message::Data(DataMessage::at(
        text.to_string(),
        shop(),
        false,
        Timestamp::new(1, 2),
    ))
}

#[test]
fn the_channel_of_a_registered_identity_is_found() {
    let mut registry = Broadcasters::new();
    registry.register(shop(), "channel");
    assert_eq!(
        find_channel(&registry, ApplicationQuery::Given(Some(shop()))),
        Ok(&"channel")
    );
}

#[test]
fn an_identity_that_is_not_registered_is_turned_away() {
    let mut registry = Broadcasters::new();
    registry.register(shop(), "channel");
    let bank = Applicatiton::SinglePod("bank".to_string());
    assert_eq!(
        find_channel(&registry, ApplicationQuery::Given(Some(bank.clone()))),
        Err(Rejection::NotFound)
    );
    assert!(!registry.contains_key(&bank));
    assert_eq!(registry.len(), 1);
}

#[test]
fn a_request_that_names_no_identity_is_turned_away() {
    let mut registry = Broadcasters::new();
    registry.register(shop(), "channel");
    assert_eq!(
        find_channel(&registry, ApplicationQuery::Missing),
        Err(Rejection::BadRequest)
    );
    assert_eq!(
        find_channel(&registry, ApplicationQuery::Given(None)),
        Err(Rejection::BadRequest)
    );
}

#[test]
fn records_and_signals_become_events() {
    let signal = Message::System(SystemMessage::at(
        shop(),
        SystemMessages::FileRemoved,
        Timestamp::new(1, 2),
    ));
    assert_eq!(stream_step(Ok(record("line"))), StreamStep::Event(record("line")));
    assert_eq!(stream_step(Ok(signal.clone())), StreamStep::Event(signal));
}

#[test]
fn the_disconnect_sentinel_ends_the_stream() {
    assert_eq!(stream_step(Ok(Message::ClientDisconnect)), StreamStep::End);
}

#[test]
fn a_lag_ends_the_stream() {
    assert_eq!(stream_step(Err(Lagged)), StreamStep::End);
}

#[test]
fn nothing_after_the_sentinel_is_streamed() {
    let received = [
        Ok(record("one")),
        Ok(record("two")),
        Ok(Message::ClientDisconnect),
        Ok(record("late")),
    ];
    let mut sent = Vec::new();
    for item in received {
        match stream_step(item) {
            StreamStep::Event(message) => sent.push(message),
            StreamStep::End => break,
        }
    }
    assert_eq!(sent, vec![record("one"), record("two")]);
}

#[test]
fn an_event_is_a_data_line_and_an_empty_line() {
    assert_eq!(event("{\"row\":\"x\"}"), "data: {\"row\":\"x\"}\n\n");
    assert_eq!(event(""), "data: \n\n");
}

#[test]
fn an_error_is_told_in_an_event() {
    assert_eq!(error_event("key must be a string"), "data: Error: key must be a string\n\n");
}
