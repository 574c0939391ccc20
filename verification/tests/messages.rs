use webtail::message::timestamp::Timestamp;
use webtail::message::{
    BinaryDataMessage, BinaryMessage, BinarySystemMessage, DataMessage, Message, SystemMessage,
    SystemMessages,
};
use webtail::{Applicatiton, MultiPodApplication};

fn shop() -> Applicatiton {
    Applicatiton::SinglePod("shop".to_string())
}

fn blue() -> Applicatiton {
    Applicatiton::MultiPod(MultiPodApplication::new(
        "shop".to_string(),
        "blue".to_string(),
    ))
}

#[test]
fn a_new_record_has_its_fields_and_type() {
    let record = DataMessage::new("line".to_string(), shop(), true);
    assert_eq!(record.message_type, "Data");
    assert_eq!(record.row(), "line");
    assert_eq!(record.application, shop());
    assert!(record.replace_last_row);
    assert!(record.timestamp.nanos < 1_000_000_000);
}

#[test]
fn a_record_at_a_time_is_exact() {
    let record = DataMessage::at("line".to_string(), blue(), false, Timestamp::new(5, 6));
    assert_eq!(
        record,
        DataMessage {
            message_type: "Data".to_string(),
            row: "line".to_string(),
            application: blue(),
            replace_last_row: false,
            timestamp: Timestamp::new(5, 6),
        }
    );
}

#[test]
fn a_new_signal_has_its_fields_and_type() {
    let signal = SystemMessage::new(blue(), SystemMessages::Pause);
    assert_eq!(signal.message_type, "System");
    assert_eq!(signal.application, blue());
    assert_eq!(*signal.message(), SystemMessages::Pause);
    assert!(signal.timestamp.nanos < 1_000_000_000);
}

#[test]
fn a_signal_at_a_time_is_exact() {
    let signal = SystemMessage::at(shop(), SystemMessages::Stop, Timestamp::new(-1, 7));
    assert_eq!(
        signal,
        SystemMessage {
            message_type: "System".to_string(),
            application: shop(),
            message: SystemMessages::Stop,
            timestamp: Timestamp::new(-1, 7),
        }
    );
}

#[test]
fn a_record_turns_into_its_binary_form() {
    let record = DataMessage::at("line".to_string(), shop(), true, Timestamp::new(2, 3));
    assert_eq!(
        BinaryDataMessage::from(record),
        BinaryDataMessage {
            message_type: "Data".to_string(),
            row: "line".to_string(),
            application: shop(),
            replace_last_row: true,
            timestamp: 2_000_000_003,
        }
    );
}

#[test]
fn a_binary_record_turns_into_its_structured_form() {
    let binary = BinaryDataMessage {
        message_type: "Data".to_string(),
        row: "line".to_string(),
        application: blue(),
        replace_last_row: false,
        timestamp: -1,
    };
    assert_eq!(
        DataMessage::from(binary),
        DataMessage {
            message_type: "Data".to_string(),
            row: "line".to_string(),
            application: blue(),
            replace_last_row: false,
            timestamp: Timestamp::new(-1, 999_999_999),
        }
    );
}

#[test]
fn a_signal_turns_into_its_binary_form_and_back() {
    let signal = SystemMessage::at(shop(), SystemMessages::Resume, Timestamp::new(10, 11));
    let binary = BinarySystemMessage::from(signal.clone());
    assert_eq!(
        binary,
        BinarySystemMessage {
            message_type: "System".to_string(),
            application: shop(),
            message: SystemMessages::Resume,
            timestamp: 10_000_000_011,
        }
    );
    assert_eq!(SystemMessage::from(binary), signal);
}

#[test]
fn messages_turn_into_binary_messages_and_back() {
    let record = Message::Data(DataMessage::at(
        "line".to_string(),
        shop(),
        false,
        Timestamp::new(1_700_000_000, 123_456_789),
    ));
    let signal = Message::System(SystemMessage::at(
        blue(),
        SystemMessages::FileRemoved,
        Timestamp::new(-5, 1),
    ));
    for message in [record, signal, Message::ClientDisconnect] {
        assert!(message.fits_binary());
        let binary = BinaryMessage::from(message.clone());
        assert_eq!(Message::from(binary), message);
    }
}

#[test]
fn a_disconnect_stays_a_disconnect() {
    assert_eq!(
        BinaryMessage::from(Message::ClientDisconnect),
        BinaryMessage::ClientDisconnect
    );
    assert_eq!(
        Message::from(BinaryMessage::ClientDisconnect),
        Message::ClientDisconnect
    );
}

#[test]
fn a_time_out_of_range_does_not_fit_the_binary_form() {
    let late = Message::Data(DataMessage::at(
        "line".to_string(),
        shop(),
        false,
        Timestamp::new(i64::MAX, 0),
    ));
    assert!(!late.fits_binary());
    let odd = Message::System(SystemMessage::at(
        shop(),
        SystemMessages::Start,
        Timestamp::new(0, 1_000_000_000),
    ));
    assert!(!odd.fits_binary());
}

#[test]
fn data_and_system_pick_their_variant() {
    let record = DataMessage::at("line".to_string(), shop(), false, Timestamp::new(0, 0));
    let signal = SystemMessage::at(shop(), SystemMessages::Start, Timestamp::new(0, 0));
    let data = Message::Data(record.clone());
    let system = Message::System(signal.clone());
    assert_eq!(data.data(), Some(&record));
    assert_eq!(data.system(), None);
    assert_eq!(system.system(), Some(&signal));
    assert_eq!(system.data(), None);
    assert_eq!(Message::ClientDisconnect.data(), None);
    assert_eq!(Message::ClientDisconnect.system(), None);
}
