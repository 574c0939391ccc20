use webtail::message::timestamp::Timestamp;
use webtail::message::wire::{from_slice, to_vec};
use webtail::message::{
    BinaryDataMessage, BinaryMessage, BinarySystemMessage, DataMessage, Message, SystemMessage,
    SystemMessages,
};
use webtail::{Applicatiton, MultiPodApplication};

fn shop() -> Applicatiton {
    Applicatiton::SinglePod("shop".to_string())
}

fn blue() -> Applicatiton {
    Applicatiton::MultiPod(MultiPodApplication::new(
        "shop".to_string(),
        "blue".to_string(),
    ))
}

fn record() -> BinaryMessage {
    BinaryMessage::Data(BinaryDataMessage {
        message_type: "Data".to_string(),
        row: "hé".to_string(),
        application: shop(),
        replace_last_row: true,
        timestamp: 258,
    })
}

fn signal() -> BinaryMessage {
    BinaryMessage::System(BinarySystemMessage {
        message_type: "System".to_string(),
        application: blue(),
        message: SystemMessages::Pause,
        timestamp: -1,
    })
}

fn record_bytes() -> Vec<u8> {
    vec![
        0, // Data
        4, 0, 0, 0, b'D', b'a', b't', b'a', // message_type
        3, 0, 0, 0, b'h', 0xC3, 0xA9, // row, three bytes of UTF-8
        0, 4, 0, 0, 0, b's', b'h', b'o', b'p', // SinglePod("shop")
        1, // replace_last_row
        2, 1, 0, 0, 0, 0, 0, 0, // 258
    ]
}

fn signal_bytes() -> Vec<u8> {
    vec![
        1, // System
        6, 0, 0, 0, b'S', b'y', b's', b't', b'e', b'm', // message_type
        1, 4, 0, 0, 0, b's', b'h', b'o', b'p', 4, 0, 0, 0, b'b', b'l', b'u',
        b'e', // MultiPod { shop, blue }
        6, // Pause
        255, 255, 255, 255, 255, 255, 255, 255, // -1
    ]
}

#[test]
fn a_record_is_written_field_by_field() {
    assert_eq!(to_vec(&record()), Some(record_bytes()));
}

#[test]
fn a_signal_is_written_field_by_field() {
    assert_eq!(to_vec(&signal()), Some(signal_bytes()));
}

#[test]
fn a_disconnect_is_one_byte() {
    assert_eq!(to_vec(&BinaryMessage::ClientDisconnect), Some(vec![2]));
    assert_eq!(from_slice(&[2]), Some(BinaryMessage::ClientDisconnect));
}

#[test]
fn written_bytes_are_those_of_borsh() {
    let as_tuple = (
        0u8,
        "Data".to_string(),
        "hé".to_string(),
        (0u8, "shop".to_string()),
        true,
        258i64,
    );
    assert_eq!(to_vec(&record()), Some(borsh::to_vec(&as_tuple).unwrap()));
    let as_tuple = (
        1u8,
        "System".to_string(),
        (1u8, "shop".to_string(), "blue".to_string()),
        6u8,
        -1i64,
    );
    assert_eq!(to_vec(&signal()), Some(borsh::to_vec(&as_tuple).unwrap()));
}

#[test]
fn every_kind_of_signal_has_its_number() {
    let kinds = [
        SystemMessages::FileFound,
        SystemMessages::FileRemoved,
        SystemMessages::NewFileFound,
        SystemMessages::TailingStarted,
        SystemMessages::Start,
        SystemMessages::Stop,
        SystemMessages::Pause,
        SystemMessages::Resume,
    ];
    for (number, kind) in kinds.into_iter().enumerate() {
        let message = BinaryMessage::System(BinarySystemMessage {
            message_type: String::new(),
            application: Applicatiton::SinglePod(String::new()),
            message: kind,
            timestamp: 0,
        });
        let bytes = to_vec(&message).unwrap();
        assert_eq!(
            bytes,
            vec![1, 0, 0, 0, 0, 0, 0, 0, 0, 0, number as u8, 0, 0, 0, 0, 0, 0, 0, 0]
        );
        assert_eq!(from_slice(&bytes), Some(message));
    }
}

#[test]
fn bytes_are_read_back_to_the_message() {
    assert_eq!(from_slice(&record_bytes()), Some(record()));
    assert_eq!(from_slice(&signal_bytes()), Some(signal()));
}

#[test]
fn an_envelope_survives_the_wire_to_the_nanosecond() {
    let messages = [
        Message::Data(DataMessage::at(
            "2024-01-01 ERROR ümlaut 👻 done".to_string(),
            blue(),
            true,
            Timestamp::new(1_700_000_000, 123_456_789),
        )),
        Message::Data(DataMessage::at(
            String::new(),
            shop(),
            false,
            Timestamp::new(-1, 999_999_999),
        )),
        Message::System(SystemMessage::at(
            shop(),
            SystemMessages::NewFileFound,
            Timestamp::new(9_223_372_036, 854_775_807),
        )),
        Message::System(SystemMessage::at(
            blue(),
            SystemMessages::TailingStarted,
            Timestamp::new(-9_223_372_037, 145_224_192),
        )),
        Message::ClientDisconnect,
    ];
    for message in messages {
        let bytes = to_vec(&BinaryMessage::from(message.clone())).unwrap();
        let read = from_slice(&bytes).unwrap();
        assert_eq!(Message::from(read), message);
    }
}

#[test]
fn nothing_is_read_from_no_bytes() {
    assert_eq!(from_slice(&[]), None);
}

#[test]
fn an_unknown_variant_is_refused() {
    assert_eq!(from_slice(&[3]), None);
    assert_eq!(from_slice(&[255]), None);
    let mut bytes = record_bytes();
    bytes[16] = 2; // identity variant
    assert_eq!(from_slice(&bytes), None);
    let mut bytes = signal_bytes();
    bytes[28] = 8; // kind of signal
    assert_eq!(from_slice(&bytes), None);
}

#[test]
fn bytes_left_over_are_refused() {
    let mut bytes = record_bytes();
    bytes.push(0);
    assert_eq!(from_slice(&bytes), None);
    assert_eq!(from_slice(&[2, 0]), None);
}

#[test]
fn bytes_cut_short_are_refused() {
    let whole = record_bytes();
    for length in 0..whole.len() {
        assert_eq!(from_slice(&whole[..length]), None);
    }
    let whole = signal_bytes();
    for length in 0..whole.len() {
        assert_eq!(from_slice(&whole[..length]), None);
    }
}

#[test]
fn a_flag_other_than_0_or_1_is_refused() {
    let mut bytes = record_bytes();
    bytes[25] = 2;
    assert_eq!(from_slice(&bytes), None);
    bytes[25] = 0;
    let expected = BinaryMessage::Data(BinaryDataMessage {
        message_type: "Data".to_string(),
        row: "hé".to_string(),
        application: shop(),
        replace_last_row: false,
        timestamp: 258,
    });
    assert_eq!(from_slice(&bytes), Some(expected));
}

#[test]
fn text_that_is_not_utf8_is_refused() {
    let mut bytes = record_bytes();
    bytes[15] = 0x28; // breaks the two-byte character of the row
    assert_eq!(from_slice(&bytes), None);
}

#[test]
fn a_length_that_reaches_past_the_end_is_refused() {
    let mut bytes = record_bytes();
    bytes[1] = 200;
    assert_eq!(from_slice(&bytes), None);
    let mut bytes = record_bytes();
    bytes[4] = 255; // length of more than four thousand million bytes
    assert_eq!(from_slice(&bytes), None);
}

#[test]
fn reading_agrees_with_borsh_on_strings() {
    let text = "naïve ☃".to_string();
    let mut bytes = vec![0u8];
    bytes.extend(borsh::to_vec(&"Data".to_string()).unwrap());
    bytes.extend(borsh::to_vec(&text).unwrap());
    bytes.extend(borsh::to_vec(&(0u8, "shop".to_string())).unwrap());
    bytes.extend(borsh::to_vec(&false).unwrap());
    bytes.extend(borsh::to_vec(&i64::MIN).unwrap());
    let expected = BinaryMessage::Data(BinaryDataMessage {
        message_type: "Data".to_string(),
        row: text,
        application: shop(),
        replace_last_row: false,
        timestamp: i64::MIN,
    });
    assert_eq!(from_slice(&bytes), Some(expected));
}
