//! The messages of the relay: log records, control signals and the
//! disconnect sentinel, in their structured form and in the compact form
//! that travels as bytes.

use vstd::prelude::*;
use vstd::pervasive::unreached;
use crate::message::timestamp::{lemma_nanos_round_trip, lemma_of_nanos, Timestamp};
use crate::{Applicatiton, ApplicatitonView};

pub mod timestamp;
pub mod wire;

verus! {

/// What a control signal announces or asks for.
#[derive(Debug, Clone, Copy, PartialEq, Eq, Structural)]
pub enum SystemMessages {
    FileFound,
    FileRemoved,
    NewFileFound,
    TailingStarted,
    Start,
    Stop,
    Pause,
    Resume,
}

/// One line of a log. With `replace_last_row` set it takes the place of the
/// record sent before it for the same application.
#[derive(Debug, Clone, PartialEq, Eq)]
pub struct DataMessage {
    pub message_type: String,
    pub row: String,
    pub application: Applicatiton,
    pub replace_last_row: bool,
    pub timestamp: Timestamp,
}

/// A [`DataMessage`] with its time as nanoseconds since the epoch.
#[derive(Debug, Clone, PartialEq, Eq)]
pub struct BinaryDataMessage {
    pub message_type: String,
    pub row: String,
    pub application: Applicatiton,
    pub replace_last_row: bool,
    pub timestamp: i64,
}

/// A control signal for one application.
#[derive(Debug, Clone, PartialEq, Eq)]
pub struct SystemMessage {
    pub message_type: String,
    pub application: Applicatiton,
    pub message: SystemMessages,
    pub timestamp: Timestamp,
}

/// A [`SystemMessage`] with its time as nanoseconds since the epoch.
#[derive(Debug, Clone, PartialEq, Eq)]
pub struct BinarySystemMessage {
    pub message_type: String,
    pub application: Applicatiton,
    pub message: SystemMessages,
    pub timestamp: i64,
}

/// What travels through the relay.
#[derive(Debug, Clone, PartialEq, Eq)]
pub enum Message {
    Data(DataMessage),
    System(SystemMessage),
    ClientDisconnect,
}

/// A [`Message`] in the form that is written as bytes.
#[derive(Debug, Clone, PartialEq, Eq)]
pub enum BinaryMessage {
    Data(BinaryDataMessage),
    System(BinarySystemMessage),
    ClientDisconnect,
}

/// Mathematical value of a [`DataMessage`].
pub struct DataMessageView {
    pub message_type: Seq<char>,
    pub row: Seq<char>,
    pub application: ApplicatitonView,
    pub replace_last_row: bool,
    pub timestamp: Timestamp,
}

/// Mathematical value of a [`BinaryDataMessage`].
pub struct BinaryDataMessageView {
    pub message_type: Seq<char>,
    pub row: Seq<char>,
    pub application: ApplicatitonView,
    pub replace_last_row: bool,
    pub timestamp: i64,
}

/// Mathematical value of a [`SystemMessage`].
pub struct SystemMessageView {
    pub message_type: Seq<char>,
    pub application: ApplicatitonView,
    pub message: SystemMessages,
    pub timestamp: Timestamp,
}

/// Mathematical value of a [`BinarySystemMessage`].
pub struct BinarySystemMessageView {
    pub message_type: Seq<char>,
    pub application: ApplicatitonView,
    pub message: SystemMessages,
    pub timestamp: i64,
}

/// Mathematical value of a [`Message`].
pub enum MessageView {
    Data(DataMessageView),
    System(SystemMessageView),
    ClientDisconnect,
}

/// Mathematical value of a [`BinaryMessage`].
pub enum BinaryMessageView {
    Data(BinaryDataMessageView),
    System(BinarySystemMessageView),
    ClientDisconnect,
}

impl View for DataMessage {
    type V = DataMessageView;

    open spec fn view(&self) -> DataMessageView {
        DataMessageView {
            message_type: self.message_type@,
            row: self.row@,
            application: self.application@,
            replace_last_row: self.replace_last_row,
            timestamp: self.timestamp,
        }
    }
}

impl View for BinaryDataMessage {
    type V = BinaryDataMessageView;

    open spec fn view(&self) -> BinaryDataMessageView {
        BinaryDataMessageView {
            message_type: self.message_type@,
            row: self.row@,
            application: self.application@,
            replace_last_row: self.replace_last_row,
            timestamp: self.timestamp,
        }
    }
}

impl View for SystemMessage {
    type V = SystemMessageView;

    open spec fn view(&self) -> SystemMessageView {
        SystemMessageView {
            message_type: self.message_type@,
            application: self.application@,
            message: self.message,
            timestamp: self.timestamp,
        }
    }
}

impl View for BinarySystemMessage {
    type V = BinarySystemMessageView;

    open spec fn view(&self) -> BinarySystemMessageView {
        BinarySystemMessageView {
            message_type: self.message_type@,
            application: self.application@,
            message: self.message,
            timestamp: self.timestamp,
        }
    }
}

impl View for Message {
    type V = MessageView;

    open spec fn view(&self) -> MessageView {
        match self {
            Message::Data(data) => MessageView::Data(data@),
            Message::System(system) => MessageView::System(system@),
            Message::ClientDisconnect => MessageView::ClientDisconnect,
        }
    }
}

impl View for BinaryMessage {
    type V = BinaryMessageView;

    open spec fn view(&self) -> BinaryMessageView {
        match self {
            BinaryMessage::Data(data) => BinaryMessageView::Data(data@),
            BinaryMessage::System(system) => BinaryMessageView::System(system@),
            BinaryMessage::ClientDisconnect => BinaryMessageView::ClientDisconnect,
        }
    }
}

impl DataMessageView {
    /// The same record with its time counted in nanoseconds.
    pub open spec fn to_binary(self) -> BinaryDataMessageView {
        BinaryDataMessageView {
            message_type: self.message_type,
            row: self.row,
            application: self.application,
            replace_last_row: self.replace_last_row,
            timestamp: self.timestamp.total_nanos() as i64,
        }
    }
}

impl BinaryDataMessageView {
    /// The same record with its time split into seconds and nanoseconds.
    pub open spec fn to_message(self) -> DataMessageView {
        DataMessageView {
            message_type: self.message_type,
            row: self.row,
            application: self.application,
            replace_last_row: self.replace_last_row,
            timestamp: Timestamp::of_nanos(self.timestamp),
        }
    }
}

impl SystemMessageView {
    /// The same signal with its time counted in nanoseconds.
    pub open spec fn to_binary(self) -> BinarySystemMessageView {
        BinarySystemMessageView {
            message_type: self.message_type,
            application: self.application,
            message: self.message,
            timestamp: self.timestamp.total_nanos() as i64,
        }
    }
}

impl BinarySystemMessageView {
    /// The same signal with its time split into seconds and nanoseconds.
    pub open spec fn to_message(self) -> SystemMessageView {
        SystemMessageView {
            message_type: self.message_type,
            application: self.application,
            message: self.message,
            timestamp: Timestamp::of_nanos(self.timestamp),
        }
    }
}

impl MessageView {
    /// Whether the message's time is well formed. The disconnect sentinel
    /// carries no time.
    pub open spec fn well_stamped(self) -> bool {
        match self {
            MessageView::Data(data) => data.timestamp.wf(),
            MessageView::System(system) => system.timestamp.wf(),
            MessageView::ClientDisconnect => true,
        }
    }

    /// Whether the message's time can be counted in `i64` nanoseconds. The
    /// disconnect sentinel carries no time.
    pub open spec fn fits_binary(self) -> bool {
        match self {
            MessageView::Data(data) => data.timestamp.fits_nanos(),
            MessageView::System(system) => system.timestamp.fits_nanos(),
            MessageView::ClientDisconnect => true,
        }
    }

    /// The message in the form that is written as bytes.
    pub open spec fn to_binary(self) -> BinaryMessageView {
        match self {
            MessageView::Data(data) => BinaryMessageView::Data(data.to_binary()),
            MessageView::System(system) => BinaryMessageView::System(system.to_binary()),
            MessageView::ClientDisconnect => BinaryMessageView::ClientDisconnect,
        }
    }
}

impl BinaryMessageView {
    /// The message in its structured form.
    pub open spec fn to_message(self) -> MessageView {
        match self {
            BinaryMessageView::Data(data) => MessageView::Data(data.to_message()),
            BinaryMessageView::System(system) => MessageView::System(system.to_message()),
            BinaryMessageView::ClientDisconnect => MessageView::ClientDisconnect,
        }
    }
}

impl DataMessage {
    /// A record for `row`, stamped with the current time, which is well
    /// formed whatever the clock reads.
    pub fn new(row: String, application: Applicatiton, replace_last_row: bool) -> (message: Self)
        ensures
            message@.message_type == "Data"@,
            message@.row == row@,
            message@.application == application@,
            message@.replace_last_row == replace_last_row,
            message@.timestamp.wf(),
    {
        DataMessage::at(row, application, replace_last_row, Timestamp::now())
    }

    /// A record for `row`, stamped with `timestamp`.
    pub fn at(row: String, application: Applicatiton, replace_last_row: bool, timestamp: Timestamp) -> (message: Self)
        ensures
            message@ == (DataMessageView {
                message_type: "Data"@,
                row: row@,
                application: application@,
                replace_last_row,
                timestamp,
            }),
    {
        DataMessage {
            message_type: String::from_str("Data"),
            row,
            application,
            replace_last_row,
            timestamp,
        }
    }

    pub fn row(&self) -> (row: &str)
        ensures
            row@ == self@.row,
    {
        self.row.as_str()
    }

    /// The structured form of `value`.
    pub fn from(value: BinaryDataMessage) -> (message: Self)
        ensures
            message@ == value@.to_message(),
    {
        DataMessage {
            message_type: value.message_type,
            row: value.row,
            application: value.application,
            replace_last_row: value.replace_last_row,
            timestamp: Timestamp::from_nanos(value.timestamp),
        }
    }
}

impl BinaryDataMessage {
    /// The byte-ready form of `value`, whose time must be countable in
    /// `i64` nanoseconds.
    pub fn from(value: DataMessage) -> (message: Self)
        requires
            value@.timestamp.fits_nanos(),
        ensures
            message@ == value@.to_binary(),
    {
        let nanos = match value.timestamp.to_nanos() {
            Some(nanos) => nanos,
            None => unreached(),
        };
        BinaryDataMessage {
            message_type: value.message_type,
            row: value.row,
            application: value.application,
            replace_last_row: value.replace_last_row,
            timestamp: nanos,
        }
    }
}

impl SystemMessage {
    /// The signal `message` for `application`, stamped with the current
    /// time, which is well formed whatever the clock reads.
    pub fn new(application: Applicatiton, message: SystemMessages) -> (signal: Self)
        ensures
            signal@.message_type == "System"@,
            signal@.application == application@,
            signal@.message == message,
            signal@.timestamp.wf(),
    {
        SystemMessage::at(application, message, Timestamp::now())
    }

    /// The signal `message` for `application`, stamped with `timestamp`.
    pub fn at(application: Applicatiton, message: SystemMessages, timestamp: Timestamp) -> (signal: Self)
        ensures
            signal@ == (SystemMessageView {
                message_type: "System"@,
                application: application@,
                message,
                timestamp,
            }),
    {
        SystemMessage { message_type: String::from_str("System"), application, message, timestamp }
    }

    pub fn message(&self) -> (message: &SystemMessages)
        ensures
            *message == self@.message,
    {
        &self.message
    }

    /// The structured form of `value`.
    pub fn from(value: BinarySystemMessage) -> (signal: Self)
        ensures
            signal@ == value@.to_message(),
    {
        SystemMessage {
            message_type: value.message_type,
            application: value.application,
            message: value.message,
            timestamp: Timestamp::from_nanos(value.timestamp),
        }
    }
}

impl BinarySystemMessage {
    /// The byte-ready form of `value`, whose time must be countable in
    /// `i64` nanoseconds.
    pub fn from(value: SystemMessage) -> (signal: Self)
        requires
            value@.timestamp.fits_nanos(),
        ensures
            signal@ == value@.to_binary(),
    {
        let nanos = match value.timestamp.to_nanos() {
            Some(nanos) => nanos,
            None => unreached(),
        };
        BinarySystemMessage {
            message_type: value.message_type,
            application: value.application,
            message: value.message,
            timestamp: nanos,
        }
    }
}

impl Message {
    /// The structured form of `value`.
    pub fn from(value: BinaryMessage) -> (message: Self)
        ensures
            message@ == value@.to_message(),
    {
        match value {
            BinaryMessage::Data(binary_data_message) => Message::Data(
                DataMessage::from(binary_data_message),
            ),
            BinaryMessage::System(binary_system_message) => Message::System(
                SystemMessage::from(binary_system_message),
            ),
            BinaryMessage::ClientDisconnect => Message::ClientDisconnect,
        }
    }

    pub fn data(&self) -> (data: Option<&DataMessage>)
        ensures
            match *self {
                Message::Data(inner) => data == Some(&inner),
                _ => data is None,
            },
    {
        match self {
            Message::Data(data) => Some(data),
            _ => None,
        }
    }

    pub fn system(&self) -> (system: Option<&SystemMessage>)
        ensures
            match *self {
                Message::System(inner) => system == Some(&inner),
                _ => system is None,
            },
    {
        match self {
            Message::System(system) => Some(system),
            _ => None,
        }
    }

    /// Whether [`BinaryMessage::from`] accepts this message: its time, if
    /// it has one, can be counted in `i64` nanoseconds.
    pub fn fits_binary(&self) -> (fits: bool)
        ensures
            fits == self@.fits_binary(),
    {
        match self {
            Message::Data(data) => data.timestamp.to_nanos().is_some(),
            Message::System(system) => system.timestamp.to_nanos().is_some(),
            Message::ClientDisconnect => true,
        }
    }
}

impl BinaryMessage {
    /// The byte-ready form of `value`, whose time must be countable in
    /// `i64` nanoseconds.
    pub fn from(value: Message) -> (message: Self)
        requires
            value@.fits_binary(),
        ensures
            message@ == value@.to_binary(),
    {
        match value {
            Message::Data(data_message) => BinaryMessage::Data(BinaryDataMessage::from(data_message)),
            Message::System(system_message) => BinaryMessage::System(
                BinarySystemMessage::from(system_message),
            ),
            Message::ClientDisconnect => BinaryMessage::ClientDisconnect,
        }
    }
}

/// A message whose time can be counted in nanoseconds comes back unchanged
/// from its byte-ready form.
pub proof fn lemma_binary_form_round_trip(message: MessageView)
    requires
        message.fits_binary(),
    ensures
        message.to_binary().to_message() == message,
{
    match message {
        MessageView::Data(data) => {
            lemma_nanos_round_trip(data.timestamp);
        },
        MessageView::System(system) => {
            lemma_nanos_round_trip(system.timestamp);
        },
        MessageView::ClientDisconnect => {},
    }
}

/// A byte-ready message comes back unchanged from its structured form, and
/// that form's time can always be counted in nanoseconds.
pub proof fn lemma_structured_form_round_trip(message: BinaryMessageView)
    ensures
        message.to_message().fits_binary(),
        message.to_message().to_binary() == message,
{
    match message {
        BinaryMessageView::Data(data) => {
            lemma_of_nanos(data.timestamp);
        },
        BinaryMessageView::System(system) => {
            lemma_of_nanos(system.timestamp);
        },
        BinaryMessageView::ClientDisconnect => {},
    }
}

} // verus!
