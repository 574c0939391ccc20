//! The compact byte form of a message.
//!
//! Layout, all integers little-endian: a string is its UTF-8 length as a
//! `u32` followed by its UTF-8 bytes; a `bool` is one byte, 0 or 1; a time
//! is an `i64` in eight bytes; an enum is one byte that numbers its variant
//! in declaration order, followed by the variant's fields; a struct is its
//! fields one after another.

use vstd::prelude::*;
use vstd::bytes::{
    lemma_auto_spec_u32_to_from_le_bytes, lemma_auto_spec_u64_to_from_le_bytes,
    spec_u32_from_le_bytes, spec_u32_to_le_bytes, spec_u64_from_le_bytes, spec_u64_to_le_bytes,
    u32_from_le_bytes, u64_from_le_bytes, u64_to_le_bytes,
};
use vstd::slice::slice_subrange;
use vstd::utf8::{
    decode_utf8, encode_utf8, encode_utf8_decode_utf8, encode_utf8_valid_utf8, valid_utf8,
};
use crate::message::{
    lemma_binary_form_round_trip, MessageView, BinaryDataMessage, BinaryDataMessageView, BinaryMessage, BinaryMessageView,
    BinarySystemMessage, BinarySystemMessageView, SystemMessages,
};
use crate::{Applicatiton, ApplicatitonView, MultiPodApplication, MultiPodApplicationView};

verus! {

/// Whether the UTF-8 length of `text` fits the `u32` length prefix.
pub open spec fn string_fits(text: Seq<char>) -> bool {
    encode_utf8(text).len() <= u32::MAX
}

/// The bytes of a string: length prefix, then UTF-8.
pub open spec fn wire_string(text: Seq<char>) -> Seq<u8> {
    spec_u32_to_le_bytes(encode_utf8(text).len() as u32) + encode_utf8(text)
}

pub open spec fn wire_bool(flag: bool) -> Seq<u8> {
    seq![if flag { 1u8 } else { 0u8 }]
}

pub open spec fn wire_i64(value: i64) -> Seq<u8> {
    spec_u64_to_le_bytes(value as u64)
}

/// The number that stands for a control signal's kind.
pub open spec fn kind_tag(kind: SystemMessages) -> u8 {
    match kind {
        SystemMessages::FileFound => 0,
        SystemMessages::FileRemoved => 1,
        SystemMessages::NewFileFound => 2,
        SystemMessages::TailingStarted => 3,
        SystemMessages::Start => 4,
        SystemMessages::Stop => 5,
        SystemMessages::Pause => 6,
        SystemMessages::Resume => 7,
    }
}

pub open spec fn wire_kind(kind: SystemMessages) -> Seq<u8> {
    seq![kind_tag(kind)]
}

pub open spec fn application_fits(application: ApplicatitonView) -> bool {
    match application {
        ApplicatitonView::SinglePod(name) => string_fits(name),
        ApplicatitonView::MultiPod(pod) => string_fits(pod.application) && string_fits(pod.pod_name),
    }
}

pub open spec fn wire_application(application: ApplicatitonView) -> Seq<u8> {
    match application {
        ApplicatitonView::SinglePod(name) => seq![0u8] + wire_string(name),
        ApplicatitonView::MultiPod(pod) => seq![1u8] + wire_string(pod.application) + wire_string(
            pod.pod_name,
        ),
    }
}

pub open spec fn data_fits(data: BinaryDataMessageView) -> bool {
    string_fits(data.message_type) && string_fits(data.row) && application_fits(data.application)
}

pub open spec fn wire_data(data: BinaryDataMessageView) -> Seq<u8> {
    wire_string(data.message_type) + wire_string(data.row) + wire_application(data.application)
        + wire_bool(data.replace_last_row) + wire_i64(data.timestamp)
}

pub open spec fn system_fits(system: BinarySystemMessageView) -> bool {
    string_fits(system.message_type) && application_fits(system.application)
}

pub open spec fn wire_system(system: BinarySystemMessageView) -> Seq<u8> {
    wire_string(system.message_type) + wire_application(system.application) + wire_kind(
        system.message,
    ) + wire_i64(system.timestamp)
}

/// Whether every string of `message` fits its length prefix.
pub open spec fn message_fits(message: BinaryMessageView) -> bool {
    match message {
        BinaryMessageView::Data(data) => data_fits(data),
        BinaryMessageView::System(system) => system_fits(system),
        BinaryMessageView::ClientDisconnect => true,
    }
}

/// The bytes of a message.
pub open spec fn wire_message(message: BinaryMessageView) -> Seq<u8> {
    match message {
        BinaryMessageView::Data(data) => seq![0u8] + wire_data(data),
        BinaryMessageView::System(system) => seq![1u8] + wire_system(system),
        BinaryMessageView::ClientDisconnect => seq![2u8],
    }
}

/// A string read from the front of `bytes`, and what follows it.
pub open spec fn read_string(bytes: Seq<u8>) -> Option<(Seq<char>, Seq<u8>)> {
    if bytes.len() < 4 {
        None
    } else {
        let len = spec_u32_from_le_bytes(bytes.take(4)) as int;
        if bytes.len() < 4 + len || !valid_utf8(bytes.subrange(4, 4 + len)) {
            None
        } else {
            Some((decode_utf8(bytes.subrange(4, 4 + len)), bytes.skip(4 + len)))
        }
    }
}

pub open spec fn read_bool(bytes: Seq<u8>) -> Option<(bool, Seq<u8>)> {
    if bytes.len() < 1 {
        None
    } else if bytes[0] == 0 {
        Some((false, bytes.skip(1)))
    } else if bytes[0] == 1 {
        Some((true, bytes.skip(1)))
    } else {
        None
    }
}

pub open spec fn read_i64(bytes: Seq<u8>) -> Option<(i64, Seq<u8>)> {
    if bytes.len() < 8 {
        None
    } else {
        Some((spec_u64_from_le_bytes(bytes.take(8)) as i64, bytes.skip(8)))
    }
}

/// The control signal kind that `tag` stands for.
pub open spec fn kind_of_tag(tag: u8) -> Option<SystemMessages> {
    if tag == 0 {
        Some(SystemMessages::FileFound)
    } else if tag == 1 {
        Some(SystemMessages::FileRemoved)
    } else if tag == 2 {
        Some(SystemMessages::NewFileFound)
    } else if tag == 3 {
        Some(SystemMessages::TailingStarted)
    } else if tag == 4 {
        Some(SystemMessages::Start)
    } else if tag == 5 {
        Some(SystemMessages::Stop)
    } else if tag == 6 {
        Some(SystemMessages::Pause)
    } else if tag == 7 {
        Some(SystemMessages::Resume)
    } else {
        None
    }
}

pub open spec fn read_kind(bytes: Seq<u8>) -> Option<(SystemMessages, Seq<u8>)> {
    if bytes.len() < 1 {
        None
    } else {
        match kind_of_tag(bytes[0]) {
            Some(kind) => Some((kind, bytes.skip(1))),
            None => None,
        }
    }
}

pub open spec fn read_application(bytes: Seq<u8>) -> Option<(ApplicatitonView, Seq<u8>)> {
    if bytes.len() < 1 {
        None
    } else if bytes[0] == 0 {
        match read_string(bytes.skip(1)) {
            Some((name, rest)) => Some((ApplicatitonView::SinglePod(name), rest)),
            None => None,
        }
    } else if bytes[0] == 1 {
        match read_string(bytes.skip(1)) {
            Some((application, rest)) => match read_string(rest) {
                Some((pod_name, rest)) => Some(
                    (
                        ApplicatitonView::MultiPod(MultiPodApplicationView { application, pod_name }),
                        rest,
                    ),
                ),
                None => None,
            },
            None => None,
        }
    } else {
        None
    }
}

pub open spec fn read_data(bytes: Seq<u8>) -> Option<(BinaryDataMessageView, Seq<u8>)> {
    match read_string(bytes) {
        Some((message_type, rest)) => match read_string(rest) {
            Some((row, rest)) => match read_application(rest) {
                Some((application, rest)) => match read_bool(rest) {
                    Some((replace_last_row, rest)) => match read_i64(rest) {
                        Some((timestamp, rest)) => Some(
                            (
                                BinaryDataMessageView {
                                    message_type,
                                    row,
                                    application,
                                    replace_last_row,
                                    timestamp,
                                },
                                rest,
                            ),
                        ),
                        None => None,
                    },
                    None => None,
                },
                None => None,
            },
            None => None,
        },
        None => None,
    }
}

pub open spec fn read_system(bytes: Seq<u8>) -> Option<(BinarySystemMessageView, Seq<u8>)> {
    match read_string(bytes) {
        Some((message_type, rest)) => match read_application(rest) {
            Some((application, rest)) => match read_kind(rest) {
                Some((message, rest)) => match read_i64(rest) {
                    Some((timestamp, rest)) => Some(
                        (
                            BinarySystemMessageView { message_type, application, message, timestamp },
                            rest,
                        ),
                    ),
                    None => None,
                },
                None => None,
            },
            None => None,
        },
        None => None,
    }
}

/// The message that `bytes` spell, if they spell one and nothing follows
/// it.
pub open spec fn read_message(bytes: Seq<u8>) -> Option<BinaryMessageView> {
    if bytes.len() < 1 {
        None
    } else if bytes[0] == 0 {
        match read_data(bytes.skip(1)) {
            Some((data, rest)) => if rest.len() == 0 {
                Some(BinaryMessageView::Data(data))
            } else {
                None
            },
            None => None,
        }
    } else if bytes[0] == 1 {
        match read_system(bytes.skip(1)) {
            Some((system, rest)) => if rest.len() == 0 {
                Some(BinaryMessageView::System(system))
            } else {
                None
            },
            None => None,
        }
    } else if bytes[0] == 2 {
        if bytes.len() == 1 {
            Some(BinaryMessageView::ClientDisconnect)
        } else {
            None
        }
    } else {
        None
    }
}

/// A string written and then read is found again, with what followed it.
pub proof fn lemma_string_round_trip(text: Seq<char>, rest: Seq<u8>)
    requires
        string_fits(text),
    ensures
        read_string(wire_string(text) + rest) == Some((text, rest)),
{
    let payload = encode_utf8(text);
    let prefix = spec_u32_to_le_bytes(payload.len() as u32);
    let bytes = wire_string(text) + rest;
    lemma_auto_spec_u32_to_from_le_bytes();
    encode_utf8_valid_utf8(text);
    encode_utf8_decode_utf8(text);
    assert(prefix.len() == 4);
    assert(bytes.take(4) == prefix);
    assert(bytes.subrange(4, 4 + payload.len() as int) == payload);
    assert(bytes.skip(4 + payload.len() as int) == rest);
}

/// A flag written and then read is found again, with what followed it.
pub proof fn lemma_bool_round_trip(flag: bool, rest: Seq<u8>)
    ensures
        read_bool(wire_bool(flag) + rest) == Some((flag, rest)),
{
    assert((wire_bool(flag) + rest).skip(1) == rest);
}

/// A time written and then read is found again, with what followed it.
pub proof fn lemma_i64_round_trip(value: i64, rest: Seq<u8>)
    ensures
        read_i64(wire_i64(value) + rest) == Some((value, rest)),
{
    let bytes = wire_i64(value) + rest;
    lemma_auto_spec_u64_to_from_le_bytes();
    assert(wire_i64(value).len() == 8);
    assert(bytes.take(8) == wire_i64(value));
    assert(bytes.skip(8) == rest);
    assert((value as u64) as i64 == value) by (bit_vector);
}

/// A kind's number stands for that kind alone.
pub proof fn lemma_kind_round_trip(kind: SystemMessages, rest: Seq<u8>)
    ensures
        kind_of_tag(kind_tag(kind)) == Some(kind),
        read_kind(wire_kind(kind) + rest) == Some((kind, rest)),
{
    assert((wire_kind(kind) + rest).skip(1) == rest);
}

/// An identity written and then read is found again, with what followed
/// it.
pub proof fn lemma_application_round_trip(application: ApplicatitonView, rest: Seq<u8>)
    requires
        application_fits(application),
    ensures
        read_application(wire_application(application) + rest) == Some((application, rest)),
{
    let bytes = wire_application(application) + rest;
    match application {
        ApplicatitonView::SinglePod(name) => {
            assert(bytes.skip(1) == wire_string(name) + rest);
            lemma_string_round_trip(name, rest);
        },
        ApplicatitonView::MultiPod(pod) => {
            let after = wire_string(pod.pod_name) + rest;
            assert(bytes.skip(1) == wire_string(pod.application) + after);
            lemma_string_round_trip(pod.application, after);
            lemma_string_round_trip(pod.pod_name, rest);
        },
    }
}

/// A record written and then read is found again, with what followed it.
pub proof fn lemma_data_round_trip(data: BinaryDataMessageView, rest: Seq<u8>)
    requires
        data_fits(data),
    ensures
        read_data(wire_data(data) + rest) == Some((data, rest)),
{
    let after_time = wire_i64(data.timestamp) + rest;
    let after_flag = wire_bool(data.replace_last_row) + after_time;
    let after_application = wire_application(data.application) + after_flag;
    let after_row = wire_string(data.row) + after_application;
    assert(wire_data(data) + rest == wire_string(data.message_type) + after_row);
    lemma_string_round_trip(data.message_type, after_row);
    lemma_string_round_trip(data.row, after_application);
    lemma_application_round_trip(data.application, after_flag);
    lemma_bool_round_trip(data.replace_last_row, after_time);
    lemma_i64_round_trip(data.timestamp, rest);
}

/// A signal written and then read is found again, with what followed it.
pub proof fn lemma_system_round_trip(system: BinarySystemMessageView, rest: Seq<u8>)
    requires
        system_fits(system),
    ensures
        read_system(wire_system(system) + rest) == Some((system, rest)),
{
    let after_time = wire_i64(system.timestamp) + rest;
    let after_kind = wire_kind(system.message) + after_time;
    let after_application = wire_application(system.application) + after_kind;
    assert(wire_system(system) + rest == wire_string(system.message_type) + after_application);
    lemma_string_round_trip(system.message_type, after_application);
    lemma_application_round_trip(system.application, after_kind);
    lemma_kind_round_trip(system.message, after_time);
    lemma_i64_round_trip(system.timestamp, rest);
}

/// Reading the bytes of a message gives that message back.
pub proof fn lemma_wire_round_trip(message: BinaryMessageView)
    requires
        message_fits(message),
    ensures
        read_message(wire_message(message)) == Some(message),
{
    let bytes = wire_message(message);
    let nothing = Seq::<u8>::empty();
    match message {
        BinaryMessageView::Data(data) => {
            assert(bytes.skip(1) == wire_data(data) + nothing);
            lemma_data_round_trip(data, nothing);
        },
        BinaryMessageView::System(system) => {
            assert(bytes.skip(1) == wire_system(system) + nothing);
            lemma_system_round_trip(system, nothing);
        },
        BinaryMessageView::ClientDisconnect => {},
    }
}

/// A message turned into bytes and read back is the message it was, its
/// time kept to the nanosecond. It holds of every message whose time can be
/// counted in `i64` nanoseconds and whose strings fit their length
/// prefixes.
pub proof fn lemma_message_survives_the_wire(message: MessageView)
    requires
        message.fits_binary(),
        message_fits(message.to_binary()),
    ensures
        read_message(wire_message(message.to_binary())) matches Some(read) && read.to_message()
            == message,
{
    lemma_wire_round_trip(message.to_binary());
    lemma_binary_form_round_trip(message);
}

/// Whether `frame` is exactly one string: a length prefix that counts the
/// bytes after it, and those bytes valid UTF-8.
pub open spec fn is_string_frame(frame: Seq<u8>) -> bool {
    &&& frame.len() >= 4
    &&& spec_u32_from_le_bytes(frame.take(4)) == frame.len() - 4
    &&& valid_utf8(frame.skip(4))
}

/// `borsh::to_vec` on a string: the UTF-8 length as a little-endian `u32`,
/// then the UTF-8 bytes; nothing where the length does not fit a `u32`.
#[verifier::external_body]
fn string_to_vec(text: &String) -> (bytes: Option<Vec<u8>>)
    ensures
        match bytes {
            Some(b) => string_fits(text@) && b@ == wire_string(text@),
            None => !string_fits(text@),
        },
{
    borsh::to_vec(text).ok()
}

/// `borsh::from_slice` for a string: succeeds exactly on a slice that is
/// one whole string frame, and gives the string whose UTF-8 bytes follow
/// the length prefix.
#[verifier::external_body]
fn string_from_slice(frame: &[u8]) -> (text: Option<String>)
    ensures
        match text {
            Some(s) => is_string_frame(frame@) && encode_utf8(s@) == frame@.skip(4),
            None => !is_string_frame(frame@),
        },
{
    borsh::from_slice::<String>(frame).ok()
}

fn write_string(out: &mut Vec<u8>, text: &String) -> (written: bool)
    ensures
        written == string_fits(text@),
        written ==> final(out)@ == old(out)@ + wire_string(text@),
{
    match string_to_vec(text) {
        Some(mut bytes) => {
            out.append(&mut bytes);
            true
        },
        None => false,
    }
}

fn write_i64(out: &mut Vec<u8>, value: i64)
    ensures
        final(out)@ == old(out)@ + wire_i64(value),
{
    let mut bytes = u64_to_le_bytes(value as u64);
    out.append(&mut bytes);
}

fn write_kind(out: &mut Vec<u8>, kind: SystemMessages)
    ensures
        final(out)@ == old(out)@ + wire_kind(kind),
{
    let tag: u8 = match kind {
        SystemMessages::FileFound => 0,
        SystemMessages::FileRemoved => 1,
        SystemMessages::NewFileFound => 2,
        SystemMessages::TailingStarted => 3,
        SystemMessages::Start => 4,
        SystemMessages::Stop => 5,
        SystemMessages::Pause => 6,
        SystemMessages::Resume => 7,
    };
    out.push(tag);
    assert(out@ == old(out)@ + wire_kind(kind));
}

fn write_application(out: &mut Vec<u8>, application: &Applicatiton) -> (written: bool)
    ensures
        written == application_fits(application@),
        written ==> final(out)@ == old(out)@ + wire_application(application@),
{
    match application {
        Applicatiton::SinglePod(name) => {
            out.push(0u8);
            let written = write_string(out, name);
            assert(written ==> out@ == old(out)@ + wire_application(application@));
            written
        },
        Applicatiton::MultiPod(pod) => {
            out.push(1u8);
            if !write_string(out, &pod.application) {
                return false;
            }
            let written = write_string(out, &pod.pod_name);
            assert(written ==> out@ == old(out)@ + wire_application(application@));
            written
        },
    }
}

fn write_data(out: &mut Vec<u8>, data: &BinaryDataMessage) -> (written: bool)
    ensures
        written == data_fits(data@),
        written ==> final(out)@ == old(out)@ + wire_data(data@),
{
    if !write_string(out, &data.message_type) {
        return false;
    }
    if !write_string(out, &data.row) {
        return false;
    }
    if !write_application(out, &data.application) {
        return false;
    }
    out.push(if data.replace_last_row { 1u8 } else { 0u8 });
    write_i64(out, data.timestamp);
    assert(out@ == old(out)@ + wire_data(data@));
    true
}

fn write_system(out: &mut Vec<u8>, system: &BinarySystemMessage) -> (written: bool)
    ensures
        written == system_fits(system@),
        written ==> final(out)@ == old(out)@ + wire_system(system@),
{
    if !write_string(out, &system.message_type) {
        return false;
    }
    if !write_application(out, &system.application) {
        return false;
    }
    write_kind(out, system.message);
    write_i64(out, system.timestamp);
    assert(out@ == old(out)@ + wire_system(system@));
    true
}

/// The bytes of `message`, or nothing where one of its strings is longer
/// than a `u32` can count.
pub fn to_vec(message: &BinaryMessage) -> (bytes: Option<Vec<u8>>)
    ensures
        match bytes {
            Some(b) => message_fits(message@) && b@ == wire_message(message@),
            None => !message_fits(message@),
        },
{
    let mut out: Vec<u8> = Vec::new();
    match message {
        BinaryMessage::Data(data) => {
            out.push(0u8);
            if !write_data(&mut out, data) {
                return None;
            }
            assert(out@ == wire_message(message@));
        },
        BinaryMessage::System(system) => {
            out.push(1u8);
            if !write_system(&mut out, system) {
                return None;
            }
            assert(out@ == wire_message(message@));
        },
        BinaryMessage::ClientDisconnect => {
            out.push(2u8);
            assert(out@ == wire_message(message@));
        },
    }
    Some(out)
}

/// What a reader makes of the bytes from `at` on: the value it read and
/// the place after it, or nothing, as `expected` says of those bytes.
spec fn agrees<T: View>(
    bytes: Seq<u8>,
    at: usize,
    got: Option<(T, usize)>,
    expected: Option<(T::V, Seq<u8>)>,
) -> bool {
    match expected {
        Some((value, rest)) => got matches Some((read, next)) && read@ == value && at <= next
            <= bytes.len() && rest == bytes.skip(next as int),
        None => got is None,
    }
}

fn take_string(bytes: &[u8], at: usize) -> (got: Option<(String, usize)>)
    requires
        at <= bytes@.len(),
    ensures
        agrees(bytes@, at, got, read_string(bytes@.skip(at as int))),
{
    let rest = bytes.len() - at;
    if rest < 4 {
        return None;
    }
    let ghost tail = bytes@.skip(at as int);
    let prefix = slice_subrange(bytes, at, at + 4);
    assert(prefix@ == tail.take(4));
    let len = u32_from_le_bytes(prefix) as usize;
    if rest - 4 < len {
        return None;
    }
    let end = at + 4 + len;
    let frame = slice_subrange(bytes, at, end);
    proof {
        assert(frame@.take(4) == tail.take(4));
        assert(frame@.skip(4) == tail.subrange(4, 4 + len));
        assert(tail.skip(4 + len) == bytes@.skip(end as int));
    }
    match string_from_slice(frame) {
        Some(text) => {
            proof {
                encode_utf8_decode_utf8(text@);
            }
            Some((text, end))
        },
        None => None,
    }
}

/// The byte at `at` and the place after it.
fn take_byte(bytes: &[u8], at: usize) -> (got: Option<(u8, usize)>)
    requires
        at <= bytes@.len(),
    ensures
        at < bytes@.len() ==> got == Some((bytes@[at as int], (at + 1) as usize)) && at + 1
            <= usize::MAX,
        at >= bytes@.len() ==> got is None,
{
    if at < bytes.len() {
        Some((bytes[at], at + 1))
    } else {
        None
    }
}

/// A value that is its own mathematical value.
struct Plain<T>(T);

impl<T> View for Plain<T> {
    type V = T;

    closed spec fn view(&self) -> T {
        self.0
    }
}

fn take_bool(bytes: &[u8], at: usize) -> (got: Option<(Plain<bool>, usize)>)
    requires
        at <= bytes@.len(),
    ensures
        agrees(bytes@, at, got, read_bool(bytes@.skip(at as int))),
{
    match take_byte(bytes, at) {
        Some((byte, next)) => {
            assert(bytes@.skip(at as int).skip(1) == bytes@.skip(at + 1));
            if byte == 0 {
                Some((Plain(false), next))
            } else if byte == 1 {
                Some((Plain(true), next))
            } else {
                None
            }
        },
        None => None,
    }
}

fn take_i64(bytes: &[u8], at: usize) -> (got: Option<(Plain<i64>, usize)>)
    requires
        at <= bytes@.len(),
    ensures
        agrees(bytes@, at, got, read_i64(bytes@.skip(at as int))),
{
    if bytes.len() - at < 8 {
        return None;
    }
    let field = slice_subrange(bytes, at, at + 8);
    assert(field@ == bytes@.skip(at as int).take(8));
    assert(bytes@.skip(at as int).skip(8) == bytes@.skip(at + 8));
    let value = u64_from_le_bytes(field) as i64;
    Some((Plain(value), at + 8))
}

fn take_kind(bytes: &[u8], at: usize) -> (got: Option<(Plain<SystemMessages>, usize)>)
    requires
        at <= bytes@.len(),
    ensures
        agrees(bytes@, at, got, read_kind(bytes@.skip(at as int))),
{
    match take_byte(bytes, at) {
        Some((tag, next)) => {
            assert(bytes@.skip(at as int).skip(1) == bytes@.skip(at + 1));
            let kind = if tag == 0 {
                SystemMessages::FileFound
            } else if tag == 1 {
                SystemMessages::FileRemoved
            } else if tag == 2 {
                SystemMessages::NewFileFound
            } else if tag == 3 {
                SystemMessages::TailingStarted
            } else if tag == 4 {
                SystemMessages::Start
            } else if tag == 5 {
                SystemMessages::Stop
            } else if tag == 6 {
                SystemMessages::Pause
            } else if tag == 7 {
                SystemMessages::Resume
            } else {
                return None;
            };
            Some((Plain(kind), next))
        },
        None => None,
    }
}

fn take_application(bytes: &[u8], at: usize) -> (got: Option<(Applicatiton, usize)>)
    requires
        at <= bytes@.len(),
    ensures
        agrees(bytes@, at, got, read_application(bytes@.skip(at as int))),
{
    match take_byte(bytes, at) {
        Some((tag, after_tag)) => {
            assert(bytes@.skip(at as int).skip(1) == bytes@.skip(at + 1));
            if tag == 0 {
                match take_string(bytes, after_tag) {
                    Some((name, next)) => Some((Applicatiton::SinglePod(name), next)),
                    None => None,
                }
            } else if tag == 1 {
                match take_string(bytes, after_tag) {
                    Some((application, next)) => match take_string(bytes, next) {
                        Some((pod_name, next)) => Some(
                            (
                                Applicatiton::MultiPod(MultiPodApplication { application, pod_name }),
                                next,
                            ),
                        ),
                        None => None,
                    },
                    None => None,
                }
            } else {
                None
            }
        },
        None => None,
    }
}

fn take_data(bytes: &[u8], at: usize) -> (got: Option<(BinaryDataMessage, usize)>)
    requires
        at <= bytes@.len(),
    ensures
        agrees(bytes@, at, got, read_data(bytes@.skip(at as int))),
{
    let (message_type, next) = match take_string(bytes, at) {
        Some(read) => read,
        None => { return None; },
    };
    let (row, next) = match take_string(bytes, next) {
        Some(read) => read,
        None => { return None; },
    };
    let (application, next) = match take_application(bytes, next) {
        Some(read) => read,
        None => { return None; },
    };
    let (replace_last_row, next) = match take_bool(bytes, next) {
        Some(read) => read,
        None => { return None; },
    };
    let (timestamp, next) = match take_i64(bytes, next) {
        Some(read) => read,
        None => { return None; },
    };
    Some(
        (
            BinaryDataMessage {
                message_type,
                row,
                application,
                replace_last_row: replace_last_row.0,
                timestamp: timestamp.0,
            },
            next,
        ),
    )
}

fn take_system(bytes: &[u8], at: usize) -> (got: Option<(BinarySystemMessage, usize)>)
    requires
        at <= bytes@.len(),
    ensures
        agrees(bytes@, at, got, read_system(bytes@.skip(at as int))),
{
    let (message_type, next) = match take_string(bytes, at) {
        Some(read) => read,
        None => { return None; },
    };
    let (application, next) = match take_application(bytes, next) {
        Some(read) => read,
        None => { return None; },
    };
    let (message, next) = match take_kind(bytes, next) {
        Some(read) => read,
        None => { return None; },
    };
    let (timestamp, next) = match take_i64(bytes, next) {
        Some(read) => read,
        None => { return None; },
    };
    Some(
        (
            BinarySystemMessage { message_type, application, message: message.0, timestamp: timestamp.0 },
            next,
        ),
    )
}

/// The message that `bytes` spell, or nothing where they spell none or
/// bytes are left over.
pub fn from_slice(bytes: &[u8]) -> (message: Option<BinaryMessage>)
    ensures
        match read_message(bytes@) {
            Some(value) => message matches Some(m) && m@ == value,
            None => message is None,
        },
{
    let tag = match take_byte(bytes, 0) {
        Some((tag, _)) => tag,
        None => { return None; },
    };
    assert(bytes@.skip(0).skip(1) == bytes@.skip(1));
    if tag == 0 {
        match take_data(bytes, 1) {
            Some((data, next)) => if next == bytes.len() {
                Some(BinaryMessage::Data(data))
            } else {
                None
            },
            None => None,
        }
    } else if tag == 1 {
        match take_system(bytes, 1) {
            Some((system, next)) => if next == bytes.len() {
                Some(BinaryMessage::System(system))
            } else {
                None
            },
            None => None,
        }
    } else if tag == 2 {
        if bytes.len() == 1 {
            Some(BinaryMessage::ClientDisconnect)
        } else {
            None
        }
    } else {
        None
    }
}

} // verus!
