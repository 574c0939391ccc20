//! One session of a log source with the relay server: how lines read from
//! a file become records, which file names are tailed, which messages are
//! let through to the server, and when the session ends.

use vstd::prelude::*;
use crate::client::configuration::LogConfiguration;
use crate::message::wire::{message_fits, to_vec, wire_message};
use crate::message::{BinaryMessage, DataMessage, Message, MessageView, SystemMessages};
use crate::text::{chars_of, decimal, push_decimal, string_of_range};
use crate::ApplicatitonView;

verus! {

/// What is remembered from one read to the next: whether no line is open,
/// and a text. While a line is open, the text is what was read of it so
/// far; otherwise it is the text of the row sent last.
pub struct Reassembly {
    pub last_line: Seq<char>,
    pub end_by_new_line: bool,
}

/// Mathematical value of a [`Fragment`].
pub struct Row {
    pub text: Seq<char>,
    pub replace_last_row: bool,
}

/// A row to send: its text, and whether it takes the place of the row sent
/// before it.
#[derive(Debug, Clone, PartialEq, Eq)]
pub struct Fragment {
    pub row: String,
    pub replace_last_row: bool,
}

impl View for Fragment {
    type V = Row;

    open spec fn view(&self) -> Row {
        Row { text: self.row@, replace_last_row: self.replace_last_row }
    }
}

/// The mathematical values of `fragments`, in order.
pub open spec fn rows_of(fragments: Seq<Fragment>) -> Seq<Row> {
    fragments.map_values(|fragment: Fragment| fragment@)
}

/// The pieces of `text` between occurrences of `separator`: one more piece
/// than there are separators, empty pieces included.
pub open spec fn split(text: Seq<char>, separator: char) -> Seq<Seq<char>>
    decreases text.len(),
{
    if text.len() == 0 {
        seq![Seq::empty()]
    } else {
        let before = split(text.drop_last(), separator);
        if text.last() == separator {
            before.push(Seq::empty())
        } else {
            before.update(before.len() - 1, before.last().push(text.last()))
        }
    }
}

/// The whole of a line whose end has arrived, where `text` is what was
/// read of it together with its line feed: after the text kept of it, if
/// the line is open.
pub open spec fn whole_line(state: Reassembly, text: Seq<char>) -> Seq<char> {
    if state.end_by_new_line {
        text
    } else {
        state.last_line + text
    }
}

/// What the end of a line does, where `text` is what was read of the line
/// together with its line feed. The whole line makes one row, which
/// replaces the last if the line was open and is new if it was not, and
/// its text is remembered. A line without text makes no row and leaves the
/// remembered text as it is. In every case no line is open afterwards.
pub open spec fn close_line(state: (Reassembly, Seq<Row>), text: Seq<char>) -> (
    Reassembly,
    Seq<Row>,
) {
    let whole = whole_line(state.0, text);
    if whole.len() == 0 {
        (Reassembly { last_line: state.0.last_line, end_by_new_line: true }, state.1)
    } else {
        (
            Reassembly { last_line: whole, end_by_new_line: true },
            state.1.push(Row { text: whole, replace_last_row: !state.0.end_by_new_line }),
        )
    }
}

/// [`close_line`] applied to each of `lines` in turn.
pub open spec fn close_lines(state: (Reassembly, Seq<Row>), lines: Seq<Seq<char>>) -> (
    Reassembly,
    Seq<Row>,
)
    decreases lines.len(),
{
    if lines.len() == 0 {
        state
    } else {
        close_line(close_lines(state, lines.drop_last()), lines.last())
    }
}

/// What text without a line feed at its end does: it is kept, after the
/// text already kept if a line is open and in place of the remembered text
/// if none is, and sent only once the end of its line arrives. No text
/// changes nothing.
pub open spec fn keep_partial(state: Reassembly, text: Seq<char>) -> Reassembly {
    if text.len() == 0 {
        state
    } else if state.end_by_new_line {
        Reassembly { last_line: text, end_by_new_line: false }
    } else {
        Reassembly { last_line: state.last_line + text, end_by_new_line: false }
    }
}

/// What reading `line` does to the reassembly state, and the rows it
/// gives: each part of `line` that ends in a line feed closes a line, and
/// what follows the last line feed is kept.
pub open spec fn fed(state: Reassembly, line: Seq<char>) -> (Reassembly, Seq<Row>) {
    let pieces = split(line, '\n');
    let (after, rows) = close_lines((state, Seq::empty()), pieces.drop_last());
    (keep_partial(after, pieces.last()), rows)
}

/// Text without a separator is one piece.
pub proof fn lemma_split_plain(text: Seq<char>, separator: char)
    requires
        !text.contains(separator),
    ensures
        split(text, separator) == seq![text],
    decreases text.len(),
{
    if text.len() > 0 {
        let shorter = text.drop_last();
        assert forall|i: int| 0 <= i < shorter.len() implies shorter[i] != separator by {
            assert(text[i] == shorter[i]);
            assert(text.contains(text[i]));
        }
        assert(text.contains(text.last()));
        lemma_split_plain(shorter, separator);
        assert(shorter.push(text.last()) == text);
        assert(seq![shorter].update(0, text) == seq![text]);
    } else {
        assert(text == Seq::<char>::empty());
    }
}

/// A line with its line feed is split into its text and an empty piece.
pub proof fn lemma_split_closed_line(text: Seq<char>)
    requires
        !text.contains('\n'),
    ensures
        split(text.push('\n'), '\n') == seq![text, Seq::<char>::empty()],
{
    lemma_split_plain(text, '\n');
    assert(text.push('\n').drop_last() == text);
    assert(seq![text].push(Seq::<char>::empty()) == seq![text, Seq::<char>::empty()]);
}

/// A line read whole, line feed included, gives one new row with its
/// text, which is then remembered; a line without text gives no row.
pub proof fn lemma_whole_line(state: Reassembly, text: Seq<char>)
    requires
        state.end_by_new_line,
        !text.contains('\n'),
    ensures
        fed(state, text.push('\n')) == if text.len() == 0 {
            (state, Seq::<Row>::empty())
        } else {
            (
                Reassembly { last_line: text, end_by_new_line: true },
                seq![Row { text, replace_last_row: false }],
            )
        },
{
    let none = Seq::<Row>::empty();
    lemma_split_closed_line(text);
    let pieces = seq![text, Seq::<char>::empty()];
    let lines = seq![text];
    assert(pieces.drop_last() == lines);
    assert(lines.drop_last() == Seq::<Seq<char>>::empty());
    assert(close_lines((state, none), Seq::<Seq<char>>::empty()) == (state, none));
    assert(close_lines((state, none), lines) == close_line((state, none), text));
    assert(none.push(Row { text, replace_last_row: false }) == seq![
        Row { text, replace_last_row: false },
    ]);
}

/// A line that arrives in two reads is sent once. Its first part, read
/// without a line feed after a closed line, gives no row and is kept; the
/// rest, read with the line feed, gives exactly one row, which holds the
/// whole line and replaces the last. The whole line is then remembered and
/// no line is open.
pub proof fn lemma_line_in_two_reads(state: Reassembly, first: Seq<char>, rest: Seq<char>)
    requires
        state.end_by_new_line,
        first.len() > 0,
        !first.contains('\n'),
        !rest.contains('\n'),
    ensures
        fed(state, first) == (
            Reassembly { last_line: first, end_by_new_line: false },
            Seq::<Row>::empty(),
        ),
        fed(fed(state, first).0, rest.push('\n')) == (
            Reassembly { last_line: first + rest, end_by_new_line: true },
            seq![Row { text: first + rest, replace_last_row: true }],
        ),
{
    let none = Seq::<Row>::empty();
    let nothing = Seq::<Seq<char>>::empty();
    lemma_split_plain(first, '\n');
    assert(seq![first].drop_last() == nothing);
    assert(close_lines((state, none), nothing) == (state, none));
    let open = Reassembly { last_line: first, end_by_new_line: false };
    assert(fed(state, first).0 == open);
    lemma_split_closed_line(rest);
    let pieces = seq![rest, Seq::<char>::empty()];
    let lines = seq![rest];
    assert(pieces.drop_last() == lines);
    assert(lines.drop_last() == nothing);
    assert(close_lines((open, none), nothing) == (open, none));
    assert(close_lines((open, none), lines) == close_line((open, none), rest));
    let whole = Row { text: first + rest, replace_last_row: true };
    assert(none.push(whole) == seq![whole]);
}

/// A read of at most one line gives at most one row, and no row is empty.
/// The row replaces the last exactly if a line was open before the read.
pub proof fn lemma_at_most_one_row(state: Reassembly, text: Seq<char>, ended: bool)
    requires
        !text.contains('\n'),
    ensures
        ({
            let line = if ended {
                text.push('\n')
            } else {
                text
            };
            let rows = fed(state, line).1;
            &&& rows.len() <= 1
            &&& rows.len() == 1 ==> rows[0].text.len() > 0 && rows[0].replace_last_row
                == !state.end_by_new_line && ended
        }),
{
    let none = Seq::<Row>::empty();
    let nothing = Seq::<Seq<char>>::empty();
    if ended {
        lemma_split_closed_line(text);
        let pieces = seq![text, Seq::<char>::empty()];
        let lines = seq![text];
        assert(pieces.drop_last() == lines);
        assert(lines.drop_last() == nothing);
        assert(close_lines((state, none), nothing) == (state, none));
        assert(close_lines((state, none), lines) == close_line((state, none), text));
    } else {
        lemma_split_plain(text, '\n');
        assert(seq![text].drop_last() == nothing);
        assert(close_lines((state, none), nothing) == (state, none));
    }
}

fn close_range(
    chars: &Vec<char>,
    from: usize,
    to: usize,
    last_line: &mut String,
    end_by_new_line: &mut bool,
    rows: &mut Vec<Fragment>,
)
    requires
        from <= to <= chars.len(),
    ensures
        (
            Reassembly { last_line: final(last_line)@, end_by_new_line: *final(end_by_new_line) },
            rows_of(final(rows)@),
        ) == close_line(
            (
                Reassembly { last_line: old(last_line)@, end_by_new_line: *old(end_by_new_line) },
                rows_of(old(rows)@),
            ),
            chars@.subrange(from as int, to as int),
        ),
{
    let text = string_of_range(chars, from, to);
    if !*end_by_new_line {
        last_line.append(text.as_str());
        if !last_line.as_str().is_empty() {
            let fragment = Fragment { row: last_line.clone(), replace_last_row: true };
            rows.push(fragment);
            assert(rows_of(rows@) == rows_of(old(rows)@).push(fragment@));
        } else {
            assert(last_line@ == old(last_line)@);
        }
    } else if from < to {
        let fragment = Fragment { row: text.clone(), replace_last_row: false };
        rows.push(fragment);
        assert(rows_of(rows@) == rows_of(old(rows)@).push(fragment@));
        *last_line = text;
    }
    *end_by_new_line = true;
}

fn keep_range(
    chars: &Vec<char>,
    from: usize,
    to: usize,
    last_line: &mut String,
    end_by_new_line: &mut bool,
)
    requires
        from <= to <= chars.len(),
    ensures
        (Reassembly { last_line: final(last_line)@, end_by_new_line: *final(end_by_new_line) })
            == keep_partial(
            Reassembly { last_line: old(last_line)@, end_by_new_line: *old(end_by_new_line) },
            chars@.subrange(from as int, to as int),
        ),
{
    if from == to {
        return ;
    }
    let text = string_of_range(chars, from, to);
    if *end_by_new_line {
        *last_line = text;
        *end_by_new_line = false;
    } else {
        last_line.append(text.as_str());
    }
}

/// Takes in one line as it was read, with its line feed if it had one, and
/// gives the rows to send for it.
pub fn reassemble(line: &str, last_line: &mut String, end_by_new_line: &mut bool) -> (rows: Vec<
    Fragment,
>)
    ensures
        (
            Reassembly { last_line: final(last_line)@, end_by_new_line: *final(end_by_new_line) },
            rows_of(rows@),
        ) == fed(
            Reassembly { last_line: old(last_line)@, end_by_new_line: *old(end_by_new_line) },
            line@,
        ),
{
    let ghost initial = Reassembly {
        last_line: old(last_line)@,
        end_by_new_line: *old(end_by_new_line),
    };
    let mut rows: Vec<Fragment> = Vec::new();
    let chars = chars_of(line);
    let n = chars.len();
    let ghost mut done: Seq<Seq<char>> = Seq::empty();
    let mut start: usize = 0;
    let mut i: usize = 0;
    assert(rows_of(rows@) == Seq::<Row>::empty());
    assert(chars@.subrange(0, 0) == Seq::<char>::empty());
    assert(chars@.take(0) == Seq::<char>::empty());
    assert(split(chars@.take(0), '\n') == done.push(chars@.subrange(0, 0)));
    while i < n
        invariant
            start <= i <= n,
            n == chars.len(),
            split(chars@.take(i as int), '\n') == done.push(
                chars@.subrange(start as int, i as int),
            ),
            close_lines((initial, Seq::empty()), done) == (
                Reassembly { last_line: last_line@, end_by_new_line: *end_by_new_line },
                rows_of(rows@),
            ),
        decreases n - i,
    {
        let ghost piece = chars@.subrange(start as int, i as int);
        proof {
            assert(chars@.take(i + 1).drop_last() == chars@.take(i as int));
        }
        if chars[i] == '\n' {
            close_range(&chars, start, i, last_line, end_by_new_line, &mut rows);
            proof {
                let longer = done.push(piece);
                assert(longer.drop_last() == done);
                done = longer;
                assert(chars@.subrange(i + 1, i + 1) == Seq::<char>::empty());
            }
            start = i + 1;
        } else {
            proof {
                let grown = chars@.subrange(start as int, i + 1);
                assert(piece.push(chars@[i as int]) == grown);
                assert(done.push(piece).update(done.len() as int, grown) == done.push(grown));
            }
        }
        i += 1;
    }
    proof {
        let pieces = done.push(chars@.subrange(start as int, n as int));
        assert(chars@.take(n as int) == chars@);
        assert(pieces.drop_last() == done);
    }
    keep_range(&chars, start, n, last_line, end_by_new_line);
    rows
}

/// Whether `message` is the record for `row` under `application`.
pub open spec fn is_record_of(message: MessageView, row: Row, application: ApplicatitonView) -> bool {
    message matches MessageView::Data(data) && data.message_type == "Data"@ && data.row
        == row.text && data.application == application && data.replace_last_row
        == row.replace_last_row
}

/// Takes in one line as it was read and gives the records to send for it,
/// in order, each stamped with the time at which it was made, a well-formed
/// time.
pub fn process_line(
    line: String,
    last_line: &mut String,
    end_by_new_line: &mut bool,
    config: &LogConfiguration,
) -> (messages: Vec<Message>)
    ensures
        ({
            let after = fed(
                Reassembly { last_line: old(last_line)@, end_by_new_line: *old(end_by_new_line) },
                line@,
            );
            &&& final(last_line)@ == after.0.last_line
            &&& *final(end_by_new_line) == after.0.end_by_new_line
            &&& messages@.len() == after.1.len()
            &&& forall|i: int|
                0 <= i < messages@.len() ==> is_record_of(
                    #[trigger] messages@[i]@,
                    after.1[i],
                    config@.application,
                ) && messages@[i]@.well_stamped()
        }),
{
    let rows = reassemble(line.as_str(), last_line, end_by_new_line);
    let mut messages: Vec<Message> = Vec::new();
    let mut i: usize = 0;
    while i < rows.len()
        invariant
            i <= rows.len(),
            messages@.len() == i,
            forall|j: int|
                0 <= j < i ==> is_record_of(
                    #[trigger] messages@[j]@,
                    rows_of(rows@)[j],
                    config@.application,
                ) && messages@[j]@.well_stamped(),
        decreases rows.len() - i,
    {
        let message = DataMessage::new(
            rows[i].row.clone(),
            config.get_application(),
            rows[i].replace_last_row,
        );
        messages.push(Message::Data(message));
        i += 1;
    }
    messages
}

/// What `regex::Regex::new` on `pattern`, followed by `is_match` on
/// `haystack`, gives: nothing where the pattern is refused, be it for its
/// syntax or for the size of what it compiles to, else whether the pattern
/// is found anywhere in the haystack.
pub uninterp spec fn regex_search(pattern: Seq<char>, haystack: Seq<char>) -> Option<bool>;

/// `regex::Regex::new` and, on the compiled pattern, `Regex::is_match`.
/// The result is the one that [`regex_search`] names.
#[verifier::external_body]
fn search(pattern: &str, haystack: &str) -> (found: Option<bool>)
    ensures
        found == regex_search(pattern@, haystack@),
{
    match regex::Regex::new(pattern) {
        Ok(compiled) => Some(compiled.is_match(haystack)),
        Err(_) => None,
    }
}

/// Whether a file called `file_name` is tailed under the pattern `regex`.
pub open spec fn file_name_matches(file_name: Seq<char>, regex: Seq<char>) -> bool {
    regex_search(regex, file_name) == Some(true)
}

/// What a search result means for a file name: the name is taken only
/// where the pattern was accepted and found.
pub fn match_outcome(found: Option<bool>) -> (matched: bool)
    ensures
        matched == (found == Some(true)),
{
    match found {
        Some(matched) => matched,
        None => false,
    }
}

/// Whether the pattern `regex` is found in `file_name`. A pattern that is
/// refused matches nothing.
pub fn match_file_name(file_name: &str, regex: &str) -> (matched: bool)
    ensures
        matched == file_name_matches(file_name@, regex@),
{
    match_outcome(search(regex, file_name))
}

/// Whether the sender lets messages through.
#[derive(Debug, Clone, Copy, PartialEq, Eq, Structural)]
pub enum SendState {
    Paused,
    Sending,
    Terminated,
}

/// What the sender does with one message.
#[derive(Debug, Clone, Copy, PartialEq, Eq, Structural)]
pub enum Passage {
    Forward,
    Drop,
    Stop,
}

/// The control signal that `message` carries, if it is one.
pub open spec fn control_of(message: MessageView) -> Option<SystemMessages> {
    match message {
        MessageView::System(system) => Some(system.message),
        _ => None,
    }
}

/// The sender's state after `message`. `Stop` ends the session from any
/// state; `Start` and `Resume` let messages through; `Pause` holds them; anything
/// else leaves it as it is.
pub open spec fn next_send_state(state: SendState, message: MessageView) -> SendState {
    if state is Terminated {
        SendState::Terminated
    } else {
        match control_of(message) {
            Some(SystemMessages::Stop) => SendState::Terminated,
            Some(SystemMessages::Start) => SendState::Sending,
            Some(SystemMessages::Resume) => SendState::Sending,
            Some(SystemMessages::Pause) => SendState::Paused,
            _ => state,
        }
    }
}

/// What becomes of `message`: it is forwarded where the sender lets
/// messages through once the message has acted on it, dropped where it does
/// not.
pub open spec fn passage(state: SendState, message: MessageView) -> Passage {
    match next_send_state(state, message) {
        SendState::Terminated => Passage::Stop,
        SendState::Sending => Passage::Forward,
        SendState::Paused => Passage::Drop,
    }
}

/// The bytes written for `message`, if any are: those of a forwarded
/// message whose strings fit the byte form.
pub open spec fn frame_for(state: SendState, message: MessageView) -> Option<Seq<u8>> {
    if passage(state, message) is Forward && message_fits(message.to_binary()) {
        Some(wire_message(message.to_binary()))
    } else {
        None
    }
}

impl SendState {
    /// A session starts paused.
    pub fn initial() -> (state: SendState)
        ensures
            state is Paused,
    {
        SendState::Paused
    }
}

/// Decides what the sender does with `message` and which state it is in
/// afterwards.
pub fn decide(state: SendState, message: &Message) -> (decided: (SendState, Passage))
    ensures
        decided.0 == next_send_state(state, message@),
        decided.1 == passage(state, message@),
{
    let next = match state {
        SendState::Terminated => SendState::Terminated,
        _ => match message {
            Message::System(system) => match system.message {
                SystemMessages::Stop => SendState::Terminated,
                SystemMessages::Start => SendState::Sending,
                SystemMessages::Resume => SendState::Sending,
                SystemMessages::Pause => SendState::Paused,
                _ => state,
            },
            _ => state,
        },
    };
    let decision = match next {
        SendState::Terminated => Passage::Stop,
        SendState::Sending => Passage::Forward,
        SendState::Paused => Passage::Drop,
    };
    (next, decision)
}

/// Takes one message from the queue: the sender's next state and the
/// bytes to write to the server, if any. Only a message that is forwarded
/// is turned into its byte form, so only its time must be countable in
/// `i64` nanoseconds.
pub fn send_step(state: SendState, message: Message) -> (step: (SendState, Option<Vec<u8>>))
    requires
        passage(state, message@) is Forward ==> message@.fits_binary(),
    ensures
        step.0 == next_send_state(state, message@),
        match frame_for(state, message@) {
            Some(bytes) => step.1 matches Some(written) && written@ == bytes,
            None => step.1 is None,
        },
{
    let (next, decision) = decide(state, &message);
    match decision {
        Passage::Forward => {
            let binary_message = BinaryMessage::from(message);
            (next, to_vec(&binary_message))
        },
        _ => (next, None),
    }
}

/// A second `Resume` changes nothing: the sender is sending after the
/// first and stays so, and a `Resume` that finds it sending leaves it as it
/// was. What is forwarded is the signal itself, once for each time it
/// is taken from the queue; no other message is sent again.
pub proof fn lemma_resume_is_idempotent(state: SendState, resume: MessageView)
    requires
        control_of(resume) == Some(SystemMessages::Resume),
    ensures
        next_send_state(SendState::Sending, resume) == SendState::Sending,
        next_send_state(next_send_state(state, resume), resume) == next_send_state(state, resume),
        passage(next_send_state(state, resume), resume) == passage(state, resume),
        forall|other: MessageView|
            next_send_state(next_send_state(next_send_state(state, resume), resume), other)
                == next_send_state(next_send_state(state, resume), other) && frame_for(
                next_send_state(next_send_state(state, resume), resume),
                other,
            ) == frame_for(next_send_state(state, resume), other),
{
}

/// While the sender is paused nothing but the signal that ends the pause
/// is written, and records are not kept for later.
pub proof fn lemma_paused_drops(message: MessageView)
    requires
        control_of(message) != Some(SystemMessages::Start),
        control_of(message) != Some(SystemMessages::Resume),
    ensures
        frame_for(SendState::Paused, message) is None,
{
}

/// A frame that arrived from the server. A text frame holds the message
/// that its JSON spells, or nothing where it spells none.
#[derive(Debug, Clone, PartialEq, Eq)]
pub enum ServerFrame {
    Text(Option<Message>),
    Binary,
    Ping,
    Pong,
    Close,
    Frame,
}

/// The receiver lost the connection.
#[derive(Debug, Clone, Copy, PartialEq, Eq, Structural)]
pub struct TransportFailure;

/// The message that the receiver puts into the queue for what it read.
pub open spec fn injected(read: Result<ServerFrame, TransportFailure>) -> Option<Message> {
    match read {
        Ok(ServerFrame::Text(Some(message))) => Some(message),
        _ => None,
    }
}

/// Whether the receiver goes on after what it read: a close frame and a
/// lost connection end it.
pub open spec fn receiving_goes_on(read: Result<ServerFrame, TransportFailure>) -> bool {
    match read {
        Ok(ServerFrame::Close) => false,
        Err(_) => false,
        _ => true,
    }
}

/// Takes what the receiver read: the message to put into the queue, if
/// any, and whether the receiver goes on.
pub fn process_message(message: Result<ServerFrame, TransportFailure>) -> (outcome: (
    Option<Message>,
    bool,
))
    ensures
        outcome.0 == injected(message),
        outcome.1 == receiving_goes_on(message),
{
    match message {
        Ok(frame) => match frame {
            ServerFrame::Text(parsed) => match parsed {
                Some(message) => (Some(message), true),
                None => (None, true),
            },
            ServerFrame::Binary => (None, true),
            ServerFrame::Ping => (None, true),
            ServerFrame::Pong => (None, true),
            ServerFrame::Close => (None, false),
            ServerFrame::Frame => (None, true),
        },
        Err(_) => (None, false),
    }
}

/// Seconds to wait after a session has ended before the next is tried.
pub const RECONNECT_DELAY_SECONDS: u64 = 20;

/// Seconds to wait before looking again for a file to tail when none was
/// found at the start of a session.
pub const FILE_WAIT_SECONDS: u64 = 2;

/// A port as it is written in an address.
pub open spec fn port_text(port: i16) -> Seq<char> {
    if port < 0 {
        seq!['-'] + decimal((-port) as nat)
    } else {
        decimal(port as nat)
    }
}

/// Host and port of the relay server as they stand in its address: the
/// host alone where the port is 0.
pub open spec fn authority_text(host: Seq<char>, port: i16) -> Seq<char> {
    if port == 0 {
        host
    } else {
        host + seq![':'] + port_text(port)
    }
}

/// The address at which a session is opened.
pub open spec fn uri_text(host: Seq<char>, port: i16, path: Seq<char>) -> Seq<char> {
    "ws://"@ + authority_text(host, port) + seq!['/'] + path
}

/// Host and port of the relay server of `config`, as sent in the `Host`
/// header.
pub fn server_authority(config: &LogConfiguration) -> (authority: String)
    ensures
        authority@ == authority_text(config@.server_host, config@.server_port),
{
    let mut authority = config.get_server_host();
    let port = config.get_server_port();
    if port != 0 {
        authority.push(':');
        if port < 0 {
            authority.push('-');
            push_decimal(&mut authority, (-(port as i64)) as u64);
        } else {
            push_decimal(&mut authority, port as u64);
        }
        assert(authority@ == authority_text(config@.server_host, config@.server_port));
    }
    authority
}

/// The address at which the session of `config` is opened.
pub fn server_uri(config: &LogConfiguration) -> (uri: String)
    ensures
        uri@ == uri_text(config@.server_host, config@.server_port, config@.server_path),
{
    let mut uri = String::from_str("ws://");
    let authority = server_authority(config);
    uri.append(authority.as_str());
    uri.push('/');
    uri.append(config.server_path.as_str());
    uri
}

/// Why one half of a session, the receiver or the sender, came to its end.
#[derive(Debug, Clone, Copy, PartialEq, Eq, Structural)]
pub enum HalfExit {
    /// It ended by itself: the connection closed or failed, the queue
    /// closed, or a `Stop` arrived.
    OwnAccord,
    /// The other half told it to stop.
    AbortedByPeer,
}

/// Which halves of a session are still running.
#[derive(Debug, Clone, Copy, PartialEq, Eq, Structural)]
pub struct SessionHalves {
    pub receiver_running: bool,
    pub sender_running: bool,
}

impl SessionHalves {
    /// Both halves run when a session starts.
    pub fn new() -> (halves: SessionHalves)
        ensures
            halves.receiver_running,
            halves.sender_running,
    {
        SessionHalves { receiver_running: true, sender_running: true }
    }

    /// A session is complete once both halves have stopped.
    pub open spec fn complete(self) -> bool {
        !self.receiver_running && !self.sender_running
    }

    pub fn is_complete(&self) -> (complete: bool)
        ensures
            complete == self.complete(),
    {
        !self.receiver_running && !self.sender_running
    }

    /// Notes that the receiver has stopped. Says whether it must tell the
    /// sender to stop: it must unless the sender stopped it.
    pub fn receiver_stopped(&mut self, exit: HalfExit) -> (abort_sender: bool)
        ensures
            !final(self).receiver_running,
            final(self).sender_running == old(self).sender_running,
            abort_sender == (exit is OwnAccord),
    {
        self.receiver_running = false;
        match exit {
            HalfExit::OwnAccord => true,
            HalfExit::AbortedByPeer => false,
        }
    }

    /// Notes that the sender has stopped. Says whether it must tell the
    /// receiver to stop: it must unless the receiver stopped it.
    pub fn sender_stopped(&mut self, exit: HalfExit) -> (abort_receiver: bool)
        ensures
            !final(self).sender_running,
            final(self).receiver_running == old(self).receiver_running,
            abort_receiver == (exit is OwnAccord),
    {
        self.sender_running = false;
        match exit {
            HalfExit::OwnAccord => true,
            HalfExit::AbortedByPeer => false,
        }
    }
}

} // verus!
