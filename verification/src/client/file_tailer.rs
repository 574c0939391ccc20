//! Tailing of one log file: which file of a directory is tailed, where
//! reading starts, how a removed or replaced file is noticed, and what is
//! sent at each turn.
//!
//! The tailer decides; its caller reads the file and the directory and
//! reports what it found.

use vstd::prelude::*;
use crate::client::process::{
    fed, file_name_matches, is_record_of, match_file_name, reassemble, rows_of, Fragment,
    Reassembly, Row,
};
use crate::message::timestamp::Timestamp;
use crate::message::{DataMessage, Message, MessageView, SystemMessage, SystemMessages};
use crate::text::{
    chars_of, comes_before, lemma_precedes_irreflexive, lemma_precedes_total,
    lemma_precedes_transitive, precedes,
};
use crate::{Applicatiton, ApplicatitonView};

verus! {

/// Milliseconds to wait after a read that brought nothing, and between two
/// looks into the directory.
pub const POLL_INTERVAL_MILLIS: u64 = 100;

/// A file that was found in the directory and opened.
#[derive(Debug, Clone, PartialEq, Eq)]
pub struct FoundFile {
    pub path: String,
    pub created: Timestamp,
}

/// What stands at the tailed path after a read that brought nothing.
#[derive(Debug, Clone, Copy, PartialEq, Eq, Structural)]
pub enum Probe {
    /// Nothing: the path is gone.
    Missing,
    /// Something that could not be opened, or whose creation time could
    /// not be read.
    Unreadable,
    /// A file created at the given time.
    Created(Timestamp),
}

/// What a read from the tailed file brought.
#[derive(Debug, Clone, PartialEq, Eq)]
pub enum ReadOutcome {
    /// A line, with its line feed if it had one.
    Line(String),
    /// Nothing new; after the poll interval the path was looked at again.
    Empty(Probe),
    /// An error.
    Failed,
}

/// What the caller reports to the tailer.
#[derive(Debug, Clone, PartialEq, Eq)]
pub enum TailEvent {
    /// The file is open; it is as long as given, in bytes.
    Started(u64),
    /// A read brought a line, with its line feed if it had one.
    Line(String),
    /// A read brought nothing new.
    NothingRead,
    /// A read failed.
    ReadFailed,
    /// The tailed path was looked at again.
    Probed(Probe),
    /// The directory was searched; the chosen file, if one was found and
    /// could be opened.
    Scanned(Option<FoundFile>),
    /// The queue to the sender is closed.
    QueueClosed,
}

/// Where the tailer stands.
#[derive(Debug, Clone, Copy, PartialEq, Eq, Structural)]
pub enum TailPhase {
    /// A file is open; tailing has not begun.
    Attached,
    /// Lines are read from the file.
    Tailing,
    /// The file is gone; the directory is searched for the next.
    Discovering,
    /// Tailing is over.
    Stopped,
}

/// What the caller does next.
#[derive(Debug, Clone, Copy, PartialEq, Eq, Structural)]
pub enum NextStep {
    /// Report the length of the open file.
    Attach,
    /// Turn to the file that was just opened or found, move to the given
    /// offset in it, then read a line.
    ReadFrom(u64),
    /// Read the next line.
    Read,
    /// Wait for the poll interval, then look at the tailed path again.
    PauseThenProbe,
    /// Search the directory.
    Discover,
    /// Wait for the poll interval, then search the directory.
    PauseThenDiscover,
    /// Stop.
    Finish,
}

/// Something to send: a row of the log or a control signal.
#[derive(Debug, Clone, PartialEq, Eq)]
pub enum Emission {
    Row(Fragment),
    Signal(SystemMessages),
}

/// The tailer's answer to an event.
#[derive(Debug, Clone, PartialEq, Eq)]
pub struct Reaction {
    pub emissions: Vec<Emission>,
    pub next: NextStep,
}

/// The tailer of one log source: the file it reads, the offset at which
/// it began to read it, and the state of line reassembly.
#[derive(Debug, Clone, PartialEq, Eq)]
pub struct FileTailer {
    pub path: String,
    pub regex: String,
    pub dir: String,
    pub created_date_time: Timestamp,
    pub start: u64,
    pub phase: TailPhase,
    pub last_line: String,
    pub end_by_new_line: bool,
}

/// Mathematical value of a [`FoundFile`].
pub struct FoundFileView {
    pub path: Seq<char>,
    pub created: Timestamp,
}

/// Mathematical value of a [`ReadOutcome`].
pub enum ReadOutcomeView {
    Line(Seq<char>),
    Empty(Probe),
    Failed,
}

/// Mathematical value of a [`TailEvent`].
pub enum TailEventView {
    Started(u64),
    Line(Seq<char>),
    NothingRead,
    ReadFailed,
    Probed(Probe),
    Scanned(Option<FoundFileView>),
    QueueClosed,
}

/// Mathematical value of an [`Emission`].
pub enum EmissionView {
    Row(Row),
    Signal(SystemMessages),
}

/// Mathematical value of a [`FileTailer`].
pub struct FileTailerView {
    pub path: Seq<char>,
    pub regex: Seq<char>,
    pub dir: Seq<char>,
    pub created_date_time: Timestamp,
    pub start: u64,
    pub phase: TailPhase,
    pub reassembly: Reassembly,
}

impl View for FoundFile {
    type V = FoundFileView;

    open spec fn view(&self) -> FoundFileView {
        FoundFileView { path: self.path@, created: self.created }
    }
}

impl View for ReadOutcome {
    type V = ReadOutcomeView;

    open spec fn view(&self) -> ReadOutcomeView {
        match self {
            ReadOutcome::Line(line) => ReadOutcomeView::Line(line@),
            ReadOutcome::Empty(probe) => ReadOutcomeView::Empty(*probe),
            ReadOutcome::Failed => ReadOutcomeView::Failed,
        }
    }
}

impl View for TailEvent {
    type V = TailEventView;

    open spec fn view(&self) -> TailEventView {
        match self {
            TailEvent::Started(length) => TailEventView::Started(*length),
            TailEvent::Line(line) => TailEventView::Line(line@),
            TailEvent::NothingRead => TailEventView::NothingRead,
            TailEvent::ReadFailed => TailEventView::ReadFailed,
            TailEvent::Probed(probe) => TailEventView::Probed(*probe),
            TailEvent::Scanned(found) => TailEventView::Scanned(
                match found {
                    Some(file) => Some(file@),
                    None => None,
                },
            ),
            TailEvent::QueueClosed => TailEventView::QueueClosed,
        }
    }
}

impl View for Emission {
    type V = EmissionView;

    open spec fn view(&self) -> EmissionView {
        match self {
            Emission::Row(fragment) => EmissionView::Row(fragment@),
            Emission::Signal(kind) => EmissionView::Signal(*kind),
        }
    }
}

impl View for FileTailer {
    type V = FileTailerView;

    open spec fn view(&self) -> FileTailerView {
        FileTailerView {
            path: self.path@,
            regex: self.regex@,
            dir: self.dir@,
            created_date_time: self.created_date_time,
            start: self.start,
            phase: self.phase,
            reassembly: Reassembly {
                last_line: self.last_line@,
                end_by_new_line: self.end_by_new_line,
            },
        }
    }
}

/// The mathematical values of `emissions`, in order.
pub open spec fn emissions_of(emissions: Seq<Emission>) -> Seq<EmissionView> {
    emissions.map_values(|emission: Emission| emission@)
}

/// `rows` as things to send.
pub open spec fn as_emissions(rows: Seq<Row>) -> Seq<EmissionView> {
    rows.map_values(|row: Row| EmissionView::Row(row))
}

/// The mathematical values of `names`, in order.
pub open spec fn names_of(names: Seq<String>) -> Seq<Seq<char>> {
    names.map_values(|name: String| name@)
}

/// Whether the file at index `i` is the one to tail among `names`: its
/// name matches the pattern, no matching name comes after it in the order
/// of [`precedes`], and it is the first to bear its name.
pub open spec fn is_chosen(names: Seq<Seq<char>>, regex: Seq<char>, i: int) -> bool {
    &&& 0 <= i < names.len()
    &&& file_name_matches(names[i], regex)
    &&& forall|j: int|
        0 <= j < names.len() && file_name_matches(#[trigger] names[j], regex) ==> !precedes(
            names[i],
            names[j],
        )
    &&& forall|j: int| 0 <= j < i ==> #[trigger] names[j] != names[i]
}

/// Chooses the file to tail among the names of a directory: of those that
/// match the pattern, the one that comes last when names are ordered
/// character by character. Nothing is chosen where no name matches.
pub fn choose_file(names: &Vec<String>, regex: &str) -> (chosen: Option<usize>)
    ensures
        match chosen {
            Some(i) => is_chosen(names_of(names@), regex@, i as int),
            None => forall|j: int|
                0 <= j < names.len() ==> !file_name_matches(#[trigger] names_of(names@)[j], regex@),
        },
{
    let ghost all = names_of(names@);
    let mut best: Option<(usize, Vec<char>)> = None;
    let mut i: usize = 0;
    while i < names.len()
        invariant
            i <= names.len(),
            all == names_of(names@),
            match best {
                Some((at, text)) => {
                    &&& at < i
                    &&& text@ == all[at as int]
                    &&& file_name_matches(all[at as int], regex@)
                    &&& forall|j: int|
                        0 <= j < i && file_name_matches(#[trigger] all[j], regex@) ==> !precedes(
                            all[at as int],
                            all[j],
                        )
                    &&& forall|j: int| 0 <= j < at ==> #[trigger] all[j] != all[at as int]
                },
                None => forall|j: int|
                    0 <= j < i ==> !file_name_matches(#[trigger] all[j], regex@),
            },
        decreases names.len() - i,
    {
        if match_file_name(names[i].as_str(), regex) {
            let candidate = chars_of(names[i].as_str());
            let better = match &best {
                Some((_, text)) => comes_before(text, &candidate),
                None => true,
            };
            if better {
                proof {
                    match best {
                        Some((at, text)) => {
                            assert forall|j: int|
                                0 <= j < i + 1 && file_name_matches(
                                    #[trigger] all[j],
                                    regex@,
                                ) implies !precedes(all[i as int], all[j]) by {
                                if precedes(all[i as int], all[j]) {
                                    if j < i {
                                        lemma_precedes_transitive(
                                            all[at as int],
                                            all[i as int],
                                            all[j],
                                        );
                                    } else {
                                        lemma_precedes_irreflexive(all[i as int]);
                                    }
                                }
                            }
                            assert forall|j: int| 0 <= j < i implies #[trigger] all[j] != all[i as int] by {
                                if all[j] == all[i as int] {
                                    assert(file_name_matches(all[j], regex@));
                                }
                            }
                        },
                        None => {
                            lemma_precedes_irreflexive(all[i as int]);
                        },
                    }
                }
                best = Some((i, candidate));
            }
        }
        i += 1;
    }
    match best {
        Some((at, _)) => Some(at),
        None => None,
    }
}

/// The choice does not depend on the order in which a directory gives its
/// names: two listings of the same names have the same name chosen.
pub proof fn lemma_choice_ignores_order(
    first: Seq<Seq<char>>,
    second: Seq<Seq<char>>,
    regex: Seq<char>,
    i: int,
    j: int,
)
    requires
        is_chosen(first, regex, i),
        is_chosen(second, regex, j),
        forall|name: Seq<char>| first.contains(name) <==> second.contains(name),
    ensures
        first[i] == second[j],
{
    if first[i] != second[j] {
        lemma_precedes_total(first[i], second[j]);
        assert(first.contains(first[i]));
        assert(second.contains(second[j]));
        if precedes(first[i], second[j]) {
            let at = choose|at: int| 0 <= at < first.len() && first[at] == second[j];
            assert(file_name_matches(first[at], regex));
        } else {
            let at = choose|at: int| 0 <= at < second.len() && second[at] == first[i];
            assert(file_name_matches(second[at], regex));
        }
    }
}

/// Whether the tailed file is still the one that was opened, as far as a
/// read tells: a line says so; an error says not; after a read that
/// brought nothing, the file is the same exactly if what stands at its path
/// was created when it was.
pub open spec fn still_there(tailer: FileTailerView, outcome: ReadOutcomeView) -> bool {
    match outcome {
        ReadOutcomeView::Line(_) => true,
        ReadOutcomeView::Empty(Probe::Created(created)) => created == tailer.created_date_time,
        ReadOutcomeView::Empty(_) => false,
        ReadOutcomeView::Failed => false,
    }
}

/// The tailer after a read, and the rows that the read gives.
pub open spec fn after_read(tailer: FileTailerView, outcome: ReadOutcomeView) -> (
    FileTailerView,
    Seq<Row>,
) {
    match outcome {
        ReadOutcomeView::Line(line) => {
            let (reassembly, rows) = fed(tailer.reassembly, line);
            (FileTailerView { reassembly, ..tailer }, rows)
        },
        _ => (tailer, Seq::empty()),
    }
}

/// The tailer after a search of the directory: on a find it reads the new
/// file from its first byte.
pub open spec fn after_scan(tailer: FileTailerView, found: Option<FoundFileView>) -> FileTailerView {
    match found {
        Some(file) => FileTailerView {
            path: file.path,
            created_date_time: file.created,
            start: 0,
            ..tailer
        },
        None => tailer,
    }
}

/// A fresh reassembly state: nothing sent, no row open.
pub open spec fn fresh_reassembly() -> Reassembly {
    Reassembly { last_line: Seq::empty(), end_by_new_line: true }
}

/// What a read brought, as an event tells it: a line, a failure, or, once
/// the path was looked at again, nothing.
pub open spec fn outcome_of(event: TailEventView) -> Option<ReadOutcomeView> {
    match event {
        TailEventView::Line(line) => Some(ReadOutcomeView::Line(line)),
        TailEventView::ReadFailed => Some(ReadOutcomeView::Failed),
        TailEventView::Probed(probe) => Some(ReadOutcomeView::Empty(probe)),
        _ => None,
    }
}

/// The tailer after an event, what it sends, and what its caller does
/// next.
///
/// Tailing begins at the end of the file. Each line read gives its rows. A
/// read that brings nothing is no error: after the poll interval the path
/// is looked at again, and reading goes on if the file is still the one
/// that was opened. If it is not, or a read fails, the file is announced as
/// removed, reassembly starts afresh, and the directory is searched, at
/// once and then after each poll interval, until a file is found; that file
/// is announced and read from its first byte. A closed queue ends tailing.
pub open spec fn reaction(tailer: FileTailerView, event: TailEventView) -> (
    FileTailerView,
    Seq<EmissionView>,
    NextStep,
) {
    if tailer.phase is Stopped || event is QueueClosed {
        (FileTailerView { phase: TailPhase::Stopped, ..tailer }, Seq::empty(), NextStep::Finish)
    } else {
        match tailer.phase {
            TailPhase::Attached => match event {
                TailEventView::Started(length) => (
                    FileTailerView {
                        start: length,
                        phase: TailPhase::Tailing,
                        reassembly: fresh_reassembly(),
                        ..tailer
                    },
                    seq![EmissionView::Signal(SystemMessages::TailingStarted)],
                    NextStep::ReadFrom(length),
                ),
                _ => (tailer, Seq::empty(), NextStep::Attach),
            },
            TailPhase::Tailing => match outcome_of(event) {
                Some(outcome) => if still_there(tailer, outcome) {
                    let (next, rows) = after_read(tailer, outcome);
                    (next, as_emissions(rows), NextStep::Read)
                } else {
                    (
                        FileTailerView {
                            phase: TailPhase::Discovering,
                            reassembly: fresh_reassembly(),
                            ..tailer
                        },
                        seq![EmissionView::Signal(SystemMessages::FileRemoved)],
                        NextStep::Discover,
                    )
                },
                None => if event is NothingRead {
                    (tailer, Seq::empty(), NextStep::PauseThenProbe)
                } else {
                    (tailer, Seq::empty(), NextStep::Read)
                },
            },
            TailPhase::Discovering => match event {
                TailEventView::Scanned(Some(file)) => (
                    FileTailerView { phase: TailPhase::Tailing, ..after_scan(tailer, Some(file)) },
                    seq![EmissionView::Signal(SystemMessages::NewFileFound)],
                    NextStep::ReadFrom(0),
                ),
                TailEventView::Scanned(None) => (tailer, Seq::empty(), NextStep::PauseThenDiscover),
                _ => (tailer, Seq::empty(), NextStep::Discover),
            },
            TailPhase::Stopped => (tailer, Seq::empty(), NextStep::Finish),
        }
    }
}

impl FileTailer {
    /// The tailer for the file that a first search of `dir` found and
    /// opened; none where nothing was found. Tailing has not begun.
    pub fn new(regex: String, dir: String, found: Option<FoundFile>) -> (tailer: Option<Self>)
        ensures
            match found {
                Some(file) => tailer matches Some(t) && t@ == (FileTailerView {
                    path: file@.path,
                    regex: regex@,
                    dir: dir@,
                    created_date_time: file@.created,
                    start: 0,
                    phase: TailPhase::Attached,
                    reassembly: fresh_reassembly(),
                }),
                None => tailer is None,
            },
    {
        match found {
            Some(file) => Some(
                FileTailer {
                    path: file.path,
                    regex,
                    dir,
                    created_date_time: file.created,
                    start: 0,
                    phase: TailPhase::Attached,
                    last_line: String::new(),
                    end_by_new_line: true,
                },
            ),
            None => None,
        }
    }

    /// Takes in what a read brought. Says whether the file is still the one
    /// that was opened, and gives the rows to send.
    pub fn read_line(&mut self, outcome: ReadOutcome) -> (read: (bool, Vec<Fragment>))
        ensures
            read.0 == still_there(old(self)@, outcome@),
            final(self)@ == after_read(old(self)@, outcome@).0,
            rows_of(read.1@) == after_read(old(self)@, outcome@).1,
    {
        match outcome {
            ReadOutcome::Line(line) => {
                let rows = reassemble(line.as_str(), &mut self.last_line, &mut self.end_by_new_line);
                (true, rows)
            },
            ReadOutcome::Empty(probe) => {
                let same_file = match probe {
                    Probe::Missing => false,
                    Probe::Unreadable => false,
                    Probe::Created(created) => created == self.created_date_time,
                };
                let rows: Vec<Fragment> = Vec::new();
                assert(rows_of(rows@) == Seq::<Row>::empty());
                (same_file, rows)
            },
            ReadOutcome::Failed => {
                let rows: Vec<Fragment> = Vec::new();
                assert(rows_of(rows@) == Seq::<Row>::empty());
                (false, rows)
            },
        }
    }

    /// Takes in what a search of the directory found. On a find the tailer
    /// moves to the new file, to read it from its first byte.
    pub fn find_next_file(&mut self, found: Option<FoundFile>) -> (moved: bool)
        ensures
            moved == found is Some,
            final(self)@ == after_scan(
                old(self)@,
                match found {
                    Some(file) => Some(file@),
                    None => None,
                },
            ),
    {
        match found {
            Some(file) => {
                self.created_date_time = file.created;
                self.path = file.path;
                self.start = 0;
                true
            },
            None => false,
        }
    }

    /// Takes in one event: what to send and what to do next.
    pub fn tail(&mut self, event: TailEvent) -> (answer: Reaction)
        ensures
            final(self)@ == reaction(old(self)@, event@).0,
            emissions_of(answer.emissions@) == reaction(old(self)@, event@).1,
            answer.next == reaction(old(self)@, event@).2,
    {
        let emissions: Vec<Emission> = Vec::new();
        assert(emissions_of(emissions@) == Seq::<EmissionView>::empty());
        match self.phase {
            TailPhase::Stopped => {
                return Reaction { emissions, next: NextStep::Finish };
            },
            _ => {},
        }
        match event {
            TailEvent::QueueClosed => {
                self.phase = TailPhase::Stopped;
                Reaction { emissions, next: NextStep::Finish }
            },
            TailEvent::Started(length) => match self.phase {
                TailPhase::Attached => {
                    self.start = length;
                    self.phase = TailPhase::Tailing;
                    self.last_line = String::new();
                    self.end_by_new_line = true;
                    Reaction {
                        emissions: one_signal(SystemMessages::TailingStarted),
                        next: NextStep::ReadFrom(length),
                    }
                },
                TailPhase::Tailing => Reaction { emissions, next: NextStep::Read },
                _ => Reaction { emissions, next: NextStep::Discover },
            },
            TailEvent::Line(line) => self.take_read(ReadOutcome::Line(line)),
            TailEvent::ReadFailed => self.take_read(ReadOutcome::Failed),
            TailEvent::Probed(probe) => self.take_read(ReadOutcome::Empty(probe)),
            TailEvent::NothingRead => match self.phase {
                TailPhase::Tailing => Reaction { emissions, next: NextStep::PauseThenProbe },
                TailPhase::Attached => Reaction { emissions, next: NextStep::Attach },
                _ => Reaction { emissions, next: NextStep::Discover },
            },
            TailEvent::Scanned(found) => match self.phase {
                TailPhase::Discovering => {
                    if self.find_next_file(found) {
                        self.phase = TailPhase::Tailing;
                        Reaction {
                            emissions: one_signal(SystemMessages::NewFileFound),
                            next: NextStep::ReadFrom(0),
                        }
                    } else {
                        Reaction { emissions, next: NextStep::PauseThenDiscover }
                    }
                },
                TailPhase::Attached => Reaction { emissions, next: NextStep::Attach },
                _ => Reaction { emissions, next: NextStep::Read },
            },
        }
    }

    fn take_read(&mut self, outcome: ReadOutcome) -> (answer: Reaction)
        requires
            !(old(self).phase is Stopped),
        ensures
            ({
                let event = match outcome@ {
                    ReadOutcomeView::Line(line) => TailEventView::Line(line),
                    ReadOutcomeView::Empty(probe) => TailEventView::Probed(probe),
                    ReadOutcomeView::Failed => TailEventView::ReadFailed,
                };
                &&& final(self)@ == reaction(old(self)@, event).0
                &&& emissions_of(answer.emissions@) == reaction(old(self)@, event).1
                &&& answer.next == reaction(old(self)@, event).2
            }),
    {
        let emissions: Vec<Emission> = Vec::new();
        assert(emissions_of(emissions@) == Seq::<EmissionView>::empty());
        match self.phase {
            TailPhase::Tailing => {
                let (same_file, rows) = self.read_line(outcome);
                if same_file {
                    Reaction { emissions: rows_to_emissions(rows), next: NextStep::Read }
                } else {
                    self.phase = TailPhase::Discovering;
                    self.last_line = String::new();
                    self.end_by_new_line = true;
                    Reaction {
                        emissions: one_signal(SystemMessages::FileRemoved),
                        next: NextStep::Discover,
                    }
                }
            },
            TailPhase::Attached => Reaction { emissions, next: NextStep::Attach },
            _ => Reaction { emissions, next: NextStep::Discover },
        }
    }
}

fn one_signal(kind: SystemMessages) -> (emissions: Vec<Emission>)
    ensures
        emissions_of(emissions@) == seq![EmissionView::Signal(kind)],
{
    let mut emissions: Vec<Emission> = Vec::new();
    emissions.push(Emission::Signal(kind));
    assert(emissions_of(emissions@) == seq![EmissionView::Signal(kind)]);
    emissions
}

fn rows_to_emissions(rows: Vec<Fragment>) -> (emissions: Vec<Emission>)
    ensures
        emissions_of(emissions@) == as_emissions(rows_of(rows@)),
{
    let mut emissions: Vec<Emission> = Vec::new();
    let mut i: usize = 0;
    while i < rows.len()
        invariant
            i <= rows.len(),
            emissions@.len() == i,
            forall|j: int| 0 <= j < i ==> (#[trigger] emissions@[j])@ == EmissionView::Row(rows@[j]@),
        decreases rows.len() - i,
    {
        let fragment = Fragment {
            row: rows[i].row.clone(),
            replace_last_row: rows[i].replace_last_row,
        };
        emissions.push(Emission::Row(fragment));
        i += 1;
    }
    assert(emissions_of(emissions@) =~= as_emissions(rows_of(rows@)));
    emissions
}

/// Whether `message` is the one to send for `emission` under
/// `application`.
pub open spec fn is_message_of(
    message: MessageView,
    emission: EmissionView,
    application: ApplicatitonView,
) -> bool {
    match emission {
        EmissionView::Row(row) => is_record_of(message, row, application),
        EmissionView::Signal(kind) => message matches MessageView::System(system)
            && system.message_type == "System"@ && system.application == application
            && system.message == kind,
    }
}

/// The message to send for `emission`, stamped with the current time.
pub fn publish(emission: Emission, application: Applicatiton) -> (message: Message)
    ensures
        is_message_of(message@, emission@, application@),
        message@.well_stamped(),
{
    match emission {
        Emission::Row(fragment) => Message::Data(
            DataMessage::new(fragment.row, application, fragment.replace_last_row),
        ),
        Emission::Signal(kind) => Message::System(SystemMessage::new(application, kind)),
    }
}

/// What a tailer has yet to read of a file that holds `content`: the bytes
/// from its starting offset on.
pub open spec fn unread(tailer: FileTailerView, content: Seq<u8>) -> Seq<u8> {
    if tailer.start <= content.len() {
        content.skip(tailer.start as int)
    } else {
        Seq::empty()
    }
}

/// Tailing begins at the end of the file. Of a file that held `before`
/// when tailing began and to which `later` was written since, the tailer
/// has its caller read from the end of `before`, so that it reads `later`
/// and nothing of `before`; beginning itself sends the signal that tailing
/// has started and no row.
pub proof fn lemma_tailing_starts_at_the_end(
    tailer: FileTailerView,
    before: Seq<u8>,
    later: Seq<u8>,
)
    requires
        tailer.phase is Attached,
        before.len() <= u64::MAX,
    ensures
        ({
            let (attached, emissions, next) = reaction(
                tailer,
                TailEventView::Started(before.len() as u64),
            );
            &&& attached.phase is Tailing
            &&& attached.start == before.len()
            &&& attached.reassembly == fresh_reassembly()
            &&& emissions == seq![EmissionView::Signal(SystemMessages::TailingStarted)]
            &&& next == NextStep::ReadFrom(before.len() as u64)
            &&& unread(attached, before).len() == 0
            &&& unread(attached, before + later) == later
        }),
{
    assert((before + later).skip(before.len() as int) == later);
}

/// A file that is replaced under its name is announced once as removed
/// and once as found. After a read that brings nothing, a look at the path
/// that finds a file with another creation time sends `FileRemoved` alone
/// and turns to the directory; until a file is found there, nothing more is sent; the
/// find sends `NewFileFound` alone, and reading goes on at the first byte of
/// the new file with a fresh reassembly state. Whether the old file still
/// exists plays no part.
pub proof fn lemma_replaced_file_is_announced_once(
    tailer: FileTailerView,
    created: Timestamp,
    replacement: FoundFileView,
)
    requires
        tailer.phase is Tailing,
        created != tailer.created_date_time,
    ensures
        ({
            let (waiting, silent, wait) = reaction(tailer, TailEventView::NothingRead);
            let (searching, removed, turn) = reaction(
                waiting,
                TailEventView::Probed(Probe::Created(created)),
            );
            let (resumed, found, step) = reaction(
                searching,
                TailEventView::Scanned(Some(replacement)),
            );
            &&& waiting == tailer
            &&& silent.len() == 0
            &&& wait is PauseThenProbe
            &&& removed == seq![EmissionView::Signal(SystemMessages::FileRemoved)]
            &&& turn is Discover
            &&& searching.phase is Discovering
            &&& forall|event: TailEventView|
                !(event is QueueClosed) && !(event matches TailEventView::Scanned(Some(_)))
                    ==> (#[trigger] reaction(searching, event)).0 == searching && reaction(
                    searching,
                    event,
                ).1.len() == 0
            &&& found == seq![EmissionView::Signal(SystemMessages::NewFileFound)]
            &&& step == NextStep::ReadFrom(0)
            &&& resumed.phase is Tailing
            &&& resumed.start == 0
            &&& resumed.path == replacement.path
            &&& resumed.created_date_time == replacement.created
            &&& resumed.reassembly == fresh_reassembly()
        }),
{
}

/// A read that brings nothing is no error: the caller waits and looks at
/// the path, and a file that it finds unchanged is read on; nothing is
/// changed and nothing sent.
pub proof fn lemma_unchanged_file_is_kept(tailer: FileTailerView)
    requires
        tailer.phase is Tailing,
    ensures
        reaction(tailer, TailEventView::NothingRead) == (
            tailer,
            Seq::<EmissionView>::empty(),
            NextStep::PauseThenProbe,
        ),
        reaction(tailer, TailEventView::Probed(Probe::Created(tailer.created_date_time))) == (
            tailer,
            Seq::<EmissionView>::empty(),
            NextStep::Read,
        ),
{
    assert(as_emissions(Seq::<Row>::empty()) == Seq::<EmissionView>::empty());
}

} // verus!
