//! The dispatcher and the orchestrator of a run: which records become units,
//! when the sink is told to close, and how the failures are tallied.
//!
//! Reading records, running units and talking to the sink are the caller's
//! work. This module holds the decisions: the caller hands over each event and
//! does what the returned command says.

use vstd::prelude::*;
use osmpbfreader::Tags;
use crate::museum::{block_text, Museum};
use crate::sink::{Message, MessageView};
use crate::tags::{admit_tags, entries_of, kept_entries, qualifies, ValidTags};
use crate::text::{decimal_text, push_decimal};

verus! {

/// What a unit sends to the sink once its probe is settled: the block of the
/// museum where a page mentioned art, nothing where none did.
pub fn process_museum(museum: &Museum, found: bool) -> (message: Option<Message>)
    ensures
        found ==> (message matches Some(sent) && sent@ == MessageView::Data(
            block_text(museum@),
        )),
        !found ==> message is None,
{
    if found {
        Some(Message::Data(museum.to_string()))
    } else {
        None
    }
}

/// How a unit ended.
#[derive(Clone, Copy, Debug, PartialEq, Eq, Structural)]
pub enum UnitOutcome {
    /// The unit ran to its end.
    Completed,
    /// The unit could not hand its block to the sink.
    SendFailed,
    /// The unit was stopped by a fault.
    Faulted,
}

impl UnitOutcome {
    /// The unit did not run to its end.
    pub open spec fn failed(self) -> bool {
        self != UnitOutcome::Completed
    }

    /// Tests whether the unit did not run to its end.
    pub fn is_failure(self) -> (failure: bool)
        ensures
            failure == self.failed(),
    {
        match self {
            UnitOutcome::Completed => false,
            UnitOutcome::SendFailed => true,
            UnitOutcome::Faulted => true,
        }
    }
}

/// The tally of a run.
#[derive(Clone, Copy, Debug, PartialEq, Eq, Structural)]
pub struct PipelineOutcome {
    /// The number of units that failed.
    pub failures: usize,
}

/// The line that sums a run up.
pub open spec fn summary_text(failures: nat) -> Seq<char> {
    decimal_text(failures) + " error/s occured while processing museums."@
}

impl PipelineOutcome {
    /// The line that sums the run up.
    pub fn summary(&self) -> (line: String)
        ensures
            line@ == summary_text(self.failures as nat),
    {
        let mut line = String::new();
        push_decimal(&mut line, self.failures);
        line.append(" error/s occured while processing museums.");
        assert(line@ =~= summary_text(self.failures as nat));
        line
    }
}

/// The stage of a run.
#[derive(Clone, Copy, Debug, PartialEq, Eq, Structural)]
pub enum Phase {
    /// Records are read and units are spawned.
    Streaming,
    /// The stream has ended; the units are joined one by one.
    Joining,
    /// Every unit is joined and the sink was told to close.
    Closing,
    /// The sink has stopped.
    Done,
}

/// What happened in the run.
#[derive(Debug, PartialEq, Eq)]
pub enum Event {
    /// The stream gave a record; the filter admitted it with these tags, or
    /// did not admit it.
    Record(Option<ValidTags>),
    /// The stream gave a record that could not be read.
    Malformed,
    /// The stream has ended.
    EndOfStream,
    /// A unit was joined.
    Joined(UnitOutcome),
    /// The sink task has ended.
    SinkStopped,
}

/// An `Event` with its tags as texts.
pub enum EventView {
    Record(Option<Seq<(Seq<char>, Seq<char>)>>),
    Malformed,
    EndOfStream,
    Joined(UnitOutcome),
    SinkStopped,
}

impl View for Event {
    type V = EventView;

    open spec fn view(&self) -> EventView {
        match self {
            Event::Record(Some(tags)) => EventView::Record(Some(tags@)),
            Event::Record(None) => EventView::Record(None),
            Event::Malformed => EventView::Malformed,
            Event::EndOfStream => EventView::EndOfStream,
            Event::Joined(outcome) => EventView::Joined(*outcome),
            Event::SinkStopped => EventView::SinkStopped,
        }
    }
}

/// What the caller does next.
#[derive(Debug, PartialEq, Eq)]
pub enum Command {
    /// Spawn a unit for these tags, then read the next record.
    Spawn(ValidTags),
    /// Read the next record.
    Next,
    /// Wait for a unit to end and hand over how it ended.
    Join,
    /// Send `Close` to the sink and wait for the sink task to end.
    SendClose,
    /// Report the tally; the run is over.
    Report(PipelineOutcome),
    /// The event has no place at this stage: nothing to do.
    Ignore,
}

/// A `Command` with its tags as texts.
pub enum CommandView {
    Spawn(Seq<(Seq<char>, Seq<char>)>),
    Next,
    Join,
    SendClose,
    Report(PipelineOutcome),
    Ignore,
}

impl View for Command {
    type V = CommandView;

    open spec fn view(&self) -> CommandView {
        match self {
            Command::Spawn(tags) => CommandView::Spawn(tags@),
            Command::Next => CommandView::Next,
            Command::Join => CommandView::Join,
            Command::SendClose => CommandView::SendClose,
            Command::Report(outcome) => CommandView::Report(*outcome),
            Command::Ignore => CommandView::Ignore,
        }
    }
}

/// Where a run stands: its stage, the units spawned, the units joined and the
/// units among the joined that failed.
pub struct Progress {
    pub phase: Phase,
    pub dispatched: nat,
    pub joined: nat,
    pub failures: nat,
}

impl Progress {
    /// The counts fit together and go with the stage: no unit is joined while
    /// records are read, some unit is left to join while units are joined, and
    /// none is left once the sink was told to close.
    pub open spec fn well_formed(self) -> bool {
        &&& self.failures <= self.joined <= self.dispatched <= usize::MAX
        &&& self.phase == Phase::Streaming ==> self.joined == 0
        &&& self.phase == Phase::Joining ==> self.joined < self.dispatched
        &&& self.phase == Phase::Closing || self.phase == Phase::Done ==> self.joined
            == self.dispatched
    }

    /// Where a run starts.
    pub open spec fn initial() -> Progress {
        Progress { phase: Phase::Streaming, dispatched: 0, joined: 0, failures: 0 }
    }

    /// Where the run stands after `event`.
    pub open spec fn after(self, event: EventView) -> Progress {
        match (self.phase, event) {
            (Phase::Streaming, EventView::Record(Some(_))) => {
                if self.dispatched < usize::MAX {
                    Progress { dispatched: self.dispatched + 1, ..self }
                } else {
                    self
                }
            },
            (Phase::Streaming, EventView::EndOfStream) => {
                if self.dispatched == 0 {
                    Progress { phase: Phase::Closing, ..self }
                } else {
                    Progress { phase: Phase::Joining, ..self }
                }
            },
            (Phase::Joining, EventView::Joined(outcome)) => {
                Progress {
                    phase: if self.joined + 1 == self.dispatched {
                        Phase::Closing
                    } else {
                        Phase::Joining
                    },
                    joined: self.joined + 1,
                    failures: if outcome.failed() {
                        self.failures + 1
                    } else {
                        self.failures
                    },
                    ..self
                }
            },
            (Phase::Closing, EventView::SinkStopped) => Progress { phase: Phase::Done, ..self },
            _ => self,
        }
    }

    /// The command that goes with `event` at this point of the run.
    pub open spec fn command(self, event: EventView) -> CommandView {
        match (self.phase, event) {
            (Phase::Streaming, EventView::Record(Some(tags))) => {
                if self.dispatched < usize::MAX {
                    CommandView::Spawn(tags)
                } else {
                    CommandView::Next
                }
            },
            (Phase::Streaming, EventView::Record(None)) => CommandView::Next,
            (Phase::Streaming, EventView::Malformed) => CommandView::Next,
            (Phase::Streaming, EventView::EndOfStream) => {
                if self.dispatched == 0 {
                    CommandView::SendClose
                } else {
                    CommandView::Join
                }
            },
            (Phase::Joining, EventView::Joined(_)) => {
                if self.joined + 1 == self.dispatched {
                    CommandView::SendClose
                } else {
                    CommandView::Join
                }
            },
            (Phase::Closing, EventView::SinkStopped) => CommandView::Report(
                PipelineOutcome { failures: self.failures as usize },
            ),
            _ => CommandView::Ignore,
        }
    }
}

/// The orchestrator of one run.
pub struct Orchestrator {
    phase: Phase,
    dispatched: usize,
    joined: usize,
    failures: usize,
}

impl View for Orchestrator {
    type V = Progress;

    closed spec fn view(&self) -> Progress {
        Progress {
            phase: self.phase,
            dispatched: self.dispatched as nat,
            joined: self.joined as nat,
            failures: self.failures as nat,
        }
    }
}

impl Orchestrator {
    #[verifier::type_invariant]
    spec fn consistent(self) -> bool {
        self@.well_formed()
    }

    /// An orchestrator at the start of a run.
    pub fn new() -> (orchestrator: Orchestrator)
        ensures
            orchestrator@ == Progress::initial(),
    {
        Orchestrator { phase: Phase::Streaming, dispatched: 0, joined: 0, failures: 0 }
    }

    /// The stage of the run.
    pub fn phase(&self) -> (phase: Phase)
        ensures
            phase == self@.phase,
    {
        self.phase
    }

    /// The number of units spawned so far.
    pub fn dispatched(&self) -> (count: usize)
        ensures
            count == self@.dispatched,
    {
        self.dispatched
    }

    /// The number of units joined so far.
    pub fn joined(&self) -> (count: usize)
        ensures
            count == self@.joined,
    {
        self.joined
    }

    /// The tally so far.
    pub fn outcome(&self) -> (outcome: PipelineOutcome)
        ensures
            outcome.failures == self@.failures,
    {
        PipelineOutcome { failures: self.failures }
    }

    /// Takes in one event of the run. Units are counted in a machine word: an
    /// admitted record that comes when the count stands at its limit is passed
    /// over with `Next`.
    pub fn advance(self, event: Event) -> (advanced: (Orchestrator, Command))
        ensures
            self@.well_formed(),
            advanced.0@ == self@.after(event@),
            advanced.1@ == self@.command(event@),
            advanced.0@.well_formed(),
    {
        proof {
            use_type_invariant(&self);
        }
        match self.phase {
            Phase::Streaming => match event {
                Event::Record(Some(tags)) => {
                    if self.dispatched < usize::MAX {
                        (
                            Orchestrator {
                                phase: self.phase,
                                dispatched: self.dispatched + 1,
                                joined: self.joined,
                                failures: self.failures,
                            },
                            Command::Spawn(tags),
                        )
                    } else {
                        (self, Command::Next)
                    }
                },
                Event::Record(None) => (self, Command::Next),
                Event::Malformed => (self, Command::Next),
                Event::EndOfStream => {
                    if self.dispatched == 0 {
                        (
                            Orchestrator {
                                phase: Phase::Closing,
                                dispatched: self.dispatched,
                                joined: self.joined,
                                failures: self.failures,
                            },
                            Command::SendClose,
                        )
                    } else {
                        (
                            Orchestrator {
                                phase: Phase::Joining,
                                dispatched: self.dispatched,
                                joined: self.joined,
                                failures: self.failures,
                            },
                            Command::Join,
                        )
                    }
                },
                _ => (self, Command::Ignore),
            },
            Phase::Joining => match event {
                Event::Joined(outcome) => {
                    let joined: usize = self.joined + 1;
                    let failures: usize = if outcome.is_failure() {
                        self.failures + 1
                    } else {
                        self.failures
                    };
                    if joined == self.dispatched {
                        (
                            Orchestrator {
                                phase: Phase::Closing,
                                dispatched: self.dispatched,
                                joined,
                                failures,
                            },
                            Command::SendClose,
                        )
                    } else {
                        (
                            Orchestrator {
                                phase: Phase::Joining,
                                dispatched: self.dispatched,
                                joined,
                                failures,
                            },
                            Command::Join,
                        )
                    }
                },
                _ => (self, Command::Ignore),
            },
            Phase::Closing => match event {
                Event::SinkStopped => (
                    Orchestrator {
                        phase: Phase::Done,
                        dispatched: self.dispatched,
                        joined: self.joined,
                        failures: self.failures,
                    },
                    Command::Report(PipelineOutcome { failures: self.failures }),
                ),
                _ => (self, Command::Ignore),
            },
            Phase::Done => (self, Command::Ignore),
        }
    }

    /// The dispatcher's step for one record of the stream: the record goes
    /// through the filter, and the orchestrator takes in what the filter says.
    pub fn dispatch(self, tags: &Tags) -> (advanced: (Orchestrator, Command))
        ensures
            advanced.0@ == self@.after(record_event(entries_of(tags))),
            advanced.1@ == self@.command(record_event(entries_of(tags))),
            advanced.0@.well_formed(),
    {
        let admitted = admit_tags(tags);
        self.advance(Event::Record(admitted))
    }
}

/// The event that a record with these tags gives once it went through the
/// filter.
pub open spec fn record_event(entries: Seq<(Seq<char>, Seq<char>)>) -> EventView {
    if qualifies(entries) {
        EventView::Record(Some(kept_entries(entries)))
    } else {
        EventView::Record(None)
    }
}

/// Where a run stands after a list of events, taken in their order.
pub open spec fn progress_after(events: Seq<EventView>) -> Progress
    decreases events.len(),
{
    if events.len() == 0 {
        Progress::initial()
    } else {
        progress_after(events.drop_last()).after(events.last())
    }
}

/// The command that the `at`-th event of a run gives.
pub open spec fn command_at(events: Seq<EventView>, at: int) -> CommandView {
    progress_after(events.take(at)).command(events[at])
}

/// The place of a stage in the order of a run.
pub open spec fn stage(phase: Phase) -> nat {
    match phase {
        Phase::Streaming => 0,
        Phase::Joining => 1,
        Phase::Closing => 2,
        Phase::Done => 3,
    }
}

/// One step of a run keeps the counts consistent and never goes back to an
/// earlier stage. A unit is counted as spawned exactly when the command is
/// `Spawn`, which is given only for an admitted record while records are
/// read; a unit is counted as joined exactly when a unit is joined while
/// units are joined. `SendClose` is given only on entering the closing stage,
/// where every spawned unit is joined.
pub proof fn lemma_step(progress: Progress, event: EventView)
    requires
        progress.well_formed(),
    ensures
        progress.after(event).well_formed(),
        stage(progress.phase) <= stage(progress.after(event).phase),
        progress.after(event).dispatched == progress.dispatched + (if progress.command(event) is Spawn {
            1nat
        } else {
            0nat
        }),
        progress.command(event) is Spawn ==> progress.phase == Phase::Streaming && event
            == EventView::Record(Some(progress.command(event)->Spawn_0)),
        progress.after(event).joined == progress.joined + (if progress.phase == Phase::Joining
            && event is Joined {
            1nat
        } else {
            0nat
        }),
        progress.command(event) == CommandView::SendClose ==> {
            &&& stage(progress.phase) < 2
            &&& progress.after(event).phase == Phase::Closing
            &&& progress.after(event).joined == progress.after(event).dispatched
        },
        progress.command(event) is Report ==> {
            &&& progress.phase == Phase::Closing
            &&& progress.after(event).phase == Phase::Done
            &&& progress.command(event)->Report_0.failures == progress.failures
        },
{
}

/// Every run from the start keeps the counts consistent.
pub proof fn lemma_run_well_formed(events: Seq<EventView>)
    ensures
        progress_after(events).well_formed(),
    decreases events.len(),
{
    if events.len() > 0 {
        lemma_run_well_formed(events.drop_last());
        lemma_step(progress_after(events.drop_last()), events.last());
    }
}

/// A run never goes back to an earlier stage.
pub proof fn lemma_stage_grows(events: Seq<EventView>, earlier: int, later: int)
    requires
        0 <= earlier <= later <= events.len(),
    ensures
        stage(progress_after(events.take(earlier)).phase) <= stage(
            progress_after(events.take(later)).phase,
        ),
    decreases later - earlier,
{
    if earlier < later {
        lemma_stage_grows(events, earlier, later - 1);
        lemma_run_well_formed(events.take(later - 1));
        lemma_step(progress_after(events.take(later - 1)), events[later - 1]);
        assert(events.take(later).drop_last() =~= events.take(later - 1));
        assert(events.take(later).last() == events[later - 1]);
    }
}

/// In a run the sink is told to close at most once, and only when every unit
/// that was spawned has been joined.
pub proof fn lemma_close_sent_once(events: Seq<EventView>, first: int, second: int)
    requires
        0 <= first < second < events.len(),
    ensures
        command_at(events, first) == CommandView::SendClose ==> {
            &&& progress_after(events.take(first + 1)).joined == progress_after(
                events.take(first + 1),
            ).dispatched
            &&& command_at(events, second) != CommandView::SendClose
        },
{
    if command_at(events, first) == CommandView::SendClose {
        lemma_run_well_formed(events.take(first));
        lemma_step(progress_after(events.take(first)), events[first]);
        assert(events.take(first + 1).drop_last() =~= events.take(first));
        assert(events.take(first + 1).last() == events[first]);
        lemma_stage_grows(events, first + 1, second);
        lemma_run_well_formed(events.take(second));
        lemma_step(progress_after(events.take(second)), events[second]);
    }
}

} // verus!
