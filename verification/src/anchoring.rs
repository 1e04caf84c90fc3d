//! The anchoring of one record on the ledger.
//!
//! A worker is made for a record when it is stored. It submits the record's
//! hash once, and writes back how that ended: `Confirmed` with the ledger's
//! reference, or `Failed` without one. It never submits twice, and once it
//! has reached either end it does nothing more.

use crate::db::{anchored, has_id, lemma_status_written, lookup, well_formed, with_status};
use crate::models::{text_of, AnchorStatus, LogRecord};
use crate::solana::LedgerError;
use vstd::prelude::*;

verus! {

/// How far the anchoring of a record has come.
#[derive(Clone, Copy, Debug, PartialEq, Eq, Structural)]
pub enum Phase {
    /// Nothing was submitted yet.
    Pending,
    /// The hash was submitted; the ledger's answer is awaited.
    Submitting,
    /// The ledger accepted the hash.
    Confirmed,
    /// The submission failed.
    Failed,
}

impl Phase {
    /// The status of the record while its worker is in this phase.
    pub open spec fn status(self) -> AnchorStatus {
        match self {
            Phase::Pending => AnchorStatus::Pending,
            Phase::Submitting => AnchorStatus::Pending,
            Phase::Confirmed => AnchorStatus::Confirmed,
            Phase::Failed => AnchorStatus::Failed,
        }
    }

    /// Whether the anchoring has ended.
    pub open spec fn terminal(self) -> bool {
        self == Phase::Confirmed || self == Phase::Failed
    }
}

/// What a worker is told.
#[derive(Debug, PartialEq, Eq)]
pub enum WorkerEvent {
    /// The worker may begin.
    Start,
    /// The submission ended: with the ledger's reference, or with an error.
    Submitted(Result<String, LedgerError>),
}

/// What a worker asks to be done.
#[derive(Debug, PartialEq, Eq)]
pub enum WorkerAction {
    /// Nothing.
    Idle,
    /// Submit this hash to the ledger, and report how it ended.
    Submit { hash: String },
    /// Write the end of the anchoring to the record. A failure of this write
    /// is not reported back.
    UpdateStatus { log_id: u128, tx_signature: Option<String>, status: AnchorStatus },
}

/// An event, as seen by contracts.
pub enum Event {
    Start,
    Accepted(Seq<char>),
    Rejected,
}

/// An action, as seen by contracts.
pub enum Action {
    Idle,
    Submit { hash: Seq<char> },
    UpdateStatus { log_id: u128, tx_signature: Option<Seq<char>>, status: AnchorStatus },
}

impl View for WorkerEvent {
    type V = Event;

    open spec fn view(&self) -> Event {
        match self {
            WorkerEvent::Start => Event::Start,
            WorkerEvent::Submitted(Ok(reference)) => Event::Accepted(reference@),
            WorkerEvent::Submitted(Err(_)) => Event::Rejected,
        }
    }
}

impl View for WorkerAction {
    type V = Action;

    open spec fn view(&self) -> Action {
        match self {
            WorkerAction::Idle => Action::Idle,
            WorkerAction::Submit { hash } => Action::Submit { hash: hash@ },
            WorkerAction::UpdateStatus { log_id, tx_signature, status } => Action::UpdateStatus {
                log_id: *log_id,
                tx_signature: text_of(*tx_signature),
                status: *status,
            },
        }
    }
}

/// The phase that follows an event.
pub open spec fn next_phase(phase: Phase, event: Event) -> Phase {
    match (phase, event) {
        (Phase::Pending, Event::Start) => Phase::Submitting,
        (Phase::Submitting, Event::Accepted(_)) => Phase::Confirmed,
        (Phase::Submitting, Event::Rejected) => Phase::Failed,
        _ => phase,
    }
}

/// What the worker of the record `log_id` with the hash `hash` asks for
/// when an event reaches it in a phase.
pub open spec fn action_for(log_id: u128, hash: Seq<char>, phase: Phase, event: Event) -> Action {
    match (phase, event) {
        (Phase::Pending, Event::Start) => Action::Submit { hash },
        (Phase::Submitting, Event::Accepted(reference)) => Action::UpdateStatus {
            log_id,
            tx_signature: Some(reference),
            status: AnchorStatus::Confirmed,
        },
        (Phase::Submitting, Event::Rejected) => Action::UpdateStatus {
            log_id,
            tx_signature: None,
            status: AnchorStatus::Failed,
        },
        _ => Action::Idle,
    }
}

/// The worker that anchors one record.
#[derive(Debug, PartialEq, Eq)]
pub struct AnchoringWorker {
    pub log_id: u128,
    pub hash: String,
    pub phase: Phase,
}

impl AnchoringWorker {
    /// The worker of a record that was just stored.
    pub fn new(log_id: u128, hash: String) -> (worker: AnchoringWorker)
        ensures
            worker.log_id == log_id,
            worker.hash == hash,
            worker.phase == Phase::Pending,
    {
        AnchoringWorker { log_id, hash, phase: Phase::Pending }
    }

    /// Takes an event, moves to the phase that follows it, and says what is
    /// to be done.
    pub fn step(&mut self, event: WorkerEvent) -> (action: WorkerAction)
        ensures
            final(self).log_id == old(self).log_id,
            final(self).hash == old(self).hash,
            final(self).phase == next_phase(old(self).phase, event@),
            action@ == action_for(old(self).log_id, old(self).hash@, old(self).phase, event@),
    {
        match self.phase {
            Phase::Pending => match event {
                WorkerEvent::Start => {
                    self.phase = Phase::Submitting;
                    WorkerAction::Submit { hash: self.hash.clone() }
                },
                WorkerEvent::Submitted(_) => WorkerAction::Idle,
            },
            Phase::Submitting => match event {
                WorkerEvent::Start => WorkerAction::Idle,
                WorkerEvent::Submitted(Ok(reference)) => {
                    self.phase = Phase::Confirmed;
                    WorkerAction::UpdateStatus {
                        log_id: self.log_id,
                        tx_signature: Some(reference),
                        status: AnchorStatus::Confirmed,
                    }
                },
                WorkerEvent::Submitted(Err(_)) => {
                    self.phase = Phase::Failed;
                    WorkerAction::UpdateStatus {
                        log_id: self.log_id,
                        tx_signature: None,
                        status: AnchorStatus::Failed,
                    }
                },
            },
            Phase::Confirmed => WorkerAction::Idle,
            Phase::Failed => WorkerAction::Idle,
        }
    }
}

/// The records of a store after what a worker asked for was done at `now`:
/// a write changes the record it names, anything else changes nothing.
pub open spec fn applied(records: Seq<LogRecord>, action: Action, now: i64) -> Seq<LogRecord> {
    match action {
        Action::UpdateStatus { log_id, tx_signature, status } => with_status(
            records,
            log_id,
            tx_signature,
            status,
            now,
        ),
        _ => records,
    }
}

/// The store and the phase of the worker of the record `log_id` after a
/// sequence of events reached the worker, each of its requests done at
/// `now`.
pub open spec fn after_events(
    log_id: u128,
    hash: Seq<char>,
    records: Seq<LogRecord>,
    phase: Phase,
    events: Seq<Event>,
    now: i64,
) -> (Seq<LogRecord>, Phase)
    decreases events.len(),
{
    if events.len() == 0 {
        (records, phase)
    } else {
        after_events(
            log_id,
            hash,
            applied(records, action_for(log_id, hash, phase, events[0]), now),
            next_phase(phase, events[0]),
            events.skip(1),
            now,
        )
    }
}

/// A worker submits once at most: only a worker that has not yet submitted
/// asks for a submission, it has submitted from that moment on, and no event
/// leads back to where nothing was submitted.
pub proof fn lemma_single_submission(log_id: u128, hash: Seq<char>, phase: Phase, event: Event)
    ensures
        action_for(log_id, hash, phase, event) is Submit ==> phase == Phase::Pending && next_phase(
            phase,
            event,
        ) == Phase::Submitting,
        phase != Phase::Pending ==> next_phase(phase, event) != Phase::Pending,
{
}

/// A worker writes once at most, when the submission ends, and what it
/// writes is an end: `Confirmed` with a reference, or `Failed` without one.
pub proof fn lemma_single_write(log_id: u128, hash: Seq<char>, phase: Phase, event: Event)
    ensures
        action_for(log_id, hash, phase, event) matches Action::UpdateStatus {
            log_id: written,
            tx_signature,
            status,
        } ==> {
            &&& phase == Phase::Submitting
            &&& next_phase(phase, event).terminal()
            &&& next_phase(phase, event).status() == status
            &&& written == log_id
            &&& status == AnchorStatus::Confirmed <==> tx_signature is Some
            &&& status == AnchorStatus::Failed <==> tx_signature is None
        },
{
}

/// Terminality: once the anchoring of a record has ended, no event moves the
/// worker or makes it ask for anything, so the store stays as it is.
pub proof fn lemma_terminal_is_final(
    log_id: u128,
    hash: Seq<char>,
    records: Seq<LogRecord>,
    phase: Phase,
    events: Seq<Event>,
    now: i64,
)
    requires
        phase.terminal(),
    ensures
        after_events(log_id, hash, records, phase, events, now) == (records, phase),
    decreases events.len(),
{
    if events.len() > 0 {
        lemma_terminal_is_final(log_id, hash, records, phase, events.skip(1), now);
    }
}

/// The outcome of an anchoring: where the submission of a stored record's
/// hash succeeds, the record ends `Confirmed` with the ledger's reference;
/// where it fails, the record ends `Failed` without a reference. Either way
/// the worker has ended, whatever events follow change nothing, and no other
/// record is touched.
pub proof fn lemma_anchoring_outcome(
    log_id: u128,
    hash: Seq<char>,
    records: Seq<LogRecord>,
    outcome: Event,
    later: Seq<Event>,
    now: i64,
    other: u128,
)
    requires
        well_formed(records),
        has_id(records, log_id),
        outcome !is Start,
    ensures
        ({
            let (stored, phase) = after_events(
                log_id,
                hash,
                records,
                Phase::Pending,
                seq![Event::Start, outcome] + later,
                now,
            );
            let record = lookup(stored, log_id)->0;
            &&& well_formed(stored)
            &&& lookup(stored, log_id) is Some
            &&& phase.terminal()
            &&& record.blockchain_status == phase.status()
            &&& outcome matches Event::Accepted(reference) ==> phase == Phase::Confirmed
                && record.tx_signature == Some(reference)
            &&& outcome is Rejected ==> phase == Phase::Failed && record.tx_signature is None
            &&& record == anchored(
                lookup(records, log_id)->0,
                record.tx_signature,
                record.blockchain_status,
                now,
            )
            &&& other != log_id ==> lookup(stored, other) == lookup(records, other)
        }),
{
    let events = seq![Event::Start, outcome] + later;
    let first = events.skip(1);
    assert(events[0] == Event::Start);
    assert(first[0] == outcome);
    assert(first.skip(1) =~= later);
    let action = action_for(log_id, hash, Phase::Submitting, outcome);
    let ended = next_phase(Phase::Submitting, outcome);
    let written = applied(records, action, now);
    assert(after_events(log_id, hash, records, Phase::Pending, events, now) == after_events(
        log_id,
        hash,
        records,
        Phase::Submitting,
        first,
        now,
    ));
    assert(after_events(log_id, hash, records, Phase::Submitting, first, now) == after_events(
        log_id,
        hash,
        written,
        ended,
        later,
        now,
    ));
    lemma_terminal_is_final(log_id, hash, written, ended, later, now);
    match outcome {
        Event::Accepted(reference) => {
            lemma_status_written(
                records,
                log_id,
                Some(reference),
                AnchorStatus::Confirmed,
                now,
                other,
            );
        },
        _ => {
            lemma_status_written(records, log_id, None, AnchorStatus::Failed, now, other);
        },
    }
}

} // verus!
