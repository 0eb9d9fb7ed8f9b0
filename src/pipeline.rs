use vstd::prelude::*;

use crate::seek::{SeekState, Seeker, seek_step};
use crate::session::{QuoteEvent, TradingHours};
use crate::window::{Check, Window, WindowError, dense_ordinals, ordinals_of};

verus! {

/// The stored form of one window's label, keyed by the base quote's id.
#[derive(Debug)]
pub struct LabelRecord {
    pub event_id: u64,
    pub offset: u64,
    pub partition: u32,
    pub timestamp: u64,
    pub label: Vec<u8>,
}

/// The published form of one window's label.
#[derive(Debug)]
pub struct LabelPublication {
    pub event_id: u64,
    pub timestamp: u64,
    pub label: Vec<u8>,
}

/// `r` records `label` for the window based at `base`, completed at `timestamp`.
pub open spec fn is_record_of(r: LabelRecord, base: QuoteEvent, label: Seq<u8>, timestamp: u64) -> bool {
    &&& r.event_id == base.event_id
    &&& r.offset == base.offset
    &&& r.partition == base.partition
    &&& r.timestamp == timestamp
    &&& r.label@ == label
}

/// `p` publishes the essential fields of record `r`.
pub open spec fn is_publication_of(p: LabelPublication, r: LabelRecord) -> bool {
    &&& p.event_id == r.event_id
    &&& p.timestamp == r.timestamp
    &&& p.label@ == r.label@
}

/// Builds the record of `label` for the window based at `base`.
pub fn make_record(base: &QuoteEvent, label: Vec<u8>, timestamp: u64) -> (r: LabelRecord)
    ensures
        is_record_of(r, *base, label@, timestamp),
{
    LabelRecord { event_id: base.event_id, offset: base.offset, partition: base.partition, timestamp, label }
}

impl LabelRecord {
    /// The publication that announces this record.
    pub fn publication(&self) -> (p: LabelPublication)
        ensures
            is_publication_of(p, *self),
    {
        let label = self.label.clone();
        proof {
            assert(label@ =~= self.label@);
        }
        LabelPublication { event_id: self.event_id, timestamp: self.timestamp, label }
    }
}

/// What happened outside since the last step.
#[derive(Clone, Copy, Debug, PartialEq, Eq, Structural)]
pub enum Input {
    /// The next quote of the stream.
    Quote(QuoteEvent),
    /// The stream has no more quotes.
    SourceEnded,
    /// Reading the stream failed.
    SourceFailed,
    /// The current time, as asked for.
    Clock(u64),
    /// Whether the durable write of the record succeeded.
    Stored(bool),
    /// Whether publishing the record succeeded.
    Published(bool),
}

/// Why the labeler stopped.
#[derive(Clone, Copy, Debug, PartialEq, Eq, Structural)]
pub enum StopReason {
    /// The stream ended; a clean stop.
    Exhausted,
    /// The stream could not be read.
    ReadFailure,
    /// The durable write failed; nothing was published.
    PersistenceFailure,
    /// Publishing failed after the record was stored.
    PublicationFailure,
    /// An input came that the current phase does not wait for.
    UnexpectedInput,
}

/// What the labeler asks to be done next.
#[derive(Debug)]
pub enum Action {
    /// Read the next quote of the stream.
    ReadNext,
    /// Read the current time.
    ReadClock,
    /// Write the record to durable storage.
    Store(LabelRecord),
    /// Publish to the output topic.
    Publish(LabelPublication),
    /// Stop.
    Stop(StopReason),
}

/// Where the labeler stands.
#[derive(Clone, Copy, Debug, PartialEq, Eq, Structural)]
pub enum Phase {
    /// Looking for the base of the first window.
    Seeking,
    /// Feeding quotes to the current window.
    Running,
    /// The window is done; waiting for the time of completion.
    AwaitingClock,
    /// Waiting for the durable write of the record.
    Storing,
    /// Waiting for the publication of the stored record.
    Publishing,
    /// Stopped for good.
    Stopped(StopReason),
}

/// The labelling loop as a state machine: each step takes what happened
/// outside and says what to do next. It seeks a valid base once, then labels
/// window after window, each starting at the last quote of the one before.
pub struct Labeler<C> {
    pub seeker: Seeker,
    pub window: Window<C>,
    pub phase: Phase,
    pub record: LabelRecord,
}

impl<C: Check> Labeler<C> {
    pub open spec fn wf(&self) -> bool {
        &&& self.seeker.wf()
        &&& self.window.wf()
        &&& self.phase == Phase::AwaitingClock ==> self.window.done_spec()
    }

    /// A labeler that seeks a run of `length` quotes within `hours` and then
    /// labels windows with `checks`. Fails when the checks' ordinals do not
    /// index their slots densely.
    pub fn new(hours: TradingHours, length: u64, checks: Vec<C>) -> (r: Result<Labeler<C>, WindowError>)
        requires
            length >= 1,
        ensures
            r is Err <==> !dense_ordinals(ordinals_of(checks@)),
            match r {
                Ok(l) => {
                    &&& l.wf()
                    &&& l.window.ordinals@ == ordinals_of(checks@)
                    &&& l.phase == Phase::Seeking
                    &&& l.seeker.hours == hours
                    &&& l.seeker.length == length
                    &&& l.seeker.state == SeekState::Searching
                    &&& l.window.checks@.len() == checks@.len()
                },
                Err(WindowError::BadOrdinals) => true,
            },
    {
        let idle = QuoteEvent { event_id: 0, offset: 0, partition: 0, timestamp: 0 };
        let window = match Window::new(checks, &idle) {
            Ok(w) => w,
            Err(e) => {
                return Err(e);
            },
        };
        let record = LabelRecord { event_id: 0, offset: 0, partition: 0, timestamp: 0, label: Vec::new() };
        Ok(Labeler { seeker: Seeker::new(hours, length), window, phase: Phase::Seeking, record })
    }

    /// Takes one input and returns the next action.
    pub fn step(&mut self, input: Input) -> (act: Action)
        requires
            old(self).wf(),
        ensures
            final(self).wf(),
            final(self).seeker.hours == old(self).seeker.hours,
            final(self).seeker.length == old(self).seeker.length,
            final(self).window.ordinals == old(self).window.ordinals,
            // a stopped labeler stays stopped
            match old(self).phase {
                Phase::Stopped(why) => act == Action::Stop(why) && final(self).phase == old(self).phase,
                _ => true,
            },
            // a read failure stops it anywhere
            old(self).phase !is Stopped && input == Input::SourceFailed ==> {
                &&& act == Action::Stop(StopReason::ReadFailure)
                &&& final(self).phase == Phase::Stopped(StopReason::ReadFailure)
            },
            // the end of the stream stops it cleanly while it reads quotes
            (old(self).phase == Phase::Seeking || old(self).phase == Phase::Running) && input == Input::SourceEnded ==> {
                &&& act == Action::Stop(StopReason::Exhausted)
                &&& final(self).phase == Phase::Stopped(StopReason::Exhausted)
            },
            // seeking: a quote advances the search; the base starts the first window
            old(self).phase == Phase::Seeking && input is Quote ==> {
                let e = input->Quote_0;
                let (st, found) = seek_step(old(self).seeker.hours, old(self).seeker.length, old(self).seeker.state, e);
                &&& act == Action::ReadNext
                &&& final(self).seeker.state == st
                &&& found ==> final(self).phase == Phase::Running && final(self).window.base == e
                    && final(self).window.last == e
                    && forall|k: int| 0 <= k < final(self).window.latched@.len() ==> (#[trigger] final(self).window.latched@[k]) is None
                &&& !found ==> final(self).phase == Phase::Seeking
            },
            // running: a quote goes to the window; a done window asks for the time
            old(self).phase == Phase::Running && input is Quote ==> {
                &&& final(self).window.base == old(self).window.base
                &&& final(self).window.last == input->Quote_0
                &&& forall|k: int| 0 <= k < old(self).window.latched@.len() && (#[trigger] old(self).window.latched@[k]) is Some
                    ==> final(self).window.latched@[k] == old(self).window.latched@[k]
                        && final(self).window.checks@[k] == old(self).window.checks@[k]
                &&& forall|k: int| 0 <= k < old(self).window.latched@.len() && (#[trigger] old(self).window.latched@[k]) is None
                    ==> final(self).window.latched@[k] == final(self).window.checks@[k].verdict_spec()
                &&& final(self).window.done_spec() ==> act == Action::ReadClock && final(self).phase == Phase::AwaitingClock
                &&& !final(self).window.done_spec() ==> act == Action::ReadNext && final(self).phase == Phase::Running
            },
            // the time of completion builds the record, which is written first
            old(self).phase == Phase::AwaitingClock && input is Clock ==> {
                &&& final(self).phase == Phase::Storing
                &&& is_record_of(final(self).record, old(self).window.base, old(self).window.label_spec(), input->Clock_0)
                &&& act is Store && is_record_of(act->Store_0, old(self).window.base, old(self).window.label_spec(), input->Clock_0)
                &&& final(self).window == old(self).window
            },
            // a stored record is then published
            old(self).phase == Phase::Storing && input == Input::Stored(true) ==> {
                &&& final(self).phase == Phase::Publishing
                &&& act is Publish && is_publication_of(act->Publish_0, old(self).record)
                &&& final(self).record == old(self).record
                &&& final(self).window == old(self).window
            },
            old(self).phase == Phase::Storing && input == Input::Stored(false) ==> {
                &&& act == Action::Stop(StopReason::PersistenceFailure)
                &&& final(self).phase == Phase::Stopped(StopReason::PersistenceFailure)
            },
            // after publishing, the next window starts at the last quote of this one
            old(self).phase == Phase::Publishing && input == Input::Published(true) ==> {
                &&& act == Action::ReadNext
                &&& final(self).phase == Phase::Running
                &&& final(self).window.base == old(self).window.last
                &&& forall|k: int| 0 <= k < final(self).window.latched@.len() ==> (#[trigger] final(self).window.latched@[k]) is None
            },
            old(self).phase == Phase::Publishing && input == Input::Published(false) ==> {
                &&& act == Action::Stop(StopReason::PublicationFailure)
                &&& final(self).phase == Phase::Stopped(StopReason::PublicationFailure)
            },
            // stopping leaves the window and the record as they were
            act is Stop ==> final(self).window == old(self).window && final(self).record == old(self).record,
            lawful_step(old(self).phase, input, final(self).phase, act is Publish),
            // nothing is published unless the durable write has just succeeded
            act is Publish ==> old(self).phase == Phase::Storing && input == Input::Stored(true),
            // nothing is stored but a record of a done window
            act is Store ==> old(self).phase == Phase::AwaitingClock && old(self).window.done_spec(),
            // any other input stops it
            !expected(old(self).phase, input) ==> {
                &&& act == Action::Stop(StopReason::UnexpectedInput)
                &&& final(self).phase == Phase::Stopped(StopReason::UnexpectedInput)
            },
    {
        match self.phase {
            Phase::Stopped(why) => {
                return Action::Stop(why);
            },
            _ => {},
        }
        if input == Input::SourceFailed {
            return self.stop(StopReason::ReadFailure);
        }
        match self.phase {
            Phase::Seeking => match input {
                Input::Quote(e) => {
                    if self.seeker.feed(&e) {
                        self.window.start(&e);
                        self.phase = Phase::Running;
                    }
                    Action::ReadNext
                },
                Input::SourceEnded => self.stop(StopReason::Exhausted),
                _ => self.stop(StopReason::UnexpectedInput),
            },
            Phase::Running => match input {
                Input::Quote(e) => {
                    self.window.consume(&e);
                    if self.window.is_done() {
                        self.phase = Phase::AwaitingClock;
                        Action::ReadClock
                    } else {
                        Action::ReadNext
                    }
                },
                Input::SourceEnded => self.stop(StopReason::Exhausted),
                _ => self.stop(StopReason::UnexpectedInput),
            },
            Phase::AwaitingClock => match input {
                Input::Clock(ts) => {
                    let label = self.window.label();
                    self.record = make_record(&self.window.base, label, ts);
                    self.phase = Phase::Storing;
                    let copy = self.record.label.clone();
                    proof {
                        assert(copy@ =~= self.record.label@);
                    }
                    Action::Store(LabelRecord { label: copy, ..self.record })
                },
                _ => self.stop(StopReason::UnexpectedInput),
            },
            Phase::Storing => match input {
                Input::Stored(true) => {
                    self.phase = Phase::Publishing;
                    Action::Publish(self.record.publication())
                },
                Input::Stored(false) => self.stop(StopReason::PersistenceFailure),
                _ => self.stop(StopReason::UnexpectedInput),
            },
            Phase::Publishing => match input {
                Input::Published(true) => {
                    self.window.init_next();
                    self.phase = Phase::Running;
                    Action::ReadNext
                },
                Input::Published(false) => self.stop(StopReason::PublicationFailure),
                _ => self.stop(StopReason::UnexpectedInput),
            },
            Phase::Stopped(why) => Action::Stop(why),
        }
    }

    fn stop(&mut self, why: StopReason) -> (act: Action)
        ensures
            *final(self) == (Labeler { phase: Phase::Stopped(why), ..*old(self) }),
            act == Action::Stop(why),
    {
        self.phase = Phase::Stopped(why);
        Action::Stop(why)
    }
}

/// The inputs that a phase waits for; a read failure may come at any time.
pub open spec fn expected(phase: Phase, input: Input) -> bool {
    match phase {
        Phase::Seeking | Phase::Running => input is Quote || input is SourceEnded || input is SourceFailed,
        Phase::AwaitingClock => input is Clock || input is SourceFailed,
        Phase::Storing => input is Stored || input is SourceFailed,
        Phase::Publishing => input is Published || input is SourceFailed,
        Phase::Stopped(_) => true,
    }
}

/// What every step obeys about storing and publishing: a publication comes
/// only from a successful store, a failed store stops the labeler, and a
/// stopped labeler stays stopped and publishes nothing.
pub open spec fn lawful_step(before: Phase, input: Input, after: Phase, published: bool) -> bool {
    &&& published ==> before == Phase::Storing && input == Input::Stored(true)
    &&& before == Phase::Storing && input == Input::Stored(false) ==> after == Phase::Stopped(StopReason::PersistenceFailure)
    &&& before is Stopped ==> after == before && !published
}

/// A run of steps: each entry is (phase before, input, phase after, whether
/// the action was a publication), each step starting where the last ended.
pub open spec fn lawful_trace(t: Seq<(Phase, Input, Phase, bool)>) -> bool {
    &&& forall|i: int| 0 <= i < t.len() ==> lawful_step((#[trigger] t[i]).0, t[i].1, t[i].2, t[i].3)
    &&& forall|i: int| 0 <= i < t.len() - 1 ==> (#[trigger] t[i]).2 == t[i + 1].0
}

/// Number of publications in a run.
pub open spec fn publications(t: Seq<(Phase, Input, Phase, bool)>) -> nat
    decreases t.len(),
{
    if t.len() == 0 {
        0
    } else {
        publications(t.drop_last()) + if t.last().3 { 1nat } else { 0nat }
    }
}

/// Number of successful durable writes reported in a run.
pub open spec fn stores_succeeded(t: Seq<(Phase, Input, Phase, bool)>) -> nat
    decreases t.len(),
{
    if t.len() == 0 {
        0
    } else {
        stores_succeeded(t.drop_last())
            + if t.last().0 == Phase::Storing && t.last().1 == Input::Stored(true) { 1nat } else { 0nat }
    }
}

/// Over any run, there are never more publications than successful writes.
pub proof fn lemma_publications_follow_stores(t: Seq<(Phase, Input, Phase, bool)>)
    requires
        lawful_trace(t),
    ensures
        publications(t) <= stores_succeeded(t),
    decreases t.len(),
{
    if t.len() > 0 {
        let p = t.drop_last();
        assert forall|i: int| 0 <= i < p.len() - 1 implies (#[trigger] p[i]).2 == p[i + 1].0 by {
            assert(p[i] == t[i] && p[i + 1] == t[i + 1]);
        }
        assert forall|i: int| 0 <= i < p.len() implies lawful_step((#[trigger] p[i]).0, p[i].1, p[i].2, p[i].3) by {
            assert(p[i] == t[i]);
        }
        lemma_publications_follow_stores(p);
        assert(lawful_step(t[t.len() - 1].0, t[t.len() - 1].1, t[t.len() - 1].2, t[t.len() - 1].3));
    }
}

/// Once a durable write fails, nothing is published afterwards.
pub proof fn lemma_no_publication_after_failed_store(t: Seq<(Phase, Input, Phase, bool)>, i: int, j: int)
    requires
        lawful_trace(t),
        0 <= i < j < t.len(),
        t[i].0 == Phase::Storing,
        t[i].1 == Input::Stored(false),
    ensures
        !t[j].3,
        t[j].0 == Phase::Stopped(StopReason::PersistenceFailure),
    decreases j - i,
{
    assert(lawful_step(t[i].0, t[i].1, t[i].2, t[i].3));
    assert(t[i].2 == t[i + 1].0);
    if j > i + 1 {
        lemma_stays_stopped(t, i + 1, j - 1);
        assert(lawful_step(t[j - 1].0, t[j - 1].1, t[j - 1].2, t[j - 1].3));
        assert(t[j - 1].2 == t[j].0);
    }
    assert(lawful_step(t[j].0, t[j].1, t[j].2, t[j].3));
}

proof fn lemma_stays_stopped(t: Seq<(Phase, Input, Phase, bool)>, i: int, j: int)
    requires
        lawful_trace(t),
        0 <= i <= j < t.len(),
        t[i].0 == Phase::Stopped(StopReason::PersistenceFailure),
    ensures
        t[j].0 == Phase::Stopped(StopReason::PersistenceFailure),
    decreases j - i,
{
    if j > i {
        lemma_stays_stopped(t, i, j - 1);
        assert(lawful_step(t[j - 1].0, t[j - 1].1, t[j - 1].2, t[j - 1].3));
        assert(t[j - 1].2 == t[j].0);
    }
}

} // verus!
