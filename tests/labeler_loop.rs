use labeler::pipeline::{make_record, Action, Input, Labeler, Phase, StopReason};
use labeler::session::{QuoteEvent, TradingHours, DAY_MS};
use labeler::window::Check;

const TUESDAY: u64 = 19724;
const OPEN: u64 = 34_200_000;

fn hours() -> TradingHours {
    TradingHours { open_ms: OPEN, close_ms: 57_600_000 }
}

fn quote(id: u64) -> QuoteEvent {
    QuoteEvent { event_id: id, offset: 100 + id, partition: 3, timestamp: TUESDAY * DAY_MS + OPEN + id * 1000 }
}

/// Settles `passed` once `every` quotes of its window have been fed.
struct AfterCount {
    ordinal: u32,
    every: u64,
    passed: bool,
    seen: u64,
}

impl Check for AfterCount {
    fn ordinal_spec(&self) -> u32 {
        self.ordinal
    }
    fn verdict_spec(&self) -> Option<bool> {
        self.verdict()
    }
    fn ordinal(&self) -> u32 {
        self.ordinal
    }
    fn start(&mut self, _base: &QuoteEvent) {
        self.seen = 0;
    }
    fn consume(&mut self, _ev: &QuoteEvent) {
        self.seen += 1;
    }
    fn verdict(&self) -> Option<bool> {
        if self.seen >= self.every {
            Some(self.passed)
        } else {
            None
        }
    }
}

struct Outcome {
    stop: StopReason,
    stored: Vec<(u64, u64, u32, u64, Vec<u8>)>,
    published: Vec<(u64, u64, Vec<u8>)>,
    quotes_read: u64,
}

/// Runs the labeler over `n` quotes; the store fails on write `fail_write`.
fn run(checks: Vec<AfterCount>, length: u64, n: u64, fail_write: Option<usize>) -> Outcome {
    let mut l = Labeler::new(hours(), length, checks).ok().unwrap();
    let mut next: u64 = 0;
    let mut out = Outcome { stop: StopReason::UnexpectedInput, stored: Vec::new(), published: Vec::new(), quotes_read: 0 };
    let mut input = if n == 0 { Input::SourceEnded } else { Input::Quote(quote(0)) };
    loop {
        match l.step(input) {
            Action::ReadNext => {
                next += 1;
                input = if next < n { Input::Quote(quote(next)) } else { Input::SourceEnded };
            },
            Action::ReadClock => input = Input::Clock(5_000 + next),
            Action::Store(r) => {
                out.stored.push((r.event_id, r.offset, r.partition, r.timestamp, r.label.clone()));
                input = Input::Stored(fail_write != Some(out.stored.len()));
            },
            Action::Publish(p) => {
                out.published.push((p.event_id, p.timestamp, p.label.clone()));
                input = Input::Published(true);
            },
            Action::Stop(why) => {
                out.stop = why;
                out.quotes_read = next;
                return out;
            },
        }
    }
}

#[test]
fn first_window_labels_base_and_passes() {
    // base is quote 10; the check settles true on the fifth quote after it
    let out = run(vec![AfterCount { ordinal: 0, every: 5, passed: true, seen: 0 }], 10, 50, None);
    assert_eq!(out.stop, StopReason::Exhausted);
    assert_eq!(out.stored[0], (10, 110, 3, 5_015, vec![1]));
    assert_eq!(out.published[0], (10, 5_015, vec![1]));
    // windows chain from the last quote of the one before
    assert_eq!(out.stored[1].0, 15);
    assert_eq!(out.stored.len(), 7);
    assert_eq!(out.published.len(), 7);
}

#[test]
fn two_checks_label_in_ordinal_order() {
    let checks = vec![
        AfterCount { ordinal: 1, every: 8, passed: false, seen: 0 },
        AfterCount { ordinal: 0, every: 5, passed: true, seen: 0 },
    ];
    let out = run(checks, 1, 10, None);
    assert_eq!(out.stored.len(), 1);
    assert_eq!(out.stored[0].0, 1);
    assert_eq!(out.stored[0].4, vec![1, 0]);
}

#[test]
fn failed_store_is_never_published() {
    let check = AfterCount { ordinal: 0, every: 2, passed: true, seen: 0 };
    let out = run(vec![check], 1, 100, Some(3));
    assert_eq!(out.stop, StopReason::PersistenceFailure);
    assert_eq!(out.stored.len(), 3);
    assert_eq!(out.published.len(), 2);
}

#[test]
fn short_stream_stops_cleanly_while_seeking() {
    let out = run(vec![AfterCount { ordinal: 0, every: 2, passed: true, seen: 0 }], 10, 5, None);
    assert_eq!(out.stop, StopReason::Exhausted);
    assert!(out.stored.is_empty());
    assert_eq!(out.quotes_read, 5);
}

#[test]
fn stop_reasons() {
    let mk = || Labeler::new(hours(), 1, vec![AfterCount { ordinal: 0, every: 1, passed: true, seen: 0 }]).ok().unwrap();

    let mut l = mk();
    assert!(matches!(l.step(Input::SourceFailed), Action::Stop(StopReason::ReadFailure)));
    assert!(matches!(l.step(Input::Quote(quote(0))), Action::Stop(StopReason::ReadFailure)));
    assert_eq!(l.phase, Phase::Stopped(StopReason::ReadFailure));

    let mut l = mk();
    assert!(matches!(l.step(Input::Stored(true)), Action::Stop(StopReason::UnexpectedInput)));

    let mut l = mk();
    assert!(matches!(l.step(Input::Quote(quote(0))), Action::ReadNext));
    assert!(matches!(l.step(Input::Quote(quote(1))), Action::ReadNext));
    assert_eq!(l.phase, Phase::Running);
    assert!(matches!(l.step(Input::Quote(quote(2))), Action::ReadClock));
    match l.step(Input::Clock(77)) {
        Action::Store(r) => {
            assert_eq!((r.event_id, r.offset, r.partition, r.timestamp, r.label), (1, 101, 3, 77, vec![1]));
        },
        _ => panic!("expected a store"),
    }
    assert!(matches!(l.step(Input::Stored(true)), Action::Publish(_)));
    assert!(matches!(l.step(Input::Published(false)), Action::Stop(StopReason::PublicationFailure)));
}

#[test]
fn record_and_publication_fields() {
    let r = make_record(&quote(4), vec![0, 1], 9);
    assert_eq!((r.event_id, r.offset, r.partition, r.timestamp), (4, 104, 3, 9));
    let p = r.publication();
    assert_eq!((p.event_id, p.timestamp, p.label), (4, 9, vec![0, 1]));
}

#[test]
fn labeler_accepts_dense_and_rejects_duplicate_ordinals() {
    assert!(Labeler::<AfterCount>::new(hours(), 1, Vec::new()).is_ok());
    let dup = vec![
        AfterCount { ordinal: 0, every: 1, passed: true, seen: 0 },
        AfterCount { ordinal: 0, every: 1, passed: true, seen: 0 },
    ];
    assert!(Labeler::new(hours(), 1, dup).is_err());
}
