use labeler::label::{encode, Verdict};
use labeler::seek::{find_base, SeekError, SeekState, Seeker};
use labeler::session::{fits_date, in_session, trading_date, QuoteEvent, TradingHours, DAY_MS};
use labeler::window::{check_ordinals, Check, Window, WindowError};

const TUESDAY: u64 = 19724;
const WEDNESDAY: u64 = 19725;
const SATURDAY: u64 = 19728;
const OPEN: u64 = 34_200_000;
const CLOSE: u64 = 57_600_000;

fn hours() -> TradingHours {
    TradingHours { open_ms: OPEN, close_ms: CLOSE }
}

fn quote(id: u64, day: u64, ms_after_open: u64) -> QuoteEvent {
    QuoteEvent { event_id: id, offset: id, partition: 0, timestamp: day * DAY_MS + OPEN + ms_after_open }
}

fn night_quote(id: u64, day: u64) -> QuoteEvent {
    QuoteEvent { event_id: id, offset: id, partition: 0, timestamp: day * DAY_MS + 3_600_000 }
}

struct SettleAt {
    ordinal: u32,
    at_event: u64,
    passed: bool,
    verdict: Option<bool>,
}

impl SettleAt {
    fn new(ordinal: u32, at_event: u64, passed: bool) -> Self {
        SettleAt { ordinal, at_event, passed, verdict: None }
    }
}

impl Check for SettleAt {
    fn ordinal_spec(&self) -> u32 {
        self.ordinal
    }
    fn verdict_spec(&self) -> Option<bool> {
        self.verdict
    }
    fn ordinal(&self) -> u32 {
        self.ordinal
    }
    fn start(&mut self, _base: &QuoteEvent) {
        self.verdict = None;
    }
    fn consume(&mut self, ev: &QuoteEvent) {
        if ev.event_id >= self.at_event {
            self.verdict = Some(self.passed);
        }
    }
    fn verdict(&self) -> Option<bool> {
        self.verdict
    }
}

#[test]
fn session_membership() {
    let h = hours();
    assert!(in_session(&h, &quote(1, TUESDAY, 0)));
    assert!(!in_session(&h, &quote(1, TUESDAY, CLOSE - OPEN)));
    assert!(!in_session(&h, &night_quote(1, TUESDAY)));
    assert!(!in_session(&h, &quote(1, SATURDAY, 0)));
    assert_eq!(trading_date(&quote(1, TUESDAY, 5)), TUESDAY);
    assert!(fits_date(&h, &quote(1, WEDNESDAY, 5), WEDNESDAY));
    assert!(!fits_date(&h, &quote(1, WEDNESDAY, 5), TUESDAY));
}

#[test]
fn find_base_fifty_valid_events() {
    let stream: Vec<QuoteEvent> = (0..50).map(|i| quote(i, TUESDAY, i * 1000)).collect();
    assert_eq!(find_base(&hours(), 10, &stream), Ok(10));
}

#[test]
fn find_base_restarts_after_session_gap() {
    let mut stream = Vec::new();
    for i in 1..=5 {
        stream.push(quote(i, TUESDAY, i * 1000));
    }
    stream.push(night_quote(6, WEDNESDAY));
    for i in 7..=20 {
        stream.push(quote(i, WEDNESDAY, i * 1000));
    }
    let at = find_base(&hours(), 10, &stream).unwrap();
    assert_eq!(stream[at].event_id, 17);
}

#[test]
fn find_base_skips_many_invalid_events() {
    let mut stream: Vec<QuoteEvent> = (0..100).map(|i| night_quote(i, TUESDAY)).collect();
    for i in 100..110 {
        stream.push(quote(i, TUESDAY, i));
    }
    assert_eq!(find_base(&hours(), 9, &stream), Ok(109));
}

#[test]
fn find_base_restarts_on_date_change() {
    let mut stream: Vec<QuoteEvent> = (0..3).map(|i| quote(i, TUESDAY, i)).collect();
    stream.push(quote(3, WEDNESDAY, 0));
    for i in 4..8 {
        stream.push(quote(i, WEDNESDAY, i));
    }
    // the quote that broke the run is dropped: the next run starts at 4
    assert_eq!(find_base(&hours(), 3, &stream), Ok(7));
}

#[test]
fn find_base_ends_without_valid_run() {
    let stream: Vec<QuoteEvent> = (0..10).map(|i| quote(i, TUESDAY, i)).collect();
    assert_eq!(find_base(&hours(), 10, &stream), Err(SeekError::EndOfStream));
    assert_eq!(find_base(&hours(), 1, &[]), Err(SeekError::EndOfStream));
}

#[test]
fn seeker_feeds_one_at_a_time() {
    let mut s = Seeker::new(hours(), 2);
    assert!(!s.feed(&quote(0, TUESDAY, 0)));
    assert_eq!(s.state, SeekState::Confirming { date: TUESDAY, remaining: 2 });
    assert!(!s.feed(&quote(1, TUESDAY, 1)));
    assert!(s.feed(&quote(2, TUESDAY, 2)));
    assert_eq!(s.state, SeekState::Searching);
}

#[test]
fn encode_empty_is_all_zero() {
    assert_eq!(encode(&[], 3), vec![0, 0, 0]);
    assert_eq!(encode(&[], 0), Vec::<u8>::new());
}

#[test]
fn encode_sets_verdict_slots() {
    let v = [Verdict { ordinal: 2, passed: true }, Verdict { ordinal: 0, passed: false }];
    assert_eq!(encode(&v, 4), vec![0, 0, 1, 0]);
    let w = [Verdict { ordinal: 0, passed: false }, Verdict { ordinal: 2, passed: true }];
    assert_eq!(encode(&w, 4), vec![0, 0, 1, 0]);
}

#[test]
fn encode_twice_is_identical() {
    let v = [Verdict { ordinal: 1, passed: true }, Verdict { ordinal: 0, passed: true }];
    assert_eq!(encode(&v, 2), encode(&v, 2));
}

#[test]
fn ordinals_must_be_dense() {
    assert!(check_ordinals(&[1, 0, 2]));
    assert!(check_ordinals(&[]));
    assert!(!check_ordinals(&[0, 0]));
    assert!(!check_ordinals(&[0, 2]));
    let base = quote(0, TUESDAY, 0);
    let dup = vec![SettleAt::new(0, 1, true), SettleAt::new(0, 1, true)];
    assert!(matches!(Window::new(dup, &base), Err(WindowError::BadOrdinals)));
    let far = vec![SettleAt::new(1, 1, true)];
    assert!(matches!(Window::new(far, &base), Err(WindowError::BadOrdinals)));
}

#[test]
fn window_two_checks_settle_apart() {
    let checks = vec![SettleAt::new(0, 5, true), SettleAt::new(1, 8, false)];
    let mut w = Window::new(checks, &quote(0, TUESDAY, 0)).ok().unwrap();
    let mut done_at = None;
    for i in 1..20 {
        w.consume(&quote(i, TUESDAY, i));
        if w.is_done() {
            done_at = Some(i);
            break;
        }
        if i >= 5 {
            assert_eq!(w.label(), vec![1, 0]);
        }
    }
    assert_eq!(done_at, Some(8));
    assert_eq!(w.label(), vec![1, 0]);
    assert_eq!(w.settled().len(), 2);
    w.init_next();
    assert_eq!(w.base.event_id, 8);
    assert!(!w.is_done());
    assert_eq!(w.label(), vec![0, 0]);
}

#[test]
fn empty_or_dense_checks_are_accepted() {
    let base = quote(0, TUESDAY, 0);
    let w = Window::<SettleAt>::new(Vec::new(), &base).ok().unwrap();
    assert!(w.is_done());
    assert_eq!(w.label(), Vec::<u8>::new());
    let dense = vec![SettleAt::new(1, 3, true), SettleAt::new(0, 3, false)];
    let w = Window::new(dense, &base).ok().unwrap();
    assert_eq!(w.ordinals, vec![1, 0]);
    assert!(!w.is_done());
}
