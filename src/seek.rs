use vstd::prelude::*;

use crate::session::{
    QuoteEvent, TradingHours, day_of, fits_date, fits_date_spec, in_session, in_session_spec,
    trading_date,
};

verus! {

/// Progress of the search for a valid starting run.
#[derive(Clone, Copy, Debug, PartialEq, Eq, Structural)]
pub enum SeekState {
    /// Waiting for a quote inside a trading session.
    Searching,
    /// An in-session quote on `date` opened a run; `remaining` more quotes on
    /// that date are needed.
    Confirming { date: u64, remaining: u64 },
}

/// Why no base quote was found.
#[derive(Clone, Copy, Debug, PartialEq, Eq, Structural)]
pub enum SeekError {
    /// The stream ended before a full valid run was seen.
    EndOfStream,
}

/// One transition of the search: the next state, and whether the quote just
/// fed completes a valid run (it is then the base).
pub open spec fn seek_step(hours: TradingHours, n: u64, st: SeekState, e: QuoteEvent) -> (SeekState, bool) {
    match st {
        SeekState::Searching => if in_session_spec(hours, e) {
            (SeekState::Confirming { date: day_of(e.timestamp) as u64, remaining: n }, false)
        } else {
            (SeekState::Searching, false)
        },
        SeekState::Confirming { date, remaining } => if !fits_date_spec(hours, e, date as int) {
            (SeekState::Searching, false)
        } else if remaining <= 1 {
            (SeekState::Searching, true)
        } else {
            (SeekState::Confirming { date, remaining: (remaining - 1) as u64 }, false)
        },
    }
}

/// Position of the first quote at or after `i` that completes a run, when the
/// search is in state `st` just before `i`.
pub open spec fn scan(hours: TradingHours, n: u64, st: SeekState, s: Seq<QuoteEvent>, i: int) -> Option<int>
    decreases s.len() - i,
{
    if i < 0 || i >= s.len() {
        None
    } else {
        let (next, found) = seek_step(hours, n, st, s[i]);
        if found {
            Some(i)
        } else {
            scan(hours, n, next, s, i + 1)
        }
    }
}

/// Position of the base quote that the search finds in stream `s`.
pub open spec fn anchor(hours: TradingHours, n: u64, s: Seq<QuoteEvent>) -> Option<int> {
    scan(hours, n, SeekState::Searching, s, 0)
}

/// A valid run of `n + 1` quotes starts at `j`: `s[j]` is in session and the
/// `n` quotes after it are in session on the same trading date.
pub open spec fn valid_run(hours: TradingHours, n: u64, s: Seq<QuoteEvent>, j: int) -> bool {
    &&& 0 <= j
    &&& j + n < s.len()
    &&& in_session_spec(hours, s[j])
    &&& forall|k: int| j < k <= j + n ==> fits_date_spec(hours, #[trigger] s[k], day_of(s[j].timestamp))
}

/// Consecutive in-session quotes at `k - 1` and `k` on different trading
/// dates: the date rolled over without a quote outside the session between.
pub open spec fn rollover_at(hours: TradingHours, s: Seq<QuoteEvent>, k: int) -> bool {
    &&& 0 < k < s.len()
    &&& in_session_spec(hours, s[k - 1])
    &&& in_session_spec(hours, s[k])
    &&& day_of(s[k - 1].timestamp) != day_of(s[k].timestamp)
}

/// Incremental search for the base quote: fed one quote at a time, it reports
/// the quote that completes the first run of `length` quotes following an
/// in-session quote on the same trading date. A quote that breaks a run is
/// dropped and the search starts over after it.
#[derive(Clone, Copy, Debug)]
pub struct Seeker {
    pub hours: TradingHours,
    pub length: u64,
    pub state: SeekState,
}

impl Seeker {
    pub open spec fn wf(&self) -> bool {
        &&& self.length >= 1
        &&& match self.state {
            SeekState::Searching => true,
            SeekState::Confirming { remaining, .. } => 1 <= remaining <= self.length,
        }
    }

    /// A search over `hours` for a run of `length` quotes after its first one.
    pub fn new(hours: TradingHours, length: u64) -> (r: Seeker)
        requires
            length >= 1,
        ensures
            r.wf(),
            r.hours == hours,
            r.length == length,
            r.state == SeekState::Searching,
    {
        Seeker { hours, length, state: SeekState::Searching }
    }

    /// Feeds one quote; true when it completes a valid run and is the base.
    pub fn feed(&mut self, e: &QuoteEvent) -> (found: bool)
        requires
            old(self).wf(),
        ensures
            final(self).wf(),
            final(self).hours == old(self).hours,
            final(self).length == old(self).length,
            (final(self).state, found) == seek_step(old(self).hours, old(self).length, old(self).state, *e),
    {
        match self.state {
            SeekState::Searching => {
                if in_session(&self.hours, e) {
                    self.state = SeekState::Confirming { date: trading_date(e), remaining: self.length };
                }
                false
            },
            SeekState::Confirming { date, remaining } => {
                if !fits_date(&self.hours, e, date) {
                    self.state = SeekState::Searching;
                    false
                } else if remaining <= 1 {
                    self.state = SeekState::Searching;
                    true
                } else {
                    self.state = SeekState::Confirming { date, remaining: remaining - 1 };
                    false
                }
            },
        }
    }
}

/// Finds the base quote in `stream`: the quote that completes the first valid
/// run of `length` quotes after an in-session quote, restarting after each
/// quote that leaves the session or its date. Returns its position.
pub fn find_base(hours: &TradingHours, length: u64, stream: &[QuoteEvent]) -> (r: Result<usize, SeekError>)
    requires
        length >= 1,
    ensures
        match r {
            Ok(i) => anchor(*hours, length, stream@) == Some(i as int),
            Err(SeekError::EndOfStream) => anchor(*hours, length, stream@) == None::<int>,
        },
{
    let mut seeker = Seeker::new(*hours, length);
    let mut i: usize = 0;
    while i < stream.len()
        invariant
            seeker.wf(),
            seeker.hours == *hours,
            seeker.length == length,
            i <= stream@.len(),
            anchor(*hours, length, stream@) == scan(*hours, length, seeker.state, stream@, i as int),
        decreases stream@.len() - i,
    {
        let found = seeker.feed(&stream[i]);
        if found {
            return Ok(i);
        }
        i = i + 1;
    }
    Err(SeekError::EndOfStream)
}


/// While a run on `d` is being confirmed, `m` quotes that fit `d` complete it.
proof fn lemma_confirm_pass(hours: TradingHours, n: u64, s: Seq<QuoteEvent>, d: u64, m: u64, i: int)
    requires
        1 <= m,
        0 <= i,
        i + m - 1 < s.len(),
        forall|t: int| i <= t < i + m ==> fits_date_spec(hours, #[trigger] s[t], d as int),
    ensures
        scan(hours, n, SeekState::Confirming { date: d, remaining: m }, s, i) == Some(i + m - 1),
    decreases m,
{
    assert(fits_date_spec(hours, s[i], d as int));
    if m > 1 {
        lemma_confirm_pass(hours, n, s, d, (m - 1) as u64, i + 1);
    }
}

/// While a run on `d` is being confirmed, the first quote that does not fit
/// `d` sends the search back to its start just after that quote.
proof fn lemma_confirm_break(hours: TradingHours, n: u64, s: Seq<QuoteEvent>, d: u64, m: u64, i: int, k: int)
    requires
        1 <= m,
        0 <= i <= k,
        k < i + m,
        k < s.len(),
        forall|t: int| i <= t < k ==> fits_date_spec(hours, #[trigger] s[t], d as int),
        !fits_date_spec(hours, s[k], d as int),
    ensures
        scan(hours, n, SeekState::Confirming { date: d, remaining: m }, s, i)
            == scan(hours, n, SeekState::Searching, s, k + 1),
    decreases k - i,
{
    if i < k {
        assert(fits_date_spec(hours, s[i], d as int));
        lemma_confirm_break(hours, n, s, d, (m - 1) as u64, i + 1, k);
    }
}

/// The first position in `lo..=hi` whose quote does not fit `d`.
proof fn first_unfit(hours: TradingHours, s: Seq<QuoteEvent>, d: int, lo: int, hi: int) -> (k: int)
    requires
        0 <= lo <= hi < s.len(),
        exists|t: int| lo <= t <= hi && !fits_date_spec(hours, #[trigger] s[t], d),
    ensures
        lo <= k <= hi,
        !fits_date_spec(hours, s[k], d),
        forall|t: int| lo <= t < k ==> fits_date_spec(hours, #[trigger] s[t], d),
    decreases hi - lo,
{
    if !fits_date_spec(hours, s[lo], d) {
        lo
    } else {
        first_unfit(hours, s, d, lo + 1, hi)
    }
}

/// Every base the search reports closes a valid run, from any state that is
/// consistent with the quotes already seen (`a` is where a pending run began).
proof fn lemma_scan_sound(hours: TradingHours, n: u64, s: Seq<QuoteEvent>, st: SeekState, i: int, a: int)
    requires
        n >= 1,
        0 <= i,
        match st {
            SeekState::Searching => true,
            SeekState::Confirming { date, remaining } => {
                &&& 1 <= remaining <= n
                &&& a == i - 1 - (n - remaining)
                &&& 0 <= a
                &&& in_session_spec(hours, s[a])
                &&& day_of(s[a].timestamp) == date
                &&& forall|t: int| a < t < i ==> fits_date_spec(hours, #[trigger] s[t], date as int)
            },
        },
    ensures
        match scan(hours, n, st, s, i) {
            Some(r) => r >= n && valid_run(hours, n, s, r - n),
            None => true,
        },
    decreases s.len() - i,
{
    if i < s.len() {
        match st {
            SeekState::Searching => {
                if in_session_spec(hours, s[i]) {
                    lemma_scan_sound(hours, n, s,
                        SeekState::Confirming { date: day_of(s[i].timestamp) as u64, remaining: n }, i + 1, i);
                } else {
                    lemma_scan_sound(hours, n, s, st, i + 1, a);
                }
            },
            SeekState::Confirming { date, remaining } => {
                if !fits_date_spec(hours, s[i], date as int) {
                    lemma_scan_sound(hours, n, s, SeekState::Searching, i + 1, a);
                } else if remaining <= 1 {
                    assert forall|k: int| a < k <= a + n implies fits_date_spec(hours, #[trigger] s[k], day_of(s[a].timestamp)) by {
                        if k < i {
                        }
                    }
                } else {
                    lemma_scan_sound(hours, n, s,
                        SeekState::Confirming { date, remaining: (remaining - 1) as u64 }, i + 1, a);
                }
            },
        }
    }
}

/// Whenever the search finds a base at position `r`, the `n + 1` quotes that
/// end at `r` form a valid run.
pub proof fn lemma_anchor_closes_valid_run(hours: TradingHours, n: u64, s: Seq<QuoteEvent>)
    requires
        n >= 1,
    ensures
        match anchor(hours, n, s) {
            Some(r) => r >= n && valid_run(hours, n, s, r - n),
            None => true,
        },
{
    lemma_scan_sound(hours, n, s, SeekState::Searching, 0, 0);
}

/// A stream that holds no valid run yields no base: the search ends with the
/// stream.
pub proof fn lemma_no_run_no_base(hours: TradingHours, n: u64, s: Seq<QuoteEvent>)
    requires
        n >= 1,
        forall|j: int| !valid_run(hours, n, s, j),
    ensures
        anchor(hours, n, s) == None::<int>,
{
    lemma_anchor_closes_valid_run(hours, n, s);
}

proof fn lemma_search_reaches(hours: TradingHours, n: u64, s: Seq<QuoteEvent>, i: int, j: int)
    requires
        n >= 1,
        0 <= i <= j,
        valid_run(hours, n, s, j),
        forall|t: int| i <= t < j ==> !valid_run(hours, n, s, t),
        forall|k: int| i < k <= j ==> !rollover_at(hours, s, k),
    ensures
        scan(hours, n, SeekState::Searching, s, i) == Some(j + n),
    decreases j - i,
{
    if !in_session_spec(hours, s[i]) {
        lemma_search_reaches(hours, n, s, i + 1, j);
    } else {
        let d = day_of(s[i].timestamp);
        if i == j {
            lemma_confirm_pass(hours, n, s, d as u64, n, i + 1);
        } else {
            assert(!valid_run(hours, n, s, i));
            let k = first_unfit(hours, s, d, i + 1, i + n as int);
            if k > j {
                assert(fits_date_spec(hours, s[j], d));
                assert(fits_date_spec(hours, s[k], day_of(s[j].timestamp)));
            } else if k == j {
                if j - 1 > i {
                    assert(fits_date_spec(hours, s[j - 1], d));
                }
                assert(rollover_at(hours, s, j));
            }
            lemma_confirm_break(hours, n, s, d as u64, n, i + 1, k);
            lemma_search_reaches(hours, n, s, k + 1, j);
        }
    }
}

/// Where the trading date never rolls over between two in-session quotes
/// before it, the first valid run of a stream is found whatever precedes it:
/// the base is the last quote of that run.
pub proof fn lemma_first_run_is_found(hours: TradingHours, n: u64, s: Seq<QuoteEvent>, j: int)
    requires
        n >= 1,
        valid_run(hours, n, s, j),
        forall|t: int| 0 <= t < j ==> !valid_run(hours, n, s, t),
        forall|k: int| 0 < k <= j ==> !rollover_at(hours, s, k),
    ensures
        anchor(hours, n, s) == Some(j + n),
{
    lemma_search_reaches(hours, n, s, 0, j);
}

} // verus!
