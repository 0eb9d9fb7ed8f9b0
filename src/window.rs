use vstd::prelude::*;

use crate::label::{Verdict, encode, encoding, ordinals_below};
use crate::session::QuoteEvent;

verus! {

/// An evaluation rule run over one window of quotes. Implementations decide
/// when they settle and on what verdict; the window only drives them.
/// `ordinal_spec` and `verdict_spec` describe the check's state; `ordinal`
/// and `verdict` must return exactly what they say.
pub trait Check {
    /// The slot of this check in the label.
    spec fn ordinal_spec(&self) -> u32;

    /// The verdict of this check in its present state.
    spec fn verdict_spec(&self) -> Option<bool>;

    /// The slot of this check in the label.
    fn ordinal(&self) -> (r: u32)
        ensures
            r == self.ordinal_spec();

    /// Starts a new window at `base`, forgetting any earlier verdict.
    fn start(&mut self, base: &QuoteEvent);

    /// Feeds the next quote of the window.
    fn consume(&mut self, ev: &QuoteEvent);

    /// The final verdict, once the check has settled.
    fn verdict(&self) -> (r: Option<bool>)
        ensures
            r == self.verdict_spec();
}

/// Why a set of checks cannot label windows.
#[derive(Clone, Copy, Debug, PartialEq, Eq, Structural)]
pub enum WindowError {
    /// Some ordinal is not below the number of checks, or two checks share one.
    BadOrdinals,
}

/// The ordinals index the checks' slots densely: each is below the number
/// of checks and no two are equal.
pub open spec fn dense_ordinals(ords: Seq<u32>) -> bool {
    &&& forall|k: int| 0 <= k < ords.len() ==> (#[trigger] ords[k]) < ords.len()
    &&& forall|k: int, l: int| 0 <= k < l < ords.len() ==> #[trigger] ords[k] != #[trigger] ords[l]
}

/// The ordinals of a list of checks, in order.
pub open spec fn ordinals_of<C: Check>(checks: Seq<C>) -> Seq<u32> {
    checks.map_values(|c: C| c.ordinal_spec())
}

/// Whether `ords` index `ords.len()` slots densely.
pub fn check_ordinals(ords: &[u32]) -> (r: bool)
    ensures
        r == dense_ordinals(ords@),
{
    let n = ords.len();
    let mut k: usize = 0;
    while k < n
        invariant
            k <= n,
            n == ords@.len(),
            forall|i: int| 0 <= i < k ==> (#[trigger] ords@[i]) < n,
            forall|i: int, j: int| 0 <= i < j < k ==> #[trigger] ords@[i] != #[trigger] ords@[j],
        decreases n - k,
    {
        let o = ords[k];
        if o as usize >= n {
            return false;
        }
        let mut j: usize = 0;
        while j < k
            invariant
                j <= k,
                k < n,
                n == ords@.len(),
                o == ords@[k as int],
                forall|i: int| 0 <= i < j ==> (#[trigger] ords@[i]) != o,
            decreases k - j,
        {
            if ords[j] == o {
                return false;
            }
            j = j + 1;
        }
        k = k + 1;
    }
    true
}

/// The verdicts latched so far, one per settled check, with its ordinal.
pub open spec fn settled_verdicts(ords: Seq<u32>, latched: Seq<Option<bool>>) -> Seq<Verdict>
    decreases latched.len(),
{
    if latched.len() == 0 {
        Seq::empty()
    } else {
        let last = latched.len() - 1;
        let rest = settled_verdicts(ords, latched.take(last));
        match latched[last] {
            Some(p) => rest.push(Verdict { ordinal: ords[last], passed: p }),
            None => rest,
        }
    }
}

/// The checks of the current window. Each check's first verdict is latched;
/// the window is done once every check has one.
pub struct Window<C> {
    pub checks: Vec<C>,
    pub ordinals: Vec<u32>,
    pub latched: Vec<Option<bool>>,
    pub base: QuoteEvent,
    pub last: QuoteEvent,
}

impl<C: Check> Window<C> {
    pub open spec fn wf(&self) -> bool {
        &&& self.checks@.len() == self.ordinals@.len()
        &&& self.latched@.len() == self.ordinals@.len()
        &&& dense_ordinals(self.ordinals@)
    }

    /// All checks have a verdict.
    pub open spec fn done_spec(&self) -> bool {
        forall|k: int| 0 <= k < self.latched@.len() ==> (#[trigger] self.latched@[k]) is Some
    }

    /// The label of the verdicts latched so far.
    pub open spec fn label_spec(&self) -> Seq<u8> {
        encoding(settled_verdicts(self.ordinals@, self.latched@), self.ordinals@.len())
    }

    /// Takes the checks that will label windows, starting a window at `base`.
    /// Fails when their ordinals do not index `checks.len()` slots densely.
    pub fn new(checks: Vec<C>, base: &QuoteEvent) -> (r: Result<Window<C>, WindowError>)
        ensures
            r is Err <==> !dense_ordinals(ordinals_of(checks@)),
            match r {
                Ok(w) => {
                    &&& w.wf()
                    &&& w.ordinals@ == ordinals_of(checks@)
                    &&& w.checks@.len() == checks@.len()
                    &&& w.base == *base
                    &&& w.last == *base
                    &&& forall|k: int| 0 <= k < w.latched@.len() ==> (#[trigger] w.latched@[k]) is None
                },
                Err(WindowError::BadOrdinals) => true,
            },
    {
        let n = checks.len();
        let mut ordinals: Vec<u32> = Vec::new();
        let mut k: usize = 0;
        while k < n
            invariant
                k <= n,
                n == checks@.len(),
                ordinals@.len() == k,
                forall|i: int| 0 <= i < k ==> ordinals@[i] == (#[trigger] checks@[i]).ordinal_spec(),
            decreases n - k,
        {
            ordinals.push(checks[k].ordinal());
            k = k + 1;
        }
        assert(ordinals@ =~= ordinals_of(checks@));
        if !check_ordinals(ordinals.as_slice()) {
            return Err(WindowError::BadOrdinals);
        }
        let mut latched: Vec<Option<bool>> = Vec::new();
        let mut i: usize = 0;
        while i < n
            invariant
                i <= n,
                latched@.len() == i,
                forall|t: int| 0 <= t < i ==> (#[trigger] latched@[t]) is None,
            decreases n - i,
        {
            latched.push(None);
            i = i + 1;
        }
        let mut w = Window { checks, ordinals, latched, base: *base, last: *base };
        w.start(base);
        Ok(w)
    }

    /// Starts a new window at `base`: every check starts over and no verdict
    /// is latched.
    pub fn start(&mut self, base: &QuoteEvent)
        requires
            old(self).wf(),
        ensures
            final(self).wf(),
            final(self).ordinals == old(self).ordinals,
            final(self).checks@.len() == old(self).checks@.len(),
            final(self).base == *base,
            final(self).last == *base,
            forall|k: int| 0 <= k < final(self).latched@.len() ==> (#[trigger] final(self).latched@[k]) is None,
    {
        let n = self.checks.len();
        let mut i: usize = 0;
        while i < n
            invariant
                i <= n,
                n == self.checks@.len(),
                self.wf(),
                self.ordinals == old(self).ordinals,
                forall|t: int| 0 <= t < i ==> (#[trigger] self.latched@[t]) is None,
            decreases n - i,
        {
            self.checks[i].start(base);
            self.latched.set(i, None);
            i = i + 1;
        }
        self.base = *base;
        self.last = *base;
    }

    /// Starts the next window at the last quote of this one.
    pub fn init_next(&mut self)
        requires
            old(self).wf(),
        ensures
            final(self).wf(),
            final(self).ordinals == old(self).ordinals,
            final(self).base == old(self).last,
            final(self).last == old(self).last,
            forall|k: int| 0 <= k < final(self).latched@.len() ==> (#[trigger] final(self).latched@[k]) is None,
    {
        let last = self.last;
        self.start(&last);
    }

    /// Feeds one quote to every check still without a verdict, latching the
    /// verdicts that appear. Latched verdicts never change.
    pub fn consume(&mut self, ev: &QuoteEvent)
        requires
            old(self).wf(),
        ensures
            final(self).wf(),
            final(self).ordinals == old(self).ordinals,
            final(self).base == old(self).base,
            final(self).last == *ev,
            final(self).checks@.len() == old(self).checks@.len(),
            forall|k: int| 0 <= k < old(self).latched@.len() && (#[trigger] old(self).latched@[k]) is Some
                ==> final(self).latched@[k] == old(self).latched@[k] && final(self).checks@[k] == old(self).checks@[k],
            forall|k: int| 0 <= k < old(self).latched@.len() && (#[trigger] old(self).latched@[k]) is None
                ==> final(self).latched@[k] == final(self).checks@[k].verdict_spec(),
    {
        let n = self.checks.len();
        let mut i: usize = 0;
        while i < n
            invariant
                i <= n,
                n == self.checks@.len(),
                self.wf(),
                self.ordinals == old(self).ordinals,
                self.base == old(self).base,
                self.latched@.len() == old(self).latched@.len(),
                self.checks@.len() == old(self).checks@.len(),
                forall|k: int| 0 <= k < old(self).latched@.len() && (#[trigger] old(self).latched@[k]) is Some
                    ==> self.latched@[k] == old(self).latched@[k] && self.checks@[k] == old(self).checks@[k],
                forall|k: int| 0 <= k < i && (#[trigger] old(self).latched@[k]) is None
                    ==> self.latched@[k] == self.checks@[k].verdict_spec(),
                forall|k: int| i <= k < n ==> #[trigger] self.latched@[k] == old(self).latched@[k],
            decreases n - i,
        {
            let ghost before = self.latched@;
            let ghost checks_before = self.checks@;
            if self.latched[i].is_none() {
                self.checks[i].consume(ev);
                let v = self.checks[i].verdict();
                self.latched.set(i, v);
                proof {
                    assert(self.checks@ == checks_before.update(i as int, self.checks@[i as int]));
                    assert forall|k: int| 0 <= k < old(self).latched@.len() && (#[trigger] old(self).latched@[k]) is Some
                        implies self.latched@[k] == old(self).latched@[k] && self.checks@[k] == old(self).checks@[k] by {
                        if k != i {
                            assert(self.latched@[k] == before[k]);
                            assert(self.checks@[k] == checks_before[k]);
                        }
                    }
                    assert forall|k: int| 0 <= k < i + 1 && (#[trigger] old(self).latched@[k]) is None
                        implies self.latched@[k] == self.checks@[k].verdict_spec() by {
                        if k != i {
                            assert(self.latched@[k] == before[k]);
                            assert(self.checks@[k] == checks_before[k]);
                        }
                    }
                    assert forall|k: int| i + 1 <= k < n implies #[trigger] self.latched@[k] == old(self).latched@[k] by {
                        assert(self.latched@[k] == before[k]);
                    }
                }
            }
            i = i + 1;
        }
        self.last = *ev;
    }

    /// Whether every check has a verdict.
    pub fn is_done(&self) -> (r: bool)
        requires
            self.wf(),
        ensures
            r == self.done_spec(),
    {
        let mut i: usize = 0;
        while i < self.latched.len()
            invariant
                i <= self.latched@.len(),
                forall|k: int| 0 <= k < i ==> (#[trigger] self.latched@[k]) is Some,
            decreases self.latched@.len() - i,
        {
            if self.latched[i].is_none() {
                return false;
            }
            i = i + 1;
        }
        true
    }

    /// The verdicts latched so far, in the order of the checks.
    pub fn settled(&self) -> (r: Vec<Verdict>)
        requires
            self.wf(),
        ensures
            r@ == settled_verdicts(self.ordinals@, self.latched@),
    {
        let mut r: Vec<Verdict> = Vec::new();
        let mut i: usize = 0;
        while i < self.latched.len()
            invariant
                self.wf(),
                i <= self.latched@.len(),
                r@ == settled_verdicts(self.ordinals@, self.latched@.take(i as int)),
            decreases self.latched@.len() - i,
        {
            proof {
                assert(self.latched@.take(i as int + 1).take(i as int) == self.latched@.take(i as int));
            }
            match self.latched[i] {
                Some(p) => r.push(Verdict { ordinal: self.ordinals[i], passed: p }),
                None => {},
            }
            i = i + 1;
        }
        proof {
            assert(self.latched@.take(self.latched@.len() as int) == self.latched@);
        }
        r
    }

    /// The label of the verdicts latched so far: one slot per check.
    pub fn label(&self) -> (r: Vec<u8>)
        requires
            self.wf(),
        ensures
            r@ == self.label_spec(),
    {
        let verdicts = self.settled();
        proof {
            lemma_settled_ordinals(self.ordinals@, self.latched@);
        }
        encode(verdicts.as_slice(), self.ordinals.len())
    }
}

/// Settled verdicts carry ordinals of the checks, so they name slots of the
/// label.
proof fn lemma_settled_ordinals(ords: Seq<u32>, latched: Seq<Option<bool>>)
    requires
        latched.len() <= ords.len(),
        forall|k: int| 0 <= k < ords.len() ==> (#[trigger] ords[k]) < ords.len(),
    ensures
        ordinals_below(settled_verdicts(ords, latched), ords.len() as int),
    decreases latched.len(),
{
    if latched.len() > 0 {
        let last = latched.len() - 1;
        lemma_settled_ordinals(ords, latched.take(last));
        assert(ords[last] < ords.len());
    }
}

} // verus!
