use vstd::prelude::*;

verus! {

/// The final verdict of one check, with the check's slot in the label.
#[derive(Clone, Copy, Debug, PartialEq, Eq, Structural)]
pub struct Verdict {
    pub ordinal: u32,
    pub passed: bool,
}

/// Every verdict names a slot of a label of `count` slots.
pub open spec fn ordinals_below(verdicts: Seq<Verdict>, count: int) -> bool {
    forall|k: int| 0 <= k < verdicts.len() ==> (#[trigger] verdicts[k]).ordinal < count
}

/// Some check with ordinal `i` passed.
pub open spec fn slot_passed(verdicts: Seq<Verdict>, i: int) -> bool {
    exists|k: int| 0 <= k < verdicts.len() && (#[trigger] verdicts[k]).ordinal == i && verdicts[k].passed
}

/// The label of `count` slots for a set of verdicts: slot `i` is 1 when a
/// check with ordinal `i` passed, and 0 otherwise (failed or never settled).
pub open spec fn encoding(verdicts: Seq<Verdict>, count: nat) -> Seq<u8> {
    Seq::new(count, |i: int| if slot_passed(verdicts, i) { 1u8 } else { 0u8 })
}

/// Encodes settled verdicts as a label of `count` slots, one per configured
/// check, 1 for a passed check and 0 elsewhere.
pub fn encode(verdicts: &[Verdict], count: usize) -> (label: Vec<u8>)
    requires
        ordinals_below(verdicts@, count as int),
    ensures
        label@ == encoding(verdicts@, count as nat),
{
    let mut label: Vec<u8> = Vec::new();
    let mut i: usize = 0;
    while i < count
        invariant
            i <= count,
            label@.len() == i,
            forall|t: int| 0 <= t < i ==> label@[t] == 0u8,
        decreases count - i,
    {
        label.push(0u8);
        i = i + 1;
    }
    let mut k: usize = 0;
    while k < verdicts.len()
        invariant
            k <= verdicts@.len(),
            label@.len() == count,
            ordinals_below(verdicts@, count as int),
            forall|t: int| 0 <= t < count ==> label@[t] == if slot_passed(verdicts@.take(k as int), t) { 1u8 } else { 0u8 },
        decreases verdicts@.len() - k,
    {
        let v = verdicts[k];
        proof {
            assert forall|t: int| 0 <= t < count implies
                slot_passed(verdicts@.take(k as int + 1), t) == (slot_passed(verdicts@.take(k as int), t) || (v.ordinal == t && v.passed)) by {
                let pre = verdicts@.take(k as int);
                let post = verdicts@.take(k as int + 1);
                if slot_passed(pre, t) {
                    let w = choose|w: int| 0 <= w < pre.len() && (#[trigger] pre[w]).ordinal == t && pre[w].passed;
                    assert(post[w] == pre[w]);
                }
                if v.ordinal == t && v.passed {
                    assert(post[k as int] == v);
                }
                if slot_passed(post, t) {
                    let w = choose|w: int| 0 <= w < post.len() && (#[trigger] post[w]).ordinal == t && post[w].passed;
                    if w < k {
                        assert(pre[w] == post[w]);
                    }
                }
            }
        }
        let ghost before = label@;
        if v.passed {
            label.set(v.ordinal as usize, 1u8);
        }
        proof {
            assert forall|t: int| 0 <= t < count implies label@[t] == if slot_passed(verdicts@.take(k as int + 1), t) { 1u8 } else { 0u8 } by {
                assert(slot_passed(verdicts@.take(k as int + 1), t)
                    == (slot_passed(verdicts@.take(k as int), t) || (v.ordinal == t && v.passed)));
                if v.passed && t == v.ordinal {
                } else {
                    assert(label@[t] == before[t]);
                }
            }
        }
        k = k + 1;
    }
    proof {
        assert(verdicts@.take(verdicts@.len() as int) == verdicts@);
    }
    label
}

/// What encoding puts in each slot: 0 in every slot that no verdict names,
/// and in a slot named by exactly one verdict, 1 or 0 as that verdict says.
pub proof fn lemma_encoding_slots(verdicts: Seq<Verdict>, count: nat)
    requires
        ordinals_below(verdicts, count as int),
    ensures
        encoding(verdicts, count).len() == count,
        forall|i: int| 0 <= i < count && (forall|k: int| 0 <= k < verdicts.len() ==> (#[trigger] verdicts[k]).ordinal != i)
            ==> #[trigger] encoding(verdicts, count)[i] == 0u8,
        forall|k: int| 0 <= k < verdicts.len()
            && (forall|l: int| 0 <= l < verdicts.len() && l != k ==> (#[trigger] verdicts[l]).ordinal != verdicts[k].ordinal)
            ==> #[trigger] encoding(verdicts, count)[verdicts[k].ordinal as int] == if verdicts[k].passed { 1u8 } else { 0u8 },
{
    assert forall|k: int| 0 <= k < verdicts.len()
        && (forall|l: int| 0 <= l < verdicts.len() && l != k ==> (#[trigger] verdicts[l]).ordinal != verdicts[k].ordinal)
        implies #[trigger] encoding(verdicts, count)[verdicts[k].ordinal as int] == if verdicts[k].passed { 1u8 } else { 0u8 } by {
        assert(verdicts[k].ordinal < count);
        if slot_passed(verdicts, verdicts[k].ordinal as int) {
            let w = choose|w: int| 0 <= w < verdicts.len() && (#[trigger] verdicts[w]).ordinal == verdicts[k].ordinal && verdicts[w].passed;
            assert(w == k);
        }
    }
}

/// The label depends only on which verdicts are given, not on their order or
/// repetition: two lists holding the same verdicts encode alike, and encoding
/// the same list twice gives the same label.
pub proof fn lemma_encoding_order_free(a: Seq<Verdict>, b: Seq<Verdict>, count: nat)
    requires
        a.to_set() == b.to_set(),
    ensures
        encoding(a, count) == encoding(b, count),
{
    assert forall|i: int| 0 <= i < count implies slot_passed(a, i) == slot_passed(b, i) by {
        if slot_passed(a, i) {
            let w = choose|w: int| 0 <= w < a.len() && (#[trigger] a[w]).ordinal == i && a[w].passed;
            assert(a.to_set().contains(a[w]));
            assert(b.to_set().contains(a[w]));
            let u = choose|u: int| 0 <= u < b.len() && b[u] == a[w];
            assert(b[u].ordinal == i);
        }
        if slot_passed(b, i) {
            let w = choose|w: int| 0 <= w < b.len() && (#[trigger] b[w]).ordinal == i && b[w].passed;
            assert(b.to_set().contains(b[w]));
            assert(a.to_set().contains(b[w]));
            let u = choose|u: int| 0 <= u < a.len() && a[u] == b[w];
            assert(a[u].ordinal == i);
        }
    }
    assert(encoding(a, count) =~= encoding(b, count));
}

} // verus!
