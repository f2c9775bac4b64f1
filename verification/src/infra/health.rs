//! The whole-number part of a host health report: network traffic totals.

use vstd::prelude::*;

verus! {

/// Bytes received over all interfaces, from `(received, transmitted)`
/// counters.
pub open spec fn received_total(counters: Seq<(u64, u64)>) -> nat
    decreases counters.len(),
{
    if counters.len() == 0 {
        0
    } else {
        received_total(counters.drop_last()) + counters.last().0 as nat
    }
}

/// Bytes transmitted over all interfaces.
pub open spec fn sent_total(counters: Seq<(u64, u64)>) -> nat
    decreases counters.len(),
{
    if counters.len() == 0 {
        0
    } else {
        sent_total(counters.drop_last()) + counters.last().1 as nat
    }
}

proof fn lemma_prefix_totals(counters: Seq<(u64, u64)>, i: int)
    requires
        0 <= i <= counters.len(),
    ensures
        received_total(counters.take(i)) <= received_total(counters),
        sent_total(counters.take(i)) <= sent_total(counters),
    decreases counters.len() - i,
{
    if i < counters.len() {
        lemma_prefix_totals(counters, i + 1);
        assert(counters.take(i + 1).drop_last() =~= counters.take(i));
    } else {
        assert(counters.take(i) =~= counters);
    }
}

/// The bytes received and transmitted over all network interfaces: the sums
/// of the interfaces' counters.
pub fn traffic_totals(counters: &Vec<(u64, u64)>) -> (r: (u64, u64))
    requires
        received_total(counters@) <= u64::MAX,
        sent_total(counters@) <= u64::MAX,
    ensures
        r.0 == received_total(counters@),
        r.1 == sent_total(counters@),
{
    let mut rx: u64 = 0;
    let mut tx: u64 = 0;
    let mut i: usize = 0;
    while i < counters.len()
        invariant
            i <= counters@.len(),
            received_total(counters@) <= u64::MAX,
            sent_total(counters@) <= u64::MAX,
            rx == received_total(counters@.take(i as int)),
            tx == sent_total(counters@.take(i as int)),
        decreases counters@.len() - i,
    {
        proof {
            lemma_prefix_totals(counters@, i + 1);
            assert(counters@.take(i + 1).drop_last() =~= counters@.take(i as int));
        }
        rx = rx + counters[i].0;
        tx = tx + counters[i].1;
        i = i + 1;
    }
    assert(counters@.take(counters@.len() as int) =~= counters@);
    (rx, tx)
}

/// Traffic adds up interface by interface: the totals of two lists of
/// interfaces together are the sums of their totals, and the totals of one
/// interface are its own received and transmitted counters.
pub proof fn traffic_totals_add_up(a: Seq<(u64, u64)>, b: Seq<(u64, u64)>, c: (u64, u64))
    ensures
        received_total(a + b) == received_total(a) + received_total(b),
        sent_total(a + b) == sent_total(a) + sent_total(b),
        received_total(seq![c]) == c.0,
        sent_total(seq![c]) == c.1,
    decreases b.len(),
{
    assert(seq![c].drop_last() =~= Seq::<(u64, u64)>::empty());
    assert(seq![c].last() == c);
    assert(received_total(Seq::<(u64, u64)>::empty()) == 0);
    assert(sent_total(Seq::<(u64, u64)>::empty()) == 0);
    if b.len() == 0 {
        assert(a + b =~= a);
    } else {
        assert((a + b).drop_last() =~= a + b.drop_last());
        assert((a + b).last() == b.last());
        traffic_totals_add_up(a, b.drop_last(), c);
    }
}

} // verus!
