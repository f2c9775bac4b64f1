//! Head-to-head comparison of two drivers: the laps that both drivers timed,
//! in lap order, with each driver's lap time.

use vstd::prelude::*;
use vstd::seq_lib::to_multiset_contains;
use crate::json::{
    elements, jget, jnumber_text, ju64, number_opt, number_view, u64_opt, JsonNumber, JsonValue,
};
use crate::sorting::{sort_by_key, sorted_by_key};
use crate::text::{decimal, decimal_string, join2};

verus! {

/// The time of lap `n` in a `/laps` answer: that of the last entry with lap
/// number `n` and a numeric duration (later entries override earlier ones).
pub open spec fn lap_time(laps: Seq<JsonValue>, n: u64) -> Option<Seq<char>>
    decreases laps.len(),
{
    if laps.len() == 0 {
        None
    } else {
        let l = laps.last();
        if ju64(jget(l, "lap_number"@)) == Some(n) && jnumber_text(jget(l, "lap_duration"@)) is Some {
            jnumber_text(jget(l, "lap_duration"@))
        } else {
            lap_time(laps.drop_last(), n)
        }
    }
}

/// Lap numbers of the timed entries, in order.
pub open spec fn timed_laps(laps: Seq<JsonValue>) -> Seq<u64>
    decreases laps.len(),
{
    if laps.len() == 0 {
        seq![]
    } else {
        let l = laps.last();
        match (ju64(jget(l, "lap_number"@)), jnumber_text(jget(l, "lap_duration"@))) {
            (Some(n), Some(_)) => timed_laps(laps.drop_last()).push(n),
            _ => timed_laps(laps.drop_last()),
        }
    }
}

proof fn lemma_timed_laps(laps: Seq<JsonValue>, n: u64)
    ensures
        timed_laps(laps).contains(n) <==> lap_time(laps, n) is Some,
    decreases laps.len(),
{
    if laps.len() > 0 {
        lemma_timed_laps(laps.drop_last(), n);
        let l = laps.last();
        match (ju64(jget(l, "lap_number"@)), jnumber_text(jget(l, "lap_duration"@))) {
            (Some(m), Some(_)) => {
                let prev = timed_laps(laps.drop_last());
                if m == n {
                    assert(prev.push(m)[prev.len() as int] == n);
                } else {
                    assert(prev.push(m).contains(n) ==> prev.contains(n)) by {
                        if prev.push(m).contains(n) {
                            let k = choose|k: int| 0 <= k < prev.len() + 1 && prev.push(m)[k] == n;
                            assert(k < prev.len());
                            assert(prev[k] == n);
                        }
                    }
                    assert(prev.contains(n) ==> prev.push(m).contains(n)) by {
                        if prev.contains(n) {
                            let k = choose|k: int| 0 <= k < prev.len() && prev[k] == n;
                            assert(prev.push(m)[k] == n);
                        }
                    }
                }
            },
            _ => {},
        }
    }
}

/// The time of lap `n`.
fn find_lap_time(laps: &Vec<JsonValue>, n: u64) -> (r: Option<JsonNumber>)
    ensures
        number_view(r) == lap_time(laps@, n),
{
    let mut k: usize = laps.len();
    assert(laps@.take(k as int) =~= laps@);
    while k > 0
        invariant
            k <= laps@.len(),
            lap_time(laps@, n) == lap_time(laps@.take(k as int), n),
        decreases k,
    {
        let l = &laps[k - 1];
        assert(laps@.take(k as int).drop_last() =~= laps@.take(k - 1));
        assert(laps@.take(k as int).last() == laps@[k - 1]);
        if u64_opt(l.get("lap_number")) == Some(n) {
            let d = number_opt(l.get("lap_duration"));
            if d.is_some() {
                return d;
            }
        }
        k = k - 1;
    }
    None
}

/// The timed lap numbers, each paired with itself for sorting.
fn timed_lap_keys(laps: &Vec<JsonValue>) -> (r: Vec<(u64, u64)>)
    ensures
        r@ == timed_laps(laps@).map_values(|n: u64| (n, n)),
{
    let mut r: Vec<(u64, u64)> = Vec::new();
    let mut i: usize = 0;
    while i < laps.len()
        invariant
            i <= laps@.len(),
            r@ == timed_laps(laps@.take(i as int)).map_values(|n: u64| (n, n)),
        decreases laps@.len() - i,
    {
        let l = &laps[i];
        assert(laps@.take(i + 1).drop_last() =~= laps@.take(i as int));
        assert(laps@.take(i + 1).last() == laps@[i as int]);
        match (u64_opt(l.get("lap_number")), number_opt(l.get("lap_duration"))) {
            (Some(n), Some(_)) => {
                r.push((n, n));
                assert(r@ =~= timed_laps(laps@.take(i + 1)).map_values(|n: u64| (n, n)));
            },
            _ => {},
        }
        i = i + 1;
    }
    assert(laps@.take(laps@.len() as int) =~= laps@);
    r
}

/// A lap timed by both drivers.
pub struct ComparedLap {
    pub lap: u64,
    pub driver_a_time: JsonNumber,
    pub driver_b_time: JsonNumber,
}

/// The laps that both drivers timed, in increasing lap order, each with the
/// two lap times.
pub fn comparable_laps(laps_a: &JsonValue, laps_b: &JsonValue) -> (r: Vec<ComparedLap>)
    ensures
        forall|x: int, y: int| 0 <= x < y < r@.len() ==> r@[x].lap < r@[y].lap,
        forall|k: int|
            0 <= k < r@.len() ==> lap_time(elements(*laps_a), #[trigger] r@[k].lap) == Some(
                r@[k].driver_a_time.repr@,
            ) && lap_time(elements(*laps_b), r@[k].lap) == Some(r@[k].driver_b_time.repr@),
        forall|n: u64|
            lap_time(elements(*laps_a), n) is Some && lap_time(elements(*laps_b), n) is Some
                ==> exists|k: int| 0 <= k < r@.len() && #[trigger] r@[k].lap == n,
{
    let empty_a: Vec<JsonValue> = Vec::new();
    let empty_b: Vec<JsonValue> = Vec::new();
    let a: &Vec<JsonValue> = match laps_a.as_array() {
        Some(x) => x,
        None => &empty_a,
    };
    let b: &Vec<JsonValue> = match laps_b.as_array() {
        Some(x) => x,
        None => &empty_b,
    };
    let ghost sa = a@;
    let ghost sb = b@;
    assert(sa == elements(*laps_a));
    assert(sb == elements(*laps_b));
    let keys = timed_lap_keys(a);
    let sorted = sort_by_key(&keys);
    let ghost ks = keys@;
    let ghost ss = sorted@;
    // Every sorted key is a timed lap of `a`, and every timed lap is a key.
    assert forall|k: int| 0 <= k < ss.len() implies lap_time(sa, #[trigger] ss[k].0) is Some && ss[k].0
        == ss[k].1 by {
        to_multiset_contains(ss, ss[k]);
        to_multiset_contains(ks, ss[k]);
        let j = choose|j: int| 0 <= j < ks.len() && ks[j] == ss[k];
        assert(timed_laps(sa)[j] == ss[k].0);
        lemma_timed_laps(sa, ss[k].0);
    }
    let mut r: Vec<ComparedLap> = Vec::new();
    let mut i: usize = 0;
    while i < sorted.len()
        invariant
            i <= ss.len(),
            ss == sorted@,
            sorted_by_key(ss),
            ss.to_multiset() == ks.to_multiset(),
            ks == timed_laps(sa).map_values(|n: u64| (n, n)),
            sa == a@,
            sb == b@,
            forall|k: int| 0 <= k < ss.len() ==> lap_time(sa, #[trigger] ss[k].0) is Some && ss[k].0
                == ss[k].1,
            forall|x: int, y: int| 0 <= x < y < r@.len() ==> r@[x].lap < r@[y].lap,
            i > 0 ==> forall|x: int| 0 <= x < r@.len() ==> r@[x].lap <= ss[i - 1].0,
            i == 0 ==> r@.len() == 0,
            forall|k: int|
                0 <= k < r@.len() ==> lap_time(sa, #[trigger] r@[k].lap) == Some(r@[k].driver_a_time.repr@)
                    && lap_time(sb, r@[k].lap) == Some(r@[k].driver_b_time.repr@),
            forall|k: int|
                0 <= k < i && lap_time(sb, #[trigger] ss[k].0) is Some ==> exists|x: int|
                    0 <= x < r@.len() && #[trigger] r@[x].lap == ss[k].0,
        decreases ss.len() - i,
    {
        let n = sorted[i].0;
        let repeated = i > 0 && sorted[i - 1].0 == n;
        if !repeated {
            let ta = find_lap_time(a, n);
            let tb = find_lap_time(b, n);
            match (ta, tb) {
                (Some(x), Some(y)) => {
                    let ghost before = r@;
                    assert forall|x: int| 0 <= x < before.len() implies before[x].lap < n by {
                        assert(before[x].lap <= ss[i - 1].0);
                        assert(ss[i - 1].0 <= ss[i as int].0);
                    }
                    r.push(ComparedLap { lap: n, driver_a_time: x, driver_b_time: y });
                    assert(r@[before.len() as int].lap == n);
                    assert(forall|x: int| 0 <= x < before.len() ==> r@[x] == before[x]);
                    assert forall|k: int|
                        0 <= k < i + 1 && lap_time(sb, #[trigger] ss[k].0) is Some implies exists|x: int|
                        0 <= x < r@.len() && #[trigger] r@[x].lap == ss[k].0 by {
                        if k == i {
                            assert(r@[before.len() as int].lap == ss[k].0);
                        } else {
                            let x = choose|x: int| 0 <= x < before.len() && #[trigger] before[x].lap == ss[k].0;
                            assert(r@[x] == before[x]);
                        }
                    }
                },
                _ => {
                    assert(lap_time(sb, ss[i as int].0) is None);
                    if i > 0 {
                        assert(ss[i - 1].0 <= ss[i as int].0);
                    }
                },
            }
        } else {
            assert(ss[i - 1].0 == ss[i as int].0);
            assert forall|k: int|
                0 <= k < i + 1 && lap_time(sb, #[trigger] ss[k].0) is Some implies exists|x: int|
                0 <= x < r@.len() && #[trigger] r@[x].lap == ss[k].0 by {
                if k == i {
                    assert(ss[k].0 == ss[i - 1].0);
                }
            }
        }
        i = i + 1;
    }
    assert forall|n: u64| lap_time(sa, n) is Some && lap_time(sb, n) is Some implies exists|x: int|
        0 <= x < r@.len() && #[trigger] r@[x].lap == n by {
        lemma_timed_laps(sa, n);
        let j = choose|j: int| 0 <= j < timed_laps(sa).len() && timed_laps(sa)[j] == n;
        assert(ks[j] == (n, n));
        to_multiset_contains(ks, (n, n));
        to_multiset_contains(ss, (n, n));
        let k = choose|k: int| 0 <= k < ss.len() && ss[k] == (n, n);
        assert(lap_time(sb, ss[k].0) is Some);
    }
    r
}

/// Cache key of a comparison: `compare:{key}:{number_a}:{number_b}`.
pub fn compare_cache_key(session_key: u64, number_a: u16, number_b: u16) -> (r: String)
    ensures
        r@ == "compare:"@ + decimal(session_key as nat) + ":"@ + decimal(number_a as nat) + ":"@
            + decimal(number_b as nat),
{
    let mut r = join2("compare:", decimal_string(session_key).as_str());
    r.append(":");
    r.append(decimal_string(number_a as u64).as_str());
    r.append(":");
    r.append(decimal_string(number_b as u64).as_str());
    r
}

/// The time compared for a lap is the `lap_duration` of the last entry with
/// that `lap_number` and a numeric duration; a lap with no such entry has no
/// time, so it is not compared.
pub proof fn lap_time_is_last_timing(laps: Seq<JsonValue>, n: u64, j: int)
    requires
        0 <= j < laps.len(),
        ju64(jget(laps[j], "lap_number"@)) == Some(n),
        jnumber_text(jget(laps[j], "lap_duration"@)) is Some,
        forall|k: int|
            j < k < laps.len() ==> !(ju64(jget(#[trigger] laps[k], "lap_number"@)) == Some(n) && jnumber_text(
                jget(laps[k], "lap_duration"@),
            ) is Some),
    ensures
        lap_time(laps, n) == jnumber_text(jget(laps[j], "lap_duration"@)),
    decreases laps.len(),
{
    if j < laps.len() - 1 {
        let rest = laps.drop_last();
        assert(laps[laps.len() - 1] == laps.last());
        assert(rest[j] == laps[j]);
        assert forall|k: int| j < k < rest.len() implies !(ju64(jget(#[trigger] rest[k], "lap_number"@)) == Some(n)
            && jnumber_text(jget(rest[k], "lap_duration"@)) is Some) by {
            assert(rest[k] == laps[k]);
        }
        lap_time_is_last_timing(rest, n, j);
    }
}

/// A lap that no entry times has no lap time.
pub proof fn untimed_lap_absent(laps: Seq<JsonValue>, n: u64)
    requires
        forall|k: int|
            0 <= k < laps.len() ==> !(ju64(jget(#[trigger] laps[k], "lap_number"@)) == Some(n) && jnumber_text(
                jget(laps[k], "lap_duration"@),
            ) is Some),
    ensures
        lap_time(laps, n) is None,
    decreases laps.len(),
{
    if laps.len() > 0 {
        let rest = laps.drop_last();
        assert(laps[laps.len() - 1] == laps.last());
        assert forall|k: int| 0 <= k < rest.len() implies !(ju64(jget(#[trigger] rest[k], "lap_number"@)) == Some(n)
            && jnumber_text(jget(rest[k], "lap_duration"@)) is Some) by {
            assert(rest[k] == laps[k]);
        }
        untimed_lap_absent(rest, n);
    }
}

} // verus!
