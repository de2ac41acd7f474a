//! Decisions on which units must be compiled again, from modification times.
//!
//! A time is a count of nanoseconds since the Unix epoch (negative before it),
//! read for both sides of a comparison from the same clock.

use vstd::prelude::*;

verus! {

/// The modification times of one unit: its source, and its output artifact
/// where that exists.
#[derive(Debug, Clone, Copy, PartialEq, Eq, Structural)]
pub struct UnitTimes {
    pub source: i128,
    pub output: Option<i128>,
}

/// A unit is stale when its output is missing or not strictly newer than its
/// source: equal times count as stale.
pub open spec fn unit_is_stale(t: UnitTimes) -> bool {
    match t.output {
        None => true,
        Some(o) => o <= t.source,
    }
}

/// The positions of the stale units, in increasing order.
pub open spec fn stale_indices(ts: Seq<UnitTimes>) -> Seq<usize>
    decreases ts.len(),
{
    if ts.len() == 0 {
        Seq::empty()
    } else {
        let rest = stale_indices(ts.drop_last());
        if unit_is_stale(ts.last()) {
            rest.push((ts.len() - 1) as usize)
        } else {
            rest
        }
    }
}

/// A library is rebuilt whole when its archive is missing or not strictly
/// newer than some source.
pub open spec fn batch_is_stale(archive: Option<i128>, sources: Seq<i128>) -> bool {
    match archive {
        None => true,
        Some(a) => exists|i: int| 0 <= i < sources.len() && a <= #[trigger] sources[i],
    }
}

/// Whether one unit must be compiled again.
pub fn is_stale(t: UnitTimes) -> (r: bool)
    ensures
        r == unit_is_stale(t),
{
    match t.output {
        None => true,
        Some(o) => o <= t.source,
    }
}

/// The positions of the units that must be compiled again, in their order.
pub fn stale_units(times: &Vec<UnitTimes>) -> (r: Vec<usize>)
    ensures
        r@ == stale_indices(times@),
{
    let mut r: Vec<usize> = Vec::new();
    let mut i: usize = 0;
    while i < times.len()
        invariant
            i <= times@.len(),
            r@ == stale_indices(times@.subrange(0, i as int)),
        decreases times@.len() - i,
    {
        proof {
            let p = times@.subrange(0, i + 1);
            assert(p.drop_last() == times@.subrange(0, i as int));
        }
        if is_stale(times[i]) {
            r.push(i);
        }
        i = i + 1;
    }
    assert(times@.subrange(0, times@.len() as int) == times@);
    r
}

/// Whether a library's archive must be rebuilt from all its sources.
pub fn library_is_stale(archive: Option<i128>, sources: &Vec<i128>) -> (r: bool)
    ensures
        r == batch_is_stale(archive, sources@),
{
    match archive {
        None => true,
        Some(a) => {
            let mut i: usize = 0;
            while i < sources.len()
                invariant
                    i <= sources@.len(),
                    archive == Some(a),
                    forall|j: int| 0 <= j < i ==> a > #[trigger] sources@[j],
                decreases sources@.len() - i,
            {
                if a <= sources[i] {
                    assert(a <= sources@[i as int]);
                    return true;
                }
                i = i + 1;
            }
            false
        },
    }
}

/// A position is among the stale ones exactly when its unit is stale, and
/// the positions come in increasing order.
pub proof fn lemma_stale_indices(ts: Seq<UnitTimes>)
    requires
        ts.len() <= usize::MAX,
    ensures
        forall|i: int| 0 <= i < ts.len() ==> (stale_indices(ts).contains(i as usize)
            <==> unit_is_stale(#[trigger] ts[i])),
        forall|k: int| 0 <= k < stale_indices(ts).len() ==> #[trigger] stale_indices(ts)[k] < ts.len(),
        forall|k: int, l: int| 0 <= k < l < stale_indices(ts).len()
            ==> #[trigger] stale_indices(ts)[k] < #[trigger] stale_indices(ts)[l],
    decreases ts.len(),
{
    if ts.len() > 0 {
        let init = ts.drop_last();
        lemma_stale_indices(init);
        let rest = stale_indices(init);
        let all = stale_indices(ts);
        assert forall|k: int, l: int| 0 <= k < l < all.len() implies #[trigger] all[k] < #[trigger] all[l] by {
            if l < rest.len() {
                assert(all[k] == rest[k] && all[l] == rest[l]);
            } else {
                assert(all[k] == rest[k]);
                assert(rest[k] < init.len());
            }
        }
        assert forall|i: int| 0 <= i < ts.len() implies (stale_indices(ts).contains(i as usize)
            <==> unit_is_stale(#[trigger] ts[i])) by {
            if i < ts.len() - 1 {
                assert(init[i] == ts[i]);
                if stale_indices(ts).contains(i as usize) {
                    let k = choose|k: int| 0 <= k < stale_indices(ts).len() && stale_indices(ts)[k] == i as usize;
                    if k < rest.len() {
                        assert(rest[k] == i as usize);
                        assert(rest.contains(i as usize));
                    }
                }
                if rest.contains(i as usize) {
                    let k = choose|k: int| 0 <= k < rest.len() && rest[k] == i as usize;
                    assert(stale_indices(ts)[k] == i as usize);
                }
            } else {
                if unit_is_stale(ts[i]) {
                    assert(stale_indices(ts).last() == i as usize);
                }
                if stale_indices(ts).contains(i as usize) {
                    let k = choose|k: int| 0 <= k < stale_indices(ts).len() && stale_indices(ts)[k] == i as usize;
                    if k < rest.len() {
                        assert(rest[k] < init.len());
                    }
                }
            }
        }
    }
}

/// A unit whose output artifact is missing is always among the stale ones.
pub proof fn lemma_missing_output_is_stale(ts: Seq<UnitTimes>, i: int)
    requires
        0 <= i < ts.len(),
        ts[i].output is None,
        ts.len() <= usize::MAX,
    ensures
        stale_indices(ts).contains(i as usize),
{
    lemma_stale_indices(ts);
    assert(unit_is_stale(ts[i]));
}

/// An output older than its source, or exactly as old, leaves the unit stale;
/// one strictly newer leaves it out.
pub proof fn lemma_stale_by_time(ts: Seq<UnitTimes>, i: int, out: i128)
    requires
        0 <= i < ts.len(),
        ts[i].output == Some(out),
        ts.len() <= usize::MAX,
    ensures
        out < ts[i].source ==> stale_indices(ts).contains(i as usize),
        out == ts[i].source ==> stale_indices(ts).contains(i as usize),
        out > ts[i].source ==> !stale_indices(ts).contains(i as usize),
{
    lemma_stale_indices(ts);
    assert(unit_is_stale(ts[i]) == (out <= ts[i].source));
}

} // verus!
