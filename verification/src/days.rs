//! Day-bucketing: grouping a page of events by the calendar day on which they
//! start, with the buckets sorted ascending by day.

use vstd::prelude::*;

use crate::models::Event;

verus! {

/// The Unix timestamp of the midnight that begins the day holding `ts`.
/// (`/` on `int` rounds toward negative infinity for a positive divisor.)
pub open spec fn day_of(ts: int) -> int {
    86400 * (ts / 86400)
}

/// One calendar day of an event listing: the day's midnight timestamp, and
/// the events starting on that day in the order the backend returned them.
pub struct DayEventContext {
    pub day: i64,
    pub events: Vec<Event>,
}

/// The predicate selecting the events that start on the given day.
pub open spec fn on_day(day: int) -> spec_fn(Event) -> bool {
    |e: Event| day_of(e.time as int) == day
}

/// The midnight timestamp of the day that holds `ts`.
pub fn day_key(ts: i64) -> (r: i64)
    requires
        i64::MIN <= day_of(ts as int),
    ensures
        r as int == day_of(ts as int),
{
    if ts >= 0 {
        let r0 = ts % 86400;
        proof {
            vstd::arithmetic::div_mod::lemma_fundamental_div_mod(ts as int, 86400);
        }
        ts - r0
    } else {
        let m = -(ts + 1);
        let q0 = m / 86400;
        let r0 = m % 86400;
        proof {
            vstd::arithmetic::div_mod::lemma_fundamental_div_mod(m as int, 86400);
            vstd::arithmetic::div_mod::lemma_fundamental_div_mod_converse(
                ts as int,
                86400,
                -(q0 as int) - 1,
                86399 - (r0 as int),
            );
        }
        -(q0 * 86400) - 86400
    }
}

/// Groups a page of events by calendar day. Every event lands in the bucket
/// of its start day, in the order received; one bucket exists per distinct
/// day; the buckets come out sorted ascending by day.
#[verifier::loop_isolation(false)]
pub fn day_contexts(events: Vec<Event>) -> (r: Vec<DayEventContext>)
    requires
        forall|j: int|
            0 <= j < events@.len() ==> i64::MIN <= day_of(
                (#[trigger] events@[j]).time as int,
            ),
    ensures
        forall|i1: int, i2: int| 0 <= i1 < i2 < r@.len() ==> r@[i1].day < r@[i2].day,
        forall|i: int|
            0 <= i < r@.len() ==> (#[trigger] r@[i]).events@ == events@.filter(
                on_day(r@[i].day as int),
            ),
        forall|i: int| 0 <= i < r@.len() ==> (#[trigger] r@[i]).events@.len() > 0,
        forall|j: int|
            0 <= j < events@.len() ==> exists|i: int|
                0 <= i < r@.len() && r@[i].day as int == day_of(
                    (#[trigger] events@[j]).time as int,
                ),
{
    let ghost all = events@;
    let mut rest = events;
    let mut buckets: Vec<DayEventContext> = Vec::new();
    let ghost mut k: int = 0;
    proof {
        assert(rest@ =~= all.skip(0));
        assert(all.take(0) =~= Seq::<Event>::empty());
    }
    while rest.len() > 0
        invariant
            0 <= k <= all.len(),
            rest@ == all.skip(k),
            forall|i1: int, i2: int|
                0 <= i1 < i2 < buckets@.len() ==> buckets@[i1].day < buckets@[i2].day,
            forall|i: int|
                0 <= i < buckets@.len() ==> (#[trigger] buckets@[i]).events@ == all.take(
                    k,
                ).filter(on_day(buckets@[i].day as int)),
            forall|i: int| 0 <= i < buckets@.len() ==> (#[trigger] buckets@[i]).events@.len() > 0,
            forall|j: int|
                0 <= j < k ==> exists|i: int|
                    0 <= i < buckets@.len() && buckets@[i].day as int == day_of(
                        (#[trigger] all[j]).time as int,
                    ),
        decreases rest@.len(),
    {
        let ghost old_buckets = buckets@;
        let e = rest.remove(0);
        proof {
            assert(e == all[k]);
            assert(rest@ =~= all.skip(k + 1));
            assert(all.take(k + 1).drop_last() =~= all.take(k));
            assert(all.take(k + 1).last() == e);
        }
        let key = day_key(e.time);
        let mut pos: usize = 0;
        while pos < buckets.len() && buckets[pos].day < key
            invariant
                0 <= pos <= buckets@.len(),
                forall|i: int| 0 <= i < pos ==> buckets@[i].day < key,
            decreases buckets@.len() - pos,
        {
            pos = pos + 1;
        }
        if pos < buckets.len() && buckets[pos].day == key {
            let mut b = buckets.remove(pos);
            b.events.push(e);
            buckets.insert(pos, b);
            proof {
                assert(buckets@ =~= old_buckets.update(pos as int, buckets@[pos as int]));
                reveal(Seq::filter);
                assert forall|i: int| 0 <= i < buckets@.len() implies (
                #[trigger] buckets@[i]).events@ == all.take(k + 1).filter(
                    on_day(buckets@[i].day as int),
                ) by {
                    let pred = on_day(buckets@[i].day as int);
                    assert(all.take(k + 1).filter(pred) == if pred(e) {
                        all.take(k).filter(pred).push(e)
                    } else {
                        all.take(k).filter(pred)
                    });
                    if i == pos {
                        assert(pred(e));
                        assert(buckets@[i].events@ == old_buckets[i].events@.push(e));
                    } else {
                        assert(buckets@[i] == old_buckets[i]);
                        assert(!pred(e));
                    }
                }
                assert forall|j: int| 0 <= j < k + 1 implies exists|i: int|
                    0 <= i < buckets@.len() && buckets@[i].day as int == day_of(
                        (#[trigger] all[j]).time as int,
                    ) by {
                    if j == k {
                        assert(buckets@[pos as int].day as int == day_of(all[j].time as int));
                    } else {
                        let i0 = choose|i0: int|
                            0 <= i0 < old_buckets.len() && old_buckets[i0].day as int == day_of(
                                all[j].time as int,
                            );
                        assert(buckets@[i0].day == old_buckets[i0].day);
                    }
                }
            }
        } else {
            let mut ev: Vec<Event> = Vec::new();
            ev.push(e);
            buckets.insert(pos, DayEventContext { day: key, events: ev });
            proof {
                assert(buckets@ =~= old_buckets.insert(pos as int, buckets@[pos as int]));
                // no earlier event starts on this day: its bucket would have
                // to sit where the scan stopped
                assert forall|j: int| 0 <= j < k implies !(on_day(key as int)(all[j])) by {
                    if day_of(all[j].time as int) == key {
                        let i0 = choose|i0: int|
                            0 <= i0 < old_buckets.len() && old_buckets[i0].day as int == day_of(
                                (#[trigger] all[j]).time as int,
                            );
                        assert(old_buckets[i0].day == key);
                        assert(i0 < pos ==> old_buckets[i0].day < key);
                        assert(i0 >= pos ==> old_buckets[i0].day != key);
                    }
                }
                assert(all.take(k).all(|x: Event| !(on_day(key as int)(x))));
                all.take(k).lemma_all_neg_filter_empty(on_day(key as int));
                reveal(Seq::filter);
                assert forall|i: int| 0 <= i < buckets@.len() implies (
                #[trigger] buckets@[i]).events@ == all.take(k + 1).filter(
                    on_day(buckets@[i].day as int),
                ) by {
                    let pred = on_day(buckets@[i].day as int);
                    assert(all.take(k + 1).filter(pred) == if pred(e) {
                        all.take(k).filter(pred).push(e)
                    } else {
                        all.take(k).filter(pred)
                    });
                    if i == pos {
                        assert(pred(e));
                        assert(buckets@[i].events@ =~= Seq::<Event>::empty().push(e));
                        assert(all.take(k).filter(pred).len() == 0);
                        assert(all.take(k).filter(pred) =~= Seq::<Event>::empty());
                    } else if i < pos {
                        assert(buckets@[i] == old_buckets[i]);
                        assert(buckets@[i].day < key);
                        assert(!pred(e));
                    } else {
                        assert(buckets@[i] == old_buckets[i - 1]);
                        assert(old_buckets[pos as int].day > key || pos == old_buckets.len());
                        assert(buckets@[i].day > key);
                        assert(!pred(e));
                    }
                }
                assert forall|i1: int, i2: int| 0 <= i1 < i2 < buckets@.len() implies buckets@[
                i1].day < buckets@[i2].day by {
                    if i2 <= pos {
                    } else if i1 >= pos {
                        assert(buckets@[i1] == old_buckets[i1 - 1] || i1 == pos);
                    }
                }
                assert forall|j: int| 0 <= j < k + 1 implies exists|i: int|
                    0 <= i < buckets@.len() && buckets@[i].day as int == day_of(
                        (#[trigger] all[j]).time as int,
                    ) by {
                    if j == k {
                        assert(buckets@[pos as int].day as int == day_of(all[j].time as int));
                    } else {
                        let i0 = choose|i0: int|
                            0 <= i0 < old_buckets.len() && old_buckets[i0].day as int == day_of(
                                all[j].time as int,
                            );
                        let i1 = if i0 < pos {
                            i0
                        } else {
                            i0 + 1
                        };
                        assert(buckets@[i1].day == old_buckets[i0].day);
                    }
                }
            }
        }
        proof {
            k = k + 1;
        }
    }
    proof {
        assert(all.take(k) =~= all);
    }
    buckets
}

/// Day-bucketing is a partition: each event of the input lies in exactly
/// one bucket, the one carrying its start day, and no two buckets share a
/// day. The hypotheses are what `day_contexts` ensures of its result.
pub proof fn lemma_buckets_partition(events: Seq<Event>, buckets: Seq<DayEventContext>, j: int)
    requires
        forall|i1: int, i2: int| 0 <= i1 < i2 < buckets.len() ==> buckets[i1].day < buckets[i2].day,
        forall|i: int|
            0 <= i < buckets.len() ==> (#[trigger] buckets[i]).events@ == events.filter(
                on_day(buckets[i].day as int),
            ),
        forall|jj: int|
            0 <= jj < events.len() ==> exists|i: int|
                0 <= i < buckets.len() && buckets[i].day as int == day_of(
                    (#[trigger] events[jj]).time as int,
                ),
        0 <= j < events.len(),
    ensures
        forall|i1: int, i2: int|
            0 <= i1 < buckets.len() && 0 <= i2 < buckets.len() && i1 != i2 ==> buckets[i1].day
                != buckets[i2].day,
        exists|i: int|
            #![auto]
            0 <= i < buckets.len() && buckets[i].day as int == day_of(events[j].time as int)
                && buckets[i].events@.contains(events[j]),
{
    let i = choose|i: int|
        0 <= i < buckets.len() && buckets[i].day as int == day_of(events[j].time as int);
    let pred = on_day(buckets[i].day as int);
    assert(pred(events[j]));
    events.lemma_filter_contains(pred, j);
    assert(0 <= i < buckets.len() && buckets[i].day as int == day_of(events[j].time as int)
        && buckets[i].events@.contains(events[j]));
}

} // verus!
