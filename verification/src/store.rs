//! The time-ordered measurement store.
//!
//! The sink the bridge appends to is durable storage behind a pool; its
//! semantics — an atomic append that assigns monotonically increasing
//! identifiers, and time-ordered listings over what was appended — is
//! what this module states and proves, over an in-memory table of plain
//! values. The host keeps the same rows in its database and answers the
//! same queries with SQL; swapping the capability is the point of
//! keeping the sink's contract here, separate from any storage client.
//!
//! A reading's value is carried as the 64 bits of its IEEE-754 double
//! representation: the store never interprets it numerically.

use vstd::prelude::*;

use vstd::multiset::Multiset;
use vstd::seq_lib::group_to_multiset_ensures;

use crate::timestamp::Timestamp;

verus! {

/// One persisted measurement: the identifier the store assigned, the
/// bridge-local receipt time, and the reading's 64 value bits.
#[derive(Clone, Copy, PartialEq, Eq, Structural, Debug)]
pub struct SensorData {
    pub id: i64,
    pub timestamp: Timestamp,
    pub value_bits: u64,
}

/// Why an append failed. Appends are atomic, so a failed one leaves no
/// partial row; the bridge logs it and drops the single measurement.
#[derive(Clone, Copy, PartialEq, Eq, Structural, Debug)]
pub enum SinkError {
    /// The store has no further identifier to assign.
    IdsExhausted,
}

/// The shared measurement table: rows in insertion order, plus the
/// identifier the next append will receive.
pub struct MeasurementStore {
    pub rows: Vec<SensorData>,
    pub next_id: i64,
}

impl MeasurementStore {
    /// Identifiers are assigned monotonically: strictly increasing along
    /// the insertion order, and all below the next one to be handed out.
    pub open spec fn wf(self) -> bool {
        &&& 1 <= self.next_id
        &&& forall|i: int, j: int|
            #![trigger self.rows@[i], self.rows@[j]]
            0 <= i < j < self.rows@.len() ==> self.rows@[i].id < self.rows@[j].id
        &&& forall|i: int| 0 <= i < self.rows@.len() ==> (#[trigger] self.rows@[i]).id
            < self.next_id
    }

    /// An empty store; the first append will receive identifier 1.
    pub fn new() -> (store: MeasurementStore)
        ensures
            store.wf(),
            store.rows@ == Seq::<SensorData>::empty(),
            store.next_id == 1,
    {
        MeasurementStore { rows: Vec::new(), next_id: 1 }
    }
}

/// Appends one measurement: an atomic, all-or-nothing write.
///
/// Succeeds exactly while identifiers remain, returning the assigned
/// one and appending the full row; on failure the store is unchanged —
/// no partial row ever exists.
pub fn add_sensor_data(store: &mut MeasurementStore, timestamp: Timestamp, value_bits: u64) -> (
    appended: Result<i64, SinkError>)
    requires
        old(store).wf(),
    ensures
        final(store).wf(),
        old(store).next_id < i64::MAX ==> appended == Ok::<i64, SinkError>(old(store).next_id)
            && final(store).rows@ == old(store).rows@.push(
            SensorData { id: old(store).next_id, timestamp, value_bits },
        ) && final(store).next_id == old(store).next_id + 1,
        old(store).next_id == i64::MAX ==> appended == Err::<i64, SinkError>(
            SinkError::IdsExhausted,
        ) && *final(store) == *old(store),
{
    if store.next_id == i64::MAX {
        Err(SinkError::IdsExhausted)
    } else {
        let id = store.next_id;
        store.rows.push(SensorData { id, timestamp, value_bits });
        store.next_id = id + 1;
        Ok(id)
    }
}

/// Ascending by timestamp: no later row precedes an earlier one.
pub open spec fn sorted_ascending(s: Seq<SensorData>) -> bool {
    forall|i: int, j: int|
        #![trigger s[i], s[j]]
        0 <= i <= j < s.len() ==> s[i].timestamp.spec_le(s[j].timestamp)
}

/// Descending by timestamp: most recent first.
pub open spec fn sorted_descending(s: Seq<SensorData>) -> bool {
    forall|i: int, j: int|
        #![trigger s[i], s[j]]
        0 <= i <= j < s.len() ==> s[j].timestamp.spec_le(s[i].timestamp)
}

/// Places `row` into an ascending sequence, keeping it ascending.
fn insert_ascending(sorted: &mut Vec<SensorData>, row: SensorData)
    requires
        sorted_ascending(old(sorted)@),
    ensures
        sorted_ascending(final(sorted)@),
        final(sorted)@.to_multiset() == old(sorted)@.to_multiset().insert(row),
        final(sorted)@.len() == old(sorted)@.len() + 1,
{
    let mut pos: usize = sorted.len();
    while pos > 0 && row.timestamp.lt(&sorted[pos - 1].timestamp)
        invariant
            pos <= sorted@.len(),
            *sorted == *old(sorted),
            forall|k: int|
                pos <= k < sorted@.len() ==> row.timestamp.spec_lt(
                    (#[trigger] sorted@[k]).timestamp,
                ),
        decreases pos,
    {
        pos -= 1;
    }
    let ghost before = sorted@;
    let ghost p = pos as int;
    sorted.insert(pos, row);
    proof {
        broadcast use group_to_multiset_ensures;

        before.insert_ensures(p, row);
        assert(sorted@.to_multiset() == before.to_multiset().insert(row));
        assert forall|i: int, j: int|
            #![trigger sorted@[i], sorted@[j]]
            0 <= i <= j < sorted@.len() implies sorted@[i].timestamp.spec_le(
            sorted@[j].timestamp,
        ) by {
            if i < p && p < j {
                assert(before[i].timestamp.spec_le(before[p - 1].timestamp));
            }
            if i == p && j > p {
                assert(row.timestamp.spec_lt(before[j - 1].timestamp));
            }
            if j == p && i < p {
                assert(before[i].timestamp.spec_le(before[p - 1].timestamp));
            }
        }
    }
}

/// Every row of the store, most recent last: the full listing, ordered
/// by timestamp ascending, one output row per stored row.
pub fn list_sensordata(store: &MeasurementStore) -> (listed: Vec<SensorData>)
    ensures
        sorted_ascending(listed@),
        listed@.to_multiset() == store.rows@.to_multiset(),
        listed@.len() == store.rows@.len(),
{
    let mut listed: Vec<SensorData> = Vec::new();
    let mut i: usize = 0;
    proof {
        assert(listed@ =~= store.rows@.take(0));
    }
    while i < store.rows.len()
        invariant
            i <= store.rows@.len(),
            sorted_ascending(listed@),
            listed@.to_multiset() == store.rows@.take(i as int).to_multiset(),
            listed@.len() == i,
        decreases store.rows@.len() - i,
    {
        let row = store.rows[i];
        insert_ascending(&mut listed, row);
        proof {
            broadcast use group_to_multiset_ensures;

            assert(store.rows@.take(i as int + 1) =~= store.rows@.take(i as int).push(
                store.rows@[i as int],
            ));
        }
        i += 1;
    }
    proof {
        assert(store.rows@.take(store.rows@.len() as int) =~= store.rows@);
    }
    listed
}

/// The IEEE-754 double bits of 10.0.
pub const BITS_TEN: u64 = 0x4024_0000_0000_0000;

/// The IEEE-754 double bits of 11.0.
pub const BITS_ELEVEN: u64 = 0x4026_0000_0000_0000;

/// The IEEE-754 double bits of 12.0.
pub const BITS_TWELVE: u64 = 0x4028_0000_0000_0000;

/// The IEEE-754 double bits of 13.0.
pub const BITS_THIRTEEN: u64 = 0x402a_0000_0000_0000;

/// Appends the fixed sample rows: four readings across one morning,
/// and one reading of ten stamped with the present clock time.
pub fn create_test_data(store: &mut MeasurementStore)
    requires
        old(store).wf(),
        old(store).next_id <= i64::MAX - 5,
    ensures
        final(store).wf(),
        final(store).next_id == old(store).next_id + 5,
        final(store).rows@.len() == old(store).rows@.len() + 5,
        final(store).rows@.take(old(store).rows@.len() as int) == old(store).rows@,
        ({
            let n = old(store).rows@.len() as int;
            let id0 = old(store).next_id;
            &&& final(store).rows@[n] == (SensorData {
                id: id0,
                timestamp: Timestamp { year: 2024, month: 1, day: 1, hour: 9, minute: 0, second: 0 },
                value_bits: BITS_TEN,
            })
            &&& final(store).rows@[n + 1] == (SensorData {
                id: (id0 + 1) as i64,
                timestamp: Timestamp {
                    year: 2024,
                    month: 1,
                    day: 1,
                    hour: 9,
                    minute: 30,
                    second: 0,
                },
                value_bits: BITS_ELEVEN,
            })
            &&& final(store).rows@[n + 2] == (SensorData {
                id: (id0 + 2) as i64,
                timestamp: Timestamp {
                    year: 2024,
                    month: 1,
                    day: 1,
                    hour: 9,
                    minute: 59,
                    second: 0,
                },
                value_bits: BITS_TWELVE,
            })
            &&& final(store).rows@[n + 3] == (SensorData {
                id: (id0 + 3) as i64,
                timestamp: Timestamp {
                    year: 2024,
                    month: 1,
                    day: 1,
                    hour: 10,
                    minute: 0,
                    second: 0,
                },
                value_bits: BITS_THIRTEEN,
            })
            &&& final(store).rows@[n + 4].id == id0 + 4
            &&& final(store).rows@[n + 4].value_bits == BITS_TEN
            &&& final(store).rows@[n + 4].timestamp.wf()
        }),
{
    let ghost start = store.rows@;
    let _ = add_sensor_data(
        store,
        Timestamp { year: 2024, month: 1, day: 1, hour: 9, minute: 0, second: 0 },
        BITS_TEN,
    );
    let ghost after_first = store.rows@;
    let _ = add_sensor_data(
        store,
        Timestamp { year: 2024, month: 1, day: 1, hour: 9, minute: 30, second: 0 },
        BITS_ELEVEN,
    );
    let ghost after_second = store.rows@;
    let _ = add_sensor_data(
        store,
        Timestamp { year: 2024, month: 1, day: 1, hour: 9, minute: 59, second: 0 },
        BITS_TWELVE,
    );
    let ghost after_third = store.rows@;
    let _ = add_sensor_data(
        store,
        Timestamp { year: 2024, month: 1, day: 1, hour: 10, minute: 0, second: 0 },
        BITS_THIRTEEN,
    );
    let ghost after_fourth = store.rows@;
    let _ = crate::bridge::add_sensor_value(store, BITS_TEN);
    proof {
        let n = start.len() as int;
        assert(store.rows@.drop_last() == after_fourth);
        assert(store.rows@[n] == after_fourth[n]);
        assert(store.rows@[n + 1] == after_fourth[n + 1]);
        assert(store.rows@[n + 2] == after_fourth[n + 2]);
        assert(store.rows@[n + 3] == after_fourth[n + 3]);
        assert(after_fourth[n] == after_third[n]);
        assert(after_fourth[n + 1] == after_third[n + 1]);
        assert(after_fourth[n + 2] == after_third[n + 2]);
        assert(after_third[n] == after_second[n]);
        assert(after_third[n + 1] == after_second[n + 1]);
        assert(after_second[n] == after_first[n]);
        assert(store.rows@[n + 4] == store.rows@.last());
        assert(store.rows@.take(n) =~= start);
    }
}

/// Holds of the rows strictly after `t`.
pub open spec fn is_after(t: Timestamp) -> spec_fn(SensorData) -> bool {
    |d: SensorData| t.spec_lt(d.timestamp)
}

/// Holds of the rows at or after `t`.
pub open spec fn is_at_or_after(t: Timestamp) -> spec_fn(SensorData) -> bool {
    |d: SensorData| t.spec_le(d.timestamp)
}

/// The rows of `rows` strictly after `since`, in stored order.
pub open spec fn matching_since(rows: Seq<SensorData>, since: Timestamp) -> Seq<SensorData> {
    rows.filter(is_after(since))
}

/// How many of the measurements in `m` lie at or after `t`.
pub open spec fn count_at_or_after(m: Multiset<SensorData>, t: Timestamp) -> nat {
    m.filter(is_at_or_after(t)).len()
}

/// A filter that keeps everything changes nothing.
proof fn lemma_filter_all(s: Seq<SensorData>, q: spec_fn(SensorData) -> bool)
    requires
        forall|i: int| 0 <= i < s.len() ==> q(#[trigger] s[i]),
    ensures
        s.filter(q) == s,
    decreases s.len(),
{
    reveal(Seq::filter);
    if s.len() == 0 {
        assert(s.filter(q) =~= s);
    } else {
        lemma_filter_all(s.drop_last(), q);
        assert(q(s.last()));
        assert(s.filter(q) =~= s);
    }
}

/// Filtering commutes with forgetting the order: the multiset of a
/// filtered sequence is the filtered multiset.
proof fn lemma_filter_to_multiset(s: Seq<SensorData>, q: spec_fn(SensorData) -> bool)
    ensures
        s.filter(q).to_multiset() == s.to_multiset().filter(q),
    decreases s.len(),
{
    reveal(Seq::filter);
    broadcast use group_to_multiset_ensures;
    broadcast use vstd::multiset::group_multiset_axioms;

    if s.len() == 0 {
        assert(s.filter(q) =~= Seq::<SensorData>::empty());
        vstd::multiset::lemma_multiset_empty_len(s.to_multiset());
        assert(s.to_multiset() == Multiset::<SensorData>::empty());
        assert(s.filter(q).to_multiset() =~= s.to_multiset().filter(q));
    } else {
        let head = s.drop_last();
        let last = s.last();
        lemma_filter_to_multiset(head, q);
        assert(s =~= head.push(last));
        assert(s.to_multiset() == head.to_multiset().insert(last));
        if q(last) {
            assert(s.filter(q) == head.filter(q).push(last));
            assert(s.filter(q).to_multiset() == head.filter(q).to_multiset().insert(last));
            assert(head.to_multiset().insert(last).filter(q) =~= head.to_multiset().filter(
                q,
            ).insert(last));
        } else {
            assert(s.filter(q) == head.filter(q));
            assert(head.to_multiset().insert(last).filter(q) =~= head.to_multiset().filter(q));
        }
    }
}

/// On a descending sequence, taking a prefix of length `k` keeps
/// exactly the `k` most recent rows: for every threshold, the prefix
/// holds as many rows at or after it as the whole does, capped at `k`.
proof fn lemma_sorted_take_count(s: Seq<SensorData>, k: int, t: Timestamp)
    requires
        sorted_descending(s),
        0 <= k <= s.len(),
    ensures
        s.take(k).filter(is_at_or_after(t)).len() == vstd::math::min(
            k,
            s.filter(is_at_or_after(t)).len() as int,
        ),
    decreases s.len(),
{
    reveal(Seq::filter);
    broadcast use vstd::seq_lib::group_filter_ensures;

    let q = is_at_or_after(t);
    if k == s.len() {
        assert(s.take(k) =~= s);
    } else {
        let head = s.drop_last();
        let last = s.last();
        assert(s =~= head.push(last));
        lemma_sorted_take_count(head, k, t);
        assert(s.take(k) =~= head.take(k));
        if q(last) {
            assert forall|i: int| 0 <= i < s.len() implies q(#[trigger] s[i]) by {
                assert(s[i].timestamp.spec_le(s[i].timestamp));
                assert(last.timestamp.spec_le(s[i].timestamp));
            }
            lemma_filter_all(s, q);
            lemma_filter_all(head, q);
        } else {
            assert(s.filter(q) == head.filter(q));
        }
    }
}

/// Places `row` into a descending sequence, keeping it descending.
fn insert_descending(sorted: &mut Vec<SensorData>, row: SensorData)
    requires
        sorted_descending(old(sorted)@),
    ensures
        sorted_descending(final(sorted)@),
        final(sorted)@.to_multiset() == old(sorted)@.to_multiset().insert(row),
        final(sorted)@.len() == old(sorted)@.len() + 1,
{
    let mut pos: usize = sorted.len();
    while pos > 0 && sorted[pos - 1].timestamp.lt(&row.timestamp)
        invariant
            pos <= sorted@.len(),
            *sorted == *old(sorted),
            forall|k: int|
                pos <= k < sorted@.len() ==> (#[trigger] sorted@[k]).timestamp.spec_lt(
                    row.timestamp,
                ),
        decreases pos,
    {
        pos -= 1;
    }
    let ghost before = sorted@;
    let ghost p = pos as int;
    sorted.insert(pos, row);
    proof {
        broadcast use group_to_multiset_ensures;

        before.insert_ensures(p, row);
        assert(sorted@.to_multiset() == before.to_multiset().insert(row));
        assert forall|i: int, j: int|
            #![trigger sorted@[i], sorted@[j]]
            0 <= i <= j < sorted@.len() implies sorted@[j].timestamp.spec_le(
            sorted@[i].timestamp,
        ) by {
            if i < p && p < j {
                assert(before[p - 1].timestamp.spec_le(before[i].timestamp));
            }
            if i == p && j > p {
                assert(before[j - 1].timestamp.spec_lt(row.timestamp));
            }
            if j == p && i < p {
                assert(before[p - 1].timestamp.spec_le(before[i].timestamp));
            }
        }
    }
}

/// The most recent measurements strictly after `since`, most recent
/// first, at most `rows` of them.
///
/// The listing is exactly the top of the time-ordered window: for every
/// threshold `t`, it holds as many rows at or after `t` as the whole
/// window does, capped at `rows` — so no older row ever displaces a more
/// recent one. Rows sharing a timestamp are interchangeable, as they are
/// for the database's own ordering.
pub fn list_last_values_descending_since(
    store: &MeasurementStore,
    since: &Timestamp,
    rows: u32,
) -> (recent: Vec<SensorData>)
    ensures
        sorted_descending(recent@),
        forall|k: int| 0 <= k < recent@.len() ==> since.spec_lt(
            (#[trigger] recent@[k]).timestamp,
        ),
        recent@.len() == vstd::math::min(
            rows as int,
            matching_since(store.rows@, *since).len() as int,
        ),
        recent@.to_multiset().subset_of(matching_since(store.rows@, *since).to_multiset()),
        forall|t: Timestamp| count_at_or_after(#[trigger] recent@.to_multiset(), t)
            == vstd::math::min(
            rows as int,
            count_at_or_after(matching_since(store.rows@, *since).to_multiset(), t) as int,
        ),
{
    broadcast use vstd::seq_lib::group_filter_ensures;

    let ghost matching = matching_since(store.rows@, *since);
    let mut picked: Vec<SensorData> = Vec::new();
    let mut i: usize = 0;
    proof {
        reveal(Seq::filter);
        assert(store.rows@.take(0).filter(is_after(*since)) =~= Seq::<SensorData>::empty());
    }
    while i < store.rows.len()
        invariant
            i <= store.rows@.len(),
            picked@ == store.rows@.take(i as int).filter(is_after(*since)),
        decreases store.rows@.len() - i,
    {
        let row = store.rows[i];
        if since.lt(&row.timestamp) {
            picked.push(row);
        }
        proof {
            reveal(Seq::filter);
            let pre = store.rows@.take(i as int);
            let one = seq![store.rows@[i as int]];
            assert(store.rows@.take(i as int + 1) =~= pre + one);
            Seq::<SensorData>::filter_distributes_over_add(pre, one, is_after(*since));
            assert(one.drop_last() =~= Seq::<SensorData>::empty());
            assert(one.drop_last().filter(is_after(*since)) =~= Seq::<SensorData>::empty());
            if since.spec_lt(row.timestamp) {
                assert(one.filter(is_after(*since)) =~= one);
            } else {
                assert(one.filter(is_after(*since)) =~= Seq::<SensorData>::empty());
            }
            assert(picked@ =~= store.rows@.take(i as int + 1).filter(is_after(*since)));
        }
        i += 1;
    }
    proof {
        assert(store.rows@.take(store.rows@.len() as int) =~= store.rows@);
        assert(picked@ == matching);
    }
    let mut ordered: Vec<SensorData> = Vec::new();
    let mut j: usize = 0;
    proof {
        assert(ordered@ =~= picked@.take(0));
    }
    while j < picked.len()
        invariant
            j <= picked@.len(),
            sorted_descending(ordered@),
            ordered@.to_multiset() == picked@.take(j as int).to_multiset(),
            ordered@.len() == j,
        decreases picked@.len() - j,
    {
        let row = picked[j];
        insert_descending(&mut ordered, row);
        proof {
            broadcast use group_to_multiset_ensures;

            assert(picked@.take(j as int + 1) =~= picked@.take(j as int).push(
                picked@[j as int],
            ));
        }
        j += 1;
    }
    proof {
        assert(picked@.take(picked@.len() as int) =~= picked@);
        broadcast use group_to_multiset_ensures;

        assert(ordered@.len() == matching.len());
    }
    let keep: usize = if (rows as usize) < ordered.len() {
        rows as usize
    } else {
        ordered.len()
    };
    let ghost whole = ordered@;
    ordered.truncate(keep);
    proof {
        broadcast use group_to_multiset_ensures;
        broadcast use vstd::multiset::group_multiset_axioms;

        assert(ordered@ == whole.take(keep as int));
        assert(whole =~= whole.take(keep as int) + whole.skip(keep as int));
        vstd::seq_lib::lemma_multiset_commutative(
            whole.take(keep as int),
            whole.skip(keep as int),
        );
        assert((whole.take(keep as int) + whole.skip(keep as int)).to_multiset() =~= whole.take(
            keep as int,
        ).to_multiset().add(whole.skip(keep as int).to_multiset()));
        assert(ordered@.to_multiset().subset_of(matching.to_multiset()));
        assert forall|k: int| 0 <= k < ordered@.len() implies since.spec_lt(
            (#[trigger] ordered@[k]).timestamp,
        ) by {
            assert(ordered@[k] == whole[k]);
            assert(whole.to_multiset().count(whole[k]) > 0);
            assert(matching.to_multiset().count(whole[k]) > 0);
            assert(matching.contains(whole[k]));
            let w = choose|w: int| 0 <= w < matching.len() && matching[w] == whole[k];
            assert(is_after(*since)(matching[w]));
        }
        assert forall|t: Timestamp| count_at_or_after(#[trigger] ordered@.to_multiset(), t)
            == vstd::math::min(
            rows as int,
            count_at_or_after(matching.to_multiset(), t) as int,
        ) by {
            lemma_filter_to_multiset(whole.take(keep as int), is_at_or_after(t));
            lemma_filter_to_multiset(whole, is_at_or_after(t));
            lemma_sorted_take_count(whole, keep as int, t);
            assert(whole.to_multiset() == matching.to_multiset());
            assert(count_at_or_after(matching.to_multiset(), t) == whole.filter(
                is_at_or_after(t),
            ).len());
        }
    }
    ordered
}

/// Advances a follow-mode window: once a batch has been shown, the next
/// poll asks only for what is more recent than the batch's newest row —
/// its first, since batches come most recent first. An empty batch
/// leaves the window where it was.
pub fn follow_since(current: &Timestamp, latest_batch: &Vec<SensorData>) -> (advanced: Timestamp)
    ensures
        advanced == if latest_batch@.len() > 0 {
            latest_batch@[0].timestamp
        } else {
            *current
        },
{
    if latest_batch.len() > 0 {
        latest_batch[0].timestamp
    } else {
        *current
    }
}

/// The lower bound a windowed query uses: the given instant, or the
/// epoch start when none was given.
pub open spec fn since_or_epoch(since: Option<Timestamp>) -> Timestamp {
    match since {
        Some(d) => d,
        None => crate::timestamp::epoch_start(),
    }
}

/// The row limit a windowed query uses: the given count, or ten.
pub open spec fn rows_or_default(rows: Option<u32>) -> u32 {
    match rows {
        Some(r) => r,
        None => 10,
    }
}

/// The windowed listing as the dashboard asks for it: both parameters
/// optional, the window defaulting to everything since the epoch and
/// the limit to ten rows, then exactly the descending query.
pub fn list_sensordata_since(
    store: &MeasurementStore,
    since: &Option<Timestamp>,
    rows: &Option<u32>,
) -> (recent: Vec<SensorData>)
    ensures
        sorted_descending(recent@),
        forall|k: int| 0 <= k < recent@.len() ==> since_or_epoch(*since).spec_lt(
            (#[trigger] recent@[k]).timestamp,
        ),
        recent@.len() == vstd::math::min(
            rows_or_default(*rows) as int,
            matching_since(store.rows@, since_or_epoch(*since)).len() as int,
        ),
        recent@.to_multiset().subset_of(
            matching_since(store.rows@, since_or_epoch(*since)).to_multiset(),
        ),
        forall|t: Timestamp| count_at_or_after(#[trigger] recent@.to_multiset(), t)
            == vstd::math::min(
            rows_or_default(*rows) as int,
            count_at_or_after(
                matching_since(store.rows@, since_or_epoch(*since)).to_multiset(),
                t,
            ) as int,
        ),
{
    let limit: u32 = match rows {
        Some(r) => *r,
        None => 10,
    };
    let lower = crate::timestamp::get_date_with_default(since);
    list_last_values_descending_since(store, &lower, limit)
}

} // verus!
