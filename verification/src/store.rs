//! The latest raw sample and metric of every sensor.

use vstd::prelude::*;

use crate::domain::{Metric, RawSample, SensorId};
use crate::text::same_string;

verus! {

/// The latest state of a sensor.
#[derive(Debug)]
pub struct SensorState {
    /// The latest raw sample; none for a computed sensor.
    pub raw: Option<RawSample>,
    /// The latest metric; none before a pipeline has produced one.
    pub metric: Option<Metric>,
}

/// A sensor and its state.
#[derive(Debug)]
pub struct SensorEntry {
    pub sensor_id: SensorId,
    pub state: SensorState,
}

/// The states of the sensors.
#[derive(Debug)]
pub struct MetricStore {
    entries: Vec<SensorEntry>,
    revision: u64,
}

/// Entry `i` is the one of the sensor.
pub open spec fn entry_of(entries: Seq<SensorEntry>, i: int, id: Seq<char>) -> bool {
    0 <= i < entries.len() && entries[i].sensor_id.0@ == id
}

/// The sensor has an entry.
pub open spec fn tracked_sensor(entries: Seq<SensorEntry>, id: Seq<char>) -> bool {
    exists|i: int| entry_of(entries, i, id)
}

/// The states that a list of entries holds, by sensor.
pub open spec fn states(entries: Seq<SensorEntry>) -> Map<Seq<char>, SensorState> {
    Map::new(
        |id: Seq<char>| tracked_sensor(entries, id),
        |id: Seq<char>| entries[choose|i: int| entry_of(entries, i, id)].state,
    )
}

/// No sensor has two entries.
pub open spec fn one_entry_each(entries: Seq<SensorEntry>) -> bool {
    forall|i: int, j: int|
        #![trigger entries[i], entries[j]]
        0 <= i < j < entries.len() ==> entries[i].sensor_id.0@ != entries[j].sensor_id.0@
}

/// The states after a raw sample has been recorded: it replaces the sensor's
/// raw sample and keeps its metric.
pub open spec fn with_raw(m: Map<Seq<char>, SensorState>, sample: RawSample) -> Map<Seq<char>, SensorState> {
    let id = sample.sensor_id.0@;
    m.insert(
        id,
        SensorState {
            raw: Some(sample),
            metric: if m.dom().contains(id) {
                m[id].metric
            } else {
                None
            },
        },
    )
}

/// The states after the first `n` samples of a batch have been recorded.
pub open spec fn with_batch(m: Map<Seq<char>, SensorState>, batch: Seq<RawSample>, n: int) -> Map<Seq<char>, SensorState>
    decreases n,
{
    if n <= 0 {
        m
    } else {
        with_raw(with_batch(m, batch, n - 1), batch[n - 1])
    }
}

/// The states after a metric has been recorded: it replaces the sensor's whole
/// state.
pub open spec fn with_metric(m: Map<Seq<char>, SensorState>, raw: Option<RawSample>, metric: Metric) -> Map<
    Seq<char>,
    SensorState,
> {
    m.insert(metric.sensor_id.0@, SensorState { raw, metric: Some(metric) })
}

/// The counter after one more write.
pub open spec fn next_write(n: u64) -> u64 {
    if n == u64::MAX {
        0
    } else {
        (n + 1) as u64
    }
}

/// The counter after `k` more writes.
pub open spec fn later_write(n: u64, k: nat) -> u64 {
    ((n + k) % 0x1_0000_0000_0000_0000) as u64
}

proof fn lemma_state(entries: Seq<SensorEntry>, i: int)
    requires
        one_entry_each(entries),
        0 <= i < entries.len(),
    ensures
        states(entries).dom().contains(entries[i].sensor_id.0@),
        states(entries)[entries[i].sensor_id.0@] == entries[i].state,
{
    let id = entries[i].sensor_id.0@;
    assert(entry_of(entries, i, id));
    let j = choose|j: int| entry_of(entries, j, id);
    assert(entries[i] == entries[i] && entries[j] == entries[j]);
}

/// Replacing an entry's state replaces the sensor's state.
proof fn lemma_replace(before: Seq<SensorEntry>, after: Seq<SensorEntry>, i: int)
    requires
        one_entry_each(before),
        0 <= i < before.len(),
        after.len() == before.len(),
        after[i].sensor_id.0@ == before[i].sensor_id.0@,
        forall|j: int| 0 <= j < before.len() && j != i ==> #[trigger] after[j] == before[j],
    ensures
        one_entry_each(after),
        states(after) == states(before).insert(before[i].sensor_id.0@, after[i].state),
{
    let id = before[i].sensor_id.0@;
    assert(one_entry_each(after)) by {
        assert forall|a: int, b: int| #![trigger after[a], after[b]] 0 <= a < b < after.len() implies after[a].sensor_id.0@
            != after[b].sensor_id.0@ by {
            assert(before[a].sensor_id.0@ != before[b].sensor_id.0@);
        }
    }
    let expected = states(before).insert(id, after[i].state);
    assert forall|k: Seq<char>| states(after).dom().contains(k) == expected.dom().contains(k) by {
        if tracked_sensor(after, k) {
            let j = choose|j: int| entry_of(after, j, k);
            if j != i {
                assert(after[j] == before[j]);
            }
            assert(entry_of(before, j, k));
        }
        if tracked_sensor(before, k) {
            let j = choose|j: int| entry_of(before, j, k);
            if j != i {
                assert(after[j] == before[j]);
            }
            assert(entry_of(after, j, k));
        }
        if k == id {
            assert(entry_of(after, i, k));
        }
    }
    assert forall|k: Seq<char>| states(after).dom().contains(k) implies #[trigger] states(after)[k] == expected[k] by {
        let j = choose|j: int| entry_of(after, j, k);
        lemma_state(after, j);
        if j != i {
            assert(after[j] == before[j]);
            lemma_state(before, j);
            assert(before[i].sensor_id.0@ != before[j].sensor_id.0@);
        }
    }
    assert(states(after) =~= expected);
}

/// Appending an entry for a new sensor adds that sensor's state.
proof fn lemma_append(before: Seq<SensorEntry>, e: SensorEntry)
    requires
        one_entry_each(before),
        !tracked_sensor(before, e.sensor_id.0@),
    ensures
        one_entry_each(before.push(e)),
        states(before.push(e)) == states(before).insert(e.sensor_id.0@, e.state),
{
    let after = before.push(e);
    let id = e.sensor_id.0@;
    assert(one_entry_each(after)) by {
        assert forall|a: int, b: int| #![trigger after[a], after[b]] 0 <= a < b < after.len() implies after[a].sensor_id.0@
            != after[b].sensor_id.0@ by {
            assert(after[a] == before[a]);
            if b < before.len() {
                assert(after[b] == before[b]);
            } else {
                assert(!entry_of(before, a, id));
            }
        }
    }
    let expected = states(before).insert(id, e.state);
    assert forall|k: Seq<char>| states(after).dom().contains(k) == expected.dom().contains(k) by {
        if tracked_sensor(after, k) {
            let j = choose|j: int| entry_of(after, j, k);
            if j < before.len() {
                assert(entry_of(before, j, k));
            }
        }
        if tracked_sensor(before, k) {
            let j = choose|j: int| entry_of(before, j, k);
            assert(entry_of(after, j, k));
        }
        if k == id {
            assert(entry_of(after, before.len() as int, k));
        }
    }
    assert forall|k: Seq<char>| states(after).dom().contains(k) implies #[trigger] states(after)[k] == expected[k] by {
        let j = choose|j: int| entry_of(after, j, k);
        lemma_state(after, j);
        if j < before.len() {
            lemma_state(before, j);
            assert(!entry_of(before, j, id));
        }
    }
    assert(states(after) =~= expected);
}

/// There are as many sensors as entries.
proof fn lemma_count(entries: Seq<SensorEntry>)
    requires
        one_entry_each(entries),
    ensures
        states(entries).dom().finite(),
        states(entries).dom().len() == entries.len(),
    decreases entries.len(),
{
    if entries.len() == 0 {
        assert(states(entries).dom() =~= Set::<Seq<char>>::empty());
    } else {
        let before = entries.drop_last();
        let e = entries.last();
        assert(before.push(e) =~= entries);
        assert forall|a: int, b: int| #![trigger before[a], before[b]] 0 <= a < b < before.len() implies before[a].sensor_id.0@
            != before[b].sensor_id.0@ by {
            assert(entries[a].sensor_id.0@ != entries[b].sensor_id.0@);
        }
        if tracked_sensor(before, e.sensor_id.0@) {
            let i = choose|i: int| entry_of(before, i, e.sensor_id.0@);
            assert(entries[i].sensor_id.0@ != entries[entries.len() - 1].sensor_id.0@);
        }
        lemma_count(before);
        lemma_append(before, e);
        assert(states(entries).dom() =~= states(before).dom().insert(e.sensor_id.0@));
    }
}

impl View for MetricStore {
    type V = Map<Seq<char>, SensorState>;

    closed spec fn view(&self) -> Map<Seq<char>, SensorState> {
        states(self.entries@)
    }
}

impl MetricStore {
    /// No sensor has two entries.
    pub closed spec fn wf(&self) -> bool {
        one_entry_each(self.entries@)
    }

    /// The number of writes so far, modulo the range of the counter.
    pub closed spec fn writes(&self) -> u64 {
        self.revision
    }

    /// An empty store.
    pub fn new() -> (r: Self)
        ensures
            r.wf(),
            r@ == Map::<Seq<char>, SensorState>::empty(),
            r.writes() == 0,
    {
        let r = MetricStore { entries: Vec::new(), revision: 0 };
        assert(r@ =~= Map::<Seq<char>, SensorState>::empty());
        r
    }

    fn find(&self, id: &SensorId) -> (r: Option<usize>)
        ensures
            r matches Some(i) ==> entry_of(self.entries@, i as int, id.0@),
            r is None ==> !tracked_sensor(self.entries@, id.0@),
    {
        let mut i: usize = 0;
        while i < self.entries.len()
            invariant
                i <= self.entries@.len(),
                forall|j: int| 0 <= j < i ==> !entry_of(self.entries@, j, id.0@),
            decreases self.entries@.len() - i,
        {
            if same_string(&self.entries[i].sensor_id.0, &id.0) {
                return Some(i);
            }
            i = i + 1;
        }
        None
    }

    /// Records a raw sample; the sensor keeps its metric.
    pub fn update_raw(&mut self, sample: RawSample)
        requires
            old(self).wf(),
        ensures
            final(self).wf(),
            final(self)@ == with_raw(old(self)@, sample),
            final(self).writes() == next_write(old(self).writes()),
    {
        let ghost before = self.entries@;
        let id = sample.sensor_id.clone();
        match self.find(&id) {
            Some(i) => {
                proof {
                    lemma_state(before, i as int);
                }
                self.entries[i].state.raw = Some(sample);
                proof {
                    lemma_replace(before, self.entries@, i as int);
                }
            },
            None => {
                let e = SensorEntry { sensor_id: id, state: SensorState { raw: Some(sample), metric: None } };
                proof {
                    lemma_append(before, e);
                }
                self.entries.push(e);
            },
        }
        self.revision = self.revision.wrapping_add(1);
    }

    /// Records a batch of raw samples, in order.
    pub fn update_batch_raw(&mut self, batch: &Vec<RawSample>)
        requires
            old(self).wf(),
        ensures
            final(self).wf(),
            final(self)@ == with_batch(old(self)@, batch@, batch@.len() as int),
            final(self).writes() == later_write(old(self).writes(), batch@.len()),
    {
        let mut i: usize = 0;
        while i < batch.len()
            invariant
                i <= batch@.len(),
                self.wf(),
                self@ == with_batch(old(self)@, batch@, i as int),
                self.writes() == later_write(old(self).writes(), i as nat),
            decreases batch@.len() - i,
        {
            self.update_raw(batch[i].clone());
            i = i + 1;
        }
    }

    /// Records a metric with the raw sample that it comes from, none for a
    /// computed sensor; both replace what was there.
    pub fn update_metric(&mut self, raw: Option<RawSample>, metric: Metric)
        requires
            old(self).wf(),
        ensures
            final(self).wf(),
            final(self)@ == with_metric(old(self)@, raw, metric),
            final(self).writes() == next_write(old(self).writes()),
    {
        let ghost before = self.entries@;
        let id = metric.sensor_id.clone();
        match self.find(&id) {
            Some(i) => {
                proof {
                    lemma_state(before, i as int);
                }
                self.entries[i].state = SensorState { raw, metric: Some(metric) };
                proof {
                    lemma_replace(before, self.entries@, i as int);
                }
            },
            None => {
                let e = SensorEntry { sensor_id: id, state: SensorState { raw, metric: Some(metric) } };
                proof {
                    lemma_append(before, e);
                }
                self.entries.push(e);
            },
        }
        self.revision = self.revision.wrapping_add(1);
    }

    /// The latest state of a sensor, where it has one.
    pub fn get(&self, sensor_id: &SensorId) -> (r: Option<&SensorState>)
        requires
            self.wf(),
        ensures
            r is Some <==> self@.dom().contains(sensor_id.0@),
            r matches Some(s) ==> *s == self@[sensor_id.0@],
    {
        match self.find(sensor_id) {
            Some(i) => {
                proof {
                    lemma_state(self.entries@, i as int);
                }
                Some(&self.entries[i].state)
            },
            None => None,
        }
    }

    /// Every sensor with its state.
    pub fn snapshot(&self) -> (r: &Vec<SensorEntry>)
        requires
            self.wf(),
        ensures
            one_entry_each(r@),
            states(r@) == self@,
            r@.len() == self@.dom().len(),
    {
        proof {
            lemma_count(self.entries@);
        }
        &self.entries
    }

    /// The number of sensors.
    pub fn len(&self) -> (r: usize)
        requires
            self.wf(),
        ensures
            r == self@.dom().len(),
    {
        proof {
            lemma_count(self.entries@);
        }
        self.entries.len()
    }

    /// Whether no sensor has a state.
    pub fn is_empty(&self) -> (r: bool)
        requires
            self.wf(),
        ensures
            r == (self@.dom().len() == 0),
    {
        proof {
            lemma_count(self.entries@);
        }
        self.entries.len() == 0
    }

    /// The number of writes so far; subscribers take a change of it as the
    /// signal that something was written.
    pub fn revision(&self) -> (r: u64)
        ensures
            r == self.writes(),
    {
        self.revision
    }
}

impl Default for MetricStore {
    fn default() -> (r: Self)
        ensures
            r.wf(),
            r@ == Map::<Seq<char>, SensorState>::empty(),
            r.writes() == 0,
    {
        MetricStore::new()
    }
}

/// A read of a sensor after its raw sample was recorded gives that sample, and
/// the metric that was there before; other sensors are untouched.
pub proof fn raw_sample_is_read_back(m: Map<Seq<char>, SensorState>, sample: RawSample, other: Seq<char>)
    ensures
        ({
            let id = sample.sensor_id.0@;
            let after = with_raw(m, sample);
            &&& after.dom().contains(id)
            &&& after[id].raw == Some(sample)
            &&& m.dom().contains(id) ==> after[id].metric == m[id].metric
            &&& !m.dom().contains(id) ==> after[id].metric is None
            &&& other != id ==> (after.dom().contains(other) <==> m.dom().contains(other)) && after[other] == m[other]
        }),
{
}

/// A read of a sensor after its metric was recorded gives that metric and the
/// sample recorded with it; other sensors are untouched.
pub proof fn metric_is_read_back(
    m: Map<Seq<char>, SensorState>,
    raw: Option<RawSample>,
    metric: Metric,
    other: Seq<char>,
)
    ensures
        ({
            let id = metric.sensor_id.0@;
            let after = with_metric(m, raw, metric);
            &&& after.dom().contains(id)
            &&& after[id] == (SensorState { raw, metric: Some(metric) })
            &&& other != id ==> (after.dom().contains(other) <==> m.dom().contains(other)) && after[other] == m[other]
        }),
{
}

/// Every write changes the revision.
pub proof fn every_write_is_noticed(n: u64)
    ensures
        next_write(n) != n,
{
}

} // verus!
