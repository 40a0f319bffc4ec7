//! The number store: an append-only log of drawn numbers, ordered by id.

use vstd::prelude::*;

verus! {

/// Length of one calendar day in seconds.
pub const SECONDS_PER_DAY: u64 = 86_400;

/// One drawn number as it stands in the log.
///
/// `drawn_at` counts seconds of local civil time since the epoch, so that
/// `drawn_at / SECONDS_PER_DAY` names the local calendar day of the draw.
#[derive(Clone, Copy, Debug, PartialEq, Eq, Structural)]
pub struct DrawnNumber {
    pub id: i32,
    pub value: i32,
    pub drawn_at: u64,
}

/// Why the store refused a write.
#[derive(Clone, Copy, Debug, PartialEq, Eq, Structural)]
pub enum StoreError {
    /// The record could not be written: the id sequence is used up.
    Persistence,
}

/// The ids of a log grow strictly from each record to the next.
pub open spec fn ids_ascending(log: Seq<DrawnNumber>) -> bool {
    forall|i: int, j: int| 0 <= i < j < log.len() ==> log[i].id < log[j].id
}

/// The id that the next record appended to `log` receives.
pub open spec fn next_id(log: Seq<DrawnNumber>) -> int {
    if log.len() == 0 {
        1
    } else {
        log.last().id + 1
    }
}

/// The drawn values of a log, in the order of the log.
pub open spec fn values_of(log: Seq<DrawnNumber>) -> Seq<i32> {
    Seq::new(log.len(), |i: int| log[i].value)
}

/// The first second of the calendar day that holds `now`.
pub open spec fn day_start(now: u64) -> int {
    now - now % SECONDS_PER_DAY
}

/// The instant `t` lies within the calendar day that holds `now`: from its
/// first second up to, and not including, the first second of the next day.
pub open spec fn within_day_of(t: u64, now: u64) -> bool {
    day_start(now) <= t < day_start(now) + SECONDS_PER_DAY
}

/// The records of `log` that were drawn on the calendar day of `now`,
/// in the order of the log.
pub open spec fn drawn_on_day_of(log: Seq<DrawnNumber>, now: u64) -> Seq<DrawnNumber> {
    log.filter(|r: DrawnNumber| within_day_of(r.drawn_at, now))
}

/// The drawn values of `records`, in their order.
pub fn values_in(records: &Vec<DrawnNumber>) -> (values: Vec<i32>)
    ensures
        values@ == values_of(records@),
{
    let mut values: Vec<i32> = Vec::new();
    let n = records.len();
    let mut i: usize = 0;
    while i < n
        invariant
            n == records.len(),
            i <= n,
            values@ == values_of(records@.take(i as int)),
        decreases n - i,
    {
        values.push(records[i].value);
        i += 1;
    }
    values
}

/// The log of drawn numbers. Records are only ever added at the end, and
/// each new record gets an id above all earlier ones.
#[derive(Debug)]
pub struct NumberStore {
    records: Vec<DrawnNumber>,
}

impl View for NumberStore {
    type V = Seq<DrawnNumber>;

    closed spec fn view(&self) -> Seq<DrawnNumber> {
        self.records@
    }
}

impl NumberStore {
    /// The store is well formed: the ids of its log ascend.
    pub open spec fn wf(&self) -> bool {
        ids_ascending(self@)
    }

    /// An empty store.
    pub fn new() -> (store: NumberStore)
        ensures
            store.wf(),
            store@ == Seq::<DrawnNumber>::empty(),
    {
        NumberStore { records: Vec::new() }
    }

    /// A store that holds `records` as its log.
    ///
    /// Returns `None` exactly when the ids of `records` do not ascend.
    pub fn from_records(records: Vec<DrawnNumber>) -> (r: Option<NumberStore>)
        ensures
            r is Some <==> ids_ascending(records@),
            r matches Some(store) ==> store.wf() && store@ == records@,
    {
        let n = records.len();
        let mut i: usize = 1;
        while i < n
            invariant
                n == records.len(),
                1 <= i,
                forall|a: int, b: int| 0 <= a < b < i && b < n ==> records[a].id < records[b].id,
            decreases n - i,
        {
            if records[i - 1].id >= records[i].id {
                return None;
            }
            i += 1;
        }
        Some(NumberStore { records })
    }

    /// Number of records in the log.
    pub fn len(&self) -> (n: usize)
        ensures
            n == self@.len(),
    {
        self.records.len()
    }

    /// Appends `value`, drawn at `now`, under the next id of the sequence.
    ///
    /// Fails with `StoreError::Persistence`, leaving the log as it was, exactly
    /// when the id sequence is used up. The store does not look at `value`:
    /// keeping values unique is the task of whoever draws.
    pub fn append(&mut self, value: i32, now: u64) -> (r: Result<i32, StoreError>)
        requires
            old(self).wf(),
        ensures
            final(self).wf(),
            r is Ok <==> next_id(old(self)@) <= i32::MAX,
            r matches Ok(id) ==> id == next_id(old(self)@) && final(self)@ == old(self)@.push(
                DrawnNumber { id, value, drawn_at: now },
            ),
            r is Err ==> final(self)@ == old(self)@,
    {
        let n = self.records.len();
        let id: i32 = if n == 0 {
            1
        } else {
            let last = self.records[n - 1].id;
            if last == i32::MAX {
                return Err(StoreError::Persistence);
            }
            last + 1
        };
        self.records.push(DrawnNumber { id, value, drawn_at: now });
        Ok(id)
    }

    /// The full history: every record of the log, by ascending id.
    pub fn all_drawn(&self) -> (all: Vec<DrawnNumber>)
        requires
            self.wf(),
        ensures
            all@ == self@,
            ids_ascending(all@),
    {
        let mut all: Vec<DrawnNumber> = Vec::new();
        let n = self.records.len();
        let mut i: usize = 0;
        while i < n
            invariant
                n == self.records.len(),
                i <= n,
                all@ == self.records@.take(i as int),
            decreases n - i,
        {
            all.push(self.records[i]);
            i += 1;
        }
        all
    }

    /// The drawn values of the log, in the order in which they were drawn.
    pub fn values(&self) -> (values: Vec<i32>)
        ensures
            values@ == values_of(self@),
    {
        values_in(&self.records)
    }

    /// The records drawn on the calendar day that holds `now`, by ascending
    /// id. A record counts when its instant lies between the first second of
    /// that day and the first second of the next.
    pub fn drawn_today(&self, now: u64) -> (today: Vec<DrawnNumber>)
        requires
            self.wf(),
        ensures
            today@ == drawn_on_day_of(self@, now),
            ids_ascending(today@),
            forall|k: int| 0 <= k < today@.len() ==> self@.contains(#[trigger] today@[k]),
    {
        let start: u64 = now - now % SECONDS_PER_DAY;
        let mut today: Vec<DrawnNumber> = Vec::new();
        let n = self.records.len();
        let mut i: usize = 0;
        while i < n
            invariant
                n == self.records.len(),
                i <= n,
                start == day_start(now),
                today@ == drawn_on_day_of(self.records@.take(i as int), now),
            decreases n - i,
        {
            let record = self.records[i];
            proof {
                let pred = |r: DrawnNumber| within_day_of(r.drawn_at, now);
                assert(self.records@.take(i as int + 1) == self.records@.take(i as int).push(
                    record,
                ));
                self.records@.take(i as int).lemma_filter_push(record, pred);
            }
            if record.drawn_at >= start && record.drawn_at - start < SECONDS_PER_DAY {
                today.push(record);
            }
            i += 1;
        }
        proof {
            assert(self.records@.take(n as int) == self.records@);
            lemma_day_filter_keeps_order(self@, now);
        }
        today
    }
}

/// What was drawn on one day is part of the whole log and keeps its order.
pub proof fn lemma_day_filter_keeps_order(log: Seq<DrawnNumber>, now: u64)
    requires
        ids_ascending(log),
    ensures
        ids_ascending(drawn_on_day_of(log, now)),
        forall|k: int|
            0 <= k < drawn_on_day_of(log, now).len() ==> log.contains(
                #[trigger] drawn_on_day_of(log, now)[k],
            ),
    decreases log.len(),
{
    let pred = |r: DrawnNumber| within_day_of(r.drawn_at, now);
    reveal(Seq::filter);
    if log.len() > 0 {
        let head = log.drop_last();
        lemma_day_filter_keeps_order(head, now);
        let sub = head.filter(pred);
        assert forall|k: int| 0 <= k < sub.len() implies log.contains(#[trigger] sub[k]) && sub[k].id
            < log.last().id by {
            assert(head.contains(sub[k]));
            let j = choose|j: int| 0 <= j < head.len() && head[j] == sub[k];
            assert(log[j] == sub[k]);
        }
        if pred(log.last()) {
            assert(log[log.len() - 1] == log.last());
        }
    }
}

} // verus!
