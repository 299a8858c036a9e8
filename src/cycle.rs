//! One submission cycle: the fetched snapshot, its rate-limited release, the
//! aggregation of outcomes reported by submissions in flight, and the flush of
//! those outcomes to the store once every submission has reported.
use vstd::prelude::*;
use std::collections::HashSet;

use crate::batcher::{is_due, window_len, Batcher, BatcherView};
use crate::classify::Outcome;
use crate::flag::{Flag, FlagStatus, FlagView};
use crate::store::{lists_unsent, mark_status, Database};

verus! {

broadcast use vstd::std_specs::hash::group_hash_axioms;

/// Ids of the flags in `s`.
pub open spec fn ids_of(s: Seq<Flag>) -> Set<i64> {
    Set::new(|id: i64| exists|i: int| 0 <= i < s.len() && s[i].id == id)
}

/// No id occurs twice in `s`.
pub open spec fn distinct_ids(s: Seq<Flag>) -> bool {
    forall|i: int, j: int| 0 <= i < j < s.len() ==> s[i].id != s[j].id
}

/// What came of writing one outcome set to the store.
#[derive(Debug)]
pub enum Flush<E> {
    /// The set was empty, so the store was not called.
    Skipped,
    /// The store recorded the set.
    Stored,
    /// The store refused the write; its flags stay unsent there.
    Failed(E),
}

/// What came of the two writes that end a cycle.
#[derive(Debug)]
pub struct PersistReport<E> {
    pub sent: Flush<E>,
    pub invalid: Flush<E>,
}

/// The writes that end a cycle, for a store driven by the caller: each set
/// is present only when it holds an id, and is then to be written, the sent
/// set first.
#[derive(Debug)]
pub struct FlushPlan {
    pub sent: Option<HashSet<i64>>,
    pub invalid: Option<HashSet<i64>>,
}

/// Store contents after a cycle's flush reported as `r`: the sent set is
/// written first, then the invalid set; a write that failed or was skipped
/// leaves the store as it was.
pub open spec fn after_flush<E>(
    m: Map<i64, FlagView>,
    sent: Set<i64>,
    invalid: Set<i64>,
    r: PersistReport<E>,
) -> Map<i64, FlagView> {
    let m1 = if r.sent is Stored {
        mark_status(m, sent, FlagStatus::Sent)
    } else {
        m
    };
    if r.invalid is Stored {
        mark_status(m1, invalid, FlagStatus::Invalid)
    } else {
        m1
    }
}

/// State of one cycle between its fetch and its flush.
pub struct Cycle {
    batcher: Batcher,
    in_flight: HashSet<i64>,
    sent: HashSet<i64>,
    invalid: HashSet<i64>,
    dispatched: Ghost<Set<i64>>,
}

impl Cycle {
    /// Release schedule of the snapshot.
    pub closed spec fn schedule(&self) -> BatcherView {
        self.batcher@
    }

    /// Ids released and not yet reported.
    pub closed spec fn in_flight(&self) -> Set<i64> {
        self.in_flight@
    }

    /// Ids reported confirmed.
    pub closed spec fn sent(&self) -> Set<i64> {
        self.sent@
    }

    /// Ids reported rejected.
    pub closed spec fn invalid(&self) -> Set<i64> {
        self.invalid@
    }

    /// Ids released so far.
    pub closed spec fn dispatched(&self) -> Set<i64> {
        self.dispatched@
    }

    /// The release schedule is sound; flags still pending have distinct ids,
    /// none released yet; every id in flight or reported was released; and an
    /// id is in at most one of in flight, sent and invalid.
    pub open spec fn wf(&self) -> bool {
        &&& self.batcher_wf()
        &&& distinct_ids(self.schedule().pending)
        &&& ids_of(self.schedule().pending).disjoint(self.dispatched())
        &&& self.in_flight().subset_of(self.dispatched())
        &&& self.sent().subset_of(self.dispatched())
        &&& self.invalid().subset_of(self.dispatched())
        &&& self.in_flight().disjoint(self.sent())
        &&& self.in_flight().disjoint(self.invalid())
        &&& self.sent().disjoint(self.invalid())
    }

    /// The release schedule is sound.
    pub closed spec fn batcher_wf(&self) -> bool {
        self.batcher.wf()
    }

    /// Every flag has been released and every released flag has reported.
    pub open spec fn settled(&self) -> bool {
        self.schedule().pending.len() == 0 && self.in_flight().is_empty()
    }

    /// A cycle over a snapshot `flags`, started at time `now`, that releases
    /// at most `quota` flags per `interval`.
    pub fn new(flags: Vec<Flag>, quota: usize, interval: u64, now: u64) -> (r: Cycle)
        requires
            quota > 0,
            distinct_ids(flags@),
        ensures
            r.wf(),
            r.schedule() == (BatcherView {
                pending: flags@,
                quota: quota as nat,
                interval: interval as nat,
                started_at: now as int,
                last_release: now as int,
                released: 0,
            }),
            r.in_flight().is_empty(),
            r.sent().is_empty(),
            r.invalid().is_empty(),
            r.dispatched().is_empty(),
    {
        Cycle {
            batcher: Batcher::new(flags, quota, interval, now),
            in_flight: HashSet::new(),
            sent: HashSet::new(),
            invalid: HashSet::new(),
            dispatched: Ghost(Set::empty()),
        }
    }

    /// Fetches the unsent flags of `db` and starts a cycle over them. A failed
    /// fetch hands back the store's error, and the cycle ends there.
    pub fn fetch<E, D: Database<E>>(db: &mut D, quota: usize, interval: u64, now: u64) -> (r:
        Result<Cycle, E>)
        requires
            quota > 0,
        ensures
            final(db).contents() == old(db).contents(),
            r matches Ok(c) ==> {
                &&& c.wf()
                &&& lists_unsent(c.schedule().pending, old(db).contents())
                &&& c.schedule().quota == quota
                &&& c.schedule().interval == interval
                &&& c.schedule().started_at == now
                &&& c.schedule().last_release == now
                &&& c.schedule().released == 0
                &&& c.in_flight().is_empty()
                &&& c.sent().is_empty()
                &&& c.invalid().is_empty()
                &&& c.dispatched().is_empty()
            },
    {
        match db.get_unsent_flags() {
            Ok(flags) => Ok(Cycle::new(flags, quota, interval, now)),
            Err(e) => Err(e),
        }
    }

    /// A cycle over a snapshot handed in by the caller, as `new` makes it;
    /// `None` when two flags of the snapshot share an id.
    pub fn from_snapshot(flags: Vec<Flag>, quota: usize, interval: u64, now: u64) -> (r: Option<
        Cycle,
    >)
        requires
            quota > 0,
        ensures
            r is None <==> !distinct_ids(flags@),
            r matches Some(c) ==> {
                &&& c.wf()
                &&& c.schedule() == (BatcherView {
                    pending: flags@,
                    quota: quota as nat,
                    interval: interval as nat,
                    started_at: now as int,
                    last_release: now as int,
                    released: 0,
                })
                &&& c.in_flight().is_empty()
                &&& c.sent().is_empty()
                &&& c.invalid().is_empty()
                &&& c.dispatched().is_empty()
            },
    {
        if has_distinct_ids(&flags) {
            Some(Cycle::new(flags, quota, interval, now))
        } else {
            None
        }
    }

    /// Whether every flag has been released and has reported: the barrier
    /// after which the cycle may be flushed.
    pub fn is_settled(&self) -> (r: bool)
        ensures
            r == self.settled(),
    {
        self.batcher.is_done() && self.in_flight.is_empty()
    }

    /// Earliest time at which the next window may be released, or `None`
    /// when every flag has been released.
    pub fn next_release_at(&self) -> (r: Option<u64>)
        ensures
            r is None <==> self.schedule().pending.len() == 0,
            r matches Some(t) ==> t == (if self.schedule().last_release
                + self.schedule().interval <= u64::MAX {
                self.schedule().last_release + self.schedule().interval
            } else {
                u64::MAX as int
            }),
    {
        self.batcher.next_release_at()
    }

    /// Releases the next window if one is due at time `now`; its flags are
    /// then in flight until each reports. Otherwise nothing changes.
    pub fn release(&mut self, now: u64) -> (r: Option<Vec<Flag>>)
        requires
            old(self).wf(),
        ensures
            final(self).wf(),
            final(self).sent() == old(self).sent(),
            final(self).invalid() == old(self).invalid(),
            is_due(old(self).schedule(), now as int) ==> (r matches Some(w) && {
                let k = window_len(old(self).schedule()) as int;
                &&& w@ == old(self).schedule().pending.take(k)
                &&& final(self).schedule() == (BatcherView {
                    pending: old(self).schedule().pending.skip(k),
                    last_release: now as int,
                    released: old(self).schedule().released + 1,
                    ..old(self).schedule()
                })
                &&& final(self).in_flight() == old(self).in_flight().union(ids_of(w@))
                &&& final(self).dispatched() == old(self).dispatched().union(ids_of(w@))
            }),
            !is_due(old(self).schedule(), now as int) ==> r is None && final(self).schedule()
                == old(self).schedule() && final(self).in_flight() == old(self).in_flight()
                && final(self).dispatched() == old(self).dispatched(),
    {
        let ghost pending = self.batcher@.pending;
        let released = self.batcher.poll(now);
        match released {
            Some(window) => {
                proof {
                    lemma_split_ids(pending, window_len(old(self).schedule()) as int);
                }
                add_ids(&mut self.in_flight, &window);
                self.dispatched = Ghost(self.dispatched@.union(ids_of(window@)));
                Some(window)
            },
            None => None,
        }
    }

    /// Records the outcome of the submission of flag `id`. Only an id in
    /// flight is taken, once: a confirmed flag joins the sent set, a rejected
    /// one the invalid set, an undetermined one neither. Returns whether the
    /// report was taken; otherwise nothing changes.
    pub fn report(&mut self, id: i64, outcome: Outcome) -> (r: bool)
        requires
            old(self).wf(),
        ensures
            final(self).wf(),
            r == old(self).in_flight().contains(id),
            final(self).schedule() == old(self).schedule(),
            final(self).dispatched() == old(self).dispatched(),
            r ==> final(self).in_flight() == old(self).in_flight().remove(id),
            r ==> final(self).sent() == (if outcome == Outcome::Confirmed {
                old(self).sent().insert(id)
            } else {
                old(self).sent()
            }),
            r ==> final(self).invalid() == (if outcome == Outcome::Rejected {
                old(self).invalid().insert(id)
            } else {
                old(self).invalid()
            }),
            !r ==> final(self).in_flight() == old(self).in_flight() && final(self).sent()
                == old(self).sent() && final(self).invalid() == old(self).invalid(),
    {
        if !self.in_flight.remove(&id) {
            return false;
        }
        match outcome {
            Outcome::Confirmed => {
                self.sent.insert(id);
            },
            Outcome::Rejected => {
                self.invalid.insert(id);
            },
            Outcome::Undetermined => {},
        }
        true
    }

    /// Ends a settled cycle: the sets to write, each one only when it holds
    /// an id. The two never share an id.
    pub fn into_flush(self) -> (r: FlushPlan)
        requires
            self.wf(),
            self.settled(),
        ensures
            r.sent is None <==> self.sent().is_empty(),
            r.invalid is None <==> self.invalid().is_empty(),
            r.sent matches Some(s) ==> s@ == self.sent(),
            r.invalid matches Some(i) ==> i@ == self.invalid(),
            self.sent().disjoint(self.invalid()),
    {
        let Cycle { batcher: _, in_flight: _, sent, invalid, dispatched: _ } = self;
        FlushPlan {
            sent: if sent.is_empty() {
                None
            } else {
                Some(sent)
            },
            invalid: if invalid.is_empty() {
                None
            } else {
                Some(invalid)
            },
        }
    }

    /// Writes the cycle's outcomes to `db` once every submission has reported:
    /// first the sent set, then the invalid set. An empty set is not written.
    /// A failed write is reported and not retried: its flags stay unsent in
    /// the store and are fetched again by the next cycle. The cycle's sets
    /// are gone afterwards.
    pub fn persist<E, D: Database<E>>(self, db: &mut D) -> (r: PersistReport<E>)
        requires
            self.wf(),
            self.settled(),
        ensures
            (r.sent is Skipped) <==> self.sent().is_empty(),
            (r.invalid is Skipped) <==> self.invalid().is_empty(),
            final(db).contents() == after_flush(old(db).contents(), self.sent(), self.invalid(), r),
    {
        let plan = self.into_flush();
        let sent_flush = match plan.sent {
            None => Flush::Skipped,
            Some(mut sent) => match db.set_sent_flags(&mut sent) {
                Ok(()) => Flush::Stored,
                Err(e) => Flush::Failed(e),
            },
        };
        let invalid_flush = match plan.invalid {
            None => Flush::Skipped,
            Some(mut invalid) => match db.set_invalid_flags(&mut invalid) {
                Ok(()) => Flush::Stored,
                Err(e) => Flush::Failed(e),
            },
        };
        PersistReport { sent: sent_flush, invalid: invalid_flush }
    }
}

/// Whether no id occurs twice in `flags`.
pub fn has_distinct_ids(flags: &Vec<Flag>) -> (r: bool)
    ensures
        r == distinct_ids(flags@),
{
    let mut seen: HashSet<i64> = HashSet::new();
    let mut i: usize = 0;
    while i < flags.len()
        invariant
            0 <= i <= flags.len(),
            forall|id: i64| #[trigger] seen@.contains(id) <==> exists|j: int| 0 <= j < i && flags@[j].id == id,
            forall|a: int, b: int| 0 <= a < b < i ==> flags@[a].id != flags@[b].id,
        decreases flags.len() - i,
    {
        let id = flags[i].id;
        if !seen.insert(id) {
            proof {
                let j = choose|j: int| 0 <= j < i && flags@[j].id == id;
                assert(flags@[j].id == flags@[i as int].id);
            }
            return false;
        }
        i = i + 1;
    }
    true
}

/// Inserts the id of every flag of `w` into `set`.
fn add_ids(set: &mut HashSet<i64>, w: &Vec<Flag>)
    ensures
        final(set)@ == old(set)@.union(ids_of(w@)),
{
    let ghost start = set@;
    let mut i: usize = 0;
    while i < w.len()
        invariant
            0 <= i <= w.len(),
            set@ == start.union(ids_of(w@.take(i as int))),
        decreases w.len() - i,
    {
        set.insert(w[i].id);
        proof {
            let t0 = w@.take(i as int);
            let t1 = w@.take(i + 1);
            assert(ids_of(t1) =~= ids_of(t0).insert(w[i as int].id)) by {
                assert(t1[i as int] == w[i as int]);
                assert forall|id: i64| ids_of(t0).contains(id) implies ids_of(t1).contains(id) by {
                    let j = choose|j: int| 0 <= j < t0.len() && t0[j].id == id;
                    assert(t1[j] == t0[j]);
                }
                assert forall|id: i64| ids_of(t1).contains(id) implies ids_of(t0).insert(
                    w[i as int].id,
                ).contains(id) by {
                    let j = choose|j: int| 0 <= j < t1.len() && t1[j].id == id;
                    if j < i {
                        assert(t0[j] == t1[j]);
                    }
                }
            }
        }
        i = i + 1;
    }
    assert(w@.take(w.len() as int) =~= w@);
}

/// Splitting a sequence of distinct ids at `k` gives two parts with distinct
/// ids, no id in both, and together the ids of the whole.
proof fn lemma_split_ids(s: Seq<Flag>, k: int)
    requires
        distinct_ids(s),
        0 <= k <= s.len(),
    ensures
        distinct_ids(s.skip(k)),
        ids_of(s.skip(k)).disjoint(ids_of(s.take(k))),
        ids_of(s.skip(k)).subset_of(ids_of(s)),
        ids_of(s.take(k)).subset_of(ids_of(s)),
{
    assert forall|id: i64| ids_of(s.skip(k)).contains(id) implies !ids_of(s.take(k)).contains(id)
        && ids_of(s).contains(id) by {
        let a = choose|a: int| 0 <= a < s.skip(k).len() && s.skip(k)[a].id == id;
        assert(s.skip(k)[a] == s[a + k]);
        if ids_of(s.take(k)).contains(id) {
            let b = choose|b: int| 0 <= b < k && s.take(k)[b].id == id;
            assert(s.take(k)[b] == s[b]);
        }
    }
    assert forall|id: i64| ids_of(s.take(k)).contains(id) implies ids_of(s).contains(id) by {
        let b = choose|b: int| 0 <= b < k && s.take(k)[b].id == id;
        assert(s.take(k)[b] == s[b]);
    }
    assert forall|i: int, j: int| 0 <= i < j < s.skip(k).len() implies s.skip(k)[i].id != s.skip(
        k,
    )[j].id by {
        assert(s.skip(k)[i] == s[i + k]);
        assert(s.skip(k)[j] == s[j + k]);
    }
}

/// At flush time no id is both sent and invalid.
pub proof fn lemma_outcomes_disjoint(c: &Cycle)
    requires
        c.wf(),
    ensures
        c.sent().disjoint(c.invalid()),
{
}

/// A flush moves a flag only out of `Unsent`: to `Sent` if its id was in
/// the sent set, to `Invalid` if it was in the invalid set. A flag in a
/// terminal status keeps it, and id, value and group never change.
pub proof fn lemma_flush_moves_only_unsent<E>(
    m: Map<i64, FlagView>,
    sent: Set<i64>,
    invalid: Set<i64>,
    r: PersistReport<E>,
    id: i64,
)
    requires
        sent.disjoint(invalid),
        m.contains_key(id),
    ensures
        after_flush(m, sent, invalid, r).contains_key(id),
        after_flush(m, sent, invalid, r)[id].id == m[id].id,
        after_flush(m, sent, invalid, r)[id].value == m[id].value,
        after_flush(m, sent, invalid, r)[id].group == m[id].group,
        m[id].status != FlagStatus::Unsent ==> after_flush(m, sent, invalid, r)[id].status
            == m[id].status,
        !sent.contains(id) && !invalid.contains(id) ==> after_flush(m, sent, invalid, r)[id]
            == m[id],
        after_flush(m, sent, invalid, r)[id].status != m[id].status ==> {
            &&& m[id].status == FlagStatus::Unsent
            &&& after_flush(m, sent, invalid, r)[id].status == FlagStatus::Sent ==> sent.contains(id)
            &&& after_flush(m, sent, invalid, r)[id].status == FlagStatus::Invalid
                ==> invalid.contains(id)
        },
{
}

/// A flag that was unsent and whose submission came to no verdict is still
/// unsent after the flush, so the next fetch lists it and it is submitted
/// again.
pub proof fn lemma_undetermined_is_fetched_again<E>(
    m: Map<i64, FlagView>,
    sent: Set<i64>,
    invalid: Set<i64>,
    r: PersistReport<E>,
    id: i64,
    next: Seq<Flag>,
)
    requires
        m.contains_key(id),
        m[id].status == FlagStatus::Unsent,
        !sent.contains(id),
        !invalid.contains(id),
        lists_unsent(next, after_flush(m, sent, invalid, r)),
    ensures
        exists|i: int| 0 <= i < next.len() && next[i].id == id && next[i]@ == m[id],
{
    let after = after_flush(m, sent, invalid, r);
    assert(after.contains_key(id) && after[id] == m[id]);
    let i = choose|i: int| 0 <= i < next.len() && next[i].id == id;
    assert(next[i]@ == after[next[i].id]);
}

} // verus!
