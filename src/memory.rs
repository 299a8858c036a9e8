//! A store that keeps its flags in memory, for tests and short-lived runs.
use vstd::prelude::*;
use std::collections::HashSet;

use crate::flag::{Flag, FlagStatus, FlagView};
use crate::store::{mark_status, Database};

verus! {

broadcast use vstd::std_specs::hash::group_hash_axioms;

/// Why an in-memory store refused a request.
#[derive(Debug, Clone, Copy, PartialEq, Eq, Structural)]
pub enum StoreError {
    /// The store was taken offline.
    Unavailable,
}

/// Flags held in memory. Ids are handed out in order from 1 and never reused;
/// the flag with id `k` sits at position `k - 1`. A store taken offline
/// refuses every request, as an unreachable database would.
pub struct MemoryStore {
    records: Vec<Flag>,
    online: bool,
}

impl MemoryStore {
    #[verifier::type_invariant]
    spec fn ids_follow_positions(&self) -> bool {
        forall|i: int| 0 <= i < self.records.len() ==> #[trigger] self.records[i].id == i + 1
    }

    /// Number of flags recorded so far.
    pub closed spec fn count(&self) -> nat {
        self.records@.len()
    }

    /// Whether requests are served.
    pub closed spec fn is_online(&self) -> bool {
        self.online
    }

    /// An empty store that serves requests.
    pub fn new() -> (r: MemoryStore)
        ensures
            r.contents() == Map::<i64, FlagView>::empty(),
            r.count() == 0,
            r.is_online(),
    {
        let r = MemoryStore { records: Vec::new(), online: true };
        assert(r.contents() =~= Map::<i64, FlagView>::empty());
        r
    }

    /// Records a new unsent flag under the next free id and returns that id.
    pub fn add_flag(&mut self, flag: String, group: i32) -> (id: i64)
        requires
            old(self).count() < i64::MAX,
        ensures
            id == old(self).count() + 1,
            !old(self).contents().contains_key(id),
            final(self).contents() == old(self).contents().insert(
                id,
                FlagView { id, value: flag@, group, status: FlagStatus::Unsent },
            ),
            final(self).count() == old(self).count() + 1,
            final(self).is_online() == old(self).is_online(),
    {
        let ghost before = self.contents();
        let ghost value = flag@;
        let (mut records, online) = self.take();
        let id = records.len() as i64 + 1;
        records.push(Flag { id, flag, group, status: FlagStatus::Unsent });
        *self = MemoryStore { records, online };
        assert(self.contents() =~= before.insert(
            id,
            FlagView { id, value, group, status: FlagStatus::Unsent },
        ));
        id
    }

    /// Takes the store offline (`false`) or back online (`true`).
    pub fn set_online(&mut self, online: bool)
        ensures
            final(self).contents() == old(self).contents(),
            final(self).count() == old(self).count(),
            final(self).is_online() == online,
    {
        proof {
            use_type_invariant(&*self);
        }
        self.online = online;
    }

    /// The flag recorded under `id`.
    pub fn get(&self, id: i64) -> (r: Option<&Flag>)
        ensures
            r matches Some(f) ==> self.contents().contains_key(id) && self.contents()[id] == f@,
            r is None ==> !self.contents().contains_key(id),
    {
        proof {
            use_type_invariant(self);
            if self.records.len() > 0 {
                assert(self.records[self.records.len() - 1].id == self.records.len());
            }
        }
        if 1 <= id && id <= self.records.len() as i64 {
            Some(&self.records[(id - 1) as usize])
        } else {
            None
        }
    }

    /// Moves the records out, leaving an empty store behind for the moment.
    fn take(&mut self) -> (r: (Vec<Flag>, bool))
        ensures
            r.0 == old(self).records,
            r.1 == old(self).online,
            forall|i: int| 0 <= i < r.0.len() ==> #[trigger] r.0[i].id == i + 1,
    {
        proof {
            use_type_invariant(&*self);
        }
        let mut held = MemoryStore { records: Vec::new(), online: self.online };
        std::mem::swap(self, &mut held);
        proof {
            use_type_invariant(&held);
        }
        let MemoryStore { records, online } = held;
        (records, online)
    }

    /// Moves every unsent flag of `ids` to `target`, in place.
    fn mark(&mut self, ids: &HashSet<i64>, target: FlagStatus)
        ensures
            final(self).contents() == mark_status(old(self).contents(), ids@, target),
            final(self).count() == old(self).count(),
            final(self).is_online() == old(self).is_online(),
    {
        let (mut records, online) = self.take();
        let ghost before = records@;
        let n = records.len();
        let mut i: usize = 0;
        while i < n
            invariant
                n == before.len() == records.len(),
                0 <= i <= n,
                forall|k: int| 0 <= k < n ==> #[trigger] records[k].id == k + 1,
                forall|k: int|
                    0 <= k < i ==> #[trigger] records[k] == (if ids@.contains(before[k].id)
                        && before[k].status == FlagStatus::Unsent {
                        Flag { status: target, ..before[k] }
                    } else {
                        before[k]
                    }),
                forall|k: int| i <= k < n ==> #[trigger] records[k] == before[k],
            decreases n - i,
        {
            let id = records[i].id;
            if ids.contains(&id) && records[i].status == FlagStatus::Unsent {
                records[i].status = target;
            }
            i = i + 1;
        }
        *self = MemoryStore { records, online };
        proof {
            let old_m = Map::new(
                |id: i64| 1 <= id <= before.len(),
                |id: i64| before[id - 1]@,
            );
            assert(self.contents() =~= mark_status(old_m, ids@, target));
        }
    }
}

impl Database<StoreError> for MemoryStore {
    closed spec fn contents(&self) -> Map<i64, FlagView> {
        Map::new(
            |id: i64| 1 <= id <= self.records.len(),
            |id: i64| self.records[id - 1]@,
        )
    }

    fn setup(&mut self) -> (r: Result<(), StoreError>)
        ensures
            r is Ok <==> old(self).is_online(),
            final(self).is_online() == old(self).is_online(),
    {
        if self.online {
            Ok(())
        } else {
            Err(StoreError::Unavailable)
        }
    }

    fn get_unsent_flags(&mut self) -> (r: Result<Vec<Flag>, StoreError>)
        ensures
            r is Ok <==> old(self).is_online(),
            final(self).is_online() == old(self).is_online(),
    {
        proof {
            use_type_invariant(&*self);
        }
        if !self.online {
            return Err(StoreError::Unavailable);
        }
        let mut out: Vec<Flag> = Vec::new();
        let n = self.records.len();
        let mut i: usize = 0;
        while i < n
            invariant
                n == self.records.len(),
                0 <= i <= n,
                forall|k: int| 0 <= k < n ==> #[trigger] self.records[k].id == k + 1,
                forall|k: int|
                    0 <= k < out.len() ==> {
                        &&& 1 <= #[trigger] out[k].id <= i
                        &&& out[k] == self.records[out[k].id - 1]
                        &&& out[k].status == FlagStatus::Unsent
                    },
                forall|a: int, b: int| 0 <= a < b < out.len() ==> out[a].id < out[b].id,
                forall|k: int|
                    0 <= k < i && #[trigger] self.records[k].status == FlagStatus::Unsent
                        ==> exists|j: int| 0 <= j < out.len() && out[j].id == k + 1,
            decreases n - i,
        {
            let ghost prev = out@;
            let r = &self.records[i];
            if r.status == FlagStatus::Unsent {
                let copy = Flag { id: r.id, flag: r.flag.clone(), group: r.group, status: r.status };
                out.push(copy);
                assert(out[out.len() - 1].id == i + 1);
            }
            proof {
                assert forall|k: int|
                    0 <= k < i && #[trigger] self.records[k].status
                        == FlagStatus::Unsent implies exists|j: int|
                    0 <= j < out.len() && out[j].id == k + 1 by {
                    let j = choose|j: int| 0 <= j < prev.len() && prev[j].id == k + 1;
                    assert(out[j] == prev[j]);
                }
            }
            i = i + 1;
        }
        proof {
            let m = self.contents();
            assert forall|id: i64| #[trigger]
                m.contains_key(id) && m[id].status == FlagStatus::Unsent implies exists|j: int|
                0 <= j < out.len() && out[j].id == id by {
                assert(self.records[id - 1].status == FlagStatus::Unsent);
            }
        }
        Ok(out)
    }

    fn set_sent_flags(&mut self, sent_set: &mut HashSet<i64>) -> (r: Result<(), StoreError>)
        ensures
            r is Ok <==> old(self).is_online(),
            final(self).is_online() == old(self).is_online(),
    {
        if !self.online {
            return Err(StoreError::Unavailable);
        }
        self.mark(sent_set, FlagStatus::Sent);
        sent_set.clear();
        Ok(())
    }

    fn set_invalid_flags(&mut self, invalid_set: &mut HashSet<i64>) -> (r: Result<(), StoreError>)
        ensures
            r is Ok <==> old(self).is_online(),
            final(self).is_online() == old(self).is_online(),
    {
        if !self.online {
            return Err(StoreError::Unavailable);
        }
        self.mark(invalid_set, FlagStatus::Invalid);
        invalid_set.clear();
        Ok(())
    }
}

} // verus!
