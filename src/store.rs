//! The durable flag store as seen by the engine: its abstract contents, the
//! contract every backend meets, and the laws of its write operations.
use vstd::prelude::*;
use std::collections::HashSet;

use crate::flag::{Flag, FlagStatus, FlagView};

verus! {

/// `m` after every flag of `ids` that is still unsent has moved to `target`.
/// Flags that already hold a terminal status, and ids that the store does not
/// hold, are left as they are.
pub open spec fn mark_status(
    m: Map<i64, FlagView>,
    ids: Set<i64>,
    target: FlagStatus,
) -> Map<i64, FlagView> {
    Map::new(
        |id: i64| m.contains_key(id),
        |id: i64|
            if ids.contains(id) && m[id].status == FlagStatus::Unsent {
                FlagView { id: m[id].id, value: m[id].value, group: m[id].group, status: target }
            } else {
                m[id]
            },
    )
}

/// `s` lists each unsent flag of `m` exactly once, as `m` records it.
pub open spec fn lists_unsent(s: Seq<Flag>, m: Map<i64, FlagView>) -> bool {
    &&& forall|i: int|
        0 <= i < s.len() ==> {
            &&& m.contains_key(#[trigger] s[i].id)
            &&& m[s[i].id] == s[i]@
            &&& s[i].status == FlagStatus::Unsent
        }
    &&& forall|i: int, j: int| 0 <= i < j < s.len() ==> s[i].id != s[j].id
    &&& forall|id: i64|
        #[trigger] m.contains_key(id) && m[id].status == FlagStatus::Unsent ==> exists|i: int|
            0 <= i < s.len() && s[i].id == id
}

/// A durable record of flags and their lifecycle status. Each write is
/// transactional: on success every given id moves, on failure none does.
pub trait Database<T> {
    /// Each recorded flag under its id.
    spec fn contents(&self) -> Map<i64, FlagView>;

    /// Makes sure the persistent schema exists; the recorded flags stay.
    fn setup(&mut self) -> (r: Result<(), T>)
        ensures
            final(self).contents() == old(self).contents(),
    ;

    /// All flags whose status is `Unsent`.
    fn get_unsent_flags(&mut self) -> (r: Result<Vec<Flag>, T>)
        ensures
            final(self).contents() == old(self).contents(),
            r matches Ok(v) ==> lists_unsent(v@, old(self).contents()),
    ;

    /// Marks the unsent flags of `sent_set` as `Sent` and drains the set.
    fn set_sent_flags(&mut self, sent_set: &mut HashSet<i64>) -> (r: Result<(), T>)
        ensures
            r is Ok ==> final(self).contents() == mark_status(
                old(self).contents(),
                old(sent_set)@,
                FlagStatus::Sent,
            ),
            r is Ok ==> final(sent_set)@.is_empty(),
            r is Err ==> final(self).contents() == old(self).contents(),
    ;

    /// Marks the unsent flags of `invalid_set` as `Invalid` and drains the set.
    fn set_invalid_flags(&mut self, invalid_set: &mut HashSet<i64>) -> (r: Result<(), T>)
        ensures
            r is Ok ==> final(self).contents() == mark_status(
                old(self).contents(),
                old(invalid_set)@,
                FlagStatus::Invalid,
            ),
            r is Ok ==> final(invalid_set)@.is_empty(),
            r is Err ==> final(self).contents() == old(self).contents(),
    ;
}

/// A write never takes a flag out of a terminal status, never changes a
/// flag's id, value or group, and moves a flag only from `Unsent` to the
/// status written; no flag is added or removed.
pub proof fn lemma_status_moves_only_from_unsent(
    m: Map<i64, FlagView>,
    ids: Set<i64>,
    target: FlagStatus,
    id: i64,
)
    ensures
        mark_status(m, ids, target).dom() == m.dom(),
        m.contains_key(id) ==> {
            let after = mark_status(m, ids, target)[id];
            &&& after.id == m[id].id
            &&& after.value == m[id].value
            &&& after.group == m[id].group
            &&& m[id].status != FlagStatus::Unsent ==> after.status == m[id].status
            &&& after.status != m[id].status ==> (m[id].status == FlagStatus::Unsent
                && after.status == target)
        },
{
    assert(mark_status(m, ids, target).dom() =~= m.dom());
}

/// Writing the same id set with the same status twice leaves the store as
/// writing it once does.
pub proof fn lemma_mark_status_idempotent(m: Map<i64, FlagView>, ids: Set<i64>, target: FlagStatus)
    ensures
        mark_status(mark_status(m, ids, target), ids, target) == mark_status(m, ids, target),
{
    assert(mark_status(mark_status(m, ids, target), ids, target) =~= mark_status(m, ids, target));
}

} // verus!
