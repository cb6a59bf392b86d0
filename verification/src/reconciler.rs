//! The session reconciler: on every tick it receives the freshly fetched
//! session list and compares it with the last known snapshot by value,
//! ignoring order — two lists count as equal when they hold the same
//! multiset of session values.  Only a real change replaces the snapshot and
//! produces the notification payload; a fetch failure keeps the previous
//! snapshot and produces nothing.  The timer and its cancellation live in
//! the adapter that drives `tick`.

use crate::types::{clone_string, AudioSession, AudioSessionView};
use vstd::assert_multisets_equal;
use vstd::multiset::Multiset;
use vstd::prelude::*;
use vstd::seq_lib::group_to_multiset_ensures;
use vstd::seq_lib::lemma_multiset_commutative;

verus! {

/// Two session lists hold the same sessions, by value and ignoring order.
pub open spec fn same_sessions(a: Seq<AudioSessionView>, b: Seq<AudioSessionView>) -> bool {
    a.to_multiset() == b.to_multiset()
}

/// A field-by-field copy of one session with the same value.
pub fn clone_session(s: &AudioSession) -> (r: AudioSession)
    ensures
        r@ == s@,
{
    AudioSession {
        process_id: s.process_id,
        process_name: clone_string(&s.process_name),
        display_name: clone_string(&s.display_name),
        volume: s.volume,
        is_muted: s.is_muted,
    }
}

/// A copy of a session list with the same values in the same order.
pub fn clone_sessions(v: &Vec<AudioSession>) -> (r: Vec<AudioSession>)
    ensures
        r.deep_view() == v.deep_view(),
{
    let mut r: Vec<AudioSession> = Vec::new();
    let mut i: usize = 0;
    while i < v.len()
        invariant
            i <= v@.len(),
            r@.len() == i,
            forall|j: int| 0 <= j < i ==> (#[trigger] r@[j])@ == v@[j]@,
        decreases v@.len() - i,
    {
        r.push(clone_session(&v[i]));
        i += 1;
    }
    proof {
        assert(r.deep_view() =~= v.deep_view());
    }
    r
}

/// Whether two session lists hold the same sessions, by value and ignoring
/// order.
pub fn sessions_equal(a: &Vec<AudioSession>, b: &Vec<AudioSession>) -> (r: bool)
    ensures
        r == same_sessions(a.deep_view(), b.deep_view()),
{
    broadcast use group_to_multiset_ensures;

    let ghost a_dv = a.deep_view();
    let ghost b_dv = b.deep_view();
    if a.len() != b.len() {
        proof {
            assert(a_dv.len() == a@.len());
            assert(b_dv.len() == b@.len());
            if same_sessions(a_dv, b_dv) {
                assert(a_dv.to_multiset().len() == a_dv.len());
                assert(b_dv.to_multiset().len() == b_dv.len());
            }
        }
        return false;
    }
    let mut scratch = clone_sessions(b);
    let mut i: usize = 0;
    proof {
        broadcast use vstd::multiset::group_multiset_axioms;

        assert(a_dv.len() == a@.len());
        assert(b_dv.len() == b@.len());
        assert(scratch@.len() == scratch.deep_view().len());
        assert(a_dv.take(0) =~= Seq::<AudioSessionView>::empty());
        assert(a_dv.take(0).to_multiset() =~= Multiset::<AudioSessionView>::empty());
        assert(b_dv.to_multiset() =~= a_dv.take(0).to_multiset().add(
            scratch.deep_view().to_multiset(),
        ));
    }
    while i < a.len()
        invariant
            i <= a@.len(),
            a@.len() == b@.len(),
            a_dv == a.deep_view(),
            b_dv == b.deep_view(),
            a_dv.len() == a@.len(),
            scratch@.len() == a@.len() - i,
            b_dv.to_multiset() == a_dv.take(i as int).to_multiset().add(
                scratch.deep_view().to_multiset(),
            ),
        decreases a@.len() - i,
    {
        broadcast use group_to_multiset_ensures;

        let ghost x = a_dv[i as int];
        let ghost scratch_dv = scratch.deep_view();
        let mut j: usize = 0;
        let mut found = false;
        while !found && j < scratch.len()
            invariant
                i < a@.len(),
                a_dv == a.deep_view(),
                j <= scratch@.len(),
                x == a_dv[i as int],
                scratch_dv == scratch.deep_view(),
                !found ==> forall|k: int| 0 <= k < j ==> scratch_dv[k] != x,
                found ==> j < scratch@.len() && scratch_dv[j as int] == x,
            decreases (if found { 0int } else { 1int }), scratch@.len() - j,
        {
            if scratch[j] == a[i] {
                found = true;
            } else {
                j += 1;
            }
        }
        if !found {
            proof {
                broadcast use vstd::multiset::group_multiset_axioms;

                assert(!scratch_dv.contains(x));
                assert(scratch_dv.to_multiset().count(x) == 0);
                assert(b_dv.to_multiset().count(x) == a_dv.take(i as int).to_multiset().count(
                    x,
                ));
                assert(a_dv =~= a_dv.take(i as int) + a_dv.skip(i as int));
                lemma_multiset_commutative(a_dv.take(i as int), a_dv.skip(i as int));
                assert(a_dv.skip(i as int)[0] == x);
                assert(a_dv.skip(i as int).contains(x));
                assert(a_dv.skip(i as int).to_multiset().count(x) > 0);
                assert(a_dv.to_multiset().count(x) > b_dv.to_multiset().count(x));
                assert(!same_sessions(a_dv, b_dv));
            }
            return false;
        }
        proof {
            broadcast use vstd::multiset::group_multiset_axioms;

            assert(scratch_dv.contains(x));
            assert(scratch_dv.to_multiset().count(x) > 0);
            assert(a_dv.take(i as int + 1) =~= a_dv.take(i as int).push(x));
            assert(a_dv.take(i as int + 1).to_multiset() =~= a_dv.take(
                i as int,
            ).to_multiset().insert(x));
        }
        let ghost sj = j as int;
        let _removed = scratch.remove(j);
        proof {
            broadcast use vstd::multiset::group_multiset_axioms;

            assert(scratch.deep_view() =~= scratch_dv.remove(sj));
            assert(scratch.deep_view().to_multiset() =~= scratch_dv.to_multiset().remove(x));
            assert_multisets_equal!(
                a_dv.take(i as int + 1).to_multiset().add(scratch.deep_view().to_multiset()),
                a_dv.take(i as int).to_multiset().add(scratch_dv.to_multiset()),
            );
        }
        i += 1;
    }
    proof {
        broadcast use vstd::multiset::group_multiset_axioms;

        assert(a_dv.take(a@.len() as int) =~= a_dv);
        assert(scratch.deep_view().len() == 0);
        assert(scratch.deep_view().to_multiset().len() == 0);
        assert(scratch.deep_view().to_multiset() =~= Multiset::<AudioSessionView>::empty());
        assert(b_dv.to_multiset() =~= a_dv.to_multiset());
    }
    true
}

/// Keeps the last known session snapshot and decides, for each fetched list,
/// whether anything changed.
pub struct SessionReconciler {
    last: Vec<AudioSession>,
}

impl View for SessionReconciler {
    type V = Seq<AudioSessionView>;

    closed spec fn view(&self) -> Seq<AudioSessionView> {
        self.last.deep_view()
    }
}

impl SessionReconciler {
    /// A reconciler with an empty snapshot.
    pub fn new() -> (r: SessionReconciler)
        ensures
            r@ == Seq::<AudioSessionView>::empty(),
    {
        let r = SessionReconciler { last: Vec::new() };
        proof {
            assert(r@ =~= Seq::<AudioSessionView>::empty());
        }
        r
    }

    /// The last known snapshot.
    pub fn snapshot(&self) -> (r: &Vec<AudioSession>)
        ensures
            r.deep_view() == self@,
    {
        &self.last
    }

    /// One tick: take the fetch outcome and decide.  A failed fetch, or a
    /// list equal to the snapshot by value regardless of order, keeps the
    /// snapshot and produces nothing; a changed list replaces the snapshot
    /// and produces exactly one notification payload carrying the new list.
    pub fn tick(&mut self, fetched: Result<Vec<AudioSession>, String>) -> (r: Option<
        Vec<AudioSession>>)
        ensures
            match fetched {
                Err(_) => final(self)@ == old(self)@ && r is None,
                Ok(cur) => {
                    if same_sessions(cur.deep_view(), old(self)@) {
                        final(self)@ == old(self)@ && r is None
                    } else {
                        &&& final(self)@ == cur.deep_view()
                        &&& r matches Some(n) && n.deep_view() == cur.deep_view()
                    }
                },
            },
    {
        match fetched {
            Err(_) => None,
            Ok(cur) => {
                if sessions_equal(&cur, &self.last) {
                    None
                } else {
                    let copy = clone_sessions(&cur);
                    self.last = copy;
                    Some(cur)
                }
            },
        }
    }
}

} // verus!
