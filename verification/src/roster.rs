//! The capacity-aware roster engine of published panels. Each operation is
//! one atomic step on the engine state; the backing store must serialize
//! operations on the same panel, and the contracts here describe each step
//! exactly, so membership can never outgrow capacity.

use vstd::prelude::*;

use std::collections::HashMap;

use crate::record::{wf_roster, RosterView, WebhookData};

verus! {

broadcast use vstd::std_specs::hash::group_hash_axioms;

/// Outcome of a join request.
#[derive(Clone, Copy, PartialEq, Eq, Structural, Debug)]
pub enum JoinResponse {
    /// The user was already on the roster; nothing changed.
    AlreadyJoined,
    /// The user was added; `is_full` reports whether this join filled the
    /// panel, so the caller can lock the post and notify the members.
    Joined { is_full: bool },
    /// The panel was already at capacity; nothing changed.
    Full,
    /// No such panel: it was deleted or timed out.
    Expired,
}

/// Outcome of a leave request.
#[derive(Clone, Copy, PartialEq, Eq, Structural, Debug)]
pub enum LeaveResponse {
    /// The creator may not leave their own panel; nothing changed.
    CreatorLeave,
    /// The user was not on the roster; nothing changed.
    NotJoined,
    /// The user was removed.
    Left,
    /// No such panel: it was deleted or timed out.
    Expired,
}

/// Outcome of a delete request.
#[derive(Clone, Copy, PartialEq, Eq, Structural, Debug)]
pub enum DeleteResponse {
    /// Only the creator may delete a panel; nothing changed.
    NotCreator,
    /// The requester no longer counts as joined; nothing changed.
    NotJoined,
    /// The panel was deleted.
    Deleted,
    /// No such panel: it was deleted or timed out.
    Expired,
}

/// What `join` does to the panels `m`: the new panel map and the response.
pub open spec fn spec_join(m: Map<u64, RosterView>, panel: u64, user: u64) -> (
    Map<u64, RosterView>,
    JoinResponse,
) {
    if !m.contains_key(panel) {
        (m, JoinResponse::Expired)
    } else {
        let d = m[panel];
        if d.joined.contains(user) {
            (m, JoinResponse::AlreadyJoined)
        } else if d.joined.len() >= d.member.spec_capacity() as int {
            (m, JoinResponse::Full)
        } else {
            let d2 = RosterView { joined: d.joined.push(user), ..d };
            (
                m.insert(panel, d2),
                JoinResponse::Joined {
                    is_full: d2.joined.len() == d.member.spec_capacity() as int,
                },
            )
        }
    }
}

/// What `leave` does to the panels `m`: the new panel map and the response.
pub open spec fn spec_leave(m: Map<u64, RosterView>, panel: u64, user: u64) -> (
    Map<u64, RosterView>,
    LeaveResponse,
) {
    if !m.contains_key(panel) {
        (m, LeaveResponse::Expired)
    } else {
        let d = m[panel];
        if user == d.creator {
            (m, LeaveResponse::CreatorLeave)
        } else if !d.joined.contains(user) {
            (m, LeaveResponse::NotJoined)
        } else {
            let d2 = RosterView { joined: d.joined.remove_value(user), ..d };
            (m.insert(panel, d2), LeaveResponse::Left)
        }
    }
}

/// What `delete` does to the panels `m`: the new panel map and the response.
pub open spec fn spec_delete(m: Map<u64, RosterView>, panel: u64, user: u64) -> (
    Map<u64, RosterView>,
    DeleteResponse,
) {
    if !m.contains_key(panel) {
        (m, DeleteResponse::Expired)
    } else {
        let d = m[panel];
        if user != d.creator {
            (m, DeleteResponse::NotCreator)
        } else if !d.joined.contains(user) {
            (m, DeleteResponse::NotJoined)
        } else {
            (m.remove(panel), DeleteResponse::Deleted)
        }
    }
}

/// The roster store of all published panels, keyed by the panel's message
/// id, together with the pointer to the latest standing entry panel.
pub struct RosterEngine {
    rosters: HashMap<u64, WebhookData>,
    latest: Option<u64>,
}

impl View for RosterEngine {
    type V = Map<u64, RosterView>;

    closed spec fn view(&self) -> Map<u64, RosterView> {
        Map::new(|p: u64| self.rosters@.contains_key(p), |p: u64| self.rosters@[p]@)
    }
}

/// Every panel in `m` holds a sound roster (see `wf_roster`).
pub open spec fn panels_wf(m: Map<u64, RosterView>) -> bool {
    forall|p: u64| m.contains_key(p) ==> wf_roster(#[trigger] m[p])
}

impl RosterEngine {
    /// Every stored roster is sound (see `wf_roster`); all operations keep
    /// this, so membership never exceeds capacity on any panel.
    pub open spec fn inv(self) -> bool {
        panels_wf(self@)
    }

    /// The remembered id of the latest standing entry panel.
    pub closed spec fn spec_latest(self) -> Option<u64> {
        self.latest
    }

    /// An empty engine: no panels, no entry-panel pointer.
    pub fn new() -> (r: RosterEngine)
        ensures
            r@ == Map::<u64, RosterView>::empty(),
            r.inv(),
            r.spec_latest() is None,
    {
        let r = RosterEngine { rosters: HashMap::new(), latest: None };
        proof {
            assert(r@ =~= Map::<u64, RosterView>::empty());
        }
        r
    }

    /// Stores the sound roster `data` as panel `panel`, replacing any
    /// previous roster under that id.
    pub fn publish(&mut self, panel: u64, data: WebhookData)
        requires
            old(self).inv(),
            wf_roster(data@),
        ensures
            final(self).inv(),
            final(self)@ == old(self)@.insert(panel, data@),
            final(self).spec_latest() == old(self).spec_latest(),
    {
        let ghost dv = data@;
        self.rosters.insert(panel, data);
        proof {
            assert(final(self)@ =~= old(self)@.insert(panel, dv));
        }
    }

    /// A read-only snapshot of panel `panel`, or `None` if it is gone.
    pub fn get(&self, panel: u64) -> (r: Option<WebhookData>)
        ensures
            match r {
                Some(d) => self@.contains_key(panel) && d@ == self@[panel],
                None => !self@.contains_key(panel),
            },
    {
        match self.rosters.get(&panel) {
            Some(d) => Some(d.duplicate()),
            None => None,
        }
    }

    /// Drops panel `panel`, as the backing store does when the roster's
    /// time-to-live lapses.
    pub fn expire(&mut self, panel: u64)
        requires
            old(self).inv(),
        ensures
            final(self).inv(),
            final(self)@ == old(self)@.remove(panel),
            final(self).spec_latest() == old(self).spec_latest(),
    {
        self.rosters.remove(&panel);
        proof {
            assert(final(self)@ =~= old(self)@.remove(panel));
        }
    }

    /// Adds `user` to panel `panel` unless the panel is gone, already lists
    /// the user, or is full; one atomic read-modify-write step.
    pub fn join(&mut self, panel: u64, user: u64) -> (r: JoinResponse)
        requires
            old(self).inv(),
        ensures
            final(self).inv(),
            final(self)@ == spec_join(old(self)@, panel, user).0,
            r == spec_join(old(self)@, panel, user).1,
            final(self).spec_latest() == old(self).spec_latest(),
    {
        let d = match self.rosters.get(&panel) {
            None => {
                return JoinResponse::Expired;
            },
            Some(dref) => dref.duplicate(),
        };
        proof {
            assert(self@.contains_key(panel) && d@ == self@[panel]);
        }
        if contains_user(&d.joined, user) {
            return JoinResponse::AlreadyJoined;
        }
        let cap = d.member.as_u8();
        if d.joined.len() >= cap as usize {
            return JoinResponse::Full;
        }
        let mut d2 = d;
        d2.joined.push(user);
        let is_full = d2.joined.len() == cap as usize;
        let ghost d2v = d2@;
        let ghost oldv = self@;
        self.rosters.insert(panel, d2);
        proof {
            assert(final(self)@ =~= oldv.insert(panel, d2v));
            let old_d = oldv[panel];
            assert(d2v.joined =~= old_d.joined.push(user));
            assert(d2v == RosterView { joined: old_d.joined.push(user), ..old_d });
            assert(wf_roster(old_d));
            assert forall|i: int, j: int| 0 <= i < j < d2v.joined.len() implies d2v.joined[i]
                != d2v.joined[j] by {
                if j < old_d.joined.len() {
                    assert(old_d.joined[i] != old_d.joined[j]);
                } else {
                    assert(d2v.joined[j] == user);
                    assert(!old_d.joined.contains(user));
                    assert(old_d.joined[i] != user);
                }
            }
            assert(d2v.joined[0] == old_d.joined[0]);
            assert(wf_roster(d2v));
            assert forall|p: u64| final(self)@.contains_key(p) implies wf_roster(
                #[trigger] final(self)@[p],
            ) by {
                if p != panel {
                    assert(final(self)@[p] == oldv[p]);
                }
            }
        }
        JoinResponse::Joined { is_full }
    }

    /// Removes `user` from panel `panel` unless the panel is gone, the user
    /// is its creator, or the user is not on it; one atomic step.
    pub fn leave(&mut self, panel: u64, user: u64) -> (r: LeaveResponse)
        requires
            old(self).inv(),
        ensures
            final(self).inv(),
            final(self)@ == spec_leave(old(self)@, panel, user).0,
            r == spec_leave(old(self)@, panel, user).1,
            final(self).spec_latest() == old(self).spec_latest(),
    {
        let d = match self.rosters.get(&panel) {
            None => {
                return LeaveResponse::Expired;
            },
            Some(dref) => dref.duplicate(),
        };
        proof {
            assert(self@.contains_key(panel) && d@ == self@[panel]);
        }
        if user == d.creator {
            return LeaveResponse::CreatorLeave;
        }
        let n = d.joined.len();
        let mut i: usize = 0;
        let mut idx: usize = n;
        let mut found = false;
        while i < n
            invariant_except_break
                !found,
                idx == n,
            invariant
                i <= n,
                n == d.joined@.len(),
                forall|j: int| 0 <= j < i ==> d.joined@[j] != user,
                found ==> idx < n && d.joined@[idx as int] == user,
            ensures
                found ==> idx < n && d.joined@[idx as int] == user && forall|j: int|
                    0 <= j < idx ==> d.joined@[j] != user,
                !found ==> forall|j: int| 0 <= j < n ==> d.joined@[j] != user,
            decreases n - i,
        {
            if d.joined[i] == user {
                idx = i;
                found = true;
                break;
            }
            i += 1;
        }
        if !found {
            proof {
                assert(!d.joined@.contains(user));
            }
            return LeaveResponse::NotJoined;
        }
        let mut d2 = d;
        d2.joined.remove(idx);
        let ghost d2v = d2@;
        let ghost oldv = self@;
        self.rosters.insert(panel, d2);
        proof {
            let old_d = oldv[panel];
            let jn = old_d.joined;
            jn.index_of_first_ensures(user);
            assert(jn.contains(user)) by {
                assert(jn[idx as int] == user);
            }
            let fi = jn.index_of_first(user).unwrap();
            assert(fi == idx as int) by {
                if fi < idx as int {
                    assert(jn[fi] == user);
                } else if fi > idx as int {
                    assert(jn[idx as int] != user);
                }
            }
            assert(d2v.joined == jn.remove(idx as int));
            assert(d2v.joined =~= jn.remove_value(user));
            assert(d2v == RosterView { joined: jn.remove_value(user), ..old_d });
            assert(final(self)@ =~= oldv.insert(panel, d2v));
            jn.remove_ensures(idx as int);
            assert(wf_roster(old_d));
            assert(idx != 0) by {
                assert(jn[0] == old_d.creator);
            }
            assert(d2v.joined[0] == jn[0]);
            assert forall|a: int, b: int| 0 <= a < b < d2v.joined.len() implies d2v.joined[a]
                != d2v.joined[b] by {
                let a2: int = if a < idx as int { a } else { a + 1 };
                let b2: int = if b < idx as int { b } else { b + 1 };
                assert(d2v.joined[a] == jn[a2]);
                assert(d2v.joined[b] == jn[b2]);
            }
            assert(wf_roster(d2v));
            assert forall|p: u64| final(self)@.contains_key(p) implies wf_roster(
                #[trigger] final(self)@[p],
            ) by {
                if p != panel {
                    assert(final(self)@[p] == oldv[p]);
                }
            }
        }
        LeaveResponse::Left
    }

    /// Deletes panel `panel` on behalf of `user`: only its creator, while
    /// still a member, may delete it; one atomic step, irreversible.
    pub fn delete(&mut self, panel: u64, user: u64) -> (r: DeleteResponse)
        requires
            old(self).inv(),
        ensures
            final(self).inv(),
            final(self)@ == spec_delete(old(self)@, panel, user).0,
            r == spec_delete(old(self)@, panel, user).1,
            final(self).spec_latest() == old(self).spec_latest(),
    {
        let d = match self.rosters.get(&panel) {
            None => {
                return DeleteResponse::Expired;
            },
            Some(dref) => dref.duplicate(),
        };
        proof {
            assert(self@.contains_key(panel) && d@ == self@[panel]);
        }
        if user != d.creator {
            return DeleteResponse::NotCreator;
        }
        if !contains_user(&d.joined, user) {
            return DeleteResponse::NotJoined;
        }
        let ghost oldv = self@;
        self.rosters.remove(&panel);
        proof {
            assert(final(self)@ =~= oldv.remove(panel));
            assert forall|p: u64| final(self)@.contains_key(p) implies wf_roster(
                #[trigger] final(self)@[p],
            ) by {
                assert(final(self)@[p] == oldv[p]);
            }
        }
        DeleteResponse::Deleted
    }

    /// The remembered id of the latest standing entry panel, if any.
    pub fn latest_entry(&self) -> (r: Option<u64>)
        ensures
            r == self.spec_latest(),
    {
        self.latest
    }

    /// Remembers `id` as the latest standing entry panel.
    pub fn set_latest_entry(&mut self, id: u64)
        ensures
            final(self)@ == old(self)@,
            old(self).inv() ==> final(self).inv(),
            final(self).spec_latest() == Some(id),
    {
        self.latest = Some(id);
    }

    /// Forgets the latest standing entry panel, handing back what was
    /// remembered.
    pub fn take_latest_entry(&mut self) -> (r: Option<u64>)
        ensures
            final(self)@ == old(self)@,
            old(self).inv() ==> final(self).inv(),
            final(self).spec_latest() is None,
            r == old(self).spec_latest(),
    {
        let r = self.latest;
        self.latest = None;
        r
    }
}

/// How often `u` occurs in `s`.
pub open spec fn spec_count(s: Seq<u64>, u: u64) -> nat
    decreases s.len(),
{
    if s.len() == 0 {
        0
    } else {
        spec_count(s.drop_last(), u) + if s.last() == u {
            1nat
        } else {
            0nat
        }
    }
}

/// Appending one element raises its own count by one and no other.
pub proof fn lemma_count_push(s: Seq<u64>, x: u64, u: u64)
    ensures
        spec_count(s.push(x), u) == spec_count(s, u) + if x == u {
            1nat
        } else {
            0nat
        },
{
    assert(s.push(x).drop_last() =~= s);
    assert(s.push(x).last() == x);
}

/// An element a sequence does not contain occurs zero times in it.
pub proof fn lemma_count_absent(s: Seq<u64>, u: u64)
    requires
        !s.contains(u),
    ensures
        spec_count(s, u) == 0,
    decreases s.len(),
{
    if s.len() > 0 {
        assert(s.last() != u);
        assert forall|i: int| 0 <= i < s.drop_last().len() implies s.drop_last()[i] != u by {
            assert(s.drop_last()[i] == s[i]);
        }
        assert(!s.drop_last().contains(u));
        lemma_count_absent(s.drop_last(), u);
    }
}

/// Law: on sound panels, one `join` or `leave` step keeps every panel
/// sound, and a sound panel never lists more members than its capacity.
/// Operations on one panel are single atomic steps, so this invariant holds
/// after every interleaving of joins and leaves, however many callers race.
pub proof fn lemma_capacity_invariant(m: Map<u64, RosterView>, panel: u64, user: u64)
    requires
        panels_wf(m),
    ensures
        panels_wf(spec_join(m, panel, user).0),
        panels_wf(spec_leave(m, panel, user).0),
        forall|p: u64| m.contains_key(p) ==> #[trigger] m[p].joined.len()
            <= m[p].member.spec_capacity(),
{
    let (mj, rj) = spec_join(m, panel, user);
    if m.contains_key(panel) {
        let d = m[panel];
        assert(wf_roster(d));
        if !d.joined.contains(user) && d.joined.len() < d.member.spec_capacity() as int {
            let d2 = RosterView { joined: d.joined.push(user), ..d };
            assert forall|a: int, b: int| 0 <= a < b < d2.joined.len() implies d2.joined[a]
                != d2.joined[b] by {
                if b < d.joined.len() {
                    assert(d.joined[a] != d.joined[b]);
                } else {
                    assert(d2.joined[b] == user);
                    assert(d.joined[a] != user);
                }
            }
            assert(d2.joined[0] == d.joined[0]);
            assert(wf_roster(d2));
            assert forall|p: u64| mj.contains_key(p) implies wf_roster(#[trigger] mj[p]) by {
                if p != panel {
                    assert(mj[p] == m[p]);
                }
            }
        }
    }
    let (ml, rl) = spec_leave(m, panel, user);
    if m.contains_key(panel) {
        let d = m[panel];
        assert(wf_roster(d));
        if user != d.creator && d.joined.contains(user) {
            d.joined.index_of_first_ensures(user);
            let fi = d.joined.index_of_first(user).unwrap();
            d.joined.remove_ensures(fi);
            let d2 = RosterView { joined: d.joined.remove_value(user), ..d };
            assert(d2.joined == d.joined.remove(fi));
            assert(fi != 0) by {
                assert(d.joined[0] == d.creator);
            }
            assert(d2.joined[0] == d.joined[0]);
            assert forall|a: int, b: int| 0 <= a < b < d2.joined.len() implies d2.joined[a]
                != d2.joined[b] by {
                let a2: int = if a < fi {
                    a
                } else {
                    a + 1
                };
                let b2: int = if b < fi {
                    b
                } else {
                    b + 1
                };
                assert(d2.joined[a] == d.joined[a2]);
                assert(d2.joined[b] == d.joined[b2]);
            }
            assert(wf_roster(d2));
            assert forall|p: u64| ml.contains_key(p) implies wf_roster(#[trigger] ml[p]) by {
                if p != panel {
                    assert(ml[p] == m[p]);
                }
            }
        }
    }
}

/// Law: `join` is idempotent for the caller. If a join admits `user`, an
/// immediately repeated join answers `AlreadyJoined`, changes nothing, and
/// the roster lists `user` exactly once.
pub proof fn lemma_join_idempotent(m: Map<u64, RosterView>, panel: u64, user: u64)
    requires
        panels_wf(m),
        spec_join(m, panel, user).1 is Joined,
    ensures
        spec_join(spec_join(m, panel, user).0, panel, user).1 == JoinResponse::AlreadyJoined,
        spec_join(spec_join(m, panel, user).0, panel, user).0 == spec_join(m, panel, user).0,
        spec_count(spec_join(m, panel, user).0[panel].joined, user) == 1,
{
    let d = m[panel];
    let m2 = spec_join(m, panel, user).0;
    assert(m2[panel].joined == d.joined.push(user));
    assert(m2[panel].joined.contains(user)) by {
        assert(m2[panel].joined[d.joined.len() as int] == user);
    }
    lemma_count_absent(d.joined, user);
    lemma_count_push(d.joined, user, user);
}

/// Law: the creator can never leave their own panel; the request is refused
/// as `CreatorLeave` and the roster is untouched.
pub proof fn lemma_creator_cannot_leave(m: Map<u64, RosterView>, panel: u64)
    requires
        m.contains_key(panel),
    ensures
        spec_leave(m, panel, m[panel].creator).1 == LeaveResponse::CreatorLeave,
        spec_leave(m, panel, m[panel].creator).0 == m,
{
}

/// Law: only the creator can delete a panel; anyone else is refused as
/// `NotCreator` and the roster stays retrievable, unchanged.
pub proof fn lemma_delete_requires_creator(m: Map<u64, RosterView>, panel: u64, user: u64)
    requires
        m.contains_key(panel),
        user != m[panel].creator,
    ensures
        spec_delete(m, panel, user).1 == DeleteResponse::NotCreator,
        spec_delete(m, panel, user).0 == m,
        spec_delete(m, panel, user).0.contains_key(panel),
        spec_delete(m, panel, user).0[panel] == m[panel],
{
}

/// Law: the `is_full` flag is `true` exactly on the join that reaches
/// capacity; a panel already at capacity admits nobody new until a `leave`
/// brings membership back under capacity, after which a new user is
/// admitted again.
pub proof fn lemma_fill_gate(m: Map<u64, RosterView>, panel: u64, user: u64)
    requires
        panels_wf(m),
        m.contains_key(panel),
    ensures
        (match spec_join(m, panel, user).1 {
            JoinResponse::Joined { is_full } => is_full <==> spec_join(
                m,
                panel,
                user,
            ).0[panel].joined.len() == m[panel].member.spec_capacity() as int,
            _ => true,
        }),
        m[panel].joined.len() == m[panel].member.spec_capacity() as int && !m[panel].joined.contains(
            user,
        ) ==> spec_join(m, panel, user).1 == JoinResponse::Full && spec_join(m, panel, user).0 == m,
        spec_leave(m, panel, user).1 == LeaveResponse::Left ==> {
            let m2 = spec_leave(m, panel, user).0;
            &&& m2[panel].joined.len() < m2[panel].member.spec_capacity() as int
            &&& forall|u2: u64|
                !m2[panel].joined.contains(u2) ==> (#[trigger] spec_join(m2, panel, u2).1) matches
                    JoinResponse::Joined { is_full: _ }
        },
{
    let d = m[panel];
    assert(wf_roster(d));
    if spec_leave(m, panel, user).1 == LeaveResponse::Left {
        let m2 = spec_leave(m, panel, user).0;
        d.joined.index_of_first_ensures(user);
        let fi = d.joined.index_of_first(user).unwrap();
        d.joined.remove_ensures(fi);
        assert(m2[panel].joined.len() == d.joined.len() - 1);
    }
}

/// Law: when one open slot is left, two different users racing to join are
/// serialized; whichever join lands first is admitted and fills the panel,
/// and the other request is refused as `Full` with nothing changed.
pub proof fn lemma_last_slot_race(m: Map<u64, RosterView>, panel: u64, b: u64, c: u64)
    requires
        panels_wf(m),
        m.contains_key(panel),
        m[panel].joined.len() == m[panel].member.spec_capacity() - 1,
        !m[panel].joined.contains(b),
        !m[panel].joined.contains(c),
        b != c,
    ensures
        spec_join(m, panel, b).1 == (JoinResponse::Joined { is_full: true }),
        spec_join(spec_join(m, panel, b).0, panel, c).1 == JoinResponse::Full,
        spec_join(spec_join(m, panel, b).0, panel, c).0 == spec_join(m, panel, b).0,
{
    let d = m[panel];
    assert(wf_roster(d));
    let m2 = spec_join(m, panel, b).0;
    assert(m2[panel].joined == d.joined.push(b));
    assert(!m2[panel].joined.contains(c)) by {
        assert forall|i: int| 0 <= i < m2[panel].joined.len() implies m2[panel].joined[i] != c by {
            if i < d.joined.len() {
                assert(m2[panel].joined[i] == d.joined[i]);
                assert(d.joined[i] != c);
            } else {
                assert(m2[panel].joined[i] == b);
            }
        }
    }
}

/// `true` exactly when `user` stands in `v`.
fn contains_user(v: &Vec<u64>, user: u64) -> (r: bool)
    ensures
        r == v@.contains(user),
{
    let mut i: usize = 0;
    while i < v.len()
        invariant
            i <= v@.len(),
            forall|j: int| 0 <= j < i ==> v@[j] != user,
        decreases v@.len() - i,
    {
        if v[i] == user {
            return true;
        }
        i += 1;
    }
    proof {
        assert(!v@.contains(user));
    }
    false
}

} // verus!
