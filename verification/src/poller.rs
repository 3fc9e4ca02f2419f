//! Coordination of the threads that poll the device list for the scan
//! websocket.  Every poller, after each round, looks up its flag: `true`
//! lets it go on, `false` makes it withdraw; a poller without a flag takes
//! one, and goes on, only when no other poller is active.  Stopping sets
//! every flag to `false`.  Pollers are known by a number the caller gives
//! each thread.
use vstd::prelude::*;

use std::collections::HashMap;

verus! {

broadcast use vstd::std_specs::hash::group_hash_axioms;

/// `k` is an active poller of `m`.
pub open spec fn is_active(m: Map<u64, bool>, k: u64) -> bool {
    m.contains_key(k) && m[k]
}

/// Some poller of `m` is active.
pub open spec fn any_active(m: Map<u64, bool>) -> bool {
    exists|k: u64| #[trigger] is_active(m, k)
}

/// At most one poller of `m` is active.
pub open spec fn at_most_one_active(m: Map<u64, bool>) -> bool {
    forall|a: u64, b: u64| #[trigger] is_active(m, a) && #[trigger] is_active(m, b) ==> a == b
}

/// The flags after poller `me` ends a round, and whether it goes on.
pub open spec fn round(m: Map<u64, bool>, me: u64) -> (Map<u64, bool>, bool) {
    if m.contains_key(me) {
        if m[me] {
            (m, true)
        } else {
            (m.remove(me), false)
        }
    } else if any_active(m) {
        (m, false)
    } else {
        (m.insert(me, true), true)
    }
}

/// The flags after a stop: every poller is told to withdraw.
pub open spec fn stopped(m: Map<u64, bool>) -> Map<u64, bool> {
    m.map_values(|b: bool| false)
}

/// Whether some flag of `m` is `true`.
fn any_flag_set(m: &HashMap<u64, bool>) -> (b: bool)
    ensures
        b == any_active(m@),
{
    for p in it: m.iter()
        invariant
            forall|i: int| 0 <= i < it.seq().len() ==> m@.contains_key(*(#[trigger] it.seq()[i]).0) && m@[*it.seq()[i].0] == *it.seq()[i].1,
            forall|j: int| 0 <= j < it.index() ==> !*(#[trigger] it.seq()[j]).1,
    {
        let (k, v) = p;
        if *v {
            assert(is_active(m@, *k));
            return true;
        }
    }
    false
}

/// The flags of `m`, every one set to `false`.
fn all_cleared(m: &HashMap<u64, bool>) -> (c: HashMap<u64, bool>)
    ensures
        c@ == stopped(m@),
{
    let mut c: HashMap<u64, bool> = HashMap::new();
    for p in it: m.iter()
        invariant
            forall|i: int| 0 <= i < it.seq().len() ==> m@.contains_key(*(#[trigger] it.seq()[i]).0),
            forall|k: u64| #[trigger] c@.contains_key(k) ==> c@[k] == false,
            forall|k: u64| #[trigger] c@.contains_key(k) <==> exists|j: int| 0 <= j < it.index() && *(#[trigger] it.seq()[j]).0 == k,
    {
        let ghost idx = it.index();
        let ghost before = c@;
        assert(it.seq()[idx] == p);
        let (k, _) = p;
        c.insert(*k, false);
        assert forall|x: u64| #[trigger] c@.contains_key(x) <==> exists|j: int| 0 <= j < idx + 1 && *(#[trigger] it.seq()[j]).0 == x by {
            if c@.contains_key(x) && x != *k {
                assert(before.contains_key(x));
            }
            if exists|j: int| 0 <= j < idx + 1 && *(#[trigger] it.seq()[j]).0 == x {
                let j = choose|j: int| 0 <= j < idx + 1 && *(#[trigger] it.seq()[j]).0 == x;
                if j < idx {
                    assert(before.contains_key(x));
                }
            }
        }
    }
    assert(c@ =~= stopped(m@));
    c
}

/// The poller flags.
pub struct PollerFlags {
    flags: HashMap<u64, bool>,
}

impl PollerFlags {
    /// The flag of each registered poller.
    pub closed spec fn flags(&self) -> Map<u64, bool> {
        self.flags@
    }

    /// At every moment at most one poller is active.
    #[verifier::type_invariant]
    closed spec fn single_active(self) -> bool {
        at_most_one_active(self.flags@)
    }

    /// No poller registered.
    pub fn new() -> (p: Self)
        ensures
            p.flags() == Map::<u64, bool>::empty(),
            at_most_one_active(p.flags()),
    {
        PollerFlags { flags: HashMap::new() }
    }

    /// Poller `me` has ended a round: updates the flags and tells whether
    /// it goes on.
    pub fn after_round(&mut self, me: u64) -> (go_on: bool)
        ensures
            (final(self).flags(), go_on) == round(old(self).flags(), me),
            at_most_one_active(final(self).flags()),
    {
        proof {
            use_type_invariant(&*self);
            law_round_keeps_single_poller(self.flags@, me);
        }
        let current: Option<bool> = match self.flags.get(&me) {
            Some(flag) => Some(*flag),
            None => None,
        };
        let go_on = match current {
            Some(flag) => flag,
            None => !any_flag_set(&self.flags),
        };
        if current == Some(false) || (current.is_none() && go_on) {
            let mut flags: HashMap<u64, bool> = HashMap::new();
            std::mem::swap(&mut flags, &mut self.flags);
            if go_on {
                flags.insert(me, true);
            } else {
                flags.remove(&me);
            }
            self.flags = flags;
        }
        go_on
    }

    /// Tells every registered poller to withdraw.
    pub fn stop_all(&mut self)
        ensures
            final(self).flags() == stopped(old(self).flags()),
            !any_active(final(self).flags()),
    {
        proof {
            law_stopped_has_none_active(self.flags@);
        }
        self.flags = all_cleared(&self.flags);
    }
}

// ---------------------------------------------------------------------------
// Laws.
// ---------------------------------------------------------------------------

/// A round never leaves two pollers active when there was at most one.
pub proof fn law_round_keeps_single_poller(m: Map<u64, bool>, me: u64)
    requires
        at_most_one_active(m),
    ensures
        at_most_one_active(round(m, me).0),
{
    let n = round(m, me).0;
    assert forall|a: u64, b: u64| #[trigger] is_active(n, a) && #[trigger] is_active(n, b) implies a == b by {
        if !m.contains_key(me) && !any_active(m) {
            if a != me {
                assert(is_active(m, a));
            }
            if b != me {
                assert(is_active(m, b));
            }
        } else if m.contains_key(me) && !m[me] {
            assert(is_active(m, a) && is_active(m, b));
        } else {
            assert(is_active(m, a) && is_active(m, b));
        }
    }
}

/// A poller that goes on after its round is the one active poller.
pub proof fn law_going_on_means_sole_active(m: Map<u64, bool>, me: u64)
    requires
        at_most_one_active(m),
        round(m, me).1,
    ensures
        is_active(round(m, me).0, me),
        forall|k: u64| #[trigger] is_active(round(m, me).0, k) ==> k == me,
{
    law_round_keeps_single_poller(m, me);
    let n = round(m, me).0;
    assert(is_active(n, me));
    assert forall|k: u64| #[trigger] is_active(n, k) implies k == me by {
        assert(is_active(n, k) && is_active(n, me));
    }
}

/// After a stop no poller is active.
pub proof fn law_stopped_has_none_active(m: Map<u64, bool>)
    ensures
        !any_active(stopped(m)),
        at_most_one_active(stopped(m)),
{
    assert(!any_active(stopped(m))) by {
        if any_active(stopped(m)) {
            let k = choose|k: u64| #[trigger] is_active(stopped(m), k);
            assert(stopped(m)[k] == false);
        }
    }
}

/// After a stop no poller is active, and every registered poller withdraws
/// at the end of its next round, taking its flag away.
pub proof fn law_stop_withdraws_registered(m: Map<u64, bool>, me: u64)
    requires
        m.contains_key(me),
    ensures
        !any_active(stopped(m)),
        !round(stopped(m), me).1,
        !round(stopped(m), me).0.contains_key(me),
{
    law_stopped_has_none_active(m);
}

/// A round touches no flag but the poller's own; a poller takes a flag only
/// while no poller is active; a newcomer that finds an active poller
/// withdraws without taking a flag.
pub proof fn law_round_touches_own_flag_only(m: Map<u64, bool>, me: u64, other: u64)
    requires
        other != me,
    ensures
        round(m, me).0.contains_key(other) == m.contains_key(other),
        m.contains_key(other) ==> round(m, me).0[other] == m[other],
        !m.contains_key(me) && round(m, me).0.contains_key(me) ==> !any_active(m),
        !m.contains_key(me) && any_active(m) ==> round(m, me) == (m, false),
{
}

} // verus!
