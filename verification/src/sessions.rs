//! The websocket sessions of the gateway: those following one device each,
//! grouped by device, and those following the scan.  Each session is kept
//! under a numeric id with whatever the caller uses to reach it.
use vstd::prelude::*;

use crate::command::{connect_command, connect_head};
use crate::device::DeviceAddress;
use crate::keyed::{KeyedList, has_key, keys_distinct, lemma_map_of_push, map_of};

use std::collections::HashMap;

verus! {

broadcast use vstd::std_specs::hash::group_hash_axioms;

/// A session id drawn at random, as `rand::thread_rng().gen::<usize>()`
/// draws it.  Nothing is known of the value.  rand panics when the
/// operating system's random source cannot seed the thread's generator;
/// that depends on the machine alone, and no argument rules it out.
#[verifier::external_body]
fn random_session_id() -> usize {
    rand::Rng::gen::<usize>(&mut rand::thread_rng())
}

/// References to ids and recipients, read as plain pairs.
pub open spec fn id_pairs<R>(r: Seq<(&usize, &R)>) -> Seq<(usize, R)> {
    r.map_values(|p: (&usize, &R)| (*p.0, *p.1))
}

/// References to the sessions of `m` other than `skip`, each with its id.
fn id_pairs_except<'a, R>(m: &'a HashMap<usize, R>, skip: usize) -> (r: Vec<(&'a usize, &'a R)>)
    ensures
        keys_distinct(id_pairs(r@)),
        map_of(id_pairs(r@)) == m@.remove(skip),
{
    let mut r: Vec<(&'a usize, &'a R)> = Vec::new();
    for p in it: m.iter()
        invariant
            it.seq().no_duplicates(),
            forall|i: int| 0 <= i < it.seq().len() ==> m@.contains_key(*(#[trigger] it.seq()[i]).0) && m@[*it.seq()[i].0] == *it.seq()[i].1,
            keys_distinct(id_pairs(r@)),
            forall|i: int| 0 <= i < r@.len() ==> m@.contains_key(*r@[i].0) && m@[*r@[i].0] == *r@[i].1 && *r@[i].0 != skip,
            forall|k: usize| #[trigger] has_key(id_pairs(r@), k) <==> (k != skip && exists|j: int| 0 <= j < it.index() && *(#[trigger] it.seq()[j]).0 == k),
    {
        let ghost idx = it.index();
        let ghost before = id_pairs(r@);
        assert(it.seq()[idx] == p);
        let (k, v) = p;
        if *k != skip {
            proof {
                assert(!has_key(before, *k)) by {
                    if has_key(before, *k) {
                        let j = choose|j: int| 0 <= j < idx && *(#[trigger] it.seq()[j]).0 == *k;
                        assert(m@[*it.seq()[j].0] == *it.seq()[j].1);
                        assert(it.seq()[j] == it.seq()[idx]);
                    }
                }
                lemma_map_of_push(before, *k, *v);
            }
            r.push((k, v));
            assert(id_pairs(r@) =~= before.push((*k, *v)));
        }
        proof {
            assert forall|x: usize| #[trigger] has_key(id_pairs(r@), x) <==> (x != skip && exists|j: int| 0 <= j < idx + 1 && *(#[trigger] it.seq()[j]).0 == x) by {
                if has_key(id_pairs(r@), x) {
                    let i = choose|i: int| 0 <= i < id_pairs(r@).len() && #[trigger] id_pairs(r@)[i].0 == x;
                    if i < before.len() {
                        assert(before[i].0 == x);
                        assert(has_key(before, x));
                    } else {
                        assert(*it.seq()[idx].0 == x);
                    }
                }
                if x != skip && exists|j: int| 0 <= j < idx + 1 && *(#[trigger] it.seq()[j]).0 == x {
                    let j = choose|j: int| 0 <= j < idx + 1 && *(#[trigger] it.seq()[j]).0 == x;
                    if j < idx {
                        assert(has_key(before, x));
                        let i = choose|i: int| 0 <= i < before.len() && #[trigger] before[i].0 == x;
                        assert(id_pairs(r@)[i].0 == x);
                    } else {
                        assert(id_pairs(r@)[id_pairs(r@).len() - 1].0 == x);
                    }
                }
            }
        }
    }
    r
}

/// The sessions of one device, or none when the device has no entry.
pub open spec fn session_of<R>(m: Map<Seq<char>, Map<usize, R>>, a: Seq<char>) -> Map<usize, R> {
    if m.contains_key(a) {
        m[a]
    } else {
        Map::empty()
    }
}

/// The sessions after `recipient` joins those of device `a` under `id`.
pub open spec fn joined<R>(m: Map<Seq<char>, Map<usize, R>>, a: Seq<char>, id: usize, recipient: R) -> Map<
    Seq<char>,
    Map<usize, R>,
> {
    m.insert(a, session_of(m, a).insert(id, recipient))
}

/// The sessions after session `id` of device `a` leaves.
pub open spec fn left<R>(m: Map<Seq<char>, Map<usize, R>>, a: Seq<char>, id: usize) -> Map<
    Seq<char>,
    Map<usize, R>,
> {
    if m.contains_key(a) {
        m.insert(a, m[a].remove(id))
    } else {
        m
    }
}

/// Sessions that follow a device, grouped by the device's address.
pub struct DeviceSessions<R> {
    by_device: KeyedList<DeviceAddress, HashMap<usize, R>>,
}

impl<R> DeviceSessions<R> {
    /// For each device that has an entry, its sessions by id.
    pub closed spec fn sessions(&self) -> Map<Seq<char>, Map<usize, R>> {
        self.by_device.map().map_values(|l: HashMap<usize, R>| l@)
    }

    /// No sessions.
    pub fn new() -> (s: Self)
        ensures
            s.sessions() == Map::<Seq<char>, Map<usize, R>>::empty(),
    {
        let s = DeviceSessions { by_device: KeyedList::new() };
        assert(s.sessions() =~= Map::<Seq<char>, Map<usize, R>>::empty());
        s
    }

    /// Registers `recipient` under `id` among the sessions of `address`,
    /// giving the device an entry if it had none; a session already under
    /// `id` for that device is replaced.
    pub fn join(&mut self, address: DeviceAddress, id: usize, recipient: R)
        ensures
            final(self).sessions() == joined(old(self).sessions(), address@, id, recipient),
    {
        let ghost a = address@;
        let ghost before = self.by_device.map();
        match self.by_device.remove(&address) {
            Some(mut inner) => {
                let ghost inner_before = inner@;
                inner.insert(id, recipient);
                self.by_device.insert(address, inner);
                assert(session_of(old(self).sessions(), a) == inner_before);
            },
            None => {
                let mut inner: HashMap<usize, R> = HashMap::new();
                inner.insert(id, recipient);
                self.by_device.insert(address, inner);
                assert(session_of(old(self).sessions(), a) =~= Map::<usize, R>::empty());
            },
        }
        assert(self.sessions() =~= old(self).sessions().insert(
            a,
            session_of(old(self).sessions(), a).insert(id, recipient),
        ));
    }

    /// Removes the session `id` of `address`; the device keeps its entry,
    /// even when no session is left.
    pub fn leave(&mut self, address: &DeviceAddress, id: usize)
        ensures
            final(self).sessions() == left(old(self).sessions(), address@, id),
    {
        let ghost a = address@;
        match self.by_device.remove(address) {
            Some(mut inner) => {
                inner.remove(&id);
                self.by_device.insert(address.duplicate(), inner);
                assert(self.sessions() =~= old(self).sessions().insert(
                    a,
                    old(self).sessions()[a].remove(id),
                ));
            },
            None => {
                assert(self.sessions() =~= old(self).sessions());
            },
        }
    }

    /// The sessions of `address` other than `skip`, each with its id: as a
    /// map they are exactly the device's sessions without `skip`.
    pub fn recipients(&self, address: &DeviceAddress, skip: usize) -> (r: Vec<(&usize, &R)>)
        ensures
            keys_distinct(id_pairs(r@)),
            map_of(id_pairs(r@)) == session_of(
                self.sessions(),
                address@,
            ).remove(skip),
    {
        match self.by_device.get(address) {
            Some(inner) => {
                let r = id_pairs_except(inner, skip);
                assert(session_of(self.sessions(), address@) == inner@);
                r
            },
            None => {
                let r: Vec<(&usize, &R)> = Vec::new();
                let ghost e = id_pairs(r@);
                assert(e =~= Seq::<(usize, R)>::empty());
                assert(map_of(e) =~= Map::<usize, R>::empty());
                assert(session_of(self.sessions(), address@).remove(skip) =~= Map::<usize, R>::empty());
                assert(keys_distinct(e));
                r
            },
        }
    }

    /// A new session following `address`: registers `recipient` under a
    /// random id and gives that id with the command that asks the manager
    /// to connect the device.
    pub fn connect(&mut self, address: DeviceAddress, recipient: R) -> (r: (usize, String))
        ensures
            final(self).sessions() == joined(old(self).sessions(), address@, r.0, recipient),
            r.1@ == connect_head() + address@,
    {
        let id = random_session_id();
        let command = connect_command(&address);
        self.join(address, id, recipient);
        (id, command)
    }
}

/// Sessions that follow the scan, by id.
pub struct ScanSessions<R> {
    by_id: HashMap<usize, R>,
}

impl<R> ScanSessions<R> {
    /// The sessions by id.
    pub closed spec fn sessions(&self) -> Map<usize, R> {
        self.by_id@
    }

    /// No sessions.
    pub fn new() -> (s: Self)
        ensures
            s.sessions() == Map::<usize, R>::empty(),
    {
        ScanSessions { by_id: HashMap::new() }
    }

    /// Registers `recipient` under `id`, replacing a session already there.
    pub fn join(&mut self, id: usize, recipient: R)
        ensures
            final(self).sessions() == old(self).sessions().insert(id, recipient),
    {
        self.by_id.insert(id, recipient);
    }

    /// A new session: registers `recipient` under a random id and gives the id.
    pub fn connect(&mut self, recipient: R) -> (id: usize)
        ensures
            final(self).sessions() == old(self).sessions().insert(id, recipient),
    {
        let id = random_session_id();
        self.join(id, recipient);
        id
    }

    /// Removes the session `id`; tells whether no session is left, in which
    /// case the device-list pollers are to stop.
    pub fn leave(&mut self, id: usize) -> (none_left: bool)
        ensures
            final(self).sessions() == old(self).sessions().remove(id),
            none_left == (final(self).sessions().len() == 0),
    {
        self.by_id.remove(&id);
        self.by_id.len() == 0
    }

    /// The sessions other than `skip`, each with its id: as a map they are
    /// exactly the sessions without `skip`.
    pub fn recipients(&self, skip: usize) -> (r: Vec<(&usize, &R)>)
        ensures
            keys_distinct(id_pairs(r@)),
            map_of(id_pairs(r@)) == self.sessions().remove(skip),
    {
        id_pairs_except(&self.by_id, skip)
    }
}

// ---------------------------------------------------------------------------
// Laws.
// ---------------------------------------------------------------------------

/// A session that joins a device is found among that device's sessions
/// under its id, and no other device's sessions change.
pub proof fn law_join_is_visible<R>(
    m: Map<Seq<char>, Map<usize, R>>,
    a: Seq<char>,
    id: usize,
    recipient: R,
    b: Seq<char>,
)
    ensures
        session_of(joined(m, a, id, recipient), a).contains_key(id),
        session_of(joined(m, a, id, recipient), a)[id] == recipient,
        b != a ==> session_of(joined(m, a, id, recipient), b) == session_of(m, b),
{
}

/// A session that joins a device under a fresh id and then leaves restores
/// the sessions as they were, when the device already had an entry.
pub proof fn law_leave_undoes_join<R>(
    m: Map<Seq<char>, Map<usize, R>>,
    a: Seq<char>,
    id: usize,
    recipient: R,
)
    requires
        m.contains_key(a),
        !m[a].contains_key(id),
    ensures
        left(joined(m, a, id, recipient), a, id) == m,
{
    assert(joined(m, a, id, recipient)[a].remove(id) =~= m[a]);
    assert(left(joined(m, a, id, recipient), a, id) =~= m);
}

/// Leaving removes only the leaving session: the others of the device, and
/// those of other devices, stay.
pub proof fn law_leave_keeps_others<R>(
    m: Map<Seq<char>, Map<usize, R>>,
    a: Seq<char>,
    id: usize,
    b: Seq<char>,
    other: usize,
)
    requires
        other != id,
    ensures
        !session_of(left(m, a, id), a).contains_key(id),
        session_of(left(m, a, id), a).contains_key(other) == session_of(m, a).contains_key(other),
        session_of(m, a).contains_key(other) ==> session_of(left(m, a, id), a)[other] == session_of(
            m,
            a,
        )[other],
        b != a ==> session_of(left(m, a, id), b) == session_of(m, b),
{
}

} // verus!
