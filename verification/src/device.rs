//! Bluetooth devices as the gateway reports them: names, addresses, the
//! device list with its filter, the lookup of one device, the connection
//! retry budget and the registry of connected devices.
use vstd::prelude::*;

use crate::keyed::{KeyedList, SameKey};

verus! {

/// The name a device reports.
#[derive(Clone, Debug)]
pub struct DeviceName(pub String);

impl View for DeviceName {
    type V = Seq<char>;

    open spec fn view(&self) -> Seq<char> {
        self.0@
    }
}

impl PartialEq for DeviceName {
    fn eq(&self, other: &Self) -> (r: bool) {
        self.0 == other.0
    }
}

impl Eq for DeviceName {}

impl vstd::std_specs::cmp::PartialEqSpecImpl for DeviceName {
    open spec fn obeys_eq_spec() -> bool {
        true
    }

    open spec fn eq_spec(&self, other: &Self) -> bool {
        self@ == other@
    }
}

/// The text form of a Bluetooth address, such as `AA:BB:CC:DD:EE:FF`.
#[derive(Clone, Debug, Hash)]
pub struct DeviceAddress(pub String);

impl View for DeviceAddress {
    type V = Seq<char>;

    open spec fn view(&self) -> Seq<char> {
        self.0@
    }
}

impl PartialEq for DeviceAddress {
    fn eq(&self, other: &Self) -> (r: bool) {
        self.0 == other.0
    }
}

impl Eq for DeviceAddress {}

impl vstd::std_specs::cmp::PartialEqSpecImpl for DeviceAddress {
    open spec fn obeys_eq_spec() -> bool {
        true
    }

    open spec fn eq_spec(&self, other: &Self) -> bool {
        self@ == other@
    }
}

impl SameKey for DeviceAddress {
    fn same_key(&self, other: &Self) -> (b: bool) {
        self.0 == other.0
    }
}

impl DeviceAddress {
    /// The address as text, as it is displayed.
    pub fn text(&self) -> (s: &str)
        ensures
            s@ == self@,
    {
        self.0.as_str()
    }

    /// A copy of the address.
    pub fn duplicate(&self) -> (a: DeviceAddress)
        ensures
            a@ == self@,
    {
        DeviceAddress(self.0.clone())
    }
}

/// The name given to a device that reports none.
pub open spec fn unknown_name() -> Seq<char> {
    seq!['N', 'A']
}

/// A device as listed by the gateway, with what the caller keeps to reach
/// it (`link`).
#[derive(Debug)]
pub struct Device<L> {
    pub name: DeviceName,
    pub address: DeviceAddress,
    pub paired: bool,
    pub connected: bool,
    pub link: L,
}

impl<L> Device<L> {
    /// The device described by what the adapter reported of it: `name` is
    /// `None` when the device has no name or the query failed, `paired` and
    /// `connected` are `None` when their query failed.  A missing name reads
    /// `"NA"`, a missing flag reads `false`.
    pub fn from_reported(
        address: String,
        name: Option<String>,
        paired: Option<bool>,
        connected: Option<bool>,
        link: L,
    ) -> (d: Device<L>)
        ensures
            d.link == link,
            d.address@ == address@,
            d.name@ == (match name {
                Some(n) => n@,
                None => unknown_name(),
            }),
            d.paired == (paired == Some(true)),
            d.connected == (connected == Some(true)),
    {
        let name = match name {
            Some(n) => n,
            None => {
                proof {
                    reveal_strlit("NA");
                }
                "NA".to_string()
            },
        };
        let paired = match paired {
            Some(p) => p,
            None => false,
        };
        let connected = match connected {
            Some(c) => c,
            None => false,
        };
        Device { name: DeviceName(name), address: DeviceAddress(address), paired, connected, link }
    }
}

/// What the device list is asked to keep.
#[derive(Clone, Copy, Debug)]
pub struct DevicesFilters {
    pub connected: bool,
}

/// Whether the device list keeps `d` under `filters`: with no filter every
/// device is kept; with a filter only connected devices, and only when the
/// filter asks for connected devices.
pub open spec fn kept<L>(filters: Option<DevicesFilters>, d: Device<L>) -> bool {
    match filters {
        None => true,
        Some(f) => f.connected && d.connected,
    }
}

/// The list of devices.
#[derive(Debug)]
pub struct Devices<L> {
    pub device: Vec<Device<L>>,
}

impl<L> Devices<L> {
    /// The devices of `all` that `filters` keeps, in their order.
    pub fn listed(all: Vec<Device<L>>, filters: Option<DevicesFilters>) -> (r: Devices<L>)
        ensures
            r.device@ == all@.filter(|d: Device<L>| kept(filters, d)),
    {
        let ghost pred = |d: Device<L>| kept(filters, d);
        let mut out: Vec<Device<L>> = Vec::new();
        let ghost all_view = all@;
        for d in it: all.into_iter()
            invariant
                it.seq() == all_view,
                pred == (|x: Device<L>| kept(filters, x)),
                out@ == it.seq().take(it.index()).filter(pred),
        {
            let ghost idx = it.index();
            let ghost before = out@;
            assert(all_view[idx] == d);
            let keep = match filters {
                None => true,
                Some(f) => f.connected && d.connected,
            };
            assert(pred(d) == kept(filters, d));
            assert(keep == kept(filters, d));
            if keep {
                out.push(d);
            }
            proof {
                let next = all_view.take(idx + 1);
                reveal_with_fuel(Seq::<_>::filter, 1);
                assert(next.drop_last() =~= all_view.take(idx));
                assert(next.last() == d);
                assert(out@ == next.filter(pred));
            }
        }
        assert(all_view.take(all_view.len() as int) =~= all_view);
        Devices { device: out }
    }

    /// The first device of the list whose address is `address`.
    pub fn find(self, address: &DeviceAddress) -> (r: Option<Device<L>>)
        ensures
            match r {
                Some(d) => exists|i: int|
                    0 <= i < self.device@.len() && self.device@[i] == d && d.address@ == address@
                        && forall|j: int|
                        0 <= j < i ==> (#[trigger] self.device@[j]).address@ != address@,
                None => forall|j: int|
                    0 <= j < self.device@.len() ==> (#[trigger] self.device@[j]).address@
                        != address@,
            },
    {
        let ghost all = self.device@;
        for d in it: self.device.into_iter()
            invariant
                it.seq() == all,
                forall|j: int| 0 <= j < it.index() ==> (#[trigger] all[j]).address@ != address@,
        {
            if d.address.0 == address.0 {
                assert(all[it.index()] == d);
                return Some(d);
            }
        }
        None
    }
}

/// The attempts left after an attempt with outcome `succeeded`, when
/// `remaining` were left before it.
pub open spec fn remaining_after(remaining: int, succeeded: bool) -> int {
    if succeeded {
        0
    } else {
        remaining - 1
    }
}

/// How many attempts are made from a budget of `remaining`, the attempts
/// having the outcomes `outcomes` in turn: attempts go on while the budget
/// is not spent (and outcomes remain).
pub open spec fn attempts_made(remaining: int, outcomes: Seq<bool>) -> nat
    decreases outcomes.len(),
{
    if remaining <= 0 || outcomes.len() == 0 {
        0
    } else {
        1 + attempts_made(remaining_after(remaining, outcomes[0]), outcomes.drop_first())
    }
}

/// The attempts left to open a device's stream: two at first; a success
/// ends them, a failure uses one.
pub struct ConnectAttempts {
    pub remaining: u8,
}

impl ConnectAttempts {
    /// A fresh budget of two attempts.
    pub fn new() -> (a: ConnectAttempts)
        ensures
            a.remaining == 2,
    {
        ConnectAttempts { remaining: 2 }
    }

    /// Whether another attempt is to be made.
    pub fn should_try(&self) -> (b: bool)
        ensures
            b == (self.remaining > 0),
    {
        self.remaining > 0
    }

    /// Records the outcome of an attempt.
    pub fn record(&mut self, succeeded: bool)
        requires
            old(self).remaining > 0,
        ensures
            final(self).remaining == remaining_after(old(self).remaining as int, succeeded),
    {
        if succeeded {
            self.remaining = 0;
        } else {
            self.remaining = self.remaining - 1;
        }
    }
}

/// Opening a device's stream from a fresh budget takes one attempt or two:
/// one exactly when the first attempt succeeds.  The stream is open at the
/// end exactly when the last attempt made succeeded, that is when some
/// attempt did.
pub proof fn law_connect_attempts(outcomes: Seq<bool>)
    requires
        outcomes.len() >= 2,
    ensures
        1 <= attempts_made(2, outcomes) <= 2,
        attempts_made(2, outcomes) == 1 <==> outcomes[0],
        outcomes[attempts_made(2, outcomes) - 1] <==> (outcomes[0] || outcomes[1]),
{
    let rest = outcomes.drop_first();
    assert(rest[0] == outcomes[1]);
    if outcomes[0] {
        assert(attempts_made(0, rest) == 0);
    } else {
        let rest2 = rest.drop_first();
        assert(attempts_made(remaining_after(1, rest[0]), rest2) == 0);
        assert(attempts_made(1, rest) == 1);
    }
}

/// Whether a read of `len` bytes from a device's stream is passed on: reads
/// of a single byte or none are dropped.
pub fn read_is_forwarded(len: usize) -> (b: bool)
    ensures
        b == (len > 1),
{
    len > 1
}

/// The passkey the gateway answers when a device asks for one while pairing.
pub const PAIRING_PASSKEY: u32 = 1234;

/// The PIN code the gateway answers when a device asks for one while
/// pairing: `1234`.
pub fn pairing_pin_code() -> (s: String)
    ensures
        s@ == seq!['1', '2', '3', '4'],
{
    proof {
        reveal_strlit("1234");
    }
    "1234".to_string()
}

/// The devices the gateway has connected, by address, each with what the
/// caller keeps for it.
pub type ConnectedDevices<T> = KeyedList<DeviceAddress, T>;

/// Without a filter the device list holds every device; with a filter that
/// does not ask for connected devices it holds none; with one that does, it
/// holds exactly the connected devices.
pub proof fn law_device_filter<L>(all: Seq<Device<L>>)
    ensures
        all.filter(|d: Device<L>| kept(None, d)) == all,
        all.filter(|d: Device<L>| kept(Some(DevicesFilters { connected: false }), d)) == Seq::<
            Device<L>,
        >::empty(),
        all.filter(|d: Device<L>| kept(Some(DevicesFilters { connected: true }), d)) == all.filter(
            |d: Device<L>| d.connected,
        ),
    decreases all.len(),
{
    reveal_with_fuel(Seq::<_>::filter, 1);
    if all.len() > 0 {
        law_device_filter(all.drop_last());
        assert(all.drop_last().push(all.last()) =~= all);
    } else {
        assert(all =~= Seq::<Device<L>>::empty());
    }
    assert(all.filter(|d: Device<L>| kept(Some(DevicesFilters { connected: true }), d)) =~= all.filter(
        |d: Device<L>| d.connected,
    ));
}

} // verus!
