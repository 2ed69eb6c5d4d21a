//! The universe: the devices and their channels as configured upstream, and
//! the local view of every channel's current value.

use vstd::prelude::*;

use crate::error::Error;
use crate::event::{AddressedEvent, EventKind, InputValue};

verus! {

/// One channel of a device: its address and its alias.
#[derive(Debug, PartialEq, Eq)]
pub struct IoDescriptor {
    pub address: u16,
    pub alias: String,
}

/// A device with its named input and output channels.
#[derive(Debug, PartialEq, Eq)]
pub struct DeviceConfig {
    pub inputs: Vec<IoDescriptor>,
    pub outputs: Vec<IoDescriptor>,
}

/// The immutable universe configuration received from upstream at startup.
#[derive(Debug, PartialEq, Eq)]
pub struct UniverseConfig {
    pub devices: Vec<DeviceConfig>,
}

/// The alias/address pairs of a device's outputs, in order.
pub open spec fn device_output_pairs(d: DeviceConfig) -> Seq<(String, u16)> {
    d.outputs@.map_values(|o: IoDescriptor| (o.alias, o.address))
}

/// The alias/address pairs of a device's inputs, in order.
pub open spec fn device_input_pairs(d: DeviceConfig) -> Seq<(String, u16)> {
    d.inputs@.map_values(|o: IoDescriptor| (o.alias, o.address))
}

/// The output alias/address pairs of the first `n` devices, in order.
pub open spec fn spec_output_pairs_upto(devices: Seq<DeviceConfig>, n: int) -> Seq<(String, u16)>
    decreases n,
{
    if n <= 0 {
        Seq::empty()
    } else {
        spec_output_pairs_upto(devices, n - 1) + device_output_pairs(devices[n - 1])
    }
}

/// The input-and-output alias/address pairs of the first `n` devices: for
/// each device first its inputs, then its outputs.
pub open spec fn spec_io_pairs_upto(devices: Seq<DeviceConfig>, n: int) -> Seq<(String, u16)>
    decreases n,
{
    if n <= 0 {
        Seq::empty()
    } else {
        spec_io_pairs_upto(devices, n - 1) + device_input_pairs(devices[n - 1])
            + device_output_pairs(devices[n - 1])
    }
}

/// All output alias/address pairs of a universe, in declaration order.
pub open spec fn spec_output_pairs(u: UniverseConfig) -> Seq<(String, u16)> {
    spec_output_pairs_upto(u.devices@, u.devices@.len() as int)
}

/// All alias/address pairs of a universe usable as inputs: every input
/// channel and every output channel.
pub open spec fn spec_io_pairs(u: UniverseConfig) -> Seq<(String, u16)> {
    spec_io_pairs_upto(u.devices@, u.devices@.len() as int)
}

/// An association list from aliases to addresses; the first match wins.
#[derive(Debug, PartialEq, Eq)]
pub struct AliasTable {
    pub pairs: Vec<(String, u16)>,
}

/// The address of the first pair carrying the alias, if any.
pub open spec fn spec_lookup_alias(pairs: Seq<(String, u16)>, alias: Seq<char>) -> Option<u16>
    decreases pairs.len(),
{
    if pairs.len() == 0 {
        None
    } else if pairs[0].0@ == alias {
        Some(pairs[0].1)
    } else {
        spec_lookup_alias(pairs.drop_first(), alias)
    }
}

/// Whether some pair carries the address.
pub open spec fn spec_has_address(pairs: Seq<(String, u16)>, address: u16) -> bool {
    exists|i: int| 0 <= i < pairs.len() && pairs[i].1 == address
}

impl AliasTable {
    /// Resolves an alias to its address.
    pub fn lookup(&self, alias: &String) -> (r: Option<u16>)
        ensures
            r == spec_lookup_alias(self.pairs@, alias@),
    {
        let n = self.pairs.len();
        let mut i: usize = 0;
        proof {
            assert(self.pairs@.skip(0int) =~= self.pairs@);
        }
        while i < n
            invariant
                n == self.pairs@.len(),
                0 <= i <= n,
                spec_lookup_alias(self.pairs@, alias@) == spec_lookup_alias(
                    self.pairs@.skip(i as int),
                    alias@,
                ),
            decreases n - i,
        {
            proof {
                assert(self.pairs@.skip(i as int).len() > 0);
                assert(self.pairs@.skip(i as int)[0] == self.pairs@[i as int]);
                assert(self.pairs@.skip(i as int).drop_first() =~= self.pairs@.skip(i as int + 1));
            }
            if self.pairs[i].0 == *alias {
                return Some(self.pairs[i].1);
            }
            i = i + 1;
        }
        proof {
            assert(self.pairs@.skip(n as int) =~= Seq::empty());
        }
        None
    }

    /// Whether any alias resolves to the address.
    pub fn has_address(&self, address: u16) -> (r: bool)
        ensures
            r == spec_has_address(self.pairs@, address),
    {
        let n = self.pairs.len();
        let mut i: usize = 0;
        while i < n
            invariant
                n == self.pairs@.len(),
                0 <= i <= n,
                forall|j: int| 0 <= j < i ==> self.pairs@[j].1 != address,
            decreases n - i,
        {
            if self.pairs[i].1 == address {
                return true;
            }
            i = i + 1;
        }
        false
    }

    /// The pairs whose address lies in the given set, in order.
    pub fn restricted_to(&self, addresses: &Vec<u16>) -> (r: AliasTable)
        ensures
            r.pairs@ == self.pairs@.filter(
                |p: (String, u16)| addresses@.contains(p.1),
            ),
    {
        let n = self.pairs.len();
        let mut pairs: Vec<(String, u16)> = Vec::new();
        let mut i: usize = 0;
        proof {
            assert(self.pairs@.take(0int).filter(|p: (String, u16)| addresses@.contains(p.1))
                =~= Seq::empty());
        }
        while i < n
            invariant
                n == self.pairs@.len(),
                0 <= i <= n,
                pairs@ == self.pairs@.take(i as int).filter(
                    |p: (String, u16)| addresses@.contains(p.1),
                ),
            decreases n - i,
        {
            proof {
                reveal_with_fuel(Seq::filter, 2);
                assert(self.pairs@.take(i as int + 1).drop_last() =~= self.pairs@.take(i as int));
                assert(self.pairs@.take(i as int + 1).last() == self.pairs@[i as int]);
            }
            let mut found = false;
            let na = addresses.len();
            let mut j: usize = 0;
            while j < na
                invariant
                    na == addresses@.len(),
                    0 <= j <= na,
                    n == self.pairs@.len(),
                    i < n,
                    found <==> exists|k: int| 0 <= k < j && addresses@[k] == self.pairs@[i as int].1,
                decreases na - j,
            {
                if addresses[j] == self.pairs[i].1 {
                    found = true;
                }
                j = j + 1;
            }
            if found {
                let alias = self.pairs[i].0.clone();
                let address = self.pairs[i].1;
                pairs.push((alias, address));
            }
            i = i + 1;
        }
        proof {
            assert(self.pairs@.take(n as int) =~= self.pairs@);
        }
        AliasTable { pairs }
    }
}

impl UniverseConfig {
    /// The table of all output aliases, in declaration order.
    pub fn output_aliases(&self) -> (r: AliasTable)
        ensures
            r.pairs@ == spec_output_pairs(*self),
    {
        let nd = self.devices.len();
        let mut pairs: Vec<(String, u16)> = Vec::new();
        let mut d: usize = 0;
        while d < nd
            invariant
                nd == self.devices@.len(),
                0 <= d <= nd,
                pairs@ == spec_output_pairs_upto(self.devices@, d as int),
            decreases nd - d,
        {
            let no = self.devices[d].outputs.len();
            let mut o: usize = 0;
            while o < no
                invariant
                    nd == self.devices@.len(),
                    d < nd,
                    no == self.devices@[d as int].outputs@.len(),
                    0 <= o <= no,
                    pairs@ == spec_output_pairs_upto(self.devices@, d as int)
                        + device_output_pairs(self.devices@[d as int]).take(o as int),
                decreases no - o,
            {
                let alias = self.devices[d].outputs[o].alias.clone();
                let address = self.devices[d].outputs[o].address;
                pairs.push((alias, address));
                proof {
                    assert(device_output_pairs(self.devices@[d as int]).take(o as int + 1)
                        =~= device_output_pairs(self.devices@[d as int]).take(o as int).push(
                        (self.devices@[d as int].outputs@[o as int].alias, address),
                    ));
                    assert(pairs@ =~= spec_output_pairs_upto(self.devices@, d as int)
                        + device_output_pairs(self.devices@[d as int]).take(o as int + 1));
                }
                o = o + 1;
            }
            proof {
                assert(device_output_pairs(self.devices@[d as int]).take(no as int)
                    =~= device_output_pairs(self.devices@[d as int]));
            }
            d = d + 1;
        }
        AliasTable { pairs }
    }

    /// The table of all aliases usable as inputs: every input alias and
    /// every output alias.
    pub fn input_aliases(&self) -> (r: AliasTable)
        ensures
            r.pairs@ == spec_io_pairs(*self),
    {
        let nd = self.devices.len();
        let mut pairs: Vec<(String, u16)> = Vec::new();
        let mut d: usize = 0;
        while d < nd
            invariant
                nd == self.devices@.len(),
                0 <= d <= nd,
                pairs@ == spec_io_pairs_upto(self.devices@, d as int),
            decreases nd - d,
        {
            let ni = self.devices[d].inputs.len();
            let mut i: usize = 0;
            while i < ni
                invariant
                    nd == self.devices@.len(),
                    d < nd,
                    ni == self.devices@[d as int].inputs@.len(),
                    0 <= i <= ni,
                    pairs@ == spec_io_pairs_upto(self.devices@, d as int) + device_input_pairs(
                        self.devices@[d as int],
                    ).take(i as int),
                decreases ni - i,
            {
                let alias = self.devices[d].inputs[i].alias.clone();
                let address = self.devices[d].inputs[i].address;
                pairs.push((alias, address));
                proof {
                    assert(device_input_pairs(self.devices@[d as int]).take(i as int + 1)
                        =~= device_input_pairs(self.devices@[d as int]).take(i as int).push(
                        (self.devices@[d as int].inputs@[i as int].alias, address),
                    ));
                    assert(pairs@ =~= spec_io_pairs_upto(self.devices@, d as int)
                        + device_input_pairs(self.devices@[d as int]).take(i as int + 1));
                }
                i = i + 1;
            }
            proof {
                assert(device_input_pairs(self.devices@[d as int]).take(ni as int)
                    =~= device_input_pairs(self.devices@[d as int]));
            }
            let no = self.devices[d].outputs.len();
            let mut o: usize = 0;
            while o < no
                invariant
                    nd == self.devices@.len(),
                    d < nd,
                    no == self.devices@[d as int].outputs@.len(),
                    0 <= o <= no,
                    pairs@ == spec_io_pairs_upto(self.devices@, d as int) + device_input_pairs(
                        self.devices@[d as int],
                    ) + device_output_pairs(self.devices@[d as int]).take(o as int),
                decreases no - o,
            {
                let alias = self.devices[d].outputs[o].alias.clone();
                let address = self.devices[d].outputs[o].address;
                pairs.push((alias, address));
                proof {
                    assert(device_output_pairs(self.devices@[d as int]).take(o as int + 1)
                        =~= device_output_pairs(self.devices@[d as int]).take(o as int).push(
                        (self.devices@[d as int].outputs@[o as int].alias, address),
                    ));
                    assert(pairs@ =~= spec_io_pairs_upto(self.devices@, d as int)
                        + device_input_pairs(self.devices@[d as int]) + device_output_pairs(
                        self.devices@[d as int],
                    ).take(o as int + 1));
                }
                o = o + 1;
            }
            proof {
                assert(device_output_pairs(self.devices@[d as int]).take(no as int)
                    =~= device_output_pairs(self.devices@[d as int]));
            }
            d = d + 1;
        }
        AliasTable { pairs }
    }
}

/// The state a channel is in: unknown, a known value, or an error reported
/// upstream.
pub type ChannelState = Option<Result<InputValue, String>>;

/// The local mirror of the universe: for every address, what is currently
/// known about it. Mutated only by applying events.
#[derive(Debug, PartialEq, Eq)]
pub struct UniverseView {
    pub slots: Vec<(u16, ChannelState)>,
}

/// The first slot carrying the address, if any.
pub open spec fn spec_slot_index(slots: Seq<(u16, ChannelState)>, address: u16) -> Option<int> {
    if exists|i: int| 0 <= i < slots.len() && slots[i].0 == address {
        Some(choose|i: int| 0 <= i < slots.len() && slots[i].0 == address)
    } else {
        None
    }
}

impl UniverseView {
    /// Addresses are unique: each channel has one slot.
    pub open spec fn wf(self) -> bool {
        forall|i: int, j: int|
            0 <= i < j < self.slots@.len() ==> self.slots@[i].0 != self.slots@[j].0
    }

    /// Whether the view covers the address.
    pub open spec fn spec_has_address(self, address: u16) -> bool {
        exists|i: int| 0 <= i < self.slots@.len() && self.slots@[i].0 == address
    }

    /// A view covering exactly the given addresses, all unknown.
    pub fn new_with_addresses(addresses: &Vec<u16>) -> (r: UniverseView)
        ensures
            r.wf(),
            forall|a: u16| r.spec_has_address(a) <==> addresses@.contains(a),
            forall|i: int| 0 <= i < r.slots@.len() ==> r.slots@[i].1 is None,
    {
        let n = addresses.len();
        let mut view = UniverseView { slots: Vec::new() };
        let mut i: usize = 0;
        while i < n
            invariant
                n == addresses@.len(),
                0 <= i <= n,
                view.wf(),
                forall|k: int| 0 <= k < view.slots@.len() ==> addresses@.contains(
                    #[trigger] view.slots@[k].0,
                ),
                forall|j: int| 0 <= j < i ==> view.spec_has_address(#[trigger] addresses@[j]),
                forall|k: int| 0 <= k < view.slots@.len() ==> view.slots@[k].1 is None,
            decreases n - i,
        {
            let addr = addresses[i];
            if !view.has_address(addr) {
                let ghost prior = view.slots@;
                view.slots.push((addr, None));
                proof {
                    assert forall|j: int| 0 <= j < i + 1 implies view.spec_has_address(
                        #[trigger] addresses@[j],
                    ) by {
                        if j < i {
                            let k = choose|k: int|
                                0 <= k < prior.len() && prior[k].0 == addresses@[j];
                            assert(view.slots@[k].0 == addresses@[j]);
                        } else {
                            assert(view.slots@[prior.len() as int].0 == addr);
                        }
                    }
                }
            } else {
                proof {
                    assert forall|j: int| 0 <= j < i + 1 implies view.spec_has_address(
                        #[trigger] addresses@[j],
                    ) by {
                        if j == i {
                            assert(view.spec_has_address(addr));
                        }
                    }
                }
            }
            i = i + 1;
        }
        proof {
            assert forall|a: u16| addresses@.contains(a) implies view.spec_has_address(a) by {
                let j = choose|j: int| 0 <= j < addresses@.len() && addresses@[j] == a;
                assert(view.spec_has_address(addresses@[j]));
            }
        }
        view
    }

    /// Whether the view covers the address.
    pub fn has_address(&self, address: u16) -> (r: bool)
        ensures
            r == self.spec_has_address(address),
    {
        let n = self.slots.len();
        let mut i: usize = 0;
        while i < n
            invariant
                n == self.slots@.len(),
                0 <= i <= n,
                forall|j: int| 0 <= j < i ==> self.slots@[j].0 != address,
            decreases n - i,
        {
            if self.slots[i].0 == address {
                return true;
            }
            i = i + 1;
        }
        false
    }

    /// Applies one event: an update replaces the addressed channel's value,
    /// an error payload records the error, a button gesture changes nothing.
    /// An event for an address the view does not cover is refused.
    pub fn apply_event(&mut self, event: &AddressedEvent) -> (r: Result<(), Error>)
        requires
            old(self).wf(),
        ensures
            final(self).wf(),
            !old(self).spec_has_address(event.address) ==> r == Err::<(), Error>(
                Error::MissingAddress,
            ) && *final(self) == *old(self),
            old(self).spec_has_address(event.address) ==> r is Ok && {
                &&& final(self).slots@.len() == old(self).slots@.len()
                &&& forall|i: int|
                    0 <= i < old(self).slots@.len() && old(self).slots@[i].0 != event.address
                        ==> final(self).slots@[i] == old(self).slots@[i]
                &&& forall|i: int|
                    0 <= i < old(self).slots@.len() && old(self).slots@[i].0 == event.address
                        ==> final(self).slots@[i].0 == event.address && final(self).slots@[i].1
                        == spec_apply_to_slot(old(self).slots@[i].1, event.event.inner)
            },
    {
        let n = self.slots.len();
        let mut i: usize = 0;
        while i < n
            invariant
                n == self.slots@.len(),
                0 <= i <= n,
                old(self).wf(),
                *self == *old(self),
                forall|j: int| 0 <= j < i ==> self.slots@[j].0 != event.address,
            decreases n - i,
        {
            if self.slots[i].0 == event.address {
                let new_state: ChannelState = match &event.event.inner {
                    Ok(kind) => match kind {
                        EventKind::Update { new_value } => Some(Ok(*new_value)),
                        EventKind::Button(_) => {
                            let prior = &self.slots[i].1;
                            match prior {
                                None => None,
                                Some(v) => match v {
                                    Ok(value) => Some(Ok(*value)),
                                    Err(e) => Some(Err(e.clone())),
                                },
                            }
                        },
                    },
                    Err(e) => Some(Err(e.clone())),
                };
                let address = self.slots[i].0;
                self.slots.set(i, (address, new_state));
                proof {
                    assert forall|j: int|
                        0 <= j < old(self).slots@.len() && old(self).slots@[j].0
                            == event.address implies j == i as int by {
                        if j < i {
                        } else if j > i {
                            assert(old(self).slots@[i as int].0 != old(self).slots@[j].0);
                        }
                    }
                    assert forall|p: int, q: int|
                        0 <= p < q < self.slots@.len() implies self.slots@[p].0
                        != self.slots@[q].0 by {
                        assert(old(self).slots@[p].0 != old(self).slots@[q].0);
                        assert(self.slots@[p].0 == old(self).slots@[p].0);
                        assert(self.slots@[q].0 == old(self).slots@[q].0);
                    }
                }
                return Ok(());
            }
            i = i + 1;
        }
        Err(Error::MissingAddress)
    }
}

/// What one event does to the state of the channel it addresses.
pub open spec fn spec_apply_to_slot(
    prior: ChannelState,
    inner: Result<EventKind, String>,
) -> ChannelState {
    match inner {
        Ok(kind) => match kind {
            EventKind::Update { new_value } => Some(Ok(new_value)),
            EventKind::Button(_) => prior,
        },
        Err(e) => Some(Err(e)),
    }
}

} // verus!
