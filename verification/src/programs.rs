//! The programs a fixture can run: the bundled constant (OFF/ON), manual and
//! external programs, and script-backed programs.
//!
//! A script-backed program holds no script host itself: each tick it hands
//! the caller a [`HostTickPlan`] (events to deliver, parameter bindings to
//! rebind, whether to call the script's tick function), the caller performs
//! it on the host, and the program takes the [`HostTickOutcome`] back.

use vstd::prelude::*;
use vstd::multiset::Multiset;

use crate::error::Error;
use crate::event::{spec_entry_matches, AddressedEvent, ButtonEventFilter, EventFilter, EventFilterEntry, EventFilterKind};
use crate::parameters::{
    FixtureProgramParameter, FixtureProgramParameterType,
};
use crate::universe::{spec_has_address, spec_lookup_alias, AliasTable};
use crate::values::{spec_map_to_value, map_to_value, Fixed, FIXED_SCALE};

verus! {

/// Number of ticks a slow-mode program skips after each run.
pub const SLOW_MODE_NUM_SKIP_TICKS: u64 = 999;

/// The highest priority a program may ask for.
pub const MAX_PROGRAM_PRIORITY: u8 = 20;

/// A request to set one output channel to a value.
#[derive(Clone, Copy, Debug, PartialEq, Eq, Structural)]
pub struct SetRequest {
    pub value: u16,
    pub target: u16,
}

/// One set-request per address, in order, all with the same value.
pub open spec fn spec_constant_requests(addresses: Seq<u16>, value: u16) -> Seq<SetRequest> {
    Seq::new(addresses.len(), |i: int| SetRequest { value, target: addresses[i] })
}

/// A bundled program that sets every owned address to one fixed value once
/// after each enable. OFF and ON are its two instances.
#[derive(Debug, PartialEq, Eq)]
pub struct BundledConstantFixtureProgram {
    pub addresses: Vec<u16>,
    pub output_value: u16,
    pub reset: bool,
}

/// Enabling a constant program marks it reset.
pub open spec fn spec_constant_enable(
    p: BundledConstantFixtureProgram,
) -> BundledConstantFixtureProgram {
    BundledConstantFixtureProgram { reset: true, ..p }
}

/// Running a constant program emits one request per owned address if it was
/// reset, and nothing otherwise.
pub open spec fn spec_constant_run(p: BundledConstantFixtureProgram) -> (
    BundledConstantFixtureProgram,
    Seq<SetRequest>,
) {
    if p.reset {
        (
            BundledConstantFixtureProgram { reset: false, ..p },
            spec_constant_requests(p.addresses@, p.output_value),
        )
    } else {
        (p, Seq::empty())
    }
}

impl BundledConstantFixtureProgram {
    /// A constant program over the given addresses, initially reset.
    pub fn new_fixed_value(addresses: Vec<u16>, output: u16) -> (r: Self)
        ensures
            r.addresses == addresses,
            r.output_value == output,
            r.reset,
    {
        BundledConstantFixtureProgram { addresses, output_value: output, reset: true }
    }

    /// Marks the program to emit its value again on the next run.
    pub fn enable(&mut self)
        ensures
            *final(self) == spec_constant_enable(*old(self)),
    {
        self.reset = true;
    }

    /// Emits the program's requests if it was reset; clears the mark.
    pub fn run(&mut self, output_requests: &mut Vec<SetRequest>) -> (r: Result<(), Error>)
        ensures
            r is Ok,
            *final(self) == spec_constant_run(*old(self)).0,
            final(output_requests)@ == old(output_requests)@ + spec_constant_run(*old(self)).1,
    {
        if self.reset {
            self.reset = false;
            let n = self.addresses.len();
            let mut i: usize = 0;
            while i < n
                invariant
                    n == self.addresses@.len(),
                    0 <= i <= n,
                    output_requests@ == old(output_requests)@ + spec_constant_requests(
                        self.addresses@,
                        self.output_value,
                    ).take(i as int),
                decreases n - i,
            {
                output_requests.push(
                    SetRequest { value: self.output_value, target: self.addresses[i] },
                );
                proof {
                    assert(output_requests@ =~= old(output_requests)@ + spec_constant_requests(
                        self.addresses@,
                        self.output_value,
                    ).take(i as int + 1));
                }
                i = i + 1;
            }
            proof {
                assert(spec_constant_requests(self.addresses@, self.output_value).take(n as int)
                    =~= spec_constant_requests(self.addresses@, self.output_value));
            }
        } else {
            proof {
                assert(final(output_requests)@ =~= old(output_requests)@ + Seq::<
                    SetRequest,
                >::empty());
            }
        }
        Ok(())
    }
}

/// After an enable, the next run of an OFF-style constant program emits one
/// request per owned address, all with its fixed value, and the run after
/// that emits nothing.
pub proof fn lemma_constant_emits_once_after_enable(p: BundledConstantFixtureProgram)
    ensures
        ({
            let enabled = spec_constant_enable(p);
            let (p1, first) = spec_constant_run(enabled);
            let (p2, second) = spec_constant_run(p1);
            &&& first.len() == p.addresses@.len()
            &&& forall|i: int|
                0 <= i < first.len() ==> first[i] == (SetRequest {
                    value: p.output_value,
                    target: p.addresses@[i],
                })
            &&& second.len() == 0
        }),
{
}

/// One request per output of a manual program, in order: the output's
/// parameter mapped from `[0, 1]` onto the output range.
pub open spec fn spec_manual_requests(
    outputs: Seq<u16>,
    parameters: Seq<FixtureProgramParameter>,
) -> Seq<SetRequest> {
    Seq::new(
        outputs.len(),
        |i: int| SetRequest {
            value: spec_map_to_value(0, FIXED_SCALE as int, parameters[i].value.spec_current())
                as u16,
            target: outputs[i],
        },
    )
}

/// The bundled manual program: one continuous `[0, 1]` parameter per output
/// alias; on each change it sets each output to its parameter's value.
#[derive(Debug, PartialEq, Eq)]
pub struct BundledManualFixtureProgram {
    pub outputs: Vec<u16>,
    pub parameters: Vec<FixtureProgramParameter>,
    pub dirty_parameters: bool,
    pub reset: bool,
}

impl BundledManualFixtureProgram {
    /// One parameter per output, each continuous over `[0, 1]`; outputs
    /// sorted by address.
    pub open spec fn wf(self) -> bool {
        &&& self.outputs@.len() == self.parameters@.len()
        &&& forall|i: int|
            0 <= i < self.parameters@.len() ==> (#[trigger] self.parameters@[i].value)
                is Continuous
        &&& forall|i: int|
            0 <= i < self.parameters@.len() ==> (#[trigger] self.parameters@[i].value).spec_lower()
                == 0 && self.parameters@[i].value.spec_upper() == FIXED_SCALE as int
        &&& forall|i: int| 0 <= i < self.parameters@.len() ==> (#[trigger] self.parameters@[i]).wf()
        &&& forall|i: int, j: int|
            0 <= i < j < self.outputs@.len() ==> self.outputs@[i] <= self.outputs@[j]
    }

    /// Builds the manual program from the output aliases: sorted by address,
    /// one parameter per alias, all at zero, marked to run.
    pub fn new(aliases: AliasTable) -> (r: Self)
        ensures
            r.wf(),
            r.outputs@.len() == aliases.pairs@.len(),
            forall|i: int|
                0 <= i < r.outputs@.len() ==> aliases.pairs@.contains(
                    (#[trigger] r.parameters@[i].name, r.outputs@[i]),
                ),
            forall|i: int|
                0 <= i < r.parameters@.len() ==> (#[trigger] r.parameters@[i]).value
                    == (FixtureProgramParameterType::Continuous {
                    lower_limit_incl: Fixed { micros: 0 },
                    upper_limit_incl: Fixed { micros: FIXED_SCALE },
                    current: Fixed { micros: 0 },
                }),
            r.dirty_parameters,
            r.reset,
    {
        broadcast use vstd::seq_lib::group_to_multiset_ensures;

        let sorted = sort_pairs_by_address(aliases.pairs);
        let n = sorted.len();
        let mut outputs: Vec<u16> = Vec::new();
        let mut parameters: Vec<FixtureProgramParameter> = Vec::new();
        let mut i: usize = 0;
        while i < n
            invariant
                n == sorted@.len(),
                0 <= i <= n,
                outputs@.len() == i,
                parameters@.len() == i,
                forall|k: int|
                    0 <= k < i ==> (#[trigger] outputs@[k]) == sorted@[k].1,
                forall|k: int|
                    0 <= k < i ==> (#[trigger] parameters@[k].name) == sorted@[k].0,
                forall|k: int|
                    0 <= k < i ==> (#[trigger] parameters@[k]).value
                        == (FixtureProgramParameterType::Continuous {
                        lower_limit_incl: Fixed { micros: 0 },
                        upper_limit_incl: Fixed { micros: FIXED_SCALE },
                        current: Fixed { micros: 0 },
                    }),
            decreases n - i,
        {
            let alias = sorted[i].0.clone();
            let address = sorted[i].1;
            outputs.push(address);
            parameters.push(
                FixtureProgramParameter {
                    name: alias,
                    value: FixtureProgramParameterType::Continuous {
                        lower_limit_incl: Fixed { micros: 0 },
                        upper_limit_incl: Fixed { micros: FIXED_SCALE },
                        current: Fixed { micros: 0 },
                    },
                },
            );
            i = i + 1;
        }
        let r = BundledManualFixtureProgram {
            outputs,
            parameters,
            dirty_parameters: true,
            reset: true,
        };
        proof {
            let ghost pairs = aliases.pairs@;
            assert forall|k: int|
                0 <= k < r.outputs@.len() implies pairs.contains(
                (#[trigger] r.parameters@[k].name, r.outputs@[k]),
            ) by {
                assert(sorted@[k] == (r.parameters@[k].name, r.outputs@[k]));
                assert(sorted@.contains(sorted@[k]));
                assert(sorted@.to_multiset().contains(sorted@[k]));
                assert(pairs.to_multiset().contains(sorted@[k]));
                assert(pairs.contains(sorted@[k]));
            }
        }
        r
    }

    /// Marks the program to emit again on the next run.
    pub fn enable(&mut self)
        ensures
            *final(self) == (BundledManualFixtureProgram { reset: true, ..*old(self) }),
    {
        self.reset = true;
    }

    /// If reset or a parameter changed, emits one request per output from
    /// the current parameter values; otherwise does nothing.
    pub fn run(&mut self, output_requests: &mut Vec<SetRequest>) -> (r: Result<(), Error>)
        requires
            old(self).wf(),
        ensures
            r is Ok,
            final(self).wf(),
            final(self).outputs == old(self).outputs,
            final(self).parameters == old(self).parameters,
            !old(self).reset && !old(self).dirty_parameters ==> *final(self) == *old(self) && final(output_requests)@ == old(output_requests)@,
            old(self).reset || old(self).dirty_parameters ==> !final(self).reset && !final(self).dirty_parameters && final(output_requests)@ == old(output_requests)@
                + spec_manual_requests(old(self).outputs@, old(self).parameters@),
    {
        if !self.reset && !self.dirty_parameters {
            proof {
                assert(final(output_requests)@ =~= old(output_requests)@);
            }
            return Ok(());
        }
        self.reset = false;
        self.dirty_parameters = false;
        let n = self.outputs.len();
        let mut i: usize = 0;
        while i < n
            invariant
                self.wf(),
                n == self.outputs@.len(),
                0 <= i <= n,
                output_requests@ == old(output_requests)@ + spec_manual_requests(
                    self.outputs@,
                    self.parameters@,
                ).take(i as int),
            decreases n - i,
        {
            let current: Fixed = match &self.parameters[i].value {
                FixtureProgramParameterType::Continuous { current, .. } => *current,
                FixtureProgramParameterType::Discrete { .. } => {
                    proof {
                        assert(self.parameters@[i as int].value is Continuous);
                    }
                    Fixed { micros: 0 }
                },
            };
            let value = map_to_value(
                Fixed { micros: 0 },
                Fixed { micros: FIXED_SCALE },
                current,
            );
            output_requests.push(SetRequest { value, target: self.outputs[i] });
            proof {
                assert(output_requests@ =~= old(output_requests)@ + spec_manual_requests(
                    self.outputs@,
                    self.parameters@,
                ).take(i as int + 1));
            }
            i = i + 1;
        }
        proof {
            assert(spec_manual_requests(self.outputs@, self.parameters@).take(n as int)
                =~= spec_manual_requests(self.outputs@, self.parameters@));
        }
        Ok(())
    }
}

/// Sorts alias/address pairs ascending by address; keeps exactly the same
/// pairs.
pub fn sort_pairs_by_address(pairs: Vec<(String, u16)>) -> (r: Vec<(String, u16)>)
    ensures
        r@.len() == pairs@.len(),
        forall|i: int, j: int| 0 <= i < j < r@.len() ==> r@[i].1 <= r@[j].1,
        r@.to_multiset() == pairs@.to_multiset(),
{
    broadcast use vstd::seq_lib::group_to_multiset_ensures;
    broadcast use vstd::seq_lib::to_multiset_insert;

    let mut rest = pairs;
    let mut r: Vec<(String, u16)> = Vec::new();
    let ghost all = rest@;
    proof {
        assert(r@.to_multiset().add(rest@.to_multiset()) =~= all.to_multiset());
    }
    while rest.len() > 0
        invariant
            forall|i: int, j: int| 0 <= i < j < r@.len() ==> r@[i].1 <= r@[j].1,
            r@.to_multiset().add(rest@.to_multiset()) == all.to_multiset(),
            r@.len() + rest@.len() == all.len(),
        decreases rest@.len(),
    {
        let ghost rest_before = rest@;
        let pair = rest.remove(0);
        let p = find_insert_position(&r, pair.1);
        let ghost before = r@;
        r.insert(p, pair);
        proof {
            broadcast use vstd::seq_lib::group_to_multiset_ensures;
            broadcast use vstd::seq_lib::to_multiset_insert;

            assert forall|i: int, j: int| 0 <= i < j < r@.len() implies r@[i].1 <= r@[j].1 by {
                if i < p && j == p {
                } else if i == p && j > p {
                    assert(r@[j] == before[j - 1]);
                    assert(before[p as int].1 > pair.1);
                    if j - 1 > p {
                        assert(before[p as int].1 <= before[j - 1].1);
                    }
                } else if i < p && j > p {
                    assert(r@[i] == before[i] && r@[j] == before[j - 1]);
                } else if i > p && j > p {
                    assert(r@[i] == before[i - 1] && r@[j] == before[j - 1]);
                }
            }
            assert(rest_before[0] == pair);
            assert(rest_before.contains(pair));
            assert(rest_before.to_multiset().count(pair) > 0);
            assert(rest@ == rest_before.remove(0));
            assert(rest@.to_multiset() =~= rest_before.to_multiset().remove(pair));
            assert(r@.to_multiset() =~= before.to_multiset().insert(pair));
            assert(r@.to_multiset().add(rest@.to_multiset()) =~= all.to_multiset());
        }
    }
    proof {
        assert(rest@.to_multiset() =~= Multiset::empty());
        assert(r@.to_multiset() =~= all.to_multiset());
    }
    r
}

/// The first position in the (sorted) pairs whose address is greater than
/// the given one.
fn find_insert_position(pairs: &Vec<(String, u16)>, address: u16) -> (p: usize)
    ensures
        p <= pairs@.len(),
        forall|k: int| 0 <= k < p ==> pairs@[k].1 <= address,
        p < pairs@.len() ==> pairs@[p as int].1 > address,
{
    let n = pairs.len();
    let mut p: usize = 0;
    while p < n
        invariant
            n == pairs@.len(),
            0 <= p <= n,
            forall|k: int| 0 <= k < p ==> pairs@[k].1 <= address,
        decreases n - p,
    {
        if pairs[p].1 > address {
            return p;
        }
        p = p + 1;
    }
    p
}

/// A subscription a scripted program made at setup: which events on which
/// address reach which handler function in the script.
#[derive(Debug, PartialEq, Eq)]
pub struct EventSubscription {
    pub address: u16,
    pub entry: EventFilterEntry,
    pub target_function: String,
}

/// One call the host must make: the named handler function, with the event.
#[derive(Debug, PartialEq, Eq)]
pub struct EventDelivery {
    pub target_function: String,
    pub event: AddressedEvent,
}

/// A parameter value as it is bound into the script's parameter table: a
/// discrete parameter binds its current level's name, a continuous one its
/// current value.
#[derive(Debug, PartialEq, Eq)]
pub enum BindingValue {
    Level(String),
    Number(Fixed),
}

/// One entry of the script's parameter table.
#[derive(Debug, PartialEq, Eq)]
pub struct ParameterBinding {
    pub name: String,
    pub value: BindingValue,
}

/// Everything the script host must do for one tick of one scripted program,
/// computed by the engine: deliver these events, rebind these parameters,
/// and call the tick function or not.
#[derive(Debug, PartialEq, Eq)]
pub struct HostTickPlan {
    pub deliveries: Vec<EventDelivery>,
    pub bindings: Option<Vec<ParameterBinding>>,
    pub call_tick: bool,
}

/// What came back from the script host's tick call.
#[derive(Debug, PartialEq, Eq)]
pub enum HostTickOutcome {
    Outputs(Vec<SetRequest>),
    Failed(String),
}

/// The handler calls one event causes, over the first `m` subscriptions: one
/// per subscription whose address and kind match, in subscription order.
pub open spec fn spec_event_deliveries_upto(
    subs: Seq<EventSubscription>,
    e: AddressedEvent,
    m: int,
) -> Seq<EventDelivery>
    decreases m,
{
    if m <= 0 {
        Seq::empty()
    } else {
        spec_event_deliveries_upto(subs, e, m - 1) + if subs[m - 1].address == e.address
            && spec_entry_matches(subs[m - 1].entry, e.event) {
            seq![EventDelivery { target_function: subs[m - 1].target_function, event: e }]
        } else {
            Seq::empty()
        }
    }
}

/// The handler calls the first `n` events cause, in arrival order.
pub open spec fn spec_deliveries_upto(
    subs: Seq<EventSubscription>,
    events: Seq<AddressedEvent>,
    n: int,
) -> Seq<EventDelivery>
    decreases n,
{
    if n <= 0 {
        Seq::empty()
    } else {
        spec_deliveries_upto(subs, events, n - 1) + spec_event_deliveries_upto(
            subs,
            events[n - 1],
            subs.len() as int,
        )
    }
}

/// What a parameter binds as in the script's parameter table.
pub open spec fn spec_binding_of(p: FixtureProgramParameter) -> ParameterBinding {
    match p.value {
        FixtureProgramParameterType::Discrete { levels, current_index } => ParameterBinding {
            name: p.name,
            value: BindingValue::Level(levels@[current_index as int].name),
        },
        FixtureProgramParameterType::Continuous { current, .. } => ParameterBinding {
            name: p.name,
            value: BindingValue::Number(current),
        },
    }
}

/// The bindings of the first `n` parameters, in declaration order.
pub open spec fn spec_bindings_upto(params: Seq<FixtureProgramParameter>, n: int) -> Seq<
    ParameterBinding,
>
    decreases n,
{
    if n <= 0 {
        Seq::empty()
    } else {
        spec_bindings_upto(params, n - 1).push(spec_binding_of(params[n - 1]))
    }
}

/// Of the host's returned requests, those whose target the program owns, in
/// the host's order; the rest are dropped.
pub open spec fn spec_owned_upto(vals: Seq<SetRequest>, outputs: Seq<u16>, n: int) -> Seq<
    SetRequest,
>
    decreases n,
{
    if n <= 0 {
        Seq::empty()
    } else {
        spec_owned_upto(vals, outputs, n - 1) + if outputs.contains(vals[n - 1].target) {
            seq![vals[n - 1]]
        } else {
            Seq::empty()
        }
    }
}

/// Every kept request targets an owned output.
pub proof fn lemma_owned_upto_targets(vals: Seq<SetRequest>, outputs: Seq<u16>, n: int)
    ensures
        forall|k: int|
            0 <= k < spec_owned_upto(vals, outputs, n).len() ==> outputs.contains(
                #[trigger] spec_owned_upto(vals, outputs, n)[k].target,
            ),
    decreases n,
{
    if n > 0 {
        lemma_owned_upto_targets(vals, outputs, n - 1);
        let prev = spec_owned_upto(vals, outputs, n - 1);
        let cur = spec_owned_upto(vals, outputs, n);
        assert forall|k: int| 0 <= k < cur.len() implies outputs.contains(
            #[trigger] cur[k].target,
        ) by {
            if k < prev.len() {
                assert(cur[k] == prev[k]);
            } else {
                assert(outputs.contains(vals[n - 1].target));
                assert(cur[k] == vals[n - 1]);
            }
        }
    }
}

/// Whether the vector holds the address.
pub fn vec_contains_u16(v: &Vec<u16>, x: u16) -> (r: bool)
    ensures
        r == v@.contains(x),
{
    let n = v.len();
    let mut i: usize = 0;
    while i < n
        invariant
            n == v@.len(),
            0 <= i <= n,
            forall|j: int| 0 <= j < i ==> v@[j] != x,
        decreases n - i,
    {
        if v[i] == x {
            return true;
        }
        i = i + 1;
    }
    false
}

/// A script-backed program: its parameters, registered inputs and outputs,
/// event subscriptions, priority and run pacing. The script itself lives in
/// the host; the engine only plans host work and takes outcomes back.
#[derive(Debug, PartialEq, Eq)]
pub struct ScriptedFixtureProgram {
    pub parameters: Vec<FixtureProgramParameter>,
    pub priority: u8,
    pub slow_mode: bool,
    pub skip_ticks_until_next_run: u64,
    pub dirty_parameters: bool,
    pub inputs: Vec<u16>,
    pub outputs: Vec<u16>,
    pub subscriptions: Vec<EventSubscription>,
}

impl ScriptedFixtureProgram {
    /// Parameters are well-formed and uniquely named; the priority is within
    /// bounds.
    pub open spec fn wf(self) -> bool {
        &&& self.priority <= MAX_PROGRAM_PRIORITY
        &&& forall|i: int| 0 <= i < self.parameters@.len() ==> (#[trigger] self.parameters@[i]).wf()
        &&& forall|i: int, j: int|
            0 <= i < j < self.parameters@.len() ==> self.parameters@[i].name@
                != self.parameters@[j].name@
    }

    /// Whether the next run will call the script's tick function: it does
    /// unless slow mode is skipping and no parameter changed.
    pub open spec fn spec_wants_run(self) -> bool {
        self.skip_ticks_until_next_run == 0 || self.dirty_parameters
    }

    /// Whether the next run will call the script's tick function.
    pub fn wants_run(&self) -> (r: bool)
        ensures
            r == self.spec_wants_run(),
    {
        self.skip_ticks_until_next_run == 0 || self.dirty_parameters
    }

    /// Resets the slow-mode skip so the program runs on the next tick.
    pub fn enable(&mut self)
        ensures
            *final(self) == (ScriptedFixtureProgram {
                skip_ticks_until_next_run: 0,
                ..*old(self)
            }),
    {
        self.skip_ticks_until_next_run = 0;
    }

    /// The handler calls the given events cause, one per matching
    /// subscription per event, in arrival order.
    pub fn deliveries(&self, events: &Vec<AddressedEvent>) -> (r: Vec<EventDelivery>)
        ensures
            r@ == spec_deliveries_upto(
                self.subscriptions@,
                events@,
                events@.len() as int,
            ),
    {
        let ne = events.len();
        let ns = self.subscriptions.len();
        let mut r: Vec<EventDelivery> = Vec::new();
        let mut e: usize = 0;
        while e < ne
            invariant
                ne == events@.len(),
                ns == self.subscriptions@.len(),
                0 <= e <= ne,
                r@ == spec_deliveries_upto(self.subscriptions@, events@, e as int),
            decreases ne - e,
        {
            let mut s: usize = 0;
            while s < ns
                invariant
                    ne == events@.len(),
                    ns == self.subscriptions@.len(),
                    0 <= e < ne,
                    0 <= s <= ns,
                    r@ == spec_deliveries_upto(self.subscriptions@, events@, e as int)
                        + spec_event_deliveries_upto(
                        self.subscriptions@,
                        events@[e as int],
                        s as int,
                    ),
                decreases ns - s,
            {
                let sub = &self.subscriptions[s];
                if sub.address == events[e].address && EventFilter::match_inner(
                    &sub.entry,
                    &events[e].event,
                ) {
                    r.push(
                        EventDelivery {
                            target_function: sub.target_function.clone(),
                            event: events[e].clone(),
                        },
                    );
                }
                proof {
                    assert(r@ =~= spec_deliveries_upto(self.subscriptions@, events@, e as int)
                        + spec_event_deliveries_upto(
                        self.subscriptions@,
                        events@[e as int],
                        s as int + 1,
                    ));
                }
                s = s + 1;
            }
            e = e + 1;
        }
        r
    }

    /// The script's parameter table: one binding per parameter.
    pub fn parameter_bindings(&self) -> (r: Vec<ParameterBinding>)
        requires
            self.wf(),
        ensures
            r@ == spec_bindings_upto(self.parameters@, self.parameters@.len() as int),
    {
        let n = self.parameters.len();
        let mut r: Vec<ParameterBinding> = Vec::new();
        let mut i: usize = 0;
        while i < n
            invariant
                self.wf(),
                n == self.parameters@.len(),
                0 <= i <= n,
                r@ == spec_bindings_upto(self.parameters@, i as int),
            decreases n - i,
        {
            let p = &self.parameters[i];
            let name = p.name.clone();
            let value = match &p.value {
                FixtureProgramParameterType::Discrete { levels, current_index } => {
                    proof {
                        assert(self.parameters@[i as int].wf());
                    }
                    BindingValue::Level(levels[*current_index].name.clone())
                },
                FixtureProgramParameterType::Continuous { current, .. } => BindingValue::Number(
                    *current,
                ),
            };
            r.push(ParameterBinding { name, value });
            proof {
                assert(r@ =~= spec_bindings_upto(self.parameters@, i as int + 1));
            }
            i = i + 1;
        }
        r
    }

    /// Plans the host work for the next tick: which events to deliver, the
    /// parameter table to rebind if a parameter changed, and whether the
    /// tick function is to be called.
    pub fn plan(&self, events: &Vec<AddressedEvent>) -> (r: HostTickPlan)
        requires
            self.wf(),
        ensures
            r.call_tick == self.spec_wants_run(),
            self.dirty_parameters ==> (r.bindings matches Some(b) && b@ == spec_bindings_upto(
                self.parameters@,
                self.parameters@.len() as int,
            )),
            !self.dirty_parameters ==> r.bindings is None,
            r.deliveries@ == spec_deliveries_upto(
                self.subscriptions@,
                events@,
                events@.len() as int,
            ),
    {
        let deliveries = self.deliveries(events);
        let bindings = if self.dirty_parameters {
            Some(self.parameter_bindings())
        } else {
            None
        };
        let call_tick = self.wants_run();
        HostTickPlan { deliveries, bindings, call_tick }
    }

    /// Takes the host's outcome for this tick. If the tick function was not
    /// to be called, one skipped tick is counted off. Otherwise the dirty
    /// mark is cleared; on success the requests targeting owned outputs are
    /// appended and slow mode arms its skip counter, and a host failure is
    /// reported with nothing emitted.
    pub fn run(
        &mut self,
        outcome: Option<&HostTickOutcome>,
        output_requests: &mut Vec<SetRequest>,
    ) -> (r: Result<(), Error>)
        requires
            old(self).wf(),
            outcome is Some <==> old(self).spec_wants_run(),
        ensures
            final(self).wf(),
            final(self).parameters == old(self).parameters,
            final(self).priority == old(self).priority,
            final(self).slow_mode == old(self).slow_mode,
            final(self).inputs == old(self).inputs,
            final(self).outputs == old(self).outputs,
            final(self).subscriptions == old(self).subscriptions,
            match outcome {
                None => {
                    &&& r is Ok
                    &&& final(self).skip_ticks_until_next_run == old(self).skip_ticks_until_next_run - 1
                    &&& final(self).dirty_parameters == old(self).dirty_parameters
                    &&& final(output_requests)@ == old(output_requests)@
                },
                Some(o) => match o {
                    HostTickOutcome::Failed(m) => {
                        &&& r == Err::<(), Error>(Error::HostFailure(*m))
                        &&& !final(self).dirty_parameters
                        &&& final(self).skip_ticks_until_next_run == old(self).skip_ticks_until_next_run
                        &&& final(output_requests)@ == old(output_requests)@
                    },
                    HostTickOutcome::Outputs(vals) => {
                        &&& r is Ok
                        &&& !final(self).dirty_parameters
                        &&& final(self).skip_ticks_until_next_run == if old(self).slow_mode {
                            SLOW_MODE_NUM_SKIP_TICKS as u64
                        } else {
                            0u64
                        }
                        &&& final(output_requests)@ == old(output_requests)@ + spec_owned_upto(
                            vals@,
                            old(self).outputs@,
                            vals@.len() as int,
                        )
                    },
                },
            },
    {
        match outcome {
            None => {
                self.skip_ticks_until_next_run = self.skip_ticks_until_next_run - 1;
                proof {
                    assert(final(output_requests)@ =~= old(output_requests)@);
                }
                Ok(())
            },
            Some(o) => {
                self.dirty_parameters = false;
                match o {
                    HostTickOutcome::Failed(m) => {
                        proof {
                            assert(final(output_requests)@ =~= old(output_requests)@);
                        }
                        Err(Error::HostFailure(m.clone()))
                    },
                    HostTickOutcome::Outputs(vals) => {
                        let n = vals.len();
                        let mut i: usize = 0;
                        while i < n
                            invariant
                                n == vals@.len(),
                                0 <= i <= n,
                                self.outputs == old(self).outputs,
                                output_requests@ == old(output_requests)@ + spec_owned_upto(
                                    vals@,
                                    self.outputs@,
                                    i as int,
                                ),
                            decreases n - i,
                        {
                            if vec_contains_u16(&self.outputs, vals[i].target) {
                                output_requests.push(vals[i]);
                            }
                            proof {
                                assert(output_requests@ =~= old(output_requests)@
                                    + spec_owned_upto(vals@, self.outputs@, i as int + 1));
                            }
                            i = i + 1;
                        }
                        self.skip_ticks_until_next_run = if self.slow_mode {
                            SLOW_MODE_NUM_SKIP_TICKS
                        } else {
                            0
                        };
                        Ok(())
                    },
                }
            },
        }
    }
}

/// The event-type name a subscription uses, as the filter kind it denotes.
pub open spec fn spec_event_kind_of_name(name: Seq<char>) -> Option<EventFilterKind> {
    if name == "update"@ {
        Some(EventFilterKind::Update)
    } else if name == "button_up"@ {
        Some(EventFilterKind::Button { filter: ButtonEventFilter::Up })
    } else if name == "button_down"@ {
        Some(EventFilterKind::Button { filter: ButtonEventFilter::Down })
    } else if name == "button_clicked"@ {
        Some(EventFilterKind::Button { filter: ButtonEventFilter::Clicked })
    } else if name == "button_long_press"@ {
        Some(EventFilterKind::Button { filter: ButtonEventFilter::LongPress })
    } else {
        None
    }
}

/// Parses an event-type name.
pub fn parse_event_type(name: &String) -> (r: Result<EventFilterKind, Error>)
    ensures
        match spec_event_kind_of_name(name@) {
            Some(kind) => r == Ok::<EventFilterKind, Error>(kind),
            None => r == Err::<EventFilterKind, Error>(Error::InvalidEventType(*name)),
        },
{
    if *name == "update".to_owned() {
        Ok(EventFilterKind::Update)
    } else if *name == "button_up".to_owned() {
        Ok(EventFilterKind::Button { filter: ButtonEventFilter::Up })
    } else if *name == "button_down".to_owned() {
        Ok(EventFilterKind::Button { filter: ButtonEventFilter::Down })
    } else if *name == "button_clicked".to_owned() {
        Ok(EventFilterKind::Button { filter: ButtonEventFilter::Clicked })
    } else if *name == "button_long_press".to_owned() {
        Ok(EventFilterKind::Button { filter: ButtonEventFilter::LongPress })
    } else {
        Err(Error::InvalidEventType(name.clone()))
    }
}

/// A `Some` of an alias lookup is an address some pair carries.
pub proof fn lemma_lookup_implies_has(pairs: Seq<(String, u16)>, alias: Seq<char>)
    ensures
        spec_lookup_alias(pairs, alias) matches Some(a) ==> spec_has_address(pairs, a),
    decreases pairs.len(),
{
    if pairs.len() > 0 {
        if pairs[0].0@ == alias {
            assert(pairs[0].1 == spec_lookup_alias(pairs, alias).unwrap());
        } else {
            lemma_lookup_implies_has(pairs.drop_first(), alias);
            if spec_lookup_alias(pairs, alias) is Some {
                let a = spec_lookup_alias(pairs, alias).unwrap();
                let i = choose|i: int|
                    0 <= i < pairs.drop_first().len() && pairs.drop_first()[i].1 == a;
                assert(pairs[i + 1].1 == a);
            }
        }
    }
}

/// Collects what a scripted program's `setup()` declares: priority, pacing,
/// registered inputs and outputs, event subscriptions and parameters. The
/// host exposes these operations to the script as the setup-only callables.
#[derive(Debug)]
pub struct ProgramSetupBuilder {
    pub input_aliases: AliasTable,
    pub output_aliases: AliasTable,
    pub priority: u8,
    pub slow_mode: bool,
    pub inputs: Vec<u16>,
    pub outputs: Vec<u16>,
    pub subscriptions: Vec<EventSubscription>,
    pub parameters: Vec<FixtureProgramParameter>,
}

impl ProgramSetupBuilder {
    /// Parameters are well-formed and uniquely named; the priority is within
    /// bounds.
    pub open spec fn wf(self) -> bool {
        &&& self.priority <= MAX_PROGRAM_PRIORITY
        &&& forall|i: int| 0 <= i < self.parameters@.len() ==> (#[trigger] self.parameters@[i]).wf()
        &&& forall|i: int, j: int|
            0 <= i < j < self.parameters@.len() ==> self.parameters@[i].name@
                != self.parameters@[j].name@
    }

    /// A fresh builder over the universe's alias tables.
    pub fn new(input_aliases: AliasTable, output_aliases: AliasTable) -> (r: Self)
        ensures
            r.wf(),
            r.input_aliases == input_aliases,
            r.output_aliases == output_aliases,
            r.priority == 0,
            !r.slow_mode,
            r.inputs@.len() == 0,
            r.outputs@.len() == 0,
            r.subscriptions@.len() == 0,
            r.parameters@.len() == 0,
    {
        ProgramSetupBuilder {
            input_aliases,
            output_aliases,
            priority: 0,
            slow_mode: false,
            inputs: Vec::new(),
            outputs: Vec::new(),
            subscriptions: Vec::new(),
            parameters: Vec::new(),
        }
    }

    /// Sets the program's priority; above the maximum it is refused.
    pub fn set_priority(&mut self, priority: u8) -> (r: Result<(), Error>)
        requires
            old(self).wf(),
        ensures
            final(self).wf(),
            priority <= MAX_PROGRAM_PRIORITY ==> r is Ok && *final(self)
                == (ProgramSetupBuilder { priority, ..*old(self) }),
            priority > MAX_PROGRAM_PRIORITY ==> r == Err::<(), Error>(Error::PriorityTooHigh)
                && *final(self) == *old(self),
    {
        if priority > MAX_PROGRAM_PRIORITY {
            return Err(Error::PriorityTooHigh);
        }
        self.priority = priority;
        Ok(())
    }

    /// Turns slow mode on or off.
    pub fn set_slow_mode(&mut self, slow_mode: bool)
        requires
            old(self).wf(),
        ensures
            final(self).wf(),
            *final(self) == (ProgramSetupBuilder { slow_mode, ..*old(self) }),
    {
        self.slow_mode = slow_mode;
    }

    /// Registers an input address; the address must belong to some channel.
    pub fn add_input_address(&mut self, address: u16) -> (r: Result<(), Error>)
        requires
            old(self).wf(),
        ensures
            final(self).wf(),
            !spec_has_address(old(self).input_aliases.pairs@, address) ==> r == Err::<(), Error>(
                Error::AddressNotInUse(address),
            ) && *final(self) == *old(self),
            spec_has_address(old(self).input_aliases.pairs@, address) ==> r is Ok && *final(self)
                == (ProgramSetupBuilder {
                inputs: final(self).inputs,
                ..*old(self)
            }) && final(self).inputs@ == if old(self).inputs@.contains(address) {
                old(self).inputs@
            } else {
                old(self).inputs@.push(address)
            },
    {
        if !self.input_aliases.has_address(address) {
            return Err(Error::AddressNotInUse(address));
        }
        if !vec_contains_u16(&self.inputs, address) {
            self.inputs.push(address);
        }
        Ok(())
    }

    /// Registers an input by alias; an unknown alias is refused.
    pub fn add_input_alias(&mut self, alias: &String) -> (r: Result<(), Error>)
        requires
            old(self).wf(),
        ensures
            final(self).wf(),
            spec_lookup_alias(old(self).input_aliases.pairs@, alias@) is None ==> r == Err::<
                (),
                Error,
            >(Error::UnknownAlias(*alias)) && *final(self) == *old(self),
            spec_lookup_alias(old(self).input_aliases.pairs@, alias@) matches Some(address) ==> r
                is Ok && *final(self) == (ProgramSetupBuilder {
                inputs: final(self).inputs,
                ..*old(self)
            }) && final(self).inputs@ == if old(self).inputs@.contains(address) {
                old(self).inputs@
            } else {
                old(self).inputs@.push(address)
            },
    {
        match self.input_aliases.lookup(alias) {
            None => Err(Error::UnknownAlias(alias.clone())),
            Some(address) => {
                proof {
                    lemma_lookup_implies_has(self.input_aliases.pairs@, alias@);
                }
                let r = self.add_input_address(address);
                proof {
                    assert(r is Ok);
                }
                r
            },
        }
    }

    /// Registers an output address; the address must belong to some output.
    pub fn add_output_address(&mut self, address: u16) -> (r: Result<(), Error>)
        requires
            old(self).wf(),
        ensures
            final(self).wf(),
            !spec_has_address(old(self).output_aliases.pairs@, address) ==> r == Err::<(), Error>(
                Error::AddressNotInUse(address),
            ) && *final(self) == *old(self),
            spec_has_address(old(self).output_aliases.pairs@, address) ==> r is Ok && *final(self)
                == (ProgramSetupBuilder {
                outputs: final(self).outputs,
                ..*old(self)
            }) && final(self).outputs@ == if old(self).outputs@.contains(address) {
                old(self).outputs@
            } else {
                old(self).outputs@.push(address)
            },
    {
        if !self.output_aliases.has_address(address) {
            return Err(Error::AddressNotInUse(address));
        }
        if !vec_contains_u16(&self.outputs, address) {
            self.outputs.push(address);
        }
        Ok(())
    }

    /// Registers an output by alias; an unknown alias is refused.
    pub fn add_output_alias(&mut self, alias: &String) -> (r: Result<(), Error>)
        requires
            old(self).wf(),
        ensures
            final(self).wf(),
            spec_lookup_alias(old(self).output_aliases.pairs@, alias@) is None ==> r == Err::<
                (),
                Error,
            >(Error::UnknownAlias(*alias)) && *final(self) == *old(self),
            spec_lookup_alias(old(self).output_aliases.pairs@, alias@) matches Some(address) ==> r
                is Ok && *final(self) == (ProgramSetupBuilder {
                outputs: final(self).outputs,
                ..*old(self)
            }) && final(self).outputs@ == if old(self).outputs@.contains(address) {
                old(self).outputs@
            } else {
                old(self).outputs@.push(address)
            },
    {
        match self.output_aliases.lookup(alias) {
            None => Err(Error::UnknownAlias(alias.clone())),
            Some(address) => {
                proof {
                    lemma_lookup_implies_has(self.output_aliases.pairs@, alias@);
                }
                let r = self.add_output_address(address);
                proof {
                    assert(r is Ok);
                }
                r
            },
        }
    }

    /// Subscribes a handler function to one kind of event on an aliased
    /// channel. The host checks that the handler exists before calling this.
    pub fn add_event_subscription(
        &mut self,
        alias: &String,
        event_type: &String,
        target_function: &String,
    ) -> (r: Result<(), Error>)
        requires
            old(self).wf(),
        ensures
            final(self).wf(),
            spec_lookup_alias(old(self).input_aliases.pairs@, alias@) is None ==> r == Err::<
                (),
                Error,
            >(Error::UnknownAlias(*alias)) && *final(self) == *old(self),
            spec_lookup_alias(old(self).input_aliases.pairs@, alias@) matches Some(address) ==> {
                match spec_event_kind_of_name(event_type@) {
                    None => r == Err::<(), Error>(Error::InvalidEventType(*event_type)) && *final(self) == *old(self),
                    Some(kind) => r is Ok && *final(self) == (ProgramSetupBuilder {
                        subscriptions: final(self).subscriptions,
                        ..*old(self)
                    }) && final(self).subscriptions@ == old(self).subscriptions@.push(
                        EventSubscription {
                            address,
                            entry: EventFilterEntry::Kind { kind },
                            target_function: *target_function,
                        },
                    ),
                }
            },
    {
        let address = match self.input_aliases.lookup(alias) {
            None => {
                return Err(Error::UnknownAlias(alias.clone()));
            },
            Some(address) => address,
        };
        let kind = match parse_event_type(event_type) {
            Err(e) => {
                return Err(e);
            },
            Ok(kind) => kind,
        };
        self.subscriptions.push(
            EventSubscription {
                address,
                entry: EventFilterEntry::Kind { kind },
                target_function: target_function.clone(),
            },
        );
        Ok(())
    }

    /// Declares a parameter. A name already declared, a discrete parameter
    /// without levels, or a continuous default outside its range is refused;
    /// a discrete parameter starts at its first level.
    pub fn declare_parameter(&mut self, parameter: FixtureProgramParameter) -> (r: Result<
        (),
        Error,
    >)
        requires
            old(self).wf(),
        ensures
            final(self).wf(),
            (exists|j: int|
                0 <= j < old(self).parameters@.len() && old(self).parameters@[j].name@
                    == parameter.name@) ==> r == Err::<(), Error>(
                Error::DuplicateParameterName(parameter.name),
            ) && *final(self) == *old(self),
            (forall|j: int|
                0 <= j < old(self).parameters@.len() ==> old(self).parameters@[j].name@
                    != parameter.name@) ==> match parameter.value {
                FixtureProgramParameterType::Discrete { levels, .. } => {
                    if levels@.len() == 0 {
                        r == Err::<(), Error>(Error::MissingLevels(parameter.name)) && *final(self)
                            == *old(self)
                    } else {
                        r is Ok && *final(self) == (ProgramSetupBuilder {
                            parameters: final(self).parameters,
                            ..*old(self)
                        }) && final(self).parameters@ == old(self).parameters@.push(
                            FixtureProgramParameter {
                                name: parameter.name,
                                value: FixtureProgramParameterType::Discrete {
                                    levels,
                                    current_index: 0,
                                },
                            },
                        )
                    }
                },
                FixtureProgramParameterType::Continuous {
                    lower_limit_incl,
                    upper_limit_incl,
                    current,
                } => {
                    if !(lower_limit_incl.micros <= current.micros
                        <= upper_limit_incl.micros) {
                        r == Err::<(), Error>(Error::InvalidParameterRange(parameter.name))
                            && *final(self) == *old(self)
                    } else {
                        r is Ok && *final(self) == (ProgramSetupBuilder {
                            parameters: final(self).parameters,
                            ..*old(self)
                        }) && final(self).parameters@ == old(self).parameters@.push(parameter)
                    }
                },
            },
    {
        let n = self.parameters.len();
        let mut j: usize = 0;
        while j < n
            invariant
                n == self.parameters@.len(),
                0 <= j <= n,
                old(self).wf(),
                *self == *old(self),
                forall|k: int| 0 <= k < j ==> self.parameters@[k].name@ != parameter.name@,
            decreases n - j,
        {
            if self.parameters[j].name == parameter.name {
                return Err(Error::DuplicateParameterName(parameter.name));
            }
            j = j + 1;
        }
        let FixtureProgramParameter { name, value } = parameter;
        match value {
            FixtureProgramParameterType::Discrete { levels, .. } => {
                if levels.len() == 0 {
                    return Err(Error::MissingLevels(name));
                }
                self.parameters.push(
                    FixtureProgramParameter {
                        name,
                        value: FixtureProgramParameterType::Discrete { levels, current_index: 0 },
                    },
                );
                Ok(())
            },
            FixtureProgramParameterType::Continuous {
                lower_limit_incl,
                upper_limit_incl,
                current,
            } => {
                if !(lower_limit_incl.micros <= current.micros && current.micros
                    <= upper_limit_incl.micros) {
                    return Err(Error::InvalidParameterRange(name));
                }
                self.parameters.push(
                    FixtureProgramParameter {
                        name,
                        value: FixtureProgramParameterType::Continuous {
                            lower_limit_incl,
                            upper_limit_incl,
                            current,
                        },
                    },
                );
                Ok(())
            },
        }
    }

    /// Finishes setup: the program starts unskipped, with its parameter
    /// table yet to be bound.
    pub fn finish(self) -> (r: ScriptedFixtureProgram)
        requires
            self.wf(),
        ensures
            r.wf(),
            r.parameters == self.parameters,
            r.priority == self.priority,
            r.slow_mode == self.slow_mode,
            r.skip_ticks_until_next_run == 0,
            r.dirty_parameters,
            r.inputs == self.inputs,
            r.outputs == self.outputs,
            r.subscriptions == self.subscriptions,
    {
        ScriptedFixtureProgram {
            parameters: self.parameters,
            priority: self.priority,
            slow_mode: self.slow_mode,
            skip_ticks_until_next_run: 0,
            dirty_parameters: true,
            inputs: self.inputs,
            outputs: self.outputs,
            subscriptions: self.subscriptions,
        }
    }
}

/// The OFF program after an enable emits exactly one set-request per owned
/// address on its next run, all with the low value, and emits nothing on the
/// run after that.
pub proof fn lemma_off_emits_low_once(p: BundledConstantFixtureProgram)
    requires
        p.output_value == crate::values::LOW,
    ensures
        ({
            let enabled = spec_constant_enable(p);
            let (p1, first) = spec_constant_run(enabled);
            let (p2, second) = spec_constant_run(p1);
            &&& first.len() == p.addresses@.len()
            &&& forall|i: int|
                0 <= i < first.len() ==> first[i] == (SetRequest {
                    value: crate::values::LOW,
                    target: p.addresses@[i],
                })
            &&& second.len() == 0
        }),
{
    lemma_constant_emits_once_after_enable(p);
}

} // verus!
