//! Fixtures: named groups of output addresses, each owning a list of named
//! programs of which one is active.

use vstd::prelude::*;

use crate::error::Error;
use crate::event::AddressedEvent;
use crate::parameters::{FixtureProgramParameter, ParameterSetRequest};
use crate::universe::AliasTable;
use crate::programs::{
    spec_constant_enable, spec_constant_run, spec_manual_requests, spec_owned_upto,
    lemma_owned_upto_targets, BundledConstantFixtureProgram, BundledManualFixtureProgram,
    HostTickOutcome, HostTickPlan, ScriptedFixtureProgram, SetRequest, SLOW_MODE_NUM_SKIP_TICKS,
};

verus! {

/// The kinds of program a fixture can hold.
#[derive(Debug, PartialEq, Eq)]
pub enum FixtureProgramType {
    BundledConstant(BundledConstantFixtureProgram),
    BundledManual(BundledManualFixtureProgram),
    External,
    Scripted(ScriptedFixtureProgram),
}

/// A named program of a fixture.
#[derive(Debug, PartialEq, Eq)]
pub struct FixtureProgram {
    pub name: String,
    pub inner: FixtureProgramType,
}

/// The addresses a program writes to.
pub open spec fn spec_owned_addresses(p: FixtureProgram) -> Seq<u16> {
    match p.inner {
        FixtureProgramType::BundledConstant(c) => c.addresses@,
        FixtureProgramType::BundledManual(m) => m.outputs@,
        FixtureProgramType::External => Seq::empty(),
        FixtureProgramType::Scripted(s) => s.outputs@,
    }
}

/// Whether cycling may land on the program: everything but MANUAL and
/// EXTERNAL.
pub open spec fn spec_cyclable(p: FixtureProgram) -> bool {
    p.name@ != "MANUAL"@ && p.name@ != "EXTERNAL"@
}

/// The host outcome as a value, for use in specifications.
pub open spec fn spec_outcome(o: Option<&HostTickOutcome>) -> Option<HostTickOutcome> {
    match o {
        None => None,
        Some(x) => Some(*x),
    }
}

/// What running a program does: the program afterwards, the requests it
/// emits, and what it reports. A constant program emits once after each
/// enable; the manual program emits when reset or changed; the external
/// program does nothing; a script-backed program takes the host's outcome,
/// keeping only requests for addresses it owns.
pub open spec fn spec_program_run(p: FixtureProgram, outcome: Option<HostTickOutcome>) -> (
    FixtureProgram,
    Seq<SetRequest>,
    Result<(), Error>,
) {
    match p.inner {
        FixtureProgramType::BundledConstant(c) => {
            let (c2, emitted) = spec_constant_run(c);
            (
                FixtureProgram { name: p.name, inner: FixtureProgramType::BundledConstant(c2) },
                emitted,
                Ok(()),
            )
        },
        FixtureProgramType::BundledManual(m) => {
            if !m.reset && !m.dirty_parameters {
                (p, Seq::empty(), Ok(()))
            } else {
                (
                    FixtureProgram {
                        name: p.name,
                        inner: FixtureProgramType::BundledManual(
                            BundledManualFixtureProgram {
                                reset: false,
                                dirty_parameters: false,
                                ..m
                            },
                        ),
                    },
                    spec_manual_requests(m.outputs@, m.parameters@),
                    Ok(()),
                )
            }
        },
        FixtureProgramType::External => (p, Seq::empty(), Ok(())),
        FixtureProgramType::Scripted(s) => match outcome {
            None => (
                FixtureProgram {
                    name: p.name,
                    inner: FixtureProgramType::Scripted(
                        ScriptedFixtureProgram {
                            skip_ticks_until_next_run: (s.skip_ticks_until_next_run - 1) as u64,
                            ..s
                        },
                    ),
                },
                Seq::empty(),
                Ok(()),
            ),
            Some(o) => match o {
                HostTickOutcome::Failed(msg) => (
                    FixtureProgram {
                        name: p.name,
                        inner: FixtureProgramType::Scripted(
                            ScriptedFixtureProgram { dirty_parameters: false, ..s },
                        ),
                    },
                    Seq::empty(),
                    Err(Error::HostFailure(msg)),
                ),
                HostTickOutcome::Outputs(vals) => (
                    FixtureProgram {
                        name: p.name,
                        inner: FixtureProgramType::Scripted(
                            ScriptedFixtureProgram {
                                dirty_parameters: false,
                                skip_ticks_until_next_run: if s.slow_mode {
                                    SLOW_MODE_NUM_SKIP_TICKS as u64
                                } else {
                                    0u64
                                },
                                ..s
                            },
                        ),
                    },
                    spec_owned_upto(vals@, s.outputs@, vals@.len() as int),
                    Ok(()),
                ),
            },
        },
    }
}

/// Two `Ok` results of unit type are the same value.
proof fn lemma_unit_ok_eq(a: Result<(), Error>, b: Result<(), Error>)
    requires
        a is Ok,
        b is Ok,
    ensures
        a == b,
{
    assert(a == Ok::<(), Error>(a->Ok_0));
    assert(b == Ok::<(), Error>(b->Ok_0));
    assert(a->Ok_0 == ());
    assert(b->Ok_0 == ());
}

impl FixtureProgram {
    /// The inner program is well-formed.
    pub open spec fn wf(self) -> bool {
        match self.inner {
            FixtureProgramType::BundledConstant(_) => true,
            FixtureProgramType::BundledManual(m) => m.wf(),
            FixtureProgramType::External => true,
            FixtureProgramType::Scripted(s) => s.wf(),
        }
    }

    /// What enabling does to the program.
    pub open spec fn spec_enable(self) -> FixtureProgram {
        FixtureProgram {
            name: self.name,
            inner: match self.inner {
                FixtureProgramType::BundledConstant(c) => FixtureProgramType::BundledConstant(
                    spec_constant_enable(c),
                ),
                FixtureProgramType::BundledManual(m) => FixtureProgramType::BundledManual(
                    BundledManualFixtureProgram { reset: true, ..m },
                ),
                FixtureProgramType::External => FixtureProgramType::External,
                FixtureProgramType::Scripted(s) => FixtureProgramType::Scripted(
                    ScriptedFixtureProgram { skip_ticks_until_next_run: 0, ..s },
                ),
            },
        }
    }

    /// Prepares the program to take effect on its next run.
    pub fn enable(&mut self)
        ensures
            *final(self) == old(self).spec_enable(),
    {
        match &mut self.inner {
            FixtureProgramType::BundledConstant(c) => c.enable(),
            FixtureProgramType::BundledManual(m) => m.enable(),
            FixtureProgramType::External => {},
            FixtureProgramType::Scripted(s) => s.enable(),
        }
    }

    /// Whether the program is script-backed and its next run calls the
    /// script's tick function.
    pub open spec fn spec_needs_host(self) -> bool {
        match self.inner {
            FixtureProgramType::Scripted(s) => s.spec_wants_run(),
            _ => false,
        }
    }

    /// Whether the next run needs a host outcome.
    pub fn needs_host(&self) -> (r: bool)
        ensures
            r == self.spec_needs_host(),
    {
        match &self.inner {
            FixtureProgramType::Scripted(s) => s.wants_run(),
            _ => false,
        }
    }

    /// The host work for the next tick, for a script-backed program.
    pub fn plan(&self, events: &Vec<AddressedEvent>) -> (r: Option<HostTickPlan>)
        requires
            self.wf(),
        ensures
            match self.inner {
                FixtureProgramType::Scripted(s) => r matches Some(plan) && {
                    &&& plan.call_tick == s.spec_wants_run()
                    &&& s.dirty_parameters ==> (plan.bindings matches Some(b) && b@
                        == crate::programs::spec_bindings_upto(
                        s.parameters@,
                        s.parameters@.len() as int,
                    ))
                    &&& !s.dirty_parameters ==> plan.bindings is None
                    &&& plan.deliveries@ == crate::programs::spec_deliveries_upto(
                        s.subscriptions@,
                        events@,
                        events@.len() as int,
                    )
                },
                _ => r is None,
            },
    {
        match &self.inner {
            FixtureProgramType::Scripted(s) => Some(s.plan(events)),
            _ => None,
        }
    }

    /// Runs the program, appending its set-requests. Only a script-backed
    /// program that wants to run takes a host outcome.
    pub fn run(
        &mut self,
        outcome: Option<&HostTickOutcome>,
        output_requests: &mut Vec<SetRequest>,
    ) -> (r: Result<(), Error>)
        requires
            old(self).wf(),
            outcome is Some <==> old(self).spec_needs_host(),
        ensures
            final(self).wf(),
            final(self).name == old(self).name,
            spec_owned_addresses(*final(self)) == spec_owned_addresses(*old(self)),
            // every appended request targets an owned address
            final(output_requests)@.len() >= old(output_requests)@.len(),
            forall|k: int|
                0 <= k < old(output_requests)@.len() ==> final(output_requests)@[k] == old(output_requests)@[k],
            forall|k: int|
                old(output_requests)@.len() <= k < final(output_requests)@.len()
                    ==> spec_owned_addresses(*old(self)).contains(
                    #[trigger] final(output_requests)@[k].target,
                ),
            // behavior
            ({
                let (p2, emitted, rr) = spec_program_run(*old(self), spec_outcome(outcome));
                &&& *final(self) == p2
                &&& final(output_requests)@ == old(output_requests)@ + emitted
                &&& r == rr
            }),
    {
        match &mut self.inner {
            FixtureProgramType::BundledConstant(c) => {
                let r = c.run(output_requests);
                proof {
                    let ghost c0 = match old(self).inner {
                        FixtureProgramType::BundledConstant(c0) => c0,
                        _ => arbitrary(),
                    };
                    assert forall|k: int|
                        old(output_requests)@.len() <= k < final(output_requests)@.len()
                            implies spec_owned_addresses(*old(self)).contains(
                        #[trigger] final(output_requests)@[k].target,
                    ) by {
                        let off = k - old(output_requests)@.len();
                        assert(final(output_requests)@[k] == spec_constant_run(c0).1[off]);
                        assert(spec_constant_run(c0).1[off].target == c0.addresses@[off]);
                    }
                    assert(*final(self) == spec_program_run(*old(self), spec_outcome(outcome)).0);
                    assert(final(output_requests)@ == old(output_requests)@ + spec_program_run(
                        *old(self),
                        spec_outcome(outcome),
                    ).1);
                    lemma_unit_ok_eq(r, spec_program_run(*old(self), spec_outcome(outcome)).2);
                }
                r
            },
            FixtureProgramType::BundledManual(m) => {
                let r = m.run(output_requests);
                proof {
                    let ghost m0 = match old(self).inner {
                        FixtureProgramType::BundledManual(m0) => m0,
                        _ => arbitrary(),
                    };
                    assert forall|k: int|
                        old(output_requests)@.len() <= k < final(output_requests)@.len()
                            implies spec_owned_addresses(*old(self)).contains(
                        #[trigger] final(output_requests)@[k].target,
                    ) by {
                        let off = k - old(output_requests)@.len();
                        assert(final(output_requests)@[k] == spec_manual_requests(
                            m0.outputs@,
                            m0.parameters@,
                        )[off]);
                        assert(spec_manual_requests(m0.outputs@, m0.parameters@)[off].target
                            == m0.outputs@[off]);
                    }
                    if !m0.reset && !m0.dirty_parameters {
                        assert(final(output_requests)@ =~= old(output_requests)@ + Seq::<
                            SetRequest,
                        >::empty());
                        assert(*final(self) == spec_program_run(
                            *old(self),
                            spec_outcome(outcome),
                        ).0);
                    } else {
                        assert(*final(self) == spec_program_run(
                            *old(self),
                            spec_outcome(outcome),
                        ).0);
                    }
                    lemma_unit_ok_eq(r, spec_program_run(*old(self), spec_outcome(outcome)).2);
                }
                r
            },
            FixtureProgramType::External => {
                let r: Result<(), Error> = Ok(());
                proof {
                    assert(final(output_requests)@ =~= old(output_requests)@ + Seq::<
                        SetRequest,
                    >::empty());
                    lemma_unit_ok_eq(r, spec_program_run(*old(self), spec_outcome(outcome)).2);
                }
                r
            },
            FixtureProgramType::Scripted(s) => {
                let r = s.run(outcome, output_requests);
                proof {
                    let ghost s0 = match old(self).inner {
                        FixtureProgramType::Scripted(s0) => s0,
                        _ => arbitrary(),
                    };
                    match outcome {
                        Some(o) => match o {
                            HostTickOutcome::Outputs(vals) => {
                                lemma_owned_upto_targets(vals@, s0.outputs@, vals@.len() as int);
                            },
                            HostTickOutcome::Failed(_) => {
                                assert(final(output_requests)@ =~= old(output_requests)@ + Seq::<
                                    SetRequest,
                                >::empty());
                            },
                        },
                        None => {
                            assert(final(output_requests)@ =~= old(output_requests)@ + Seq::<
                                SetRequest,
                            >::empty());
                        },
                    }
                    let (p2, emitted, rr) = spec_program_run(*old(self), spec_outcome(outcome));
                    assert(final(self).inner matches FixtureProgramType::Scripted(s2)
                        && p2.inner matches FixtureProgramType::Scripted(ps2) && s2 == ps2);
                    assert(*final(self) == p2);
                    assert(final(output_requests)@ == old(output_requests)@ + emitted);
                    match outcome {
                        None => {
                            lemma_unit_ok_eq(r, rr);
                        },
                        Some(o) => match o {
                            HostTickOutcome::Failed(msg) => {
                                assert(r == Err::<(), Error>(Error::HostFailure(*msg)));
                                assert(rr == Err::<(), Error>(Error::HostFailure(*msg)));
                            },
                            HostTickOutcome::Outputs(_) => {
                                lemma_unit_ok_eq(r, rr);
                            },
                        },
                    }
                    assert(r == rr);
                }
                r
            },
        }
    }

    /// Position of the named parameter among the program's parameters, if
    /// the program has parameters at all.
    pub open spec fn spec_parameters(self) -> Seq<FixtureProgramParameter> {
        match self.inner {
            FixtureProgramType::BundledManual(m) => m.parameters@,
            FixtureProgramType::Scripted(s) => s.parameters@,
            _ => Seq::empty(),
        }
    }

    /// The named parameter, if the program has one.
    pub fn get_parameter(&self, name: &String) -> (r: Option<&FixtureProgramParameter>)
        ensures
            match r {
                Some(p) => exists|i: int|
                    0 <= i < self.spec_parameters().len() && self.spec_parameters()[i] == *p
                        && p.name@ == name@,
                None => forall|i: int|
                    0 <= i < self.spec_parameters().len()
                        ==> (#[trigger] self.spec_parameters()[i]).name@ != name@,
            },
    {
        let params: &Vec<FixtureProgramParameter> = match &self.inner {
            FixtureProgramType::BundledManual(m) => &m.parameters,
            FixtureProgramType::Scripted(s) => &s.parameters,
            FixtureProgramType::BundledConstant(_) => {
                return None;
            },
            FixtureProgramType::External => {
                return None;
            },
        };
        let n = params.len();
        let mut i: usize = 0;
        while i < n
            invariant
                n == params@.len(),
                params@ == self.spec_parameters(),
                0 <= i <= n,
                forall|j: int| 0 <= j < i ==> (#[trigger] params@[j]).name@ != name@,
            decreases n - i,
        {
            if params[i].name == *name {
                return Some(&params[i]);
            }
            i = i + 1;
        }
        None
    }
}

/// Index of the first parameter carrying the name, if any.
pub open spec fn spec_find_param(
    params: Seq<FixtureProgramParameter>,
    name: Seq<char>,
) -> Option<int>
    decreases params.len(),
{
    if params.len() == 0 {
        None
    } else if params[0].name@ == name {
        Some(0int)
    } else {
        match spec_find_param(params.drop_first(), name) {
            Some(i) => Some(i + 1),
            None => None,
        }
    }
}

/// The first matching parameter is a match, earlier ones are not, and where
/// none is found no parameter matches.
pub proof fn lemma_find_param_characterization(
    params: Seq<FixtureProgramParameter>,
    name: Seq<char>,
)
    ensures
        match spec_find_param(params, name) {
            Some(i) => 0 <= i < params.len() && params[i].name@ == name && forall|j: int|
                0 <= j < i ==> params[j].name@ != name,
            None => forall|j: int| 0 <= j < params.len() ==> params[j].name@ != name,
        },
    decreases params.len(),
{
    if params.len() > 0 && params[0].name@ != name {
        lemma_find_param_characterization(params.drop_first(), name);
        assert forall|j: int|
            1 <= j < params.len() implies params[j] == params.drop_first()[j - 1] by {}
    }
}

/// What assigning a named parameter does to a parameter list: the first
/// parameter of that name takes the request; no parameter of that name is
/// reported.
pub open spec fn spec_set_parameter_in(
    params: Seq<FixtureProgramParameter>,
    name: Seq<char>,
    req: ParameterSetRequest,
) -> (Seq<FixtureProgramParameter>, Result<(), Error>) {
    match spec_find_param(params, name) {
        None => (params, Err(Error::NotFound)),
        Some(i) => (
            params.update(
                i,
                FixtureProgramParameter {
                    name: params[i].name,
                    value: crate::parameters::spec_set(params[i].value, req).0,
                },
            ),
            crate::parameters::spec_set(params[i].value, req).1,
        ),
    }
}

/// What cycling a named parameter does to a parameter list.
pub open spec fn spec_cycle_parameter_in(
    params: Seq<FixtureProgramParameter>,
    name: Seq<char>,
) -> (Seq<FixtureProgramParameter>, Result<String, Error>) {
    match spec_find_param(params, name) {
        None => (params, Err(Error::NotFound)),
        Some(i) => (
            params.update(
                i,
                FixtureProgramParameter {
                    name: params[i].name,
                    value: crate::parameters::spec_cycle(params[i].value).0,
                },
            ),
            crate::parameters::spec_cycle(params[i].value).1,
        ),
    }
}

/// Assigns the first parameter of the given name in the list.
fn set_parameter_in(
    params: &mut Vec<FixtureProgramParameter>,
    name: &String,
    req: &ParameterSetRequest,
) -> (r: Result<(), Error>)
    requires
        forall|i: int| 0 <= i < old(params)@.len() ==> (#[trigger] old(params)@[i]).wf(),
    ensures
        forall|i: int| 0 <= i < final(params)@.len() ==> (#[trigger] final(params)@[i]).wf(),
        final(params)@ == spec_set_parameter_in(old(params)@, name@, *req).0,
        r == spec_set_parameter_in(old(params)@, name@, *req).1,
{
    let n = params.len();
    let mut i: usize = 0;
    while i < n
        invariant
            n == params@.len(),
            0 <= i <= n,
            *params == *old(params),
            forall|j: int| 0 <= j < i ==> params@[j].name@ != name@,
            forall|j: int| 0 <= j < params@.len() ==> (#[trigger] params@[j]).wf(),
        decreases n - i,
    {
        if params[i].name == *name {
            let ghost before = params@;
            let mut p = params.remove(i);
            let r = p.set(req);
            params.insert(i, p);
            proof {
                lemma_find_param_characterization(before, name@);
                assert(spec_find_param(before, name@) == Some(i as int));
                assert(params@ =~= before.update(
                    i as int,
                    FixtureProgramParameter {
                        name: before[i as int].name,
                        value: crate::parameters::spec_set(before[i as int].value, *req).0,
                    },
                ));
            }
            return r;
        }
        i = i + 1;
    }
    proof {
        lemma_find_param_characterization(params@, name@);
        assert(spec_find_param(params@, name@) is None);
    }
    Err(Error::NotFound)
}

/// Cycles the first parameter of the given name in the list.
fn cycle_parameter_in(params: &mut Vec<FixtureProgramParameter>, name: &String) -> (r: Result<
    String,
    Error,
>)
    requires
        forall|i: int| 0 <= i < old(params)@.len() ==> (#[trigger] old(params)@[i]).wf(),
    ensures
        forall|i: int| 0 <= i < final(params)@.len() ==> (#[trigger] final(params)@[i]).wf(),
        final(params)@ == spec_cycle_parameter_in(old(params)@, name@).0,
        r == spec_cycle_parameter_in(old(params)@, name@).1,
{
    let n = params.len();
    let mut i: usize = 0;
    while i < n
        invariant
            n == params@.len(),
            0 <= i <= n,
            *params == *old(params),
            forall|j: int| 0 <= j < i ==> params@[j].name@ != name@,
            forall|j: int| 0 <= j < params@.len() ==> (#[trigger] params@[j]).wf(),
        decreases n - i,
    {
        if params[i].name == *name {
            let ghost before = params@;
            let mut p = params.remove(i);
            let r = p.cycle();
            params.insert(i, p);
            proof {
                lemma_find_param_characterization(before, name@);
                assert(spec_find_param(before, name@) == Some(i as int));
                assert(params@ =~= before.update(
                    i as int,
                    FixtureProgramParameter {
                        name: before[i as int].name,
                        value: crate::parameters::spec_cycle(before[i as int].value).0,
                    },
                ));
            }
            return r;
        }
        i = i + 1;
    }
    proof {
        lemma_find_param_characterization(params@, name@);
        assert(spec_find_param(params@, name@) is None);
    }
    Err(Error::NotFound)
}

/// How assigning a named parameter relates a program before and after, and
/// what it reports: constant and external programs have no parameters; a
/// manual or scripted program assigns its first parameter of that name and
/// is marked dirty, even when the assignment itself fails.
pub open spec fn spec_program_set_parameter_rel(
    p: FixtureProgram,
    name: Seq<char>,
    req: ParameterSetRequest,
    p2: FixtureProgram,
    r: Result<(), Error>,
) -> bool {
    &&& p2.name == p.name
    &&& match p.inner {
        FixtureProgramType::BundledConstant(_) => r == Err::<(), Error>(Error::NotFound) && p2
            == p,
        FixtureProgramType::External => r == Err::<(), Error>(Error::NotFound) && p2 == p,
        FixtureProgramType::BundledManual(m) => {
            &&& r == spec_set_parameter_in(m.parameters@, name, req).1
            &&& p2.inner matches FixtureProgramType::BundledManual(m2) && {
                &&& m2.outputs == m.outputs
                &&& m2.reset == m.reset
                &&& m2.dirty_parameters
                &&& m2.parameters@ == spec_set_parameter_in(m.parameters@, name, req).0
            }
        },
        FixtureProgramType::Scripted(s) => {
            &&& r == spec_set_parameter_in(s.parameters@, name, req).1
            &&& p2.inner matches FixtureProgramType::Scripted(s2) && {
                &&& s2.priority == s.priority
                &&& s2.slow_mode == s.slow_mode
                &&& s2.skip_ticks_until_next_run == s.skip_ticks_until_next_run
                &&& s2.inputs == s.inputs
                &&& s2.outputs == s.outputs
                &&& s2.subscriptions == s.subscriptions
                &&& s2.dirty_parameters
                &&& s2.parameters@ == spec_set_parameter_in(s.parameters@, name, req).0
            }
        },
    }
}

/// How cycling a named parameter relates a program before and after, and
/// what it returns.
pub open spec fn spec_program_cycle_parameter_rel(
    p: FixtureProgram,
    name: Seq<char>,
    p2: FixtureProgram,
    r: Result<String, Error>,
) -> bool {
    &&& p2.name == p.name
    &&& match p.inner {
        FixtureProgramType::BundledConstant(_) => r == Err::<String, Error>(Error::NotFound) && p2
            == p,
        FixtureProgramType::External => r == Err::<String, Error>(Error::NotFound) && p2 == p,
        FixtureProgramType::BundledManual(m) => {
            &&& r == spec_cycle_parameter_in(m.parameters@, name).1
            &&& p2.inner matches FixtureProgramType::BundledManual(m2) && {
                &&& m2.outputs == m.outputs
                &&& m2.reset == m.reset
                &&& m2.dirty_parameters
                &&& m2.parameters@ == spec_cycle_parameter_in(m.parameters@, name).0
            }
        },
        FixtureProgramType::Scripted(s) => {
            &&& r == spec_cycle_parameter_in(s.parameters@, name).1
            &&& p2.inner matches FixtureProgramType::Scripted(s2) && {
                &&& s2.priority == s.priority
                &&& s2.slow_mode == s.slow_mode
                &&& s2.skip_ticks_until_next_run == s.skip_ticks_until_next_run
                &&& s2.inputs == s.inputs
                &&& s2.outputs == s.outputs
                &&& s2.subscriptions == s.subscriptions
                &&& s2.dirty_parameters
                &&& s2.parameters@ == spec_cycle_parameter_in(s.parameters@, name).0
            }
        },
    }
}

impl FixtureProgram {
    /// Assigns a parameter of this program and marks the program's
    /// parameters dirty; constant and external programs have none. As in a
    /// live controller, touching the parameters marks them dirty even when
    /// the assignment itself fails.
    pub fn set_parameter(&mut self, name: &String, req: &ParameterSetRequest) -> (r: Result<
        (),
        Error,
    >)
        requires
            old(self).wf(),
        ensures
            final(self).wf(),
            spec_program_set_parameter_rel(*old(self), name@, *req, *final(self), r),
    {
        match &mut self.inner {
            FixtureProgramType::BundledConstant(_) => Err(Error::NotFound),
            FixtureProgramType::External => Err(Error::NotFound),
            FixtureProgramType::BundledManual(m) => {
                m.dirty_parameters = true;
                let r = set_parameter_in(&mut m.parameters, name, req);
                proof {
                    lemma_set_parameter_in_keeps_manual_shape(
                        match old(self).inner {
                            FixtureProgramType::BundledManual(m0) => m0,
                            _ => arbitrary(),
                        },
                        name@,
                        *req,
                    );
                }
                r
            },
            FixtureProgramType::Scripted(s) => {
                s.dirty_parameters = true;
                let r = set_parameter_in(&mut s.parameters, name, req);
                proof {
                    let ghost s0 = match old(self).inner {
                        FixtureProgramType::Scripted(s0) => s0,
                        _ => arbitrary(),
                    };
                    lemma_set_parameter_in_keeps_names(s0.parameters@, name@, *req);
                }
                r
            },
        }
    }

    /// Cycles a discrete parameter of this program and marks the program's
    /// parameters dirty.
    pub fn cycle_parameter(&mut self, name: &String) -> (r: Result<String, Error>)
        requires
            old(self).wf(),
        ensures
            final(self).wf(),
            spec_program_cycle_parameter_rel(*old(self), name@, *final(self), r),
    {
        match &mut self.inner {
            FixtureProgramType::BundledConstant(_) => Err(Error::NotFound),
            FixtureProgramType::External => Err(Error::NotFound),
            FixtureProgramType::BundledManual(m) => {
                m.dirty_parameters = true;
                let r = cycle_parameter_in(&mut m.parameters, name);
                proof {
                    lemma_cycle_parameter_in_keeps_manual_shape(
                        match old(self).inner {
                            FixtureProgramType::BundledManual(m0) => m0,
                            _ => arbitrary(),
                        },
                        name@,
                    );
                }
                r
            },
            FixtureProgramType::Scripted(s) => {
                s.dirty_parameters = true;
                let r = cycle_parameter_in(&mut s.parameters, name);
                proof {
                    let ghost s0 = match old(self).inner {
                        FixtureProgramType::Scripted(s0) => s0,
                        _ => arbitrary(),
                    };
                    lemma_cycle_parameter_in_keeps_names(s0.parameters@, name@);
                }
                r
            },
        }
    }
}

/// Assignment keeps each parameter's name.
proof fn lemma_set_parameter_in_keeps_names(
    params: Seq<FixtureProgramParameter>,
    name: Seq<char>,
    req: ParameterSetRequest,
)
    ensures
        spec_set_parameter_in(params, name, req).0.len() == params.len(),
        forall|i: int|
            0 <= i < params.len() ==> #[trigger] spec_set_parameter_in(params, name, req).0[i].name
                == params[i].name,
{
    lemma_find_param_characterization(params, name);
}

/// Cycling keeps each parameter's name.
proof fn lemma_cycle_parameter_in_keeps_names(
    params: Seq<FixtureProgramParameter>,
    name: Seq<char>,
)
    ensures
        spec_cycle_parameter_in(params, name).0.len() == params.len(),
        forall|i: int|
            0 <= i < params.len() ==> #[trigger] spec_cycle_parameter_in(params, name).0[i].name
                == params[i].name,
{
    lemma_find_param_characterization(params, name);
}

/// Assigning a parameter of the manual program keeps its shape: each
/// parameter stays continuous over `[0, 1]`.
proof fn lemma_set_parameter_in_keeps_manual_shape(
    m: BundledManualFixtureProgram,
    name: Seq<char>,
    req: ParameterSetRequest,
)
    requires
        m.wf(),
    ensures
        ({
            let after = spec_set_parameter_in(m.parameters@, name, req).0;
            &&& after.len() == m.parameters@.len()
            &&& forall|i: int| 0 <= i < after.len() ==> (#[trigger] after[i].value) is Continuous
            &&& forall|i: int|
                0 <= i < after.len() ==> (#[trigger] after[i].value).spec_lower() == 0
                    && after[i].value.spec_upper() == crate::values::FIXED_SCALE as int
        }),
{
    lemma_find_param_characterization(m.parameters@, name);
}

/// Cycling a parameter of the manual program keeps its shape; a continuous
/// parameter cannot be cycled, so nothing changes.
proof fn lemma_cycle_parameter_in_keeps_manual_shape(
    m: BundledManualFixtureProgram,
    name: Seq<char>,
)
    requires
        m.wf(),
    ensures
        ({
            let after = spec_cycle_parameter_in(m.parameters@, name).0;
            &&& after.len() == m.parameters@.len()
            &&& forall|i: int| 0 <= i < after.len() ==> (#[trigger] after[i].value) is Continuous
            &&& forall|i: int|
                0 <= i < after.len() ==> (#[trigger] after[i].value).spec_lower() == 0
                    && after[i].value.spec_upper() == crate::values::FIXED_SCALE as int
        }),
{
    lemma_find_param_characterization(m.parameters@, name);
}

/// A well-formed fixture always has programs and its active index always
/// points at one of them; every operation on a fixture keeps it well-formed.
pub proof fn lemma_active_index_always_valid(f: Fixture)
    requires
        f.wf(),
    ensures
        f.programs@.len() > 0,
        0 <= f.current_program_index < f.programs@.len(),
        f.spec_active_program().wf(),
{
}

/// Index of the first program carrying the name, if any.
pub open spec fn spec_find_program(programs: Seq<FixtureProgram>, name: Seq<char>) -> Option<int>
    decreases programs.len(),
{
    if programs.len() == 0 {
        None
    } else if programs[0].name@ == name {
        Some(0int)
    } else {
        match spec_find_program(programs.drop_first(), name) {
            Some(i) => Some(i + 1),
            None => None,
        }
    }
}

/// The first matching program is a match, earlier ones are not, and where
/// none is found no program matches.
pub proof fn lemma_find_program_characterization(programs: Seq<FixtureProgram>, name: Seq<char>)
    ensures
        match spec_find_program(programs, name) {
            Some(i) => 0 <= i < programs.len() && programs[i].name@ == name && forall|j: int|
                0 <= j < i ==> programs[j].name@ != name,
            None => forall|j: int| 0 <= j < programs.len() ==> programs[j].name@ != name,
        },
    decreases programs.len(),
{
    if programs.len() > 0 && programs[0].name@ != name {
        lemma_find_program_characterization(programs.drop_first(), name);
        assert forall|j: int|
            1 <= j < programs.len() implies programs[j] == programs.drop_first()[j - 1] by {}
    }
}

/// Whether cycling may land on the program.
pub fn cyclable(p: &FixtureProgram) -> (r: bool)
    ensures
        r == spec_cyclable(*p),
{
    !(p.name == "MANUAL".to_owned() || p.name == "EXTERNAL".to_owned())
}

/// A named group of output addresses with a list of programs, one of which
/// is active.
#[derive(Debug)]
pub struct Fixture {
    pub name: String,
    pub source_path: String,
    pub addresses: Vec<u16>,
    pub programs: Vec<FixtureProgram>,
    pub current_program_index: usize,
}

impl Fixture {
    /// The fixture always has programs, its active index is always valid,
    /// program names are unique, every program is well-formed, and at least
    /// one program can be cycled to.
    pub open spec fn wf(self) -> bool {
        &&& self.programs@.len() > 0
        &&& self.current_program_index < self.programs@.len()
        &&& forall|i: int| 0 <= i < self.programs@.len() ==> (#[trigger] self.programs@[i]).wf()
        &&& forall|i: int, j: int|
            0 <= i < j < self.programs@.len() ==> self.programs@[i].name@
                != self.programs@[j].name@
        &&& exists|i: int| 0 <= i < self.programs@.len() && spec_cyclable(self.programs@[i])
    }

    /// The active program.
    pub open spec fn spec_active_program(self) -> FixtureProgram {
        self.programs@[self.current_program_index as int]
    }

    /// The named program, if the fixture has one.
    pub fn get_program(&self, name: &String) -> (r: Option<&FixtureProgram>)
        ensures
            match spec_find_program(self.programs@, name@) {
                Some(i) => r matches Some(p) && *p == self.programs@[i],
                None => r is None,
            },
    {
        let n = self.programs.len();
        let mut i: usize = 0;
        while i < n
            invariant
                n == self.programs@.len(),
                0 <= i <= n,
                forall|j: int| 0 <= j < i ==> self.programs@[j].name@ != name@,
            decreases n - i,
        {
            if self.programs[i].name == *name {
                proof {
                    lemma_find_program_characterization(self.programs@, name@);
                    assert(spec_find_program(self.programs@, name@) == Some(i as int));
                }
                return Some(&self.programs[i]);
            }
            i = i + 1;
        }
        proof {
            lemma_find_program_characterization(self.programs@, name@);
            assert(spec_find_program(self.programs@, name@) is None);
        }
        None
    }

    /// Switches to the named program and enables it; an unknown name is
    /// refused.
    pub fn set_active_program(&mut self, to: &String) -> (r: Result<(), Error>)
        requires
            old(self).wf(),
        ensures
            final(self).wf(),
            final(self).name == old(self).name,
            final(self).source_path == old(self).source_path,
            final(self).addresses == old(self).addresses,
            match spec_find_program(old(self).programs@, to@) {
                None => r == Err::<(), Error>(Error::NotFound) && *final(self) == *old(self),
                Some(i) => {
                    &&& r is Ok
                    &&& final(self).current_program_index == i
                    &&& final(self).programs@ == old(self).programs@.update(
                        i,
                        old(self).programs@[i].spec_enable(),
                    )
                },
            },
    {
        let n = self.programs.len();
        let mut i: usize = 0;
        while i < n
            invariant
                n == self.programs@.len(),
                0 <= i <= n,
                old(self).wf(),
                *self == *old(self),
                forall|j: int| 0 <= j < i ==> self.programs@[j].name@ != to@,
            decreases n - i,
        {
            if self.programs[i].name == *to {
                proof {
                    lemma_find_program_characterization(self.programs@, to@);
                    assert(spec_find_program(self.programs@, to@) == Some(i as int));
                }
                self.switch_program(i);
                return Ok(());
            }
            i = i + 1;
        }
        proof {
            lemma_find_program_characterization(self.programs@, to@);
            assert(spec_find_program(self.programs@, to@) is None);
        }
        Err(Error::NotFound)
    }

    /// Makes the program at the index active and enables it.
    fn switch_program(&mut self, to: usize)
        requires
            old(self).wf(),
            to < old(self).programs@.len(),
        ensures
            final(self).wf(),
            final(self).name == old(self).name,
            final(self).source_path == old(self).source_path,
            final(self).addresses == old(self).addresses,
            final(self).current_program_index == to,
            final(self).programs@ == old(self).programs@.update(
                to as int,
                old(self).programs@[to as int].spec_enable(),
            ),
    {
        self.current_program_index = to;
        let mut p = self.programs.remove(to);
        p.enable();
        self.programs.insert(to, p);
        proof {
            assert(self.programs@ =~= old(self).programs@.update(
                to as int,
                old(self).programs@[to as int].spec_enable(),
            ));
            let ghost s = self.programs@;
            let ghost o = old(self).programs@;
            assert forall|i: int| 0 <= i < s.len() implies (#[trigger] s[i]).wf() by {
                if i != to {
                    assert(s[i] == o[i]);
                }
            }
            assert forall|i: int, j: int| 0 <= i < j < s.len() implies s[i].name@
                != s[j].name@ by {
                assert(s[i].name == o[i].name && s[j].name == o[j].name);
            }
            let w = choose|i: int| 0 <= i < o.len() && spec_cyclable(o[i]);
            assert(s[w].name == o[w].name);
            assert(spec_cyclable(s[w]));
        }
    }

    /// Advances to the next program, skipping MANUAL and EXTERNAL, wrapping
    /// around, and enables it; returns the new program's name. The fixture
    /// always has such a program.
    pub fn cycle_active_program(&mut self) -> (r: Result<String, Error>)
        requires
            old(self).wf(),
        ensures
            final(self).wf(),
            final(self).name == old(self).name,
            final(self).source_path == old(self).source_path,
            final(self).addresses == old(self).addresses,
            exists|d: int|
                #![trigger spec_cyclable(old(self).programs@[(old(self).current_program_index as int + d) % (old(self).programs@.len() as int)])]
                {
                    let n = old(self).programs@.len() as int;
                    let cur = old(self).current_program_index as int;
                    let idx = (cur + d) % n;
                    &&& 1 <= d <= n
                    &&& spec_cyclable(old(self).programs@[idx])
                    &&& forall|e: int|
                        1 <= e < d ==> !spec_cyclable(
                            #[trigger] old(self).programs@[(cur + e) % n],
                        )
                    &&& final(self).current_program_index == idx
                    &&& final(self).programs@ == old(self).programs@.update(
                        idx,
                        old(self).programs@[idx].spec_enable(),
                    )
                    &&& r matches Ok(nm) && nm == old(self).programs@[idx].name
                },
    {
        let n = self.programs.len();
        let mut idx = self.current_program_index;
        let mut steps: usize = 0;
        proof {
            vstd::arithmetic::div_mod::lemma_small_mod(idx as nat, n as nat);
        }
        while steps < n
            invariant
                old(self).wf(),
                *self == *old(self),
                n == self.programs@.len(),
                0 <= steps <= n,
                idx < n,
                idx as int == (old(self).current_program_index + steps) % (n as int),
                forall|e: int|
                    1 <= e <= steps ==> !spec_cyclable(
                        #[trigger] self.programs@[(old(self).current_program_index + e) % (
                        n as int)],
                    ),
            decreases n - steps,
        {
            idx = (idx + 1) % n;
            steps = steps + 1;
            proof {
                let cur = old(self).current_program_index as int;
                let ni = n as int;
                vstd::arithmetic::div_mod::lemma_add_mod_noop(cur + steps - 1, 1int, ni);
                if ni == 1 {
                    assert(idx as int == (cur + steps) % ni) by (nonlinear_arith)
                        requires
                            ni == 1,
                            idx < 1,
                            0 <= (cur + steps) % ni < ni,
                    ;
                } else {
                    vstd::arithmetic::div_mod::lemma_small_mod(1nat, ni as nat);
                    assert((idx as int) == ((cur + steps - 1) % ni + 1) % ni);
                    assert(1int % ni == 1);
                    assert(idx as int == (cur + steps) % ni);
                }
            }
            if cyclable(&self.programs[idx]) {
                let name = self.programs[idx].name.clone();
                self.switch_program(idx);
                proof {
                    let ghost d = steps as int;
                    assert(spec_cyclable(old(self).programs@[(old(self).current_program_index
                        + d) % (n as int)]));
                }
                return Ok(name);
            }
        }
        proof {
            let o = old(self).programs@;
            let ni = n as int;
            let cur = old(self).current_program_index as int;
            let w = choose|i: int| 0 <= i < o.len() && spec_cyclable(o[i]);
            let d = if w > cur {
                w - cur
            } else {
                w + ni - cur
            };
            assert(1 <= d <= ni);
            if w > cur {
                vstd::arithmetic::div_mod::lemma_small_mod(w as nat, ni as nat);
                assert((cur + d) % ni == w);
            } else {
                vstd::arithmetic::div_mod::lemma_mod_multiples_vanish(1int, w, ni);
                vstd::arithmetic::div_mod::lemma_small_mod(w as nat, ni as nat);
                assert((cur + d) % ni == (ni + w) % ni);
                assert((ni + w) % ni == w % ni);
                assert((cur + d) % ni == w);
            }
            assert(!spec_cyclable(o[(cur + d) % ni]));
            assert(false);
        }
        Err(Error::NoPrograms)
    }

    /// Whether the active program needs a host outcome for the next run.
    pub fn active_needs_host(&self) -> (r: bool)
        requires
            self.wf(),
        ensures
            r == self.spec_active_program().spec_needs_host(),
    {
        self.programs[self.current_program_index].needs_host()
    }

    /// The host work for the active program's next tick, if it is
    /// script-backed.
    pub fn plan_current_program(&self, events: &Vec<AddressedEvent>) -> (r: Option<HostTickPlan>)
        requires
            self.wf(),
        ensures
            match self.spec_active_program().inner {
                FixtureProgramType::Scripted(s) => r matches Some(plan) && {
                    &&& plan.call_tick == s.spec_wants_run()
                    &&& s.dirty_parameters ==> (plan.bindings matches Some(b) && b@
                        == crate::programs::spec_bindings_upto(
                        s.parameters@,
                        s.parameters@.len() as int,
                    ))
                    &&& !s.dirty_parameters ==> plan.bindings is None
                    &&& plan.deliveries@ == crate::programs::spec_deliveries_upto(
                        s.subscriptions@,
                        events@,
                        events@.len() as int,
                    )
                },
                _ => r is None,
            },
    {
        self.programs[self.current_program_index].plan(events)
    }

    /// Runs the active program, appending its set-requests; every appended
    /// request targets an address the active program owns.
    pub fn run_current_program(
        &mut self,
        outcome: Option<&HostTickOutcome>,
        output_requests: &mut Vec<SetRequest>,
    ) -> (r: Result<(), Error>)
        requires
            old(self).wf(),
            outcome is Some <==> old(self).spec_active_program().spec_needs_host(),
        ensures
            final(self).wf(),
            final(self).name == old(self).name,
            final(self).source_path == old(self).source_path,
            final(self).addresses == old(self).addresses,
            final(self).current_program_index == old(self).current_program_index,
            ({
                let idx = old(self).current_program_index as int;
                let (p2, emitted, rr) = spec_program_run(
                    old(self).programs@[idx],
                    spec_outcome(outcome),
                );
                &&& final(self).programs@ == old(self).programs@.update(idx, p2)
                &&& final(output_requests)@ == old(output_requests)@ + emitted
                &&& r == rr
            }),
            final(output_requests)@.len() >= old(output_requests)@.len(),
            forall|k: int|
                0 <= k < old(output_requests)@.len() ==> final(output_requests)@[k] == old(
                    output_requests,
                )@[k],
            forall|k: int|
                old(output_requests)@.len() <= k < final(output_requests)@.len()
                    ==> spec_owned_addresses(old(self).spec_active_program()).contains(
                    #[trigger] final(output_requests)@[k].target,
                ),
    {
        let i = self.current_program_index;
        let mut p = self.programs.remove(i);
        let r = p.run(outcome, output_requests);
        self.programs.insert(i, p);
        proof {
            let idx = i as int;
            let (p2, emitted, rr) = spec_program_run(
                old(self).programs@[idx],
                spec_outcome(outcome),
            );
            assert(self.programs@ =~= old(self).programs@.update(idx, p2));
            let ghost s = self.programs@;
            let ghost o = old(self).programs@;
            assert forall|a: int| 0 <= a < s.len() implies (#[trigger] s[a]).wf() by {
                if a != idx {
                    assert(s[a] == o[a]);
                }
            }
            assert(p2.name == o[idx].name);
            assert forall|a: int, b: int| 0 <= a < b < s.len() implies s[a].name@
                != s[b].name@ by {
                assert(s[a].name == o[a].name && s[b].name == o[b].name);
            }
            let w = choose|a: int| 0 <= a < o.len() && spec_cyclable(o[a]);
            assert(s[w].name == o[w].name);
            assert(spec_cyclable(s[w]));
        }
        r
    }

    /// Assigns a parameter of the named program; marks that program's
    /// parameters dirty so it re-reads them on its next run.
    pub fn set_program_parameter(
        &mut self,
        program: &String,
        parameter: &String,
        req: &ParameterSetRequest,
    ) -> (r: Result<(), Error>)
        requires
            old(self).wf(),
        ensures
            final(self).wf(),
            final(self).name == old(self).name,
            final(self).source_path == old(self).source_path,
            final(self).addresses == old(self).addresses,
            final(self).current_program_index == old(self).current_program_index,
            match spec_find_program(old(self).programs@, program@) {
                None => r == Err::<(), Error>(Error::NotFound) && *final(self) == *old(self),
                Some(i) => {
                    &&& final(self).programs@.len() == old(self).programs@.len()
                    &&& forall|j: int|
                        0 <= j < old(self).programs@.len() && j != i ==> final(self).programs@[j]
                            == old(self).programs@[j]
                    &&& spec_program_set_parameter_rel(
                        old(self).programs@[i],
                        parameter@,
                        *req,
                        final(self).programs@[i],
                        r,
                    )
                },
            },
    {
        let n = self.programs.len();
        let mut i: usize = 0;
        while i < n
            invariant
                n == self.programs@.len(),
                0 <= i <= n,
                old(self).wf(),
                *self == *old(self),
                forall|j: int| 0 <= j < i ==> self.programs@[j].name@ != program@,
            decreases n - i,
        {
            if self.programs[i].name == *program {
                proof {
                    lemma_find_program_characterization(self.programs@, program@);
                    assert(spec_find_program(self.programs@, program@) == Some(i as int));
                }
                let mut p = self.programs.remove(i);
                let r = p.set_parameter(parameter, req);
                self.programs.insert(i, p);
                proof {
                    let ghost s = self.programs@;
                    let ghost o = old(self).programs@;
                    assert(s =~= o.update(i as int, s[i as int]));
                    assert forall|a: int| 0 <= a < s.len() implies (#[trigger] s[a]).wf() by {
                        if a != i {
                            assert(s[a] == o[a]);
                        }
                    }
                    assert(s[i as int].name == o[i as int].name);
                    assert forall|a: int, b: int| 0 <= a < b < s.len() implies s[a].name@
                        != s[b].name@ by {
                        assert(s[a].name == o[a].name && s[b].name == o[b].name);
                    }
                    let w = choose|a: int| 0 <= a < o.len() && spec_cyclable(o[a]);
                    assert(s[w].name == o[w].name);
                    assert(spec_cyclable(s[w]));
                }
                return r;
            }
            i = i + 1;
        }
        proof {
            lemma_find_program_characterization(self.programs@, program@);
        }
        Err(Error::NotFound)
    }

    /// Cycles a discrete parameter of the named program; marks that
    /// program's parameters dirty.
    pub fn cycle_program_parameter(&mut self, program: &String, parameter: &String) -> (r: Result<
        String,
        Error,
    >)
        requires
            old(self).wf(),
        ensures
            final(self).wf(),
            final(self).name == old(self).name,
            final(self).source_path == old(self).source_path,
            final(self).addresses == old(self).addresses,
            final(self).current_program_index == old(self).current_program_index,
            match spec_find_program(old(self).programs@, program@) {
                None => r == Err::<String, Error>(Error::NotFound) && *final(self) == *old(self),
                Some(i) => {
                    &&& final(self).programs@.len() == old(self).programs@.len()
                    &&& forall|j: int|
                        0 <= j < old(self).programs@.len() && j != i ==> final(self).programs@[j]
                            == old(self).programs@[j]
                    &&& spec_program_cycle_parameter_rel(
                        old(self).programs@[i],
                        parameter@,
                        final(self).programs@[i],
                        r,
                    )
                },
            },
    {
        let n = self.programs.len();
        let mut i: usize = 0;
        while i < n
            invariant
                n == self.programs@.len(),
                0 <= i <= n,
                old(self).wf(),
                *self == *old(self),
                forall|j: int| 0 <= j < i ==> self.programs@[j].name@ != program@,
            decreases n - i,
        {
            if self.programs[i].name == *program {
                proof {
                    lemma_find_program_characterization(self.programs@, program@);
                    assert(spec_find_program(self.programs@, program@) == Some(i as int));
                }
                let mut p = self.programs.remove(i);
                let r = p.cycle_parameter(parameter);
                self.programs.insert(i, p);
                proof {
                    let ghost s = self.programs@;
                    let ghost o = old(self).programs@;
                    assert(s =~= o.update(i as int, s[i as int]));
                    assert forall|a: int| 0 <= a < s.len() implies (#[trigger] s[a]).wf() by {
                        if a != i {
                            assert(s[a] == o[a]);
                        }
                    }
                    assert(s[i as int].name == o[i as int].name);
                    assert forall|a: int, b: int| 0 <= a < b < s.len() implies s[a].name@
                        != s[b].name@ by {
                        assert(s[a].name == o[a].name && s[b].name == o[b].name);
                    }
                    let w = choose|a: int| 0 <= a < o.len() && spec_cyclable(o[a]);
                    assert(s[w].name == o[w].name);
                    assert(spec_cyclable(s[w]));
                }
                return r;
            }
            i = i + 1;
        }
        proof {
            lemma_find_program_characterization(self.programs@, program@);
        }
        Err(Error::NotFound)
    }
}

/// Collects what a fixture's `setup()` declares: its name, which bundled
/// programs to include, its output addresses, and the scripted programs to
/// load. The host exposes these operations to the fixture script as the
/// setup-only callables.
#[derive(Debug)]
pub struct FixtureSetupBuilder {
    pub output_aliases: AliasTable,
    pub name: String,
    pub outputs: Vec<u16>,
    pub program_sources: Vec<(String, String)>,
    pub disable_builtin_programs: bool,
    pub disable_manual_program: bool,
}

impl FixtureSetupBuilder {
    /// A fresh builder over the universe's output alias table.
    pub fn new(output_aliases: AliasTable) -> (r: Self)
        ensures
            r.output_aliases == output_aliases,
            r.name@ == Seq::<char>::empty(),
            r.outputs@.len() == 0,
            r.program_sources@.len() == 0,
            !r.disable_builtin_programs,
            !r.disable_manual_program,
    {
        FixtureSetupBuilder {
            output_aliases,
            name: String::new(),
            outputs: Vec::new(),
            program_sources: Vec::new(),
            disable_builtin_programs: false,
            disable_manual_program: false,
        }
    }

    /// Names the fixture.
    pub fn fixture_name(&mut self, name: String)
        ensures
            *final(self) == (FixtureSetupBuilder { name: final(self).name, ..*old(self) }),
            final(self).name == name,
    {
        self.name = name;
    }

    /// Leaves the bundled OFF and ON programs out.
    pub fn disable_builtin_programs(&mut self, disable: bool)
        ensures
            *final(self) == (FixtureSetupBuilder {
                disable_builtin_programs: disable,
                ..*old(self)
            }),
    {
        self.disable_builtin_programs = disable;
    }

    /// Leaves the bundled MANUAL program out.
    pub fn disable_manual_program(&mut self, disable: bool)
        ensures
            *final(self) == (FixtureSetupBuilder {
                disable_manual_program: disable,
                ..*old(self)
            }),
    {
        self.disable_manual_program = disable;
    }

    /// Declares a scripted program by name and source path, relative to the
    /// fixture's own source; two programs cannot share a name.
    pub fn add_program(&mut self, program_name: String, source_path: String) -> (r: Result<
        (),
        Error,
    >)
        ensures
            (exists|j: int|
                0 <= j < old(self).program_sources@.len() && old(self).program_sources@[j].0@
                    == program_name@) ==> r == Err::<(), Error>(
                Error::DuplicateProgramName(program_name),
            ) && *final(self) == *old(self),
            (forall|j: int|
                0 <= j < old(self).program_sources@.len() ==> old(self).program_sources@[j].0@
                    != program_name@) ==> r is Ok && *final(self) == (FixtureSetupBuilder {
                program_sources: final(self).program_sources,
                ..*old(self)
            }) && final(self).program_sources@ == old(self).program_sources@.push(
                (program_name, source_path),
            ),
    {
        let n = self.program_sources.len();
        let mut j: usize = 0;
        while j < n
            invariant
                n == self.program_sources@.len(),
                0 <= j <= n,
                *self == *old(self),
                forall|k: int| 0 <= k < j ==> self.program_sources@[k].0@ != program_name@,
            decreases n - j,
        {
            if self.program_sources[j].0 == program_name {
                return Err(Error::DuplicateProgramName(program_name));
            }
            j = j + 1;
        }
        self.program_sources.push((program_name, source_path));
        Ok(())
    }

    /// Registers an output address; the address must belong to some output.
    pub fn add_output_address(&mut self, address: u16) -> (r: Result<(), Error>)
        ensures
            !crate::universe::spec_has_address(old(self).output_aliases.pairs@, address) ==> r
                == Err::<(), Error>(Error::AddressNotInUse(address)) && *final(self) == *old(self),
            crate::universe::spec_has_address(old(self).output_aliases.pairs@, address) ==> r is Ok
                && *final(self) == (FixtureSetupBuilder {
                outputs: final(self).outputs,
                ..*old(self)
            }) && final(self).outputs@ == if old(self).outputs@.contains(address) {
                old(self).outputs@
            } else {
                old(self).outputs@.push(address)
            },
    {
        if !self.output_aliases.has_address(address) {
            return Err(Error::AddressNotInUse(address));
        }
        if !crate::programs::vec_contains_u16(&self.outputs, address) {
            self.outputs.push(address);
        }
        Ok(())
    }

    /// Registers an output by alias; an unknown alias is refused.
    pub fn add_output_alias(&mut self, alias: &String) -> (r: Result<(), Error>)
        ensures
            crate::universe::spec_lookup_alias(old(self).output_aliases.pairs@, alias@)
                is None ==> r == Err::<(), Error>(Error::UnknownAlias(*alias)) && *final(self)
                == *old(self),
            crate::universe::spec_lookup_alias(
                old(self).output_aliases.pairs@,
                alias@,
            ) matches Some(address) ==> r is Ok && *final(self) == (FixtureSetupBuilder {
                outputs: final(self).outputs,
                ..*old(self)
            }) && final(self).outputs@ == if old(self).outputs@.contains(address) {
                old(self).outputs@
            } else {
                old(self).outputs@.push(address)
            },
    {
        match self.output_aliases.lookup(alias) {
            None => Err(Error::UnknownAlias(alias.clone())),
            Some(address) => {
                proof {
                    crate::programs::lemma_lookup_implies_has(self.output_aliases.pairs@, alias@);
                }
                let r = self.add_output_address(address);
                proof {
                    assert(r is Ok);
                }
                r
            },
        }
    }
}

/// The names of the bundled programs a fixture starts with, in order: OFF
/// and ON unless the builtins are disabled, always EXTERNAL, and MANUAL
/// unless disabled.
pub open spec fn spec_base_names(disable_builtin: bool, disable_manual: bool) -> Seq<Seq<char>> {
    (if !disable_builtin {
        seq!["OFF"@, "ON"@]
    } else {
        Seq::empty()
    }) + seq!["EXTERNAL"@] + (if !disable_manual {
        seq!["MANUAL"@]
    } else {
        Seq::empty()
    })
}

/// Whether the scripted program at `k` collides with a bundled program's
/// name or an earlier scripted program's.
pub open spec fn spec_scripted_dup_at(
    disable_builtin: bool,
    disable_manual: bool,
    scripted: Seq<(String, ScriptedFixtureProgram)>,
    k: int,
) -> bool {
    ||| spec_base_names(disable_builtin, disable_manual).contains(scripted[k].0@)
    ||| exists|j: int| 0 <= j < k && scripted[j].0@ == scripted[k].0@
}

/// Whether the assembled fixture would have a program cycling can land on.
pub open spec fn spec_has_cyclable(
    disable_builtin: bool,
    scripted: Seq<(String, ScriptedFixtureProgram)>,
) -> bool {
    ||| !disable_builtin
    ||| exists|k: int|
        0 <= k < scripted.len() && (#[trigger] scripted[k].0)@ != "MANUAL"@ && scripted[k].0@
            != "EXTERNAL"@
}

impl Fixture {
    /// Assembles a fixture from its setup and its loaded scripted programs:
    /// OFF and ON (unless disabled), always EXTERNAL, MANUAL (unless
    /// disabled), then the scripted programs in declaration order. A name
    /// collision is refused, as is a fixture no program of which can be
    /// cycled to; the first program starts active.
    pub fn assemble(
        setup: FixtureSetupBuilder,
        source_path: String,
        scripted: Vec<(String, ScriptedFixtureProgram)>,
    ) -> (r: Result<Fixture, Error>)
        requires
            forall|k: int| 0 <= k < scripted@.len() ==> (#[trigger] scripted@[k].1).wf(),
        ensures
            (exists|k: int|
                0 <= k < scripted@.len() && spec_scripted_dup_at(
                    setup.disable_builtin_programs,
                    setup.disable_manual_program,
                    scripted@,
                    k,
                )) ==> (exists|k: int|
                {
                    &&& 0 <= k < scripted@.len()
                    &&& #[trigger] spec_scripted_dup_at(
                        setup.disable_builtin_programs,
                        setup.disable_manual_program,
                        scripted@,
                        k,
                    )
                    &&& forall|j: int|
                        0 <= j < k ==> !spec_scripted_dup_at(
                            setup.disable_builtin_programs,
                            setup.disable_manual_program,
                            scripted@,
                            j,
                        )
                    &&& r == Err::<Fixture, Error>(Error::DuplicateProgramName(scripted@[k].0))
                }),
            (forall|k: int|
                0 <= k < scripted@.len() ==> !spec_scripted_dup_at(
                    setup.disable_builtin_programs,
                    setup.disable_manual_program,
                    scripted@,
                    k,
                )) && !spec_has_cyclable(setup.disable_builtin_programs, scripted@) ==> r == Err::<
                Fixture,
                Error,
            >(Error::NoCyclablePrograms),
            (forall|k: int|
                0 <= k < scripted@.len() ==> !spec_scripted_dup_at(
                    setup.disable_builtin_programs,
                    setup.disable_manual_program,
                    scripted@,
                    k,
                )) && spec_has_cyclable(setup.disable_builtin_programs, scripted@) ==> (r matches Ok(
                f,
            ) && {
                let b: int = if setup.disable_builtin_programs {
                    0
                } else {
                    2
                };
                let m: int = if setup.disable_manual_program {
                    0
                } else {
                    1
                };
                &&& f.wf()
                &&& f.name == setup.name
                &&& f.source_path == source_path
                &&& f.addresses@ == setup.outputs@
                &&& f.current_program_index == 0
                &&& f.programs@.len() == b + 1 + m + scripted@.len()
                &&& !setup.disable_builtin_programs ==> {
                    &&& f.programs@[0].name@ == "OFF"@
                    &&& f.programs@[0].inner matches FixtureProgramType::BundledConstant(c)
                        && c.addresses@ == setup.outputs@ && c.output_value == crate::values::LOW
                        && c.reset
                    &&& f.programs@[1].name@ == "ON"@
                    &&& f.programs@[1].inner matches FixtureProgramType::BundledConstant(c)
                        && c.addresses@ == setup.outputs@ && c.output_value == crate::values::HIGH
                        && c.reset
                }
                &&& f.programs@[b].name@ == "EXTERNAL"@
                &&& f.programs@[b].inner is External
                &&& !setup.disable_manual_program ==> {
                    &&& f.programs@[b + 1].name@ == "MANUAL"@
                    &&& f.programs@[b + 1].inner matches FixtureProgramType::BundledManual(mp)
                        && mp.wf() && mp.reset && mp.dirty_parameters
                }
                &&& forall|k: int|
                    0 <= k < scripted@.len() ==> {
                        &&& (#[trigger] f.programs@[b + 1 + m + k]).name == scripted@[k].0
                        &&& f.programs@[b + 1 + m + k].inner == FixtureProgramType::Scripted(
                            scripted@[k].1,
                        )
                    }
            }),
    {
        proof {
            reveal_strlit("OFF");
            reveal_strlit("ON");
            reveal_strlit("EXTERNAL");
            reveal_strlit("MANUAL");
        }
        let FixtureSetupBuilder {
            output_aliases,
            name,
            outputs,
            program_sources: _,
            disable_builtin_programs,
            disable_manual_program,
        } = setup;
        let mut programs: Vec<FixtureProgram> = Vec::new();
        if !disable_builtin_programs {
            let mut off_addresses: Vec<u16> = Vec::new();
            let mut on_addresses: Vec<u16> = Vec::new();
            let na = outputs.len();
            let mut a: usize = 0;
            while a < na
                invariant
                    na == outputs@.len(),
                    0 <= a <= na,
                    off_addresses@ == outputs@.take(a as int),
                    on_addresses@ == outputs@.take(a as int),
                decreases na - a,
            {
                off_addresses.push(outputs[a]);
                on_addresses.push(outputs[a]);
                proof {
                    assert(off_addresses@ =~= outputs@.take(a as int + 1));
                    assert(on_addresses@ =~= outputs@.take(a as int + 1));
                }
                a = a + 1;
            }
            proof {
                assert(outputs@.take(na as int) =~= outputs@);
            }
            programs.push(
                FixtureProgram {
                    name: "OFF".to_owned(),
                    inner: FixtureProgramType::BundledConstant(
                        BundledConstantFixtureProgram::new_fixed_value(
                            off_addresses,
                            crate::values::LOW,
                        ),
                    ),
                },
            );
            programs.push(
                FixtureProgram {
                    name: "ON".to_owned(),
                    inner: FixtureProgramType::BundledConstant(
                        BundledConstantFixtureProgram::new_fixed_value(
                            on_addresses,
                            crate::values::HIGH,
                        ),
                    ),
                },
            );
        }
        programs.push(
            FixtureProgram { name: "EXTERNAL".to_owned(), inner: FixtureProgramType::External },
        );
        if !disable_manual_program {
            let manual_aliases = output_aliases.restricted_to(&outputs);
            programs.push(
                FixtureProgram {
                    name: "MANUAL".to_owned(),
                    inner: FixtureProgramType::BundledManual(
                        BundledManualFixtureProgram::new(manual_aliases),
                    ),
                },
            );
        }
        let ghost b: int = if disable_builtin_programs {
            0
        } else {
            2
        };
        let ghost m: int = if disable_manual_program {
            0
        } else {
            1
        };
        proof {
            assert(programs@.len() == b + 1 + m);
            if !disable_builtin_programs {
                assert(programs@[0].name@ == "OFF"@);
                assert(programs@[1].name@ == "ON"@);
            }
            assert(programs@[b].name@ == "EXTERNAL"@);
            if !disable_manual_program {
                assert(programs@[b + 1].name@ == "MANUAL"@);
            }
            assert(("OFF"@).len() == 3 && ("ON"@).len() == 2 && ("EXTERNAL"@).len() == 8 && (
            "MANUAL"@).len() == 6);
            assert forall|i: int, j: int|
                0 <= i < j < programs@.len() implies programs@[i].name@ != programs@[j].name@ by {
                assert(j == b || j == b + 1 || j == 1);
                assert(i == 0 || i == 1 || i == b);
            }
            assert forall|i: int| 0 <= i < programs@.len() implies programs@[i].name@
                == spec_base_names(disable_builtin_programs, disable_manual_program)[i] by {
                assert(i == 0 || i == 1 || i == b || i == b + 1);
            }
        }
        let ghost all_scripted = scripted@;
        let mut rest = scripted;
        let mut k: usize = 0;
        while rest.len() > 0
            invariant
                disable_builtin_programs == setup.disable_builtin_programs,
                disable_manual_program == setup.disable_manual_program,
                all_scripted == scripted@,
                k + rest@.len() == all_scripted.len(),
                rest@ == all_scripted.skip(k as int),
                0 <= k <= all_scripted.len(),
                forall|i: int| 0 <= i < all_scripted.len() ==> (#[trigger] all_scripted[i].1).wf(),
                programs@.len() == b + 1 + m + k,
                b == (if disable_builtin_programs { 0int } else { 2int }),
                m == (if disable_manual_program { 0int } else { 1int }),
                forall|i: int|
                    0 <= i < b + 1 + m ==> (#[trigger] programs@[i]).name@ == spec_base_names(
                        disable_builtin_programs,
                        disable_manual_program,
                    )[i],
                forall|i: int|
                    0 <= i < k ==> (#[trigger] programs@[b + 1 + m + i]).name == all_scripted[i].0
                        && programs@[b + 1 + m + i].inner == FixtureProgramType::Scripted(
                        all_scripted[i].1,
                    ),
                forall|i: int, j: int|
                    0 <= i < j < programs@.len() ==> programs@[i].name@ != programs@[j].name@,
                forall|i: int| 0 <= i < programs@.len() ==> (#[trigger] programs@[i]).wf(),
                forall|i: int|
                    0 <= i < k ==> !spec_scripted_dup_at(
                        disable_builtin_programs,
                        disable_manual_program,
                        all_scripted,
                        i,
                    ),
                !disable_builtin_programs ==> programs@[0].name@ == "OFF"@ && (
                programs@[0].inner matches FixtureProgramType::BundledConstant(c) && c.addresses@
                    == outputs@ && c.output_value == crate::values::LOW && c.reset),
                !disable_builtin_programs ==> programs@[1].name@ == "ON"@ && (
                programs@[1].inner matches FixtureProgramType::BundledConstant(c) && c.addresses@
                    == outputs@ && c.output_value == crate::values::HIGH && c.reset),
                programs@[b].name@ == "EXTERNAL"@ && programs@[b].inner is External,
                !disable_manual_program ==> programs@[b + 1].name@ == "MANUAL"@ && (
                programs@[b + 1].inner matches FixtureProgramType::BundledManual(mp) && mp.wf()
                    && mp.reset && mp.dirty_parameters),
            decreases rest@.len(),
        {
            let ghost rest_before = rest@;
            let (pname, prog) = rest.remove(0);
            proof {
                assert(rest_before[0] == all_scripted[k as int]);
                assert(rest@ =~= all_scripted.skip(k as int + 1));
            }
            // refuse a name collision
            let np = programs.len();
            let mut i: usize = 0;
            while i < np
                invariant
                    np == programs@.len(),
                    0 <= i <= np,
                    forall|j: int| 0 <= j < i ==> programs@[j].name@ != pname@,
                    0 <= k < all_scripted.len(),
                    pname == all_scripted[k as int].0,
                    np == b + 1 + m + k,
                    disable_builtin_programs == setup.disable_builtin_programs,
                    disable_manual_program == setup.disable_manual_program,
                    all_scripted == scripted@,
                    b == (if disable_builtin_programs { 0int } else { 2int }),
                    m == (if disable_manual_program { 0int } else { 1int }),
                    forall|j: int|
                        0 <= j < b + 1 + m ==> (#[trigger] programs@[j]).name@ == spec_base_names(
                            disable_builtin_programs,
                            disable_manual_program,
                        )[j],
                    forall|j: int|
                        0 <= j < k ==> (#[trigger] programs@[b + 1 + m + j]).name
                            == all_scripted[j].0,
                    forall|j: int|
                        0 <= j < k ==> !spec_scripted_dup_at(
                            disable_builtin_programs,
                            disable_manual_program,
                            all_scripted,
                            j,
                        ),
                decreases np - i,
            {
                if programs[i].name == pname {
                    proof {
                        reveal_strlit("OFF");
                        reveal_strlit("ON");
                        reveal_strlit("EXTERNAL");
                        reveal_strlit("MANUAL");
                        assert(all_scripted[k as int].0 == pname);
                        if i < b + 1 + m {
                            assert(spec_base_names(
                                disable_builtin_programs,
                                disable_manual_program,
                            ).contains(pname@));
                        } else {
                            let j = i - (b + 1 + m);
                            assert(programs@[b + 1 + m + j].name == all_scripted[j].0);
                            assert(all_scripted[j].0@ == pname@);
                        }
                        assert(spec_scripted_dup_at(
                            disable_builtin_programs,
                            disable_manual_program,
                            all_scripted,
                            k as int,
                        ));
                        assert(disable_builtin_programs == setup.disable_builtin_programs
                            && disable_manual_program == setup.disable_manual_program);
                        assert(all_scripted == scripted@);
                        assert(spec_scripted_dup_at(
                            setup.disable_builtin_programs,
                            setup.disable_manual_program,
                            scripted@,
                            k as int,
                        ));
                        assert(forall|j: int|
                            0 <= j < k ==> !spec_scripted_dup_at(
                                setup.disable_builtin_programs,
                                setup.disable_manual_program,
                                scripted@,
                                j,
                            ));
                    }
                    return Err(Error::DuplicateProgramName(pname));
                }
                i = i + 1;
            }
            proof {
                assert forall|j: int|
                    0 <= j < b + 1 + m implies spec_base_names(
                    disable_builtin_programs,
                    disable_manual_program,
                )[j] != pname@ by {
                    assert(programs@[j].name@ != pname@);
                }
                assert(!spec_base_names(disable_builtin_programs, disable_manual_program).contains(
                    pname@,
                ));
                assert forall|j: int| 0 <= j < k implies all_scripted[j].0@ != pname@ by {
                    assert(programs@[b + 1 + m + j].name@ != pname@);
                }
                assert(!spec_scripted_dup_at(
                    disable_builtin_programs,
                    disable_manual_program,
                    all_scripted,
                    k as int,
                ));
            }
            programs.push(FixtureProgram { name: pname, inner: FixtureProgramType::Scripted(prog) });
            k = k + 1;
        }
        proof {
            assert(all_scripted.skip(all_scripted.len() as int) =~= Seq::empty());
            assert(k == all_scripted.len());
        }
        // refuse a fixture cycling cannot work on
        let np = programs.len();
        let mut i: usize = 0;
        let mut found_cyclable = false;
        while i < np
            invariant
                np == programs@.len(),
                0 <= i <= np,
                found_cyclable ==> exists|j: int|
                    0 <= j < np && spec_cyclable(#[trigger] programs@[j]),
                !found_cyclable ==> forall|j: int|
                    0 <= j < i ==> !spec_cyclable(#[trigger] programs@[j]),
            decreases np - i,
        {
            if cyclable(&programs[i]) {
                found_cyclable = true;
            }
            i = i + 1;
        }
        if !found_cyclable {
            proof {
                reveal_strlit("OFF");
                reveal_strlit("ON");
                reveal_strlit("EXTERNAL");
                reveal_strlit("MANUAL");
                if !disable_builtin_programs {
                    assert(spec_cyclable(programs@[0]));
                    assert(false);
                }
                assert forall|j: int|
                    0 <= j < all_scripted.len() implies (#[trigger] all_scripted[j].0)@
                    == "MANUAL"@ || all_scripted[j].0@ == "EXTERNAL"@ by {
                    assert(!spec_cyclable(programs@[b + 1 + m + j]));
                    assert(programs@[b + 1 + m + j].name == all_scripted[j].0);
                }
                assert(!spec_has_cyclable(disable_builtin_programs, all_scripted));
            }
            return Err(Error::NoCyclablePrograms);
        }
        let fixture = Fixture {
            name,
            source_path,
            addresses: outputs,
            programs,
            current_program_index: 0,
        };
        proof {
            assert(fixture.wf());
            if disable_builtin_programs {
                let j = choose|j: int|
                    0 <= j < fixture.programs@.len() && spec_cyclable(#[trigger] fixture.programs@[j]);
                reveal_strlit("EXTERNAL");
                reveal_strlit("MANUAL");
                assert(j >= b + 1 + m || j == b || (m == 1 && j == b + 1));
                if j >= b + 1 + m {
                    let sk = j - (b + 1 + m);
                    assert(fixture.programs@[b + 1 + m + sk].name == all_scripted[sk].0);
                    assert(all_scripted[sk].0@ != "MANUAL"@ && all_scripted[sk].0@ != "EXTERNAL"@);
                    assert(spec_has_cyclable(disable_builtin_programs, all_scripted));
                } else {
                    assert(!spec_cyclable(fixture.programs@[j]));
                    assert(false);
                }
            }
        }
        Ok(fixture)
    }
}

} // verus!
