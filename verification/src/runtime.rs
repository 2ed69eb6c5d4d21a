//! The tick scheduler: all fixtures, run in declaration order each tick,
//! their set-requests gathered into one batch for upstream, and the control
//! operations that mutate fixtures by name.

use vstd::prelude::*;

use crate::error::Error;
use crate::event::AddressedEvent;
use crate::fixture::{
    spec_find_program, spec_outcome, spec_owned_addresses, spec_program_cycle_parameter_rel,
    spec_program_run, spec_program_set_parameter_rel, spec_cyclable, Fixture,
};
use crate::programs::{HostTickOutcome, HostTickPlan};
use crate::parameters::ParameterSetRequest;
use crate::programs::SetRequest;

verus! {

/// Index of the first fixture carrying the name, if any.
pub open spec fn spec_find_fixture(fixtures: Seq<Fixture>, name: Seq<char>) -> Option<int>
    decreases fixtures.len(),
{
    if fixtures.len() == 0 {
        None
    } else if fixtures[0].name@ == name {
        Some(0int)
    } else {
        match spec_find_fixture(fixtures.drop_first(), name) {
            Some(i) => Some(i + 1),
            None => None,
        }
    }
}

/// The first matching fixture is a match, earlier ones are not, and where
/// none is found no fixture matches.
pub proof fn lemma_find_fixture_characterization(fixtures: Seq<Fixture>, name: Seq<char>)
    ensures
        match spec_find_fixture(fixtures, name) {
            Some(i) => 0 <= i < fixtures.len() && fixtures[i].name@ == name && forall|j: int|
                0 <= j < i ==> fixtures[j].name@ != name,
            None => forall|j: int| 0 <= j < fixtures.len() ==> fixtures[j].name@ != name,
        },
    decreases fixtures.len(),
{
    if fixtures.len() > 0 && fixtures[0].name@ != name {
        lemma_find_fixture_characterization(fixtures.drop_first(), name);
        assert forall|j: int|
            1 <= j < fixtures.len() implies fixtures[j] == fixtures.drop_first()[j - 1] by {}
    }
}

/// The scheduler's state: the fixtures in declaration order, and the batch
/// of set-requests the current tick has produced so far.
#[derive(Debug)]
pub struct Runtime {
    pub fixtures: Vec<Fixture>,
    pub set_requests: Vec<SetRequest>,
}

impl Runtime {
    /// Every fixture is well-formed and fixture names are unique.
    pub open spec fn wf(self) -> bool {
        &&& forall|i: int| 0 <= i < self.fixtures@.len() ==> (#[trigger] self.fixtures@[i]).wf()
        &&& forall|i: int, j: int|
            0 <= i < j < self.fixtures@.len() ==> self.fixtures@[i].name@
                != self.fixtures@[j].name@
    }

    /// Every request in the batch targets an address owned by some
    /// fixture's active program.
    pub open spec fn spec_batch_owned(self) -> bool {
        forall|k: int|
            0 <= k < self.set_requests@.len() ==> exists|i: int|
                0 <= i < self.fixtures@.len() && spec_owned_addresses(
                    #[trigger] self.fixtures@[i].spec_active_program(),
                ).contains(#[trigger] self.set_requests@[k].target)
    }

    /// Builds the scheduler over the given fixtures; two fixtures cannot
    /// share a name.
    pub fn new(fixtures: Vec<Fixture>) -> (r: Result<Runtime, Error>)
        requires
            forall|i: int| 0 <= i < fixtures@.len() ==> (#[trigger] fixtures@[i]).wf(),
        ensures
            (exists|i: int, j: int|
                0 <= i < j < fixtures@.len() && fixtures@[i].name@ == fixtures@[j].name@) ==> (
            exists|i: int|
                #![trigger fixtures@[i].name]
                {
                    &&& 0 <= i < fixtures@.len()
                    &&& exists|j: int| 0 <= j < i && fixtures@[j].name@ == fixtures@[i].name@
                    &&& forall|a: int, b: int|
                        0 <= a < b < i ==> fixtures@[a].name@ != fixtures@[b].name@
                    &&& r == Err::<Runtime, Error>(
                        Error::DuplicateFixtureName(fixtures@[i].name),
                    )
                }),
            (forall|i: int, j: int|
                0 <= i < j < fixtures@.len() ==> fixtures@[i].name@ != fixtures@[j].name@) ==> (
            r matches Ok(rt) && {
                &&& rt.wf()
                &&& rt.fixtures@ == fixtures@
                &&& rt.set_requests@.len() == 0
                &&& rt.spec_batch_owned()
            }),
    {
        let n = fixtures.len();
        let mut i: usize = 1;
        while i < n
            invariant
                n == fixtures@.len(),
                1 <= i <= n || n == 0,
                forall|a: int, b: int| 0 <= a < b < i ==> fixtures@[a].name@ != fixtures@[b].name@,
            decreases n - i,
        {
            let mut j: usize = 0;
            while j < i
                invariant
                    n == fixtures@.len(),
                    0 <= j <= i < n,
                    forall|a: int, b: int|
                        0 <= a < b < i ==> fixtures@[a].name@ != fixtures@[b].name@,
                    forall|a: int| 0 <= a < j ==> fixtures@[a].name@ != fixtures@[i as int].name@,
                decreases i - j,
            {
                if fixtures[j].name == fixtures[i].name {
                    proof {
                        assert(0 <= j < i && fixtures@[j as int].name@ == fixtures@[i as int].name@);
                    }
                    return Err(Error::DuplicateFixtureName(fixtures[i].name.clone()));
                }
                j = j + 1;
            }
            i = i + 1;
        }
        Ok(Runtime { fixtures, set_requests: Vec::new() })
    }

    /// How many fixtures the scheduler drives.
    pub fn fixture_count(&self) -> (r: usize)
        ensures
            r == self.fixtures@.len(),
    {
        self.fixtures.len()
    }

    /// Starts a tick: the batch from the previous tick is discarded.
    pub fn begin_tick(&mut self)
        ensures
            final(self).fixtures == old(self).fixtures,
            final(self).set_requests@.len() == 0,
            final(self).spec_batch_owned(),
    {
        self.set_requests.clear();
    }

    /// Whether the fixture's active program needs a host outcome for the
    /// next run.
    pub fn fixture_needs_host(&self, i: usize) -> (r: bool)
        requires
            self.wf(),
            i < self.fixtures@.len(),
        ensures
            r == self.fixtures@[i as int].spec_active_program().spec_needs_host(),
    {
        self.fixtures[i].active_needs_host()
    }

    /// The host work for the fixture's active program, if script-backed.
    pub fn fixture_plan(&self, i: usize, events: &Vec<AddressedEvent>) -> (r: Option<HostTickPlan>)
        requires
            self.wf(),
            i < self.fixtures@.len(),
        ensures
            match self.fixtures@[i as int].spec_active_program().inner {
                crate::fixture::FixtureProgramType::Scripted(s) => r matches Some(plan) && {
                    &&& plan.call_tick == s.spec_wants_run()
                    &&& s.dirty_parameters ==> (plan.bindings matches Some(b) && b@
                        == crate::programs::spec_bindings_upto(
                        s.parameters@,
                        s.parameters@.len() as int,
                    ))
                    &&& !s.dirty_parameters ==> plan.bindings is None
                    &&& plan.deliveries@ == crate::programs::spec_deliveries_upto(
                        s.subscriptions@,
                        events@,
                        events@.len() as int,
                    )
                },
                _ => r is None,
            },
    {
        self.fixtures[i].plan_current_program(events)
    }

    /// Runs one fixture's active program, appending its set-requests to the
    /// batch; on a program failure the batch is left as it was and the
    /// scheduler carries on with the other fixtures.
    pub fn run_fixture(&mut self, i: usize, outcome: Option<&HostTickOutcome>) -> (r: Result<
        (),
        Error,
    >)
        requires
            old(self).wf(),
            i < old(self).fixtures@.len(),
            outcome is Some <==> old(self).fixtures@[i as int].spec_active_program().spec_needs_host(),
        ensures
            final(self).wf(),
            final(self).fixtures@.len() == old(self).fixtures@.len(),
            forall|j: int|
                0 <= j < old(self).fixtures@.len() && j != i ==> final(self).fixtures@[j] == old(
                    self,
                ).fixtures@[j],
            ({
                let f = old(self).fixtures@[i as int];
                let (p2, emitted, rr) = spec_program_run(
                    f.spec_active_program(),
                    spec_outcome(outcome),
                );
                &&& final(self).fixtures@[i as int].name == f.name
                &&& final(self).fixtures@[i as int].addresses == f.addresses
                &&& final(self).fixtures@[i as int].current_program_index
                    == f.current_program_index
                &&& final(self).fixtures@[i as int].programs@ == f.programs@.update(
                    f.current_program_index as int,
                    p2,
                )
                &&& final(self).set_requests@ == old(self).set_requests@ + emitted
                &&& r == rr
            }),
            old(self).spec_batch_owned() ==> final(self).spec_batch_owned(),
    {
        let mut fixture = self.fixtures.remove(i);
        let r = fixture.run_current_program(outcome, &mut self.set_requests);
        self.fixtures.insert(i, fixture);
        proof {
            assert(self.fixtures@ =~= old(self).fixtures@.update(
                i as int,
                self.fixtures@[i as int],
            ));
            let ghost s = self.fixtures@;
            let ghost o = old(self).fixtures@;
            assert forall|a: int| 0 <= a < s.len() implies (#[trigger] s[a]).wf() by {
                if a != i {
                    assert(s[a] == o[a]);
                }
            }
            assert(s[i as int].name == o[i as int].name);
            assert forall|a: int, b: int| 0 <= a < b < s.len() implies s[a].name@
                != s[b].name@ by {
                assert(s[a].name == o[a].name && s[b].name == o[b].name);
            }
            if old(self).spec_batch_owned() {
                assert forall|k: int| 0 <= k < self.set_requests@.len() implies exists|fi: int|
                    0 <= fi < s.len() && spec_owned_addresses(
                        #[trigger] s[fi].spec_active_program(),
                    ).contains(#[trigger] self.set_requests@[k].target) by {
                    if k < old(self).set_requests@.len() {
                        assert(self.set_requests@[k] == old(self).set_requests@[k]);
                        let fi = choose|fi: int|
                            0 <= fi < o.len() && spec_owned_addresses(
                                #[trigger] o[fi].spec_active_program(),
                            ).contains(old(self).set_requests@[k].target);
                        if fi == i {
                            assert(spec_owned_addresses(s[fi].spec_active_program())
                                == spec_owned_addresses(o[fi].spec_active_program()));
                        } else {
                            assert(s[fi] == o[fi]);
                        }
                        assert(spec_owned_addresses(s[fi].spec_active_program()).contains(
                            self.set_requests@[k].target,
                        ));
                    } else {
                        assert(spec_owned_addresses(o[i as int].spec_active_program()).contains(
                            self.set_requests@[k].target,
                        ));
                        assert(spec_owned_addresses(s[i as int].spec_active_program())
                            == spec_owned_addresses(o[i as int].spec_active_program()));
                    }
                }
            }
        }
        r
    }

    /// Hands the finished batch out and leaves an empty one behind.
    pub fn take_batch(&mut self) -> (r: Vec<SetRequest>)
        ensures
            r@ == old(self).set_requests@,
            final(self).fixtures == old(self).fixtures,
            final(self).set_requests@.len() == 0,
    {
        let mut out: Vec<SetRequest> = Vec::new();
        core::mem::swap(&mut out, &mut self.set_requests);
        out
    }

    /// The named fixture, if the scheduler drives one.
    pub fn get_fixture(&self, name: &String) -> (r: Option<&Fixture>)
        ensures
            match spec_find_fixture(self.fixtures@, name@) {
                Some(i) => r matches Some(f) && *f == self.fixtures@[i],
                None => r is None,
            },
    {
        let n = self.fixtures.len();
        let mut i: usize = 0;
        while i < n
            invariant
                n == self.fixtures@.len(),
                0 <= i <= n,
                forall|j: int| 0 <= j < i ==> self.fixtures@[j].name@ != name@,
            decreases n - i,
        {
            if self.fixtures[i].name == *name {
                proof {
                    lemma_find_fixture_characterization(self.fixtures@, name@);
                    assert(spec_find_fixture(self.fixtures@, name@) == Some(i as int));
                }
                return Some(&self.fixtures[i]);
            }
            i = i + 1;
        }
        proof {
            lemma_find_fixture_characterization(self.fixtures@, name@);
        }
        None
    }

    /// Switches the named fixture to the named program and enables it.
    pub fn set_active_program(&mut self, fixture: &String, program: &String) -> (r: Result<
        (),
        Error,
    >)
        requires
            old(self).wf(),
        ensures
            final(self).wf(),
            final(self).set_requests == old(self).set_requests,
            match spec_find_fixture(old(self).fixtures@, fixture@) {
                None => r == Err::<(), Error>(Error::NotFound) && *final(self) == *old(self),
                Some(fi) => {
                    &&& final(self).fixtures@.len() == old(self).fixtures@.len()
                    &&& forall|j: int|
                        0 <= j < old(self).fixtures@.len() && j != fi ==> final(self).fixtures@[j]
                            == old(self).fixtures@[j]
                    &&& ({
                        let f = old(self).fixtures@[fi];
                        let f2 = final(self).fixtures@[fi];
                        match spec_find_program(f.programs@, program@) {
                            None => r == Err::<(), Error>(Error::NotFound) && f2 == f,
                            Some(pi) => {
                                &&& r is Ok
                                &&& f2.name == f.name
                                &&& f2.addresses == f.addresses
                                &&& f2.current_program_index == pi
                                &&& f2.programs@ == f.programs@.update(
                                    pi,
                                    f.programs@[pi].spec_enable(),
                                )
                            },
                        }
                    })
                },
            },
    {
        let n = self.fixtures.len();
        let mut i: usize = 0;
        while i < n
            invariant
                n == self.fixtures@.len(),
                0 <= i <= n,
                old(self).wf(),
                *self == *old(self),
                forall|j: int| 0 <= j < i ==> self.fixtures@[j].name@ != fixture@,
            decreases n - i,
        {
            if self.fixtures[i].name == *fixture {
                proof {
                    lemma_find_fixture_characterization(self.fixtures@, fixture@);
                    assert(spec_find_fixture(self.fixtures@, fixture@) == Some(i as int));
                }
                let mut f = self.fixtures.remove(i);
                let r = f.set_active_program(program);
                self.fixtures.insert(i, f);
                proof {
                    self.lemma_one_fixture_updated(*old(self), i as int);
                }
                return r;
            }
            i = i + 1;
        }
        proof {
            lemma_find_fixture_characterization(self.fixtures@, fixture@);
        }
        Err(Error::NotFound)
    }

    /// Advances the named fixture to its next cyclable program and returns
    /// the new program's name.
    pub fn cycle_active_program(&mut self, fixture: &String) -> (r: Result<String, Error>)
        requires
            old(self).wf(),
        ensures
            final(self).wf(),
            final(self).set_requests == old(self).set_requests,
            match spec_find_fixture(old(self).fixtures@, fixture@) {
                None => r == Err::<String, Error>(Error::NotFound) && *final(self) == *old(self),
                Some(fi) => {
                    &&& final(self).fixtures@.len() == old(self).fixtures@.len()
                    &&& forall|j: int|
                        0 <= j < old(self).fixtures@.len() && j != fi ==> final(self).fixtures@[j]
                            == old(self).fixtures@[j]
                    &&& r is Ok
                    &&& ({
                        let f = old(self).fixtures@[fi];
                        let f2 = final(self).fixtures@[fi];
                        exists|d: int|
                            #![trigger spec_cyclable(f.programs@[(f.current_program_index as int + d) % (f.programs@.len() as int)])]
                            {
                                let n = f.programs@.len() as int;
                                let cur = f.current_program_index as int;
                                let idx = (cur + d) % n;
                                &&& 1 <= d <= n
                                &&& spec_cyclable(f.programs@[idx])
                                &&& forall|e: int|
                                    1 <= e < d ==> !spec_cyclable(
                                        #[trigger] f.programs@[(cur + e) % n],
                                    )
                                &&& f2.current_program_index == idx
                                &&& f2.programs@ == f.programs@.update(
                                    idx,
                                    f.programs@[idx].spec_enable(),
                                )
                                &&& r matches Ok(nm) && nm == f.programs@[idx].name
                            }
                    })
                },
            },
    {
        let n = self.fixtures.len();
        let mut i: usize = 0;
        while i < n
            invariant
                n == self.fixtures@.len(),
                0 <= i <= n,
                old(self).wf(),
                *self == *old(self),
                forall|j: int| 0 <= j < i ==> self.fixtures@[j].name@ != fixture@,
            decreases n - i,
        {
            if self.fixtures[i].name == *fixture {
                proof {
                    lemma_find_fixture_characterization(self.fixtures@, fixture@);
                    assert(spec_find_fixture(self.fixtures@, fixture@) == Some(i as int));
                }
                let mut f = self.fixtures.remove(i);
                let r = f.cycle_active_program();
                self.fixtures.insert(i, f);
                proof {
                    self.lemma_one_fixture_updated(*old(self), i as int);
                }
                return r;
            }
            i = i + 1;
        }
        proof {
            lemma_find_fixture_characterization(self.fixtures@, fixture@);
        }
        Err(Error::NotFound)
    }

    /// Assigns a parameter of a program of the named fixture.
    pub fn set_program_parameter(
        &mut self,
        fixture: &String,
        program: &String,
        parameter: &String,
        req: &ParameterSetRequest,
    ) -> (r: Result<(), Error>)
        requires
            old(self).wf(),
        ensures
            final(self).wf(),
            final(self).set_requests == old(self).set_requests,
            match spec_find_fixture(old(self).fixtures@, fixture@) {
                None => r == Err::<(), Error>(Error::NotFound) && *final(self) == *old(self),
                Some(fi) => {
                    &&& final(self).fixtures@.len() == old(self).fixtures@.len()
                    &&& forall|j: int|
                        0 <= j < old(self).fixtures@.len() && j != fi ==> final(self).fixtures@[j]
                            == old(self).fixtures@[j]
                    &&& ({
                        let f = old(self).fixtures@[fi];
                        let f2 = final(self).fixtures@[fi];
                        match spec_find_program(f.programs@, program@) {
                            None => r == Err::<(), Error>(Error::NotFound) && f2 == f,
                            Some(pi) => {
                                &&& f2.programs@.len() == f.programs@.len()
                                &&& forall|j: int|
                                    0 <= j < f.programs@.len() && j != pi ==> f2.programs@[j]
                                        == f.programs@[j]
                                &&& spec_program_set_parameter_rel(
                                    f.programs@[pi],
                                    parameter@,
                                    *req,
                                    f2.programs@[pi],
                                    r,
                                )
                            },
                        }
                    })
                },
            },
    {
        let n = self.fixtures.len();
        let mut i: usize = 0;
        while i < n
            invariant
                n == self.fixtures@.len(),
                0 <= i <= n,
                old(self).wf(),
                *self == *old(self),
                forall|j: int| 0 <= j < i ==> self.fixtures@[j].name@ != fixture@,
            decreases n - i,
        {
            if self.fixtures[i].name == *fixture {
                proof {
                    lemma_find_fixture_characterization(self.fixtures@, fixture@);
                    assert(spec_find_fixture(self.fixtures@, fixture@) == Some(i as int));
                }
                let mut f = self.fixtures.remove(i);
                let r = f.set_program_parameter(program, parameter, req);
                self.fixtures.insert(i, f);
                proof {
                    self.lemma_one_fixture_updated(*old(self), i as int);
                }
                return r;
            }
            i = i + 1;
        }
        proof {
            lemma_find_fixture_characterization(self.fixtures@, fixture@);
        }
        Err(Error::NotFound)
    }

    /// Cycles a discrete parameter of a program of the named fixture.
    pub fn cycle_program_parameter(
        &mut self,
        fixture: &String,
        program: &String,
        parameter: &String,
    ) -> (r: Result<String, Error>)
        requires
            old(self).wf(),
        ensures
            final(self).wf(),
            final(self).set_requests == old(self).set_requests,
            match spec_find_fixture(old(self).fixtures@, fixture@) {
                None => r == Err::<String, Error>(Error::NotFound) && *final(self) == *old(self),
                Some(fi) => {
                    &&& final(self).fixtures@.len() == old(self).fixtures@.len()
                    &&& forall|j: int|
                        0 <= j < old(self).fixtures@.len() && j != fi ==> final(self).fixtures@[j]
                            == old(self).fixtures@[j]
                    &&& ({
                        let f = old(self).fixtures@[fi];
                        let f2 = final(self).fixtures@[fi];
                        match spec_find_program(f.programs@, program@) {
                            None => r == Err::<String, Error>(Error::NotFound) && f2 == f,
                            Some(pi) => {
                                &&& f2.programs@.len() == f.programs@.len()
                                &&& forall|j: int|
                                    0 <= j < f.programs@.len() && j != pi ==> f2.programs@[j]
                                        == f.programs@[j]
                                &&& spec_program_cycle_parameter_rel(
                                    f.programs@[pi],
                                    parameter@,
                                    f2.programs@[pi],
                                    r,
                                )
                            },
                        }
                    })
                },
            },
    {
        let n = self.fixtures.len();
        let mut i: usize = 0;
        while i < n
            invariant
                n == self.fixtures@.len(),
                0 <= i <= n,
                old(self).wf(),
                *self == *old(self),
                forall|j: int| 0 <= j < i ==> self.fixtures@[j].name@ != fixture@,
            decreases n - i,
        {
            if self.fixtures[i].name == *fixture {
                proof {
                    lemma_find_fixture_characterization(self.fixtures@, fixture@);
                    assert(spec_find_fixture(self.fixtures@, fixture@) == Some(i as int));
                }
                let mut f = self.fixtures.remove(i);
                let r = f.cycle_program_parameter(program, parameter);
                self.fixtures.insert(i, f);
                proof {
                    self.lemma_one_fixture_updated(*old(self), i as int);
                }
                return r;
            }
            i = i + 1;
        }
        proof {
            lemma_find_fixture_characterization(self.fixtures@, fixture@);
        }
        Err(Error::NotFound)
    }

    /// After replacing one fixture by a well-formed one with the same name,
    /// the scheduler is still well-formed.
    proof fn lemma_one_fixture_updated(self, prior: Runtime, i: int)
        requires
            prior.wf(),
            0 <= i < prior.fixtures@.len(),
            self.fixtures@.len() == prior.fixtures@.len(),
            forall|j: int|
                0 <= j < prior.fixtures@.len() && j != i ==> self.fixtures@[j]
                    == prior.fixtures@[j],
            self.fixtures@[i].wf(),
            self.fixtures@[i].name == prior.fixtures@[i].name,
        ensures
            self.wf(),
    {
        let s = self.fixtures@;
        let o = prior.fixtures@;
        assert forall|a: int| 0 <= a < s.len() implies (#[trigger] s[a]).wf() by {
            if a != i {
                assert(s[a] == o[a]);
            }
        }
        assert forall|a: int, b: int| 0 <= a < b < s.len() implies s[a].name@ != s[b].name@ by {
            assert(s[a].name == o[a].name && s[b].name == o[b].name);
        }
    }
}

} // verus!
