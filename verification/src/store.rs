//! A shared parameter store, keyed by program and parameter name, through
//! which programs read and write each other's parameters; every write is
//! also recorded as a delta for the owning program to pick up.

use vstd::prelude::*;

use crate::error::Error;
use crate::values::Fixed;

verus! {

/// Signal code asking that a program be enabled.
pub const PROGRAM_ENABLE_SIGNAL: i64 = 1;

/// Signal code asking that a program be disabled.
pub const PROGRAM_DISABLE_SIGNAL: i64 = 2;

/// Signal code asking that a program's enablement be toggled.
pub const PROGRAM_ENABLE_TOGGLE_SIGNAL: i64 = 3;

/// A request to change whether a program runs.
#[derive(Clone, Copy, Debug, PartialEq, Eq, Structural)]
pub enum ProgramEnableDelta {
    Enable,
    Disable,
    Toggle,
}

impl ProgramEnableDelta {
    /// Decodes the integer signal a script hands over.
    pub fn from_signal(signal: i64) -> (r: Result<ProgramEnableDelta, Error>)
        ensures
            signal == PROGRAM_ENABLE_SIGNAL ==> r == Ok::<ProgramEnableDelta, Error>(
                ProgramEnableDelta::Enable,
            ),
            signal == PROGRAM_DISABLE_SIGNAL ==> r == Ok::<ProgramEnableDelta, Error>(
                ProgramEnableDelta::Disable,
            ),
            signal == PROGRAM_ENABLE_TOGGLE_SIGNAL ==> r == Ok::<ProgramEnableDelta, Error>(
                ProgramEnableDelta::Toggle,
            ),
            signal != PROGRAM_ENABLE_SIGNAL && signal != PROGRAM_DISABLE_SIGNAL && signal
                != PROGRAM_ENABLE_TOGGLE_SIGNAL ==> r == Err::<ProgramEnableDelta, Error>(
                Error::InvalidEnableSignal(signal),
            ),
    {
        if signal == PROGRAM_ENABLE_SIGNAL {
            Ok(ProgramEnableDelta::Enable)
        } else if signal == PROGRAM_DISABLE_SIGNAL {
            Ok(ProgramEnableDelta::Disable)
        } else if signal == PROGRAM_ENABLE_TOGGLE_SIGNAL {
            Ok(ProgramEnableDelta::Toggle)
        } else {
            Err(Error::InvalidEnableSignal(signal))
        }
    }
}

/// Enable requests a script produced, by target program name.
#[derive(Debug, PartialEq, Eq)]
pub struct ProgramEnableDeltaTable {
    pub v: Vec<(String, ProgramEnableDelta)>,
}

impl ProgramEnableDeltaTable {
    /// A table over the given entries.
    pub fn from_pairs(v: Vec<(String, ProgramEnableDelta)>) -> (r: ProgramEnableDeltaTable)
        ensures
            r.v == v,
    {
        ProgramEnableDeltaTable { v }
    }

    /// The entries, in order.
    pub fn into_vec(self) -> (r: Vec<(String, ProgramEnableDelta)>)
        ensures
            r == self.v,
    {
        self.v
    }
}

/// One level a discrete store parameter may take: a label and the value it
/// stands for.
#[derive(Clone, Debug, PartialEq, Eq)]
pub struct DiscreteParameterValue {
    pub label: String,
    pub value: i32,
}

/// A discrete store parameter: its possible values and the current one,
/// always one of them.
#[derive(Clone, Debug, PartialEq, Eq)]
pub struct DiscreteProgramParameter {
    pub values: Vec<DiscreteParameterValue>,
    pub current: i32,
}

/// Whether some possible value carries the number.
pub open spec fn spec_has_value(values: Seq<DiscreteParameterValue>, v: i32) -> bool {
    exists|i: int| 0 <= i < values.len() && values[i].value == v
}

/// Truncating remainder, as machine division computes it: the sign follows
/// the dividend.
pub open spec fn spec_trunc_mod(a: int, b: int) -> int
    recommends
        b > 0,
{
    if a >= 0 {
        a % b
    } else {
        -((-a) % b)
    }
}

impl DiscreteProgramParameter {
    /// The current value is one of the possible ones.
    pub open spec fn wf(self) -> bool {
        spec_has_value(self.values@, self.current)
    }

    /// Assigns the parameter if the value is one of the possible ones;
    /// otherwise leaves it unchanged and reports the value.
    pub fn try_set(&mut self, to_value: i32) -> (r: Result<i32, Error>)
        ensures
            final(self).values == old(self).values,
            spec_has_value(old(self).values@, to_value) ==> r == Ok::<i32, Error>(to_value)
                && final(self).current == to_value,
            !spec_has_value(old(self).values@, to_value) ==> r == Err::<i32, Error>(
                Error::InvalidDiscreteValue(to_value),
            ) && *final(self) == *old(self),
    {
        let n = self.values.len();
        let mut i: usize = 0;
        while i < n
            invariant
                n == self.values@.len(),
                0 <= i <= n,
                *self == *old(self),
                forall|j: int| 0 <= j < i ==> self.values@[j].value != to_value,
            decreases n - i,
        {
            if self.values[i].value == to_value {
                self.current = to_value;
                return Ok(to_value);
            }
            i = i + 1;
        }
        Err(Error::InvalidDiscreteValue(to_value))
    }

    /// Steps the current value by a delta, wrapped by the number of possible
    /// values, and assigns the result if it is itself a possible value.
    pub fn try_inc_by(&mut self, delta: i32) -> (r: Result<i32, Error>)
        requires
            old(self).values@.len() > 0,
            old(self).values@.len() <= i32::MAX,
            i32::MIN < old(self).current + delta <= i32::MAX,
        ensures
            final(self).values == old(self).values,
            ({
                let stepped = spec_trunc_mod(
                    old(self).current + delta,
                    old(self).values@.len() as int,
                );
                &&& spec_has_value(old(self).values@, stepped as i32) ==> r == Ok::<i32, Error>(
                    stepped as i32,
                ) && final(self).current == stepped
                &&& !spec_has_value(old(self).values@, stepped as i32) ==> r == Err::<i32, Error>(
                    Error::InvalidDiscreteValue(stepped as i32),
                ) && *final(self) == *old(self)
            }),
    {
        let len: i32 = self.values.len() as i32;
        let sum: i32 = self.current + delta;
        let new_val: i32 = if sum >= 0 {
            sum % len
        } else {
            -((-sum) % len)
        };
        proof {
            assert(new_val as int == spec_trunc_mod(
                old(self).current + delta,
                old(self).values@.len() as int,
            ));
        }
        self.try_set(new_val)
    }
}

/// A continuous store parameter: an inclusive range and the current value.
#[derive(Clone, Copy, Debug, PartialEq, Eq, Structural)]
pub struct ContinuousProgramParameter {
    pub lower: Fixed,
    pub upper: Fixed,
    pub current: Fixed,
}

impl ContinuousProgramParameter {
    /// Assigns the parameter if the value lies within the range; otherwise
    /// leaves it unchanged and says so.
    pub fn try_set(&mut self, to_value: Fixed) -> (r: Result<(), Error>)
        ensures
            final(self).lower == old(self).lower,
            final(self).upper == old(self).upper,
            old(self).lower.micros <= to_value.micros <= old(self).upper.micros ==> r is Ok
                && final(self).current == to_value,
            !(old(self).lower.micros <= to_value.micros <= old(self).upper.micros) ==> r == Err::<
                (),
                Error,
            >(Error::ValueOutOfRange) && *final(self) == *old(self),
    {
        if to_value.micros > self.upper.micros || to_value.micros < self.lower.micros {
            return Err(Error::ValueOutOfRange);
        }
        self.current = to_value;
        Ok(())
    }
}

/// A typed store parameter.
#[derive(Clone, Debug, PartialEq, Eq)]
pub enum ParameterType {
    Continuous(ContinuousProgramParameter),
    Discrete(DiscreteProgramParameter),
}

/// A store parameter with its description.
#[derive(Clone, Debug, PartialEq, Eq)]
pub struct ProgramParameter {
    pub description: String,
    pub parameter: ParameterType,
}

/// The parameters one program declared, by name.
#[derive(Debug, PartialEq, Eq)]
pub struct ProgramParameters {
    pub parameters: Vec<(String, ProgramParameter)>,
}

/// A change a write left behind, for the owning program to pick up.
#[derive(Clone, Copy, Debug, PartialEq, Eq, Structural)]
pub enum ParameterDelta {
    Continuous(Fixed),
    Discrete(i32),
}

/// Index of the first entry carrying the key, if any.
pub open spec fn spec_find_key<T>(entries: Seq<(String, T)>, key: Seq<char>) -> Option<int>
    decreases entries.len(),
{
    if entries.len() == 0 {
        None
    } else if entries[0].0@ == key {
        Some(0int)
    } else {
        match spec_find_key(entries.drop_first(), key) {
            Some(i) => Some(i + 1),
            None => None,
        }
    }
}

/// The first matching entry is a match, earlier entries are not, and where
/// none is found no entry matches.
pub proof fn lemma_find_key_characterization<T>(entries: Seq<(String, T)>, key: Seq<char>)
    ensures
        match spec_find_key(entries, key) {
            Some(i) => 0 <= i < entries.len() && entries[i].0@ == key && forall|j: int|
                0 <= j < i ==> entries[j].0@ != key,
            None => forall|j: int| 0 <= j < entries.len() ==> entries[j].0@ != key,
        },
    decreases entries.len(),
{
    if entries.len() > 0 && entries[0].0@ != key {
        lemma_find_key_characterization(entries.drop_first(), key);
        assert forall|j: int|
            1 <= j < entries.len() implies entries[j] == entries.drop_first()[j - 1] by {}
    }
}


/// Where the key first occurs at `p` and nowhere before, the lookup finds
/// `p`.
pub proof fn lemma_find_key_at<T>(entries: Seq<(String, T)>, key: Seq<char>, p: int)
    requires
        0 <= p < entries.len(),
        entries[p].0@ == key,
        forall|j: int| 0 <= j < p ==> entries[j].0@ != key,
    ensures
        spec_find_key(entries, key) == Some(p),
{
    lemma_find_key_characterization(entries, key);
    match spec_find_key(entries, key) {
        None => {
            assert(entries[p].0@ != key);
        },
        Some(i) => {
            if i > p {
                assert(entries[p].0@ != key);
            }
        },
    }
}

/// Looks up the store parameter under a program and parameter name.
pub open spec fn spec_lookup_parameter(
    programs: Seq<(String, ProgramParameters)>,
    program: Seq<char>,
    parameter: Seq<char>,
) -> Option<ProgramParameter> {
    match spec_find_key(programs, program) {
        None => None,
        Some(i) => match spec_find_key(programs[i].1.parameters@, parameter) {
            None => None,
            Some(j) => Some(programs[i].1.parameters@[j].1),
        },
    }
}

/// Index of the first delta recorded under the program and parameter, if
/// any.
pub open spec fn spec_find_delta(
    deltas: Seq<(String, String, ParameterDelta)>,
    program: Seq<char>,
    parameter: Seq<char>,
) -> Option<int>
    decreases deltas.len(),
{
    if deltas.len() == 0 {
        None
    } else if deltas[0].0@ == program && deltas[0].1@ == parameter {
        Some(0int)
    } else {
        match spec_find_delta(deltas.drop_first(), program, parameter) {
            Some(i) => Some(i + 1),
            None => None,
        }
    }
}

/// The first matching delta is a match, earlier ones are not, and where none
/// is found no delta matches.
pub proof fn lemma_find_delta_characterization(
    deltas: Seq<(String, String, ParameterDelta)>,
    program: Seq<char>,
    parameter: Seq<char>,
)
    ensures
        match spec_find_delta(deltas, program, parameter) {
            Some(i) => 0 <= i < deltas.len() && deltas[i].0@ == program && deltas[i].1@
                == parameter && forall|j: int|
                0 <= j < i ==> !(deltas[j].0@ == program && deltas[j].1@ == parameter),
            None => forall|j: int|
                0 <= j < deltas.len() ==> !(deltas[j].0@ == program && deltas[j].1@ == parameter),
        },
    decreases deltas.len(),
{
    if deltas.len() > 0 && !(deltas[0].0@ == program && deltas[0].1@ == parameter) {
        lemma_find_delta_characterization(deltas.drop_first(), program, parameter);
        assert forall|j: int|
            1 <= j < deltas.len() implies deltas[j] == deltas.drop_first()[j - 1] by {}
    }
}

/// The recorded deltas after one write: the latest delta for a program's
/// parameter replaces an earlier one.
pub open spec fn spec_record_delta(
    deltas: Seq<(String, String, ParameterDelta)>,
    program: String,
    parameter: String,
    delta: ParameterDelta,
) -> Seq<(String, String, ParameterDelta)> {
    match spec_find_delta(deltas, program@, parameter@) {
        None => deltas.push((program, parameter, delta)),
        Some(i) => deltas.update(i, (deltas[i].0, deltas[i].1, delta)),
    }
}

/// Records one write in the delta list, replacing an earlier delta for the
/// same program and parameter.
fn record_delta(
    deltas: &mut Vec<(String, String, ParameterDelta)>,
    program: &String,
    parameter: &String,
    delta: ParameterDelta,
)
    ensures
        final(deltas)@ == spec_record_delta(old(deltas)@, *program, *parameter, delta),
{
    let n = deltas.len();
    let mut i: usize = 0;
    while i < n
        invariant
            n == deltas@.len(),
            0 <= i <= n,
            *deltas == *old(deltas),
            forall|j: int|
                0 <= j < i ==> !(deltas@[j].0@ == program@ && deltas@[j].1@ == parameter@),
        decreases n - i,
    {
        if deltas[i].0 == *program && deltas[i].1 == *parameter {
            proof {
                lemma_find_delta_characterization(deltas@, program@, parameter@);
                assert(spec_find_delta(deltas@, program@, parameter@) == Some(i as int));
            }
            let prog_key = deltas[i].0.clone();
            let param_key = deltas[i].1.clone();
            deltas.set(i, (prog_key, param_key, delta));
            return ;
        }
        i = i + 1;
    }
    proof {
        lemma_find_delta_characterization(deltas@, program@, parameter@);
    }
    deltas.push((program.clone(), parameter.clone(), delta));
}

/// Position of the first entry carrying the key, if any.
fn find_key_index<T>(entries: &Vec<(String, T)>, key: &String) -> (r: Option<usize>)
    ensures
        match r {
            Some(i) => spec_find_key(entries@, key@) == Some(i as int),
            None => spec_find_key(entries@, key@) is None,
        },
{
    let n = entries.len();
    let mut i: usize = 0;
    while i < n
        invariant
            n == entries@.len(),
            0 <= i <= n,
            forall|j: int| 0 <= j < i ==> entries@[j].0@ != key@,
        decreases n - i,
    {
        if entries[i].0 == *key {
            proof {
                lemma_find_key_characterization(entries@, key@);
                assert(spec_find_key(entries@, key@) == Some(i as int));
            }
            return Some(i);
        }
        i = i + 1;
    }
    proof {
        lemma_find_key_characterization(entries@, key@);
    }
    None
}

/// The shared store: each program's parameters by name, and the deltas that
/// writes left behind.
#[derive(Debug)]
pub struct ParameterTable {
    pub program_parameters: Vec<(String, ProgramParameters)>,
    pub deltas: Vec<(String, String, ParameterDelta)>,
}

impl ParameterTable {
    /// Every discrete parameter's current value is one of its possible ones.
    pub open spec fn wf(self) -> bool {
        forall|i: int, j: int|
            0 <= i < self.program_parameters@.len() && 0 <= j
                < self.program_parameters@[i].1.parameters@.len() ==> match (
            #[trigger] self.program_parameters@[i].1.parameters@[j]).1.parameter {
                ParameterType::Discrete(d) => d.wf(),
                ParameterType::Continuous(_) => true,
            }
    }

    /// An empty store.
    pub fn new() -> (r: ParameterTable)
        ensures
            r.wf(),
            r.program_parameters@.len() == 0,
            r.deltas@.len() == 0,
    {
        ParameterTable { program_parameters: Vec::new(), deltas: Vec::new() }
    }

    /// Hands out the recorded deltas and starts recording afresh.
    pub fn get_deltas(&mut self) -> (r: Vec<(String, String, ParameterDelta)>)
        ensures
            r@ == old(self).deltas@,
            final(self).deltas@.len() == 0,
            final(self).program_parameters == old(self).program_parameters,
            old(self).wf() ==> final(self).wf(),
    {
        let mut out: Vec<(String, String, ParameterDelta)> = Vec::new();
        core::mem::swap(&mut out, &mut self.deltas);
        out
    }

    /// Reads a discrete parameter's current value.
    pub fn get_discrete_parameter_value(
        &self,
        program_name: &String,
        parameter_name: &String,
    ) -> (r: Result<i32, Error>)
        ensures
            match spec_lookup_parameter(self.program_parameters@, program_name@, parameter_name@) {
                None => r == Err::<i32, Error>(
                    Error::UnknownParameter(*program_name, *parameter_name),
                ),
                Some(pp) => match pp.parameter {
                    ParameterType::Discrete(d) => r == Ok::<i32, Error>(d.current),
                    ParameterType::Continuous(_) => r == Err::<i32, Error>(
                        Error::ParameterIsContinuous(*program_name, *parameter_name),
                    ),
                },
            },
    {
        let pi = match find_key_index(&self.program_parameters, program_name) {
            None => {
                return Err(Error::UnknownParameter(program_name.clone(), parameter_name.clone()));
            },
            Some(pi) => pi,
        };
        proof {
            lemma_find_key_characterization(self.program_parameters@, program_name@);
        }
        let pj = match find_key_index(&self.program_parameters[pi].1.parameters, parameter_name) {
            None => {
                return Err(Error::UnknownParameter(program_name.clone(), parameter_name.clone()));
            },
            Some(pj) => pj,
        };
        proof {
            lemma_find_key_characterization(self.program_parameters@[pi as int].1.parameters@, parameter_name@);
        }
        match &self.program_parameters[pi].1.parameters[pj].1.parameter {
            ParameterType::Discrete(d) => Ok(d.current),
            ParameterType::Continuous(_) => Err(
                Error::ParameterIsContinuous(program_name.clone(), parameter_name.clone()),
            ),
        }
    }

    /// Reads a continuous parameter's current value.
    pub fn get_continuous_parameter_value(
        &self,
        program_name: &String,
        parameter_name: &String,
    ) -> (r: Result<Fixed, Error>)
        ensures
            match spec_lookup_parameter(self.program_parameters@, program_name@, parameter_name@) {
                None => r == Err::<Fixed, Error>(
                    Error::UnknownParameter(*program_name, *parameter_name),
                ),
                Some(pp) => match pp.parameter {
                    ParameterType::Continuous(c) => r == Ok::<Fixed, Error>(c.current),
                    ParameterType::Discrete(_) => r == Err::<Fixed, Error>(
                        Error::ParameterIsDiscrete(*program_name, *parameter_name),
                    ),
                },
            },
    {
        let pi = match find_key_index(&self.program_parameters, program_name) {
            None => {
                return Err(Error::UnknownParameter(program_name.clone(), parameter_name.clone()));
            },
            Some(pi) => pi,
        };
        proof {
            lemma_find_key_characterization(self.program_parameters@, program_name@);
        }
        let pj = match find_key_index(&self.program_parameters[pi].1.parameters, parameter_name) {
            None => {
                return Err(Error::UnknownParameter(program_name.clone(), parameter_name.clone()));
            },
            Some(pj) => pj,
        };
        proof {
            lemma_find_key_characterization(self.program_parameters@[pi as int].1.parameters@, parameter_name@);
        }
        match &self.program_parameters[pi].1.parameters[pj].1.parameter {
            ParameterType::Continuous(c) => Ok(c.current),
            ParameterType::Discrete(_) => Err(
                Error::ParameterIsDiscrete(program_name.clone(), parameter_name.clone()),
            ),
        }
    }
}

/// Whether the values list carries the number.
fn has_value(values: &Vec<DiscreteParameterValue>, v: i32) -> (r: bool)
    ensures
        r == spec_has_value(values@, v),
{
    let n = values.len();
    let mut i: usize = 0;
    while i < n
        invariant
            n == values@.len(),
            0 <= i <= n,
            forall|j: int| 0 <= j < i ==> values@[j].value != v,
        decreases n - i,
    {
        if values[i].value == v {
            return true;
        }
        i = i + 1;
    }
    false
}

impl ParameterTable {
    /// Replaces the value of the discrete parameter at the found position.
    /// Callers have checked that the position exists, that the parameter is
    /// discrete, and that the new value is one of its possible ones.
    fn replace_discrete_current(&mut self, pi: usize, pj: usize, value: i32)
        requires
            old(self).wf(),
            pi < old(self).program_parameters@.len(),
            pj < old(self).program_parameters@[pi as int].1.parameters@.len(),
            old(self).program_parameters@[pi as int].1.parameters@[pj as int].1.parameter
                is Discrete,
            spec_has_value(
                old(self).program_parameters@[pi as int].1.parameters@[pj as int].1.parameter->Discrete_0.values@,
                value,
            ),
        ensures
            final(self).wf(),
            final(self).deltas@ == old(self).deltas@,
            final(self).program_parameters@.len() == old(self).program_parameters@.len(),
            forall|k: int|
                0 <= k < old(self).program_parameters@.len() && k != pi ==> final(self).program_parameters@[k] == old(self).program_parameters@[k],
            final(self).program_parameters@[pi as int].0 == old(self).program_parameters@[pi as int].0,
            final(self).program_parameters@[pi as int].1.parameters@.len() == old(self).program_parameters@[pi as int].1.parameters@.len(),
            forall|j: int|
                0 <= j < old(self).program_parameters@[pi as int].1.parameters@.len() && j != pj
                    ==> final(self).program_parameters@[pi as int].1.parameters@[j] == old(self).program_parameters@[pi as int].1.parameters@[j],
            ({
                let before = old(self).program_parameters@[pi as int].1.parameters@[pj as int];
                let after = final(self).program_parameters@[pi as int].1.parameters@[pj as int];
                &&& after.0 == before.0
                &&& after.1.description == before.1.description
                &&& after.1.parameter == ParameterType::Discrete(
                    DiscreteProgramParameter {
                        values: before.1.parameter->Discrete_0.values,
                        current: value,
                    },
                )
            }),
    {
        let ghost table_before = self.program_parameters@;
        let mut entry = self.program_parameters.remove(pi);
        let ghost params_before = entry.1.parameters@;
        let mut pentry = entry.1.parameters.remove(pj);
        match &mut pentry.1.parameter {
            ParameterType::Discrete(d) => {
                d.current = value;
            },
            ParameterType::Continuous(_) => {
                proof {
                    assert(false);
                }
            },
        }
        entry.1.parameters.insert(pj, pentry);
        self.program_parameters.insert(pi, entry);
        proof {
            assert(self.program_parameters@.len() == table_before.len());
            assert forall|k: int|
                0 <= k < table_before.len() && k != pi implies self.program_parameters@[k]
                == table_before[k] by {}
            assert forall|i: int, j: int|
                0 <= i < self.program_parameters@.len() && 0 <= j
                    < self.program_parameters@[i].1.parameters@.len() implies match (
            #[trigger] self.program_parameters@[i].1.parameters@[j]).1.parameter {
                ParameterType::Discrete(d) => d.wf(),
                ParameterType::Continuous(_) => true,
            } by {
                if i != pi {
                    assert(self.program_parameters@[i] == table_before[i]);
                } else if j != pj {
                    assert(self.program_parameters@[i].1.parameters@[j] == params_before[j]);
                }
            }
        }
    }

    /// Assigns a discrete parameter to one of its possible values and
    /// records the write as a delta; an unknown parameter, a continuous one,
    /// or a value the parameter cannot take is refused and nothing changes.
    pub fn set_discrete_parameter(
        &mut self,
        program_name: &String,
        parameter_name: &String,
        value: i32,
    ) -> (r: Result<(), Error>)
        requires
            old(self).wf(),
        ensures
            final(self).wf(),
            match spec_lookup_parameter(
                old(self).program_parameters@,
                program_name@,
                parameter_name@,
            ) {
                None => r == Err::<(), Error>(
                    Error::UnknownParameter(*program_name, *parameter_name),
                ) && *final(self) == *old(self),
                Some(pp) => match pp.parameter {
                    ParameterType::Continuous(_) => r == Err::<(), Error>(
                        Error::ParameterIsContinuous(*program_name, *parameter_name),
                    ) && *final(self) == *old(self),
                    ParameterType::Discrete(d) => {
                        if spec_has_value(d.values@, value) {
                            &&& r is Ok
                            &&& spec_lookup_parameter(
                                final(self).program_parameters@,
                                program_name@,
                                parameter_name@,
                            ) matches Some(pp2) && pp2.description == pp.description
                                && pp2.parameter == ParameterType::Discrete(
                                DiscreteProgramParameter { values: d.values, current: value },
                            )
                            &&& final(self).deltas@ == spec_record_delta(
                                old(self).deltas@,
                                *program_name,
                                *parameter_name,
                                ParameterDelta::Discrete(value),
                            )
                        } else {
                            &&& r == Err::<(), Error>(Error::InvalidDiscreteValue(value))
                            &&& *final(self) == *old(self)
                        }
                    },
                },
            },
    {
        let pi = match find_key_index(&self.program_parameters, program_name) {
            None => {
                return Err(Error::UnknownParameter(program_name.clone(), parameter_name.clone()));
            },
            Some(pi) => pi,
        };
        proof {
            lemma_find_key_characterization(self.program_parameters@, program_name@);
        }
        let pj = match find_key_index(&self.program_parameters[pi].1.parameters, parameter_name) {
            None => {
                return Err(Error::UnknownParameter(program_name.clone(), parameter_name.clone()));
            },
            Some(pj) => pj,
        };
        proof {
            lemma_find_key_characterization(
                self.program_parameters@[pi as int].1.parameters@,
                parameter_name@,
            );
        }
        match &self.program_parameters[pi].1.parameters[pj].1.parameter {
            ParameterType::Continuous(_) => {
                return Err(
                    Error::ParameterIsContinuous(program_name.clone(), parameter_name.clone()),
                );
            },
            ParameterType::Discrete(d) => {
                if !has_value(&d.values, value) {
                    return Err(Error::InvalidDiscreteValue(value));
                }
            },
        }
        self.replace_discrete_current(pi, pj, value);
        proof {
            lemma_find_key_characterization(self.program_parameters@, program_name@);
            assert(spec_find_key(self.program_parameters@, program_name@) == Some(pi as int));
            lemma_find_key_characterization(
                self.program_parameters@[pi as int].1.parameters@,
                parameter_name@,
            );
            assert(spec_find_key(
                self.program_parameters@[pi as int].1.parameters@,
                parameter_name@,
            ) == Some(pj as int));
        }
        record_delta(
            &mut self.deltas,
            program_name,
            parameter_name,
            ParameterDelta::Discrete(value),
        );
        Ok(())
    }
}

impl ParameterTable {
    /// Replaces the value of the continuous parameter at the found position.
    fn replace_continuous_current(&mut self, pi: usize, pj: usize, value: Fixed)
        requires
            old(self).wf(),
            pi < old(self).program_parameters@.len(),
            pj < old(self).program_parameters@[pi as int].1.parameters@.len(),
            old(self).program_parameters@[pi as int].1.parameters@[pj as int].1.parameter
                is Continuous,
        ensures
            final(self).wf(),
            final(self).deltas@ == old(self).deltas@,
            final(self).program_parameters@.len() == old(self).program_parameters@.len(),
            forall|k: int|
                0 <= k < old(self).program_parameters@.len() && k != pi ==> final(self).program_parameters@[k] == old(self).program_parameters@[k],
            final(self).program_parameters@[pi as int].0 == old(self).program_parameters@[pi as int].0,
            final(self).program_parameters@[pi as int].1.parameters@.len() == old(self).program_parameters@[pi as int].1.parameters@.len(),
            forall|j: int|
                0 <= j < old(self).program_parameters@[pi as int].1.parameters@.len() && j != pj
                    ==> final(self).program_parameters@[pi as int].1.parameters@[j] == old(self).program_parameters@[pi as int].1.parameters@[j],
            ({
                let before = old(self).program_parameters@[pi as int].1.parameters@[pj as int];
                let after = final(self).program_parameters@[pi as int].1.parameters@[pj as int];
                &&& after.0 == before.0
                &&& after.1.description == before.1.description
                &&& after.1.parameter == ParameterType::Continuous(
                    ContinuousProgramParameter {
                        lower: before.1.parameter->Continuous_0.lower,
                        upper: before.1.parameter->Continuous_0.upper,
                        current: value,
                    },
                )
            }),
    {
        let ghost table_before = self.program_parameters@;
        let mut entry = self.program_parameters.remove(pi);
        let ghost params_before = entry.1.parameters@;
        let mut pentry = entry.1.parameters.remove(pj);
        match &mut pentry.1.parameter {
            ParameterType::Continuous(c) => {
                c.current = value;
            },
            ParameterType::Discrete(_) => {
                proof {
                    assert(false);
                }
            },
        }
        entry.1.parameters.insert(pj, pentry);
        self.program_parameters.insert(pi, entry);
        proof {
            assert(self.program_parameters@.len() == table_before.len());
            assert forall|k: int|
                0 <= k < table_before.len() && k != pi implies self.program_parameters@[k]
                == table_before[k] by {}
            assert forall|i: int, j: int|
                0 <= i < self.program_parameters@.len() && 0 <= j
                    < self.program_parameters@[i].1.parameters@.len() implies match (
            #[trigger] self.program_parameters@[i].1.parameters@[j]).1.parameter {
                ParameterType::Discrete(d) => d.wf(),
                ParameterType::Continuous(_) => true,
            } by {
                if i != pi {
                    assert(self.program_parameters@[i] == table_before[i]);
                } else if j != pj {
                    assert(self.program_parameters@[i].1.parameters@[j] == params_before[j]);
                }
            }
        }
    }

    /// Assigns a continuous parameter to a value within its range and
    /// records the write as a delta; an unknown parameter, a discrete one,
    /// or a value outside the range is refused and nothing changes.
    pub fn set_continuous_parameter(
        &mut self,
        program_name: &String,
        parameter_name: &String,
        value: Fixed,
    ) -> (r: Result<(), Error>)
        requires
            old(self).wf(),
        ensures
            final(self).wf(),
            match spec_lookup_parameter(
                old(self).program_parameters@,
                program_name@,
                parameter_name@,
            ) {
                None => r == Err::<(), Error>(
                    Error::UnknownParameter(*program_name, *parameter_name),
                ) && *final(self) == *old(self),
                Some(pp) => match pp.parameter {
                    ParameterType::Discrete(_) => r == Err::<(), Error>(
                        Error::ParameterIsDiscrete(*program_name, *parameter_name),
                    ) && *final(self) == *old(self),
                    ParameterType::Continuous(c) => {
                        if c.lower.micros <= value.micros <= c.upper.micros {
                            &&& r is Ok
                            &&& spec_lookup_parameter(
                                final(self).program_parameters@,
                                program_name@,
                                parameter_name@,
                            ) matches Some(pp2) && pp2.description == pp.description
                                && pp2.parameter == ParameterType::Continuous(
                                ContinuousProgramParameter {
                                    lower: c.lower,
                                    upper: c.upper,
                                    current: value,
                                },
                            )
                            &&& final(self).deltas@ == spec_record_delta(
                                old(self).deltas@,
                                *program_name,
                                *parameter_name,
                                ParameterDelta::Continuous(value),
                            )
                        } else {
                            &&& r == Err::<(), Error>(Error::ValueOutOfRange)
                            &&& *final(self) == *old(self)
                        }
                    },
                },
            },
    {
        let pi = match find_key_index(&self.program_parameters, program_name) {
            None => {
                return Err(Error::UnknownParameter(program_name.clone(), parameter_name.clone()));
            },
            Some(pi) => pi,
        };
        proof {
            lemma_find_key_characterization(self.program_parameters@, program_name@);
        }
        let pj = match find_key_index(&self.program_parameters[pi].1.parameters, parameter_name) {
            None => {
                return Err(Error::UnknownParameter(program_name.clone(), parameter_name.clone()));
            },
            Some(pj) => pj,
        };
        proof {
            lemma_find_key_characterization(
                self.program_parameters@[pi as int].1.parameters@,
                parameter_name@,
            );
        }
        match &self.program_parameters[pi].1.parameters[pj].1.parameter {
            ParameterType::Discrete(_) => {
                return Err(
                    Error::ParameterIsDiscrete(program_name.clone(), parameter_name.clone()),
                );
            },
            ParameterType::Continuous(c) => {
                if !(c.lower.micros <= value.micros && value.micros <= c.upper.micros) {
                    return Err(Error::ValueOutOfRange);
                }
            },
        }
        self.replace_continuous_current(pi, pj, value);
        proof {
            lemma_find_key_characterization(self.program_parameters@, program_name@);
            assert(spec_find_key(self.program_parameters@, program_name@) == Some(pi as int));
            lemma_find_key_characterization(
                self.program_parameters@[pi as int].1.parameters@,
                parameter_name@,
            );
            assert(spec_find_key(
                self.program_parameters@[pi as int].1.parameters@,
                parameter_name@,
            ) == Some(pj as int));
        }
        record_delta(
            &mut self.deltas,
            program_name,
            parameter_name,
            ParameterDelta::Continuous(value),
        );
        Ok(())
    }

    /// Steps a discrete parameter by a delta, wrapped by the number of its
    /// possible values, and records the write; the stepped value must itself
    /// be one of the possible values.
    pub fn increment_discrete_parameter(
        &mut self,
        program_name: &String,
        parameter_name: &String,
        delta: i32,
    ) -> (r: Result<(), Error>)
        requires
            old(self).wf(),
            match spec_lookup_parameter(
                old(self).program_parameters@,
                program_name@,
                parameter_name@,
            ) {
                Some(pp) => match pp.parameter {
                    ParameterType::Discrete(d) => {
                        &&& d.values@.len() > 0
                        &&& d.values@.len() <= i32::MAX
                        &&& i32::MIN < d.current + delta <= i32::MAX
                    },
                    ParameterType::Continuous(_) => true,
                },
                None => true,
            },
        ensures
            final(self).wf(),
            match spec_lookup_parameter(
                old(self).program_parameters@,
                program_name@,
                parameter_name@,
            ) {
                None => r == Err::<(), Error>(
                    Error::UnknownParameter(*program_name, *parameter_name),
                ) && *final(self) == *old(self),
                Some(pp) => match pp.parameter {
                    ParameterType::Continuous(_) => r == Err::<(), Error>(
                        Error::ParameterIsContinuous(*program_name, *parameter_name),
                    ) && *final(self) == *old(self),
                    ParameterType::Discrete(d) => {
                        let stepped = spec_trunc_mod(d.current + delta, d.values@.len() as int);
                        if spec_has_value(d.values@, stepped as i32) {
                            &&& r is Ok
                            &&& spec_lookup_parameter(
                                final(self).program_parameters@,
                                program_name@,
                                parameter_name@,
                            ) matches Some(pp2) && pp2.description == pp.description
                                && pp2.parameter == ParameterType::Discrete(
                                DiscreteProgramParameter {
                                    values: d.values,
                                    current: stepped as i32,
                                },
                            )
                            &&& final(self).deltas@ == spec_record_delta(
                                old(self).deltas@,
                                *program_name,
                                *parameter_name,
                                ParameterDelta::Discrete(stepped as i32),
                            )
                        } else {
                            &&& r == Err::<(), Error>(
                                Error::InvalidDiscreteValue(stepped as i32),
                            )
                            &&& *final(self) == *old(self)
                        }
                    },
                },
            },
    {
        let pi = match find_key_index(&self.program_parameters, program_name) {
            None => {
                return Err(Error::UnknownParameter(program_name.clone(), parameter_name.clone()));
            },
            Some(pi) => pi,
        };
        proof {
            lemma_find_key_characterization(self.program_parameters@, program_name@);
        }
        let pj = match find_key_index(&self.program_parameters[pi].1.parameters, parameter_name) {
            None => {
                return Err(Error::UnknownParameter(program_name.clone(), parameter_name.clone()));
            },
            Some(pj) => pj,
        };
        proof {
            lemma_find_key_characterization(
                self.program_parameters@[pi as int].1.parameters@,
                parameter_name@,
            );
        }
        let stepped: i32 = match &self.program_parameters[pi].1.parameters[pj].1.parameter {
            ParameterType::Continuous(_) => {
                return Err(
                    Error::ParameterIsContinuous(program_name.clone(), parameter_name.clone()),
                );
            },
            ParameterType::Discrete(d) => {
                let len: i32 = d.values.len() as i32;
                let sum: i32 = d.current + delta;
                let stepped: i32 = if sum >= 0 {
                    sum % len
                } else {
                    -((-sum) % len)
                };
                if !has_value(&d.values, stepped) {
                    return Err(Error::InvalidDiscreteValue(stepped));
                }
                stepped
            },
        };
        self.replace_discrete_current(pi, pj, stepped);
        proof {
            lemma_find_key_characterization(self.program_parameters@, program_name@);
            assert(spec_find_key(self.program_parameters@, program_name@) == Some(pi as int));
            lemma_find_key_characterization(
                self.program_parameters@[pi as int].1.parameters@,
                parameter_name@,
            );
            assert(spec_find_key(
                self.program_parameters@[pi as int].1.parameters@,
                parameter_name@,
            ) == Some(pj as int));
        }
        record_delta(
            &mut self.deltas,
            program_name,
            parameter_name,
            ParameterDelta::Discrete(stepped),
        );
        Ok(())
    }
}

impl ParameterTable {
    /// Declares a discrete parameter for a program; the name must be new for
    /// that program and the initial value one of the possible ones.
    pub fn declare_discrete_parameter(
        &mut self,
        program_name: String,
        parameter_name: String,
        description: String,
        values: Vec<DiscreteParameterValue>,
        initial_value: i32,
    ) -> (r: Result<(), Error>)
        requires
            old(self).wf(),
        ensures
            final(self).wf(),
            final(self).deltas@ == old(self).deltas@,
            spec_lookup_parameter(old(self).program_parameters@, program_name@, parameter_name@)
                is Some ==> r == Err::<(), Error>(Error::DuplicateParameterName(parameter_name))
                && *final(self) == *old(self),
            spec_lookup_parameter(old(self).program_parameters@, program_name@, parameter_name@)
                is None && !spec_has_value(values@, initial_value) ==> r == Err::<(), Error>(
                Error::InvalidDiscreteValue(initial_value),
            ) && *final(self) == *old(self),
            spec_lookup_parameter(old(self).program_parameters@, program_name@, parameter_name@)
                is None && spec_has_value(values@, initial_value) ==> r is Ok
                && spec_lookup_parameter(
                final(self).program_parameters@,
                program_name@,
                parameter_name@,
            ) == Some(
                ProgramParameter {
                    description,
                    parameter: ParameterType::Discrete(
                        DiscreteProgramParameter { values, current: initial_value },
                    ),
                },
            ),
    {
        let pi = find_key_index(&self.program_parameters, &program_name);
        proof {
            lemma_find_key_characterization(self.program_parameters@, program_name@);
        }
        if let Some(pi) = pi {
            if find_key_index(&self.program_parameters[pi].1.parameters, &parameter_name).is_some() {
                proof {
                    lemma_find_key_characterization(
                        self.program_parameters@[pi as int].1.parameters@,
                        parameter_name@,
                    );
                }
                return Err(Error::DuplicateParameterName(parameter_name));
            }
            proof {
                lemma_find_key_characterization(
                    self.program_parameters@[pi as int].1.parameters@,
                    parameter_name@,
                );
            }
            if !has_value(&values, initial_value) {
                return Err(Error::InvalidDiscreteValue(initial_value));
            }
            let ghost table_before = self.program_parameters@;
            let mut entry = self.program_parameters.remove(pi);
            let ghost params_before = entry.1.parameters@;
            entry.1.parameters.push(
                (
                    parameter_name,
                    ProgramParameter {
                        description,
                        parameter: ParameterType::Discrete(
                            DiscreteProgramParameter { values, current: initial_value },
                        ),
                    },
                ),
            );
            self.program_parameters.insert(pi, entry);
            proof {
                assert(self.program_parameters@.len() == table_before.len());
                assert forall|k: int|
                    0 <= k < table_before.len() && k != pi implies self.program_parameters@[k]
                    == table_before[k] by {}
                assert forall|j: int| 0 <= j < pi implies (
                #[trigger] self.program_parameters@[j]).0@ != program_name@ by {
                    assert(self.program_parameters@[j] == table_before[j]);
                    assert(table_before[j].0@ != program_name@);
                }
                lemma_find_key_at(self.program_parameters@, program_name@, pi as int);
                assert forall|j: int| 0 <= j < params_before.len() implies (
                #[trigger] self.program_parameters@[pi as int].1.parameters@[j]).0@
                    != parameter_name@ by {
                    assert(self.program_parameters@[pi as int].1.parameters@[j]
                        == params_before[j]);
                }
                lemma_find_key_at(
                    self.program_parameters@[pi as int].1.parameters@,
                    parameter_name@,
                    params_before.len() as int,
                );
                assert forall|i: int, j: int|
                    0 <= i < self.program_parameters@.len() && 0 <= j
                        < self.program_parameters@[i].1.parameters@.len() implies match (
                #[trigger] self.program_parameters@[i].1.parameters@[j]).1.parameter {
                    ParameterType::Discrete(d) => d.wf(),
                    ParameterType::Continuous(_) => true,
                } by {
                    if i != pi {
                        assert(self.program_parameters@[i] == table_before[i]);
                    } else if j < params_before.len() {
                        assert(self.program_parameters@[i].1.parameters@[j] == params_before[j]);
                    }
                }
            }
            Ok(())
        } else {
            if !has_value(&values, initial_value) {
                return Err(Error::InvalidDiscreteValue(initial_value));
            }
            let ghost table_before = self.program_parameters@;
            let mut parameters: Vec<(String, ProgramParameter)> = Vec::new();
            parameters.push(
                (
                    parameter_name,
                    ProgramParameter {
                        description,
                        parameter: ParameterType::Discrete(
                            DiscreteProgramParameter { values, current: initial_value },
                        ),
                    },
                ),
            );
            self.program_parameters.push((program_name, ProgramParameters { parameters }));
            proof {
                assert forall|j: int| 0 <= j < table_before.len() implies (
                #[trigger] self.program_parameters@[j]).0@ != program_name@ by {
                    assert(self.program_parameters@[j] == table_before[j]);
                }
                lemma_find_key_at(
                    self.program_parameters@,
                    program_name@,
                    table_before.len() as int,
                );
                lemma_find_key_at(
                    self.program_parameters@[table_before.len() as int].1.parameters@,
                    parameter_name@,
                    0int,
                );
                assert forall|i: int, j: int|
                    0 <= i < self.program_parameters@.len() && 0 <= j
                        < self.program_parameters@[i].1.parameters@.len() implies match (
                #[trigger] self.program_parameters@[i].1.parameters@[j]).1.parameter {
                    ParameterType::Discrete(d) => d.wf(),
                    ParameterType::Continuous(_) => true,
                } by {
                    if i < table_before.len() {
                        assert(self.program_parameters@[i] == table_before[i]);
                    }
                }
            }
            Ok(())
        }
    }

    /// Declares a continuous parameter for a program; the name must be new
    /// for that program and the initial value within the range.
    pub fn declare_continuous_parameter(
        &mut self,
        program_name: String,
        parameter_name: String,
        description: String,
        lower: Fixed,
        upper: Fixed,
        initial: Fixed,
    ) -> (r: Result<(), Error>)
        requires
            old(self).wf(),
        ensures
            final(self).wf(),
            final(self).deltas@ == old(self).deltas@,
            spec_lookup_parameter(old(self).program_parameters@, program_name@, parameter_name@)
                is Some ==> r == Err::<(), Error>(Error::DuplicateParameterName(parameter_name))
                && *final(self) == *old(self),
            spec_lookup_parameter(old(self).program_parameters@, program_name@, parameter_name@)
                is None && !(lower.micros <= initial.micros <= upper.micros) ==> r == Err::<
                (),
                Error,
            >(Error::ValueOutOfRange) && *final(self) == *old(self),
            spec_lookup_parameter(old(self).program_parameters@, program_name@, parameter_name@)
                is None && lower.micros <= initial.micros <= upper.micros ==> r is Ok
                && spec_lookup_parameter(
                final(self).program_parameters@,
                program_name@,
                parameter_name@,
            ) == Some(
                ProgramParameter {
                    description,
                    parameter: ParameterType::Continuous(
                        ContinuousProgramParameter { lower, upper, current: initial },
                    ),
                },
            ),
    {
        let pi = find_key_index(&self.program_parameters, &program_name);
        proof {
            lemma_find_key_characterization(self.program_parameters@, program_name@);
        }
        if let Some(pi) = pi {
            if find_key_index(&self.program_parameters[pi].1.parameters, &parameter_name).is_some() {
                proof {
                    lemma_find_key_characterization(
                        self.program_parameters@[pi as int].1.parameters@,
                        parameter_name@,
                    );
                }
                return Err(Error::DuplicateParameterName(parameter_name));
            }
            proof {
                lemma_find_key_characterization(
                    self.program_parameters@[pi as int].1.parameters@,
                    parameter_name@,
                );
            }
            if !(lower.micros <= initial.micros && initial.micros <= upper.micros) {
                return Err(Error::ValueOutOfRange);
            }
            let ghost table_before = self.program_parameters@;
            let mut entry = self.program_parameters.remove(pi);
            let ghost params_before = entry.1.parameters@;
            entry.1.parameters.push(
                (
                    parameter_name,
                    ProgramParameter {
                        description,
                        parameter: ParameterType::Continuous(
                            ContinuousProgramParameter { lower, upper, current: initial },
                        ),
                    },
                ),
            );
            self.program_parameters.insert(pi, entry);
            proof {
                assert(self.program_parameters@.len() == table_before.len());
                assert forall|k: int|
                    0 <= k < table_before.len() && k != pi implies self.program_parameters@[k]
                    == table_before[k] by {}
                assert forall|j: int| 0 <= j < pi implies (
                #[trigger] self.program_parameters@[j]).0@ != program_name@ by {
                    assert(self.program_parameters@[j] == table_before[j]);
                    assert(table_before[j].0@ != program_name@);
                }
                lemma_find_key_at(self.program_parameters@, program_name@, pi as int);
                assert forall|j: int| 0 <= j < params_before.len() implies (
                #[trigger] self.program_parameters@[pi as int].1.parameters@[j]).0@
                    != parameter_name@ by {
                    assert(self.program_parameters@[pi as int].1.parameters@[j]
                        == params_before[j]);
                }
                lemma_find_key_at(
                    self.program_parameters@[pi as int].1.parameters@,
                    parameter_name@,
                    params_before.len() as int,
                );
                assert forall|i: int, j: int|
                    0 <= i < self.program_parameters@.len() && 0 <= j
                        < self.program_parameters@[i].1.parameters@.len() implies match (
                #[trigger] self.program_parameters@[i].1.parameters@[j]).1.parameter {
                    ParameterType::Discrete(d) => d.wf(),
                    ParameterType::Continuous(_) => true,
                } by {
                    if i != pi {
                        assert(self.program_parameters@[i] == table_before[i]);
                    } else if j < params_before.len() {
                        assert(self.program_parameters@[i].1.parameters@[j] == params_before[j]);
                    }
                }
            }
            Ok(())
        } else {
            if !(lower.micros <= initial.micros && initial.micros <= upper.micros) {
                return Err(Error::ValueOutOfRange);
            }
            let ghost table_before = self.program_parameters@;
            let mut parameters: Vec<(String, ProgramParameter)> = Vec::new();
            parameters.push(
                (
                    parameter_name,
                    ProgramParameter {
                        description,
                        parameter: ParameterType::Continuous(
                            ContinuousProgramParameter { lower, upper, current: initial },
                        ),
                    },
                ),
            );
            self.program_parameters.push((program_name, ProgramParameters { parameters }));
            proof {
                assert forall|j: int| 0 <= j < table_before.len() implies (
                #[trigger] self.program_parameters@[j]).0@ != program_name@ by {
                    assert(self.program_parameters@[j] == table_before[j]);
                }
                lemma_find_key_at(
                    self.program_parameters@,
                    program_name@,
                    table_before.len() as int,
                );
                lemma_find_key_at(
                    self.program_parameters@[table_before.len() as int].1.parameters@,
                    parameter_name@,
                    0int,
                );
                assert forall|i: int, j: int|
                    0 <= i < self.program_parameters@.len() && 0 <= j
                        < self.program_parameters@[i].1.parameters@.len() implies match (
                #[trigger] self.program_parameters@[i].1.parameters@[j]).1.parameter {
                    ParameterType::Discrete(d) => d.wf(),
                    ParameterType::Continuous(_) => true,
                } by {
                    if i < table_before.len() {
                        assert(self.program_parameters@[i] == table_before[i]);
                    }
                }
            }
            Ok(())
        }
    }
}

} // verus!
