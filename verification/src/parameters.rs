//! Typed program parameters: continuous values in a range, and discrete
//! values over named levels.

use vstd::prelude::*;

use crate::error::Error;
use crate::values::Fixed;

verus! {

/// One level of a discrete parameter.
#[derive(Clone, Debug, PartialEq, Eq)]
pub struct FixtureProgramParameterDiscreteLevel {
    pub name: String,
    pub description: String,
}

/// The value of a program parameter: either discrete over named levels, or
/// continuous within an inclusive range.
#[derive(Clone, Debug, PartialEq, Eq)]
pub enum FixtureProgramParameterType {
    Discrete {
        levels: Vec<FixtureProgramParameterDiscreteLevel>,
        current_index: usize,
    },
    Continuous {
        lower_limit_incl: Fixed,
        upper_limit_incl: Fixed,
        current: Fixed,
    },
}

/// A request to assign a parameter, as the control surface hands it in.
#[derive(Clone, Debug, PartialEq, Eq)]
pub enum ParameterSetRequest {
    Continuous { value: Fixed },
    Discrete { level: String },
}

/// Index of the first level carrying the name, if any.
pub open spec fn spec_find_level(
    levels: Seq<FixtureProgramParameterDiscreteLevel>,
    level: Seq<char>,
) -> Option<int>
    decreases levels.len(),
{
    if levels.len() == 0 {
        None
    } else if levels[0].name@ == level {
        Some(0int)
    } else {
        match spec_find_level(levels.drop_first(), level) {
            Some(i) => Some(i + 1),
            None => None,
        }
    }
}

/// The first matching level is a match, earlier levels are not, and where
/// none is found no level matches.
pub proof fn lemma_find_level_characterization(
    levels: Seq<FixtureProgramParameterDiscreteLevel>,
    level: Seq<char>,
)
    ensures
        match spec_find_level(levels, level) {
            Some(i) => 0 <= i < levels.len() && levels[i].name@ == level && forall|j: int|
                0 <= j < i ==> levels[j].name@ != level,
            None => forall|j: int| 0 <= j < levels.len() ==> levels[j].name@ != level,
        },
    decreases levels.len(),
{
    if levels.len() > 0 && levels[0].name@ != level {
        lemma_find_level_characterization(levels.drop_first(), level);
        assert forall|j: int|
            1 <= j < levels.len() implies levels[j] == levels.drop_first()[j - 1] by {}
    }
}

/// What a set-request does to a parameter value, and what it reports.
pub open spec fn spec_set(
    v: FixtureProgramParameterType,
    to: ParameterSetRequest,
) -> (FixtureProgramParameterType, Result<(), Error>) {
    match v {
        FixtureProgramParameterType::Discrete { levels, current_index } => match to {
            ParameterSetRequest::Discrete { level } => match spec_find_level(levels@, level@) {
                Some(i) => (
                    FixtureProgramParameterType::Discrete {
                        levels,
                        current_index: i as usize,
                    },
                    Ok(()),
                ),
                None => (v, Err(Error::LevelNotFound)),
            },
            ParameterSetRequest::Continuous { .. } => (v, Err(Error::ContinuousValueForDiscrete)),
        },
        FixtureProgramParameterType::Continuous {
            lower_limit_incl,
            upper_limit_incl,
            current,
        } => match to {
            ParameterSetRequest::Continuous { value } => {
                if lower_limit_incl.micros <= value.micros <= upper_limit_incl.micros {
                    (
                        FixtureProgramParameterType::Continuous {
                            lower_limit_incl,
                            upper_limit_incl,
                            current: value,
                        },
                        Ok(()),
                    )
                } else {
                    (v, Err(Error::ValueOutOfRange))
                }
            },
            ParameterSetRequest::Discrete { .. } => (v, Err(Error::DiscreteValueForContinuous)),
        },
    }
}

/// What a cycle does to a parameter value, and what it returns: the next
/// level's name, wrapping around.
pub open spec fn spec_cycle(v: FixtureProgramParameterType) -> (
    FixtureProgramParameterType,
    Result<String, Error>,
) {
    match v {
        FixtureProgramParameterType::Continuous { .. } => (
            v,
            Err(Error::ContinuousCannotBeCycled),
        ),
        FixtureProgramParameterType::Discrete { levels, current_index } => {
            let next = ((current_index + 1) % (levels@.len() as int)) as usize;
            (
                FixtureProgramParameterType::Discrete { levels, current_index: next },
                Ok(levels@[next as int].name),
            )
        },
    }
}

/// Position of the first level with the given name, if any.
fn find_level_index(
    levels: &Vec<FixtureProgramParameterDiscreteLevel>,
    level: &String,
) -> (r: Option<usize>)
    ensures
        match r {
            Some(i) => {
                &&& i < levels@.len()
                &&& levels@[i as int].name@ == level@
                &&& forall|j: int| 0 <= j < i ==> levels@[j].name@ != level@
            },
            None => forall|j: int| 0 <= j < levels@.len() ==> levels@[j].name@ != level@,
        },
{
    let n = levels.len();
    let mut i: usize = 0;
    while i < n
        invariant
            n == levels@.len(),
            0 <= i <= n,
            forall|j: int| 0 <= j < i ==> levels@[j].name@ != level@,
        decreases n - i,
    {
        if levels[i].name == *level {
            return Some(i);
        }
        i = i + 1;
    }
    None
}

impl FixtureProgramParameterType {
    /// The levels of a discrete parameter.
    pub open spec fn spec_levels(self) -> Seq<FixtureProgramParameterDiscreteLevel>
        recommends
            self is Discrete,
    {
        match self {
            FixtureProgramParameterType::Discrete { levels, .. } => levels@,
            FixtureProgramParameterType::Continuous { .. } => Seq::empty(),
        }
    }

    /// The current level index of a discrete parameter.
    pub open spec fn spec_index(self) -> int
        recommends
            self is Discrete,
    {
        match self {
            FixtureProgramParameterType::Discrete { current_index, .. } => current_index as int,
            FixtureProgramParameterType::Continuous { .. } => 0,
        }
    }

    /// The lower bound of a continuous parameter, in micro-units.
    pub open spec fn spec_lower(self) -> int
        recommends
            self is Continuous,
    {
        match self {
            FixtureProgramParameterType::Continuous { lower_limit_incl, .. } => (
            lower_limit_incl.micros as int),
            FixtureProgramParameterType::Discrete { .. } => 0,
        }
    }

    /// The upper bound of a continuous parameter, in micro-units.
    pub open spec fn spec_upper(self) -> int
        recommends
            self is Continuous,
    {
        match self {
            FixtureProgramParameterType::Continuous { upper_limit_incl, .. } => (
            upper_limit_incl.micros as int),
            FixtureProgramParameterType::Discrete { .. } => 0,
        }
    }

    /// The current value of a continuous parameter, in micro-units.
    pub open spec fn spec_current(self) -> int
        recommends
            self is Continuous,
    {
        match self {
            FixtureProgramParameterType::Continuous { current, .. } => current.micros as int,
            FixtureProgramParameterType::Discrete { .. } => 0,
        }
    }

    /// Well-formedness: a discrete parameter has at least one level and its
    /// index points at one of them; a continuous parameter's current value
    /// lies within its inclusive range.
    pub open spec fn wf(self) -> bool {
        match self {
            FixtureProgramParameterType::Discrete { levels, current_index } => levels@.len() > 0
                && current_index < levels@.len(),
            FixtureProgramParameterType::Continuous {
                lower_limit_incl,
                upper_limit_incl,
                current,
            } => lower_limit_incl.micros <= current.micros <= upper_limit_incl.micros,
        }
    }

    /// Assigns the parameter. A discrete parameter takes the named level if
    /// it exists; a continuous parameter takes the value if it lies within
    /// the range. A request of the other kind, an unknown level, or a value
    /// out of range leaves the parameter unchanged and reports why.
    pub fn set(&mut self, to: &ParameterSetRequest) -> (r: Result<(), Error>)
        requires
            old(self).wf(),
        ensures
            final(self).wf(),
            *final(self) == spec_set(*old(self), *to).0,
            r == spec_set(*old(self), *to).1,
    {
        match self {
            FixtureProgramParameterType::Discrete { levels, current_index } => {
                match to {
                    ParameterSetRequest::Discrete { level } => {
                        match find_level_index(levels, level) {
                            Some(i) => {
                                *current_index = i;
                                proof {
                                    lemma_find_level_characterization(levels@, level@);
                                    assert(spec_find_level(levels@, level@) == Some(i as int));
                                }
                                Ok(())
                            },
                            None => {
                                proof {
                                    lemma_find_level_characterization(levels@, level@);
                                    assert(spec_find_level(levels@, level@) is None);
                                }
                                Err(Error::LevelNotFound)
                            },
                        }
                    },
                    ParameterSetRequest::Continuous { .. } => Err(
                        Error::ContinuousValueForDiscrete,
                    ),
                }
            },
            FixtureProgramParameterType::Continuous {
                lower_limit_incl,
                upper_limit_incl,
                current,
            } => {
                match to {
                    ParameterSetRequest::Continuous { value } => {
                        if lower_limit_incl.micros <= value.micros && value.micros
                            <= upper_limit_incl.micros {
                            *current = *value;
                            Ok(())
                        } else {
                            Err(Error::ValueOutOfRange)
                        }
                    },
                    ParameterSetRequest::Discrete { .. } => Err(Error::DiscreteValueForContinuous),
                }
            },
        }
    }

    /// Advances a discrete parameter to its next level, wrapping around, and
    /// returns the new level's name. A continuous parameter cannot be cycled.
    pub fn cycle(&mut self) -> (r: Result<String, Error>)
        requires
            old(self).wf(),
        ensures
            final(self).wf(),
            *final(self) == spec_cycle(*old(self)).0,
            r == spec_cycle(*old(self)).1,
    {
        match self {
            FixtureProgramParameterType::Continuous { .. } => Err(Error::ContinuousCannotBeCycled),
            FixtureProgramParameterType::Discrete { levels, current_index } => {
                let n = levels.len();
                proof {
                    assert(*current_index < n);
                }
                *current_index = (*current_index + 1) % n;
                Ok(levels[*current_index].name.clone())
            },
        }
    }
}

/// A named parameter of a program.
#[derive(Clone, Debug, PartialEq, Eq)]
pub struct FixtureProgramParameter {
    pub name: String,
    pub value: FixtureProgramParameterType,
}

impl FixtureProgramParameter {
    /// Well-formedness of the carried value.
    pub open spec fn wf(self) -> bool {
        self.value.wf()
    }

    /// Assigns the parameter's value. See
    /// [`FixtureProgramParameterType::set`].
    pub fn set(&mut self, to: &ParameterSetRequest) -> (r: Result<(), Error>)
        requires
            old(self).wf(),
        ensures
            final(self).wf(),
            final(self).name == old(self).name,
            final(self).value == spec_set(old(self).value, *to).0,
            r == spec_set(old(self).value, *to).1,
    {
        self.value.set(to)
    }

    /// Cycles the parameter's value. See
    /// [`FixtureProgramParameterType::cycle`].
    pub fn cycle(&mut self) -> (r: Result<String, Error>)
        requires
            old(self).wf(),
        ensures
            final(self).wf(),
            final(self).name == old(self).name,
            final(self).value == spec_cycle(old(self).value).0,
            r == spec_cycle(old(self).value).1,
    {
        self.value.cycle()
    }
}

/// A continuous parameter stays within its inclusive range: whatever a
/// set-request does, the current value afterwards lies between the bounds,
/// and the bounds themselves never move.
pub proof fn lemma_continuous_stays_in_range(v: FixtureProgramParameterType, to: ParameterSetRequest)
    requires
        v is Continuous,
        v.wf(),
    ensures
        spec_set(v, to).0 is Continuous,
        spec_set(v, to).0.spec_lower() == v.spec_lower(),
        spec_set(v, to).0.spec_upper() == v.spec_upper(),
        spec_set(v, to).0.spec_lower() <= spec_set(v, to).0.spec_current() <= spec_set(
            v,
            to,
        ).0.spec_upper(),
{
}

/// A discrete parameter's index always points at one of its levels: whatever
/// a set-request or a cycle does, the index afterwards is within the levels,
/// and the levels themselves never change.
pub proof fn lemma_discrete_index_stays_valid(
    v: FixtureProgramParameterType,
    to: ParameterSetRequest,
)
    requires
        v is Discrete,
        v.wf(),
    ensures
        spec_set(v, to).0 is Discrete,
        spec_set(v, to).0.spec_levels() == v.spec_levels(),
        0 <= spec_set(v, to).0.spec_index() < v.spec_levels().len(),
        spec_cycle(v).0 is Discrete,
        spec_cycle(v).0.spec_levels() == v.spec_levels(),
        0 <= spec_cycle(v).0.spec_index() < v.spec_levels().len(),
{
    match v {
        FixtureProgramParameterType::Discrete { levels, current_index } => {
            match to {
                ParameterSetRequest::Discrete { level } => {
                    lemma_find_level_characterization(levels@, level@);
                },
                ParameterSetRequest::Continuous { .. } => {},
            }
        },
        FixtureProgramParameterType::Continuous { .. } => {},
    }
}

/// Setting a continuous parameter to a value within its range succeeds, and
/// reading it afterwards returns exactly that value.
pub proof fn lemma_continuous_set_round_trip(v: FixtureProgramParameterType, x: Fixed)
    requires
        v is Continuous,
        v.wf(),
        v.spec_lower() <= x.micros <= v.spec_upper(),
    ensures
        spec_set(v, ParameterSetRequest::Continuous { value: x }).1 == Ok::<(), Error>(()),
        spec_set(v, ParameterSetRequest::Continuous { value: x }).0.spec_current() == x.micros,
        spec_set(v, ParameterSetRequest::Continuous { value: x }).0.spec_lower() == v.spec_lower(),
        spec_set(v, ParameterSetRequest::Continuous { value: x }).0.spec_upper() == v.spec_upper(),
{
}

/// Cycling a discrete parameter with three levels three times, starting at
/// the first, returns the second, third and first level's names in turn and
/// leaves the parameter back at the first level.
pub proof fn lemma_discrete_cycle_round_trip(v: FixtureProgramParameterType)
    requires
        v is Discrete,
        v.wf(),
        v.spec_levels().len() == 3,
        v.spec_index() == 0,
    ensures
        ({
            let (v1, r1) = spec_cycle(v);
            let (v2, r2) = spec_cycle(v1);
            let (v3, r3) = spec_cycle(v2);
            &&& r1 == Ok::<String, Error>(v.spec_levels()[1].name)
            &&& r2 == Ok::<String, Error>(v.spec_levels()[2].name)
            &&& r3 == Ok::<String, Error>(v.spec_levels()[0].name)
            &&& v3.spec_levels() == v.spec_levels()
            &&& v3.spec_index() == 0
        }),
{
    vstd::arithmetic::div_mod::lemma_small_mod(1nat, 3nat);
    vstd::arithmetic::div_mod::lemma_small_mod(2nat, 3nat);
    vstd::arithmetic::div_mod::lemma_mod_self_0(3int);
    let (v1, r1) = spec_cycle(v);
    assert(v1.spec_index() == 1);
    let (v2, r2) = spec_cycle(v1);
    assert(v2.spec_index() == 2);
    let (v3, r3) = spec_cycle(v2);
    assert(v3.spec_index() == 0);
}

} // verus!
