//! Snapshots the control surface reads: cloned descriptions of fixtures,
//! their programs and their parameters.

use vstd::prelude::*;

use crate::fixture::{Fixture, FixtureProgram, FixtureProgramType};
use crate::parameters::{FixtureProgramParameter, FixtureProgramParameterType};
use crate::runtime::Runtime;
use crate::values::Fixed;

verus! {

/// A parameter as the control surface sees it: for a discrete parameter its
/// levels with their descriptions and the current level's name, for a
/// continuous one its range and current value.
#[derive(Debug, PartialEq, Eq)]
pub enum ParameterMetadata {
    Discrete { levels: Vec<(String, String)>, current_level: String },
    Continuous { lower_limit_incl: Fixed, upper_limit_incl: Fixed, current: Fixed },
}

/// A program as the control surface sees it: its parameters by name.
#[derive(Debug, PartialEq, Eq)]
pub struct ProgramMetadata {
    pub parameters: Vec<(String, ParameterMetadata)>,
}

/// A fixture as the control surface sees it.
#[derive(Debug, PartialEq, Eq)]
pub struct FixtureMetadata {
    pub programs: Vec<(String, ProgramMetadata)>,
    pub selected_program: String,
}

/// The whole engine as the control surface sees it.
#[derive(Debug, PartialEq, Eq)]
pub struct KaleidoscopeMetadata {
    pub fixtures: Vec<(String, FixtureMetadata)>,
}

impl FixtureProgramParameter {
    /// The parameter's snapshot.
    pub fn metadata(&self) -> (r: ParameterMetadata)
        requires
            self.wf(),
        ensures
            match self.value {
                FixtureProgramParameterType::Discrete { levels, current_index } => r matches ParameterMetadata::Discrete {
                    levels: ls,
                    current_level,
                } && {
                    &&& current_level == levels@[current_index as int].name
                    &&& ls@.len() == levels@.len()
                    &&& forall|i: int|
                        0 <= i < levels@.len() ==> #[trigger] ls@[i] == (
                        levels@[i].name,
                        levels@[i].description,
                        )
                },
                FixtureProgramParameterType::Continuous {
                    lower_limit_incl,
                    upper_limit_incl,
                    current,
                } => r == (ParameterMetadata::Continuous {
                    lower_limit_incl,
                    upper_limit_incl,
                    current,
                }),
            },
    {
        match &self.value {
            FixtureProgramParameterType::Discrete { levels, current_index } => {
                let n = levels.len();
                let mut ls: Vec<(String, String)> = Vec::new();
                let mut i: usize = 0;
                while i < n
                    invariant
                        n == levels@.len(),
                        0 <= i <= n,
                        ls@.len() == i,
                        forall|j: int|
                            0 <= j < i ==> #[trigger] ls@[j] == (
                            levels@[j].name,
                            levels@[j].description,
                            ),
                    decreases n - i,
                {
                    ls.push((levels[i].name.clone(), levels[i].description.clone()));
                    i = i + 1;
                }
                ParameterMetadata::Discrete {
                    levels: ls,
                    current_level: levels[*current_index].name.clone(),
                }
            },
            FixtureProgramParameterType::Continuous {
                lower_limit_incl,
                upper_limit_incl,
                current,
            } => ParameterMetadata::Continuous {
                lower_limit_incl: *lower_limit_incl,
                upper_limit_incl: *upper_limit_incl,
                current: *current,
            },
        }
    }
}

impl FixtureProgram {
    /// The program's snapshot: one entry per parameter, in declaration
    /// order; bundled constant and external programs have none.
    pub fn metadata(&self) -> (r: ProgramMetadata)
        requires
            self.wf(),
        ensures
            r.parameters@.len() == self.spec_parameters().len(),
            forall|i: int|
                0 <= i < self.spec_parameters().len() ==> (#[trigger] r.parameters@[i]).0
                    == self.spec_parameters()[i].name,
    {
        let params: &Vec<FixtureProgramParameter> = match &self.inner {
            FixtureProgramType::BundledManual(m) => &m.parameters,
            FixtureProgramType::Scripted(s) => &s.parameters,
            FixtureProgramType::BundledConstant(_) => {
                return ProgramMetadata { parameters: Vec::new() };
            },
            FixtureProgramType::External => {
                return ProgramMetadata { parameters: Vec::new() };
            },
        };
        let n = params.len();
        let mut out: Vec<(String, ParameterMetadata)> = Vec::new();
        let mut i: usize = 0;
        while i < n
            invariant
                n == params@.len(),
                params@ == self.spec_parameters(),
                self.wf(),
                0 <= i <= n,
                out@.len() == i,
                forall|j: int| 0 <= j < i ==> (#[trigger] out@[j]).0 == params@[j].name,
            decreases n - i,
        {
            proof {
                assert(match self.inner {
                    FixtureProgramType::BundledManual(m) => m.wf(),
                    FixtureProgramType::Scripted(s) => s.wf(),
                    _ => true,
                });
                assert(params@[i as int].wf());
            }
            let md = params[i].metadata();
            out.push((params[i].name.clone(), md));
            i = i + 1;
        }
        ProgramMetadata { parameters: out }
    }
}

impl Fixture {
    /// The fixture's snapshot: each program's metadata by name, and the name
    /// of the active program.
    pub fn metadata(&self) -> (r: FixtureMetadata)
        requires
            self.wf(),
        ensures
            r.programs@.len() == self.programs@.len(),
            forall|i: int|
                0 <= i < self.programs@.len() ==> (#[trigger] r.programs@[i]).0
                    == self.programs@[i].name,
            r.selected_program == self.programs@[self.current_program_index as int].name,
    {
        let n = self.programs.len();
        let mut out: Vec<(String, ProgramMetadata)> = Vec::new();
        let mut i: usize = 0;
        while i < n
            invariant
                n == self.programs@.len(),
                self.wf(),
                0 <= i <= n,
                out@.len() == i,
                forall|j: int| 0 <= j < i ==> (#[trigger] out@[j]).0 == self.programs@[j].name,
            decreases n - i,
        {
            let md = self.programs[i].metadata();
            out.push((self.programs[i].name.clone(), md));
            i = i + 1;
        }
        FixtureMetadata {
            programs: out,
            selected_program: self.programs[self.current_program_index].name.clone(),
        }
    }
}

impl Runtime {
    /// The engine's snapshot: each fixture's metadata by name.
    pub fn metadata(&self) -> (r: KaleidoscopeMetadata)
        requires
            self.wf(),
        ensures
            r.fixtures@.len() == self.fixtures@.len(),
            forall|i: int|
                0 <= i < self.fixtures@.len() ==> (#[trigger] r.fixtures@[i]).0
                    == self.fixtures@[i].name,
    {
        let n = self.fixtures.len();
        let mut out: Vec<(String, FixtureMetadata)> = Vec::new();
        let mut i: usize = 0;
        while i < n
            invariant
                n == self.fixtures@.len(),
                self.wf(),
                0 <= i <= n,
                out@.len() == i,
                forall|j: int| 0 <= j < i ==> (#[trigger] out@[j]).0 == self.fixtures@[j].name,
            decreases n - i,
        {
            let md = self.fixtures[i].metadata();
            out.push((self.fixtures[i].name.clone(), md));
            i = i + 1;
        }
        KaleidoscopeMetadata { fixtures: out }
    }
}

} // verus!
