//! The engine's error type and the text it prints.

use vstd::prelude::*;

verus! {

/// The digit character for a value below ten.
pub open spec fn spec_digit(d: int) -> char {
    if d == 0 {
        '0'
    } else if d == 1 {
        '1'
    } else if d == 2 {
        '2'
    } else if d == 3 {
        '3'
    } else if d == 4 {
        '4'
    } else if d == 5 {
        '5'
    } else if d == 6 {
        '6'
    } else if d == 7 {
        '7'
    } else if d == 8 {
        '8'
    } else {
        '9'
    }
}

/// Decimal representation of a non-negative integer, most significant digit
/// first.
pub open spec fn spec_decimal(n: int) -> Seq<char>
    recommends
        n >= 0,
    decreases n,
{
    if n < 10 {
        seq![spec_digit(n)]
    } else {
        spec_decimal(n / 10).push(spec_digit(n % 10))
    }
}

fn digit_string(d: u64) -> (r: String)
    requires
        d < 10,
    ensures
        r@ =~= seq![spec_digit(d as int)],
{
    let s: &str = if d == 0 {
        "0"
    } else if d == 1 {
        "1"
    } else if d == 2 {
        "2"
    } else if d == 3 {
        "3"
    } else if d == 4 {
        "4"
    } else if d == 5 {
        "5"
    } else if d == 6 {
        "6"
    } else if d == 7 {
        "7"
    } else if d == 8 {
        "8"
    } else {
        "9"
    };
    proof {
        reveal_strlit("0");
        reveal_strlit("1");
        reveal_strlit("2");
        reveal_strlit("3");
        reveal_strlit("4");
        reveal_strlit("5");
        reveal_strlit("6");
        reveal_strlit("7");
        reveal_strlit("8");
        reveal_strlit("9");
    }
    s.to_owned()
}

/// Prints a number in decimal.
pub fn u64_to_string(n: u64) -> (r: String)
    ensures
        r@ == spec_decimal(n as int),
    decreases n,
{
    if n < 10 {
        let r = digit_string(n);
        proof {
            assert(r@ == spec_decimal(n as int));
        }
        r
    } else {
        let high = u64_to_string(n / 10);
        let low = digit_string(n % 10);
        let r = high.concat(low.as_str());
        proof {
            assert(r@ =~= spec_decimal((n / 10) as int).push(spec_digit((n % 10) as int)));
        }
        r
    }
}

/// Everything that can go wrong while loading fixtures and programs, while
/// mutating parameters, or while running a tick.
#[derive(Clone, Debug, PartialEq, Eq)]
pub enum Error {
    /// A discrete parameter received a continuous set-request.
    ContinuousValueForDiscrete,
    /// A continuous parameter received a discrete set-request.
    DiscreteValueForContinuous,
    /// A discrete set-request named a level the parameter does not have.
    LevelNotFound,
    /// A continuous set-request lay outside the parameter's range.
    ValueOutOfRange,
    /// A continuous parameter was asked to cycle.
    ContinuousCannotBeCycled,
    /// A program asked for a priority above the allowed maximum.
    PriorityTooHigh,
    /// An alias does not exist in the universe.
    UnknownAlias(String),
    /// An address does not belong to any device of the universe.
    AddressNotInUse(u16),
    /// A program declared two parameters with the same name.
    DuplicateParameterName(String),
    /// A fixture declared or assembled two programs with the same name.
    DuplicateProgramName(String),
    /// Two fixtures carry the same name.
    DuplicateFixtureName(String),
    /// A discrete parameter was declared without levels.
    MissingLevels(String),
    /// A continuous parameter was declared with a default outside its range.
    InvalidParameterRange(String),
    /// An event subscription named an unknown event type.
    InvalidEventType(String),
    /// A named entity (program, parameter, fixture) does not exist.
    NotFound,
    /// A fixture has no programs to cycle through.
    NoPrograms,
    /// A fixture has no program that cycling may land on.
    NoCyclablePrograms,
    /// A source declared a version other than the engine's.
    SourceVersionMismatch,
    /// The script host failed while running a program.
    HostFailure(String),
    /// An event named an address the universe view does not cover.
    MissingAddress,
    /// A parameter store lookup named an unknown program or parameter.
    UnknownParameter(String, String),
    /// A parameter store operation for discrete parameters hit a continuous one.
    ParameterIsContinuous(String, String),
    /// A parameter store operation for continuous parameters hit a discrete one.
    ParameterIsDiscrete(String, String),
    /// A discrete store parameter was set to a value it does not carry.
    InvalidDiscreteValue(i32),
    /// An enable signal was not one of the three known codes.
    InvalidEnableSignal(i64),
}

/// The message each error prints.
pub open spec fn spec_message(e: Error) -> Seq<char> {
    match e {
        Error::ContinuousValueForDiscrete => "continuous value supplied to discrete parameter"@,
        Error::DiscreteValueForContinuous => "discrete value supplied to continuous parameter"@,
        Error::LevelNotFound => "level not found"@,
        Error::ValueOutOfRange => "value is out of range"@,
        Error::ContinuousCannotBeCycled => "continuous parameter can not be cycled"@,
        Error::PriorityTooHigh => "priority must be <= 20"@,
        Error::UnknownAlias(a) => "unknown alias: "@ + a@,
        Error::AddressNotInUse(a) => "address not in use: "@ + spec_decimal(a as int),
        Error::DuplicateParameterName(n) => "duplicate parameter name: "@ + n@,
        Error::DuplicateProgramName(n) => "duplicate program name: "@ + n@,
        Error::DuplicateFixtureName(n) => "duplicate fixture: "@ + n@,
        Error::MissingLevels(n) => "missing levels for discrete parameter "@ + n@,
        Error::InvalidParameterRange(n) => "parameter default out of range: "@ + n@,
        Error::InvalidEventType(t) => "invalid event type: "@ + t@,
        Error::NotFound => "not found"@,
        Error::NoPrograms => "no programs available"@,
        Error::NoCyclablePrograms => "no program available to cycle to"@,
        Error::SourceVersionMismatch => "source version mismatch"@,
        Error::HostFailure(m) => "failed to execute program: "@ + m@,
        Error::MissingAddress => "missing address"@,
        Error::UnknownParameter(prog, param) => "unknown parameter "@ + param@ + " for program "@
            + prog@,
        Error::ParameterIsContinuous(prog, param) => "parameter "@ + prog@ + " for program "@
            + param@ + " is continuous"@,
        Error::ParameterIsDiscrete(prog, param) => "parameter "@ + prog@ + " for program "@
            + param@ + " is discrete"@,
        Error::InvalidDiscreteValue(_) => "invalid value for discrete parameter"@,
        Error::InvalidEnableSignal(_) => "expected integer in [1,3]"@,
    }
}

impl Error {
    /// The message this error prints.
    pub fn message(&self) -> (r: String)
        ensures
            r@ == spec_message(*self),
    {
        match self {
            Error::ContinuousValueForDiscrete => {
                "continuous value supplied to discrete parameter".to_owned()
            },
            Error::DiscreteValueForContinuous => {
                "discrete value supplied to continuous parameter".to_owned()
            },
            Error::LevelNotFound => "level not found".to_owned(),
            Error::ValueOutOfRange => "value is out of range".to_owned(),
            Error::ContinuousCannotBeCycled => "continuous parameter can not be cycled".to_owned(),
            Error::PriorityTooHigh => "priority must be <= 20".to_owned(),
            Error::UnknownAlias(a) => "unknown alias: ".to_owned().concat(a.as_str()),
            Error::AddressNotInUse(a) => {
                let num = u64_to_string(*a as u64);
                "address not in use: ".to_owned().concat(num.as_str())
            },
            Error::DuplicateParameterName(n) => {
                "duplicate parameter name: ".to_owned().concat(n.as_str())
            },
            Error::DuplicateProgramName(n) => {
                "duplicate program name: ".to_owned().concat(n.as_str())
            },
            Error::DuplicateFixtureName(n) => "duplicate fixture: ".to_owned().concat(n.as_str()),
            Error::MissingLevels(n) => {
                "missing levels for discrete parameter ".to_owned().concat(n.as_str())
            },
            Error::InvalidParameterRange(n) => {
                "parameter default out of range: ".to_owned().concat(n.as_str())
            },
            Error::InvalidEventType(t) => "invalid event type: ".to_owned().concat(t.as_str()),
            Error::NotFound => "not found".to_owned(),
            Error::NoPrograms => "no programs available".to_owned(),
            Error::NoCyclablePrograms => "no program available to cycle to".to_owned(),
            Error::SourceVersionMismatch => "source version mismatch".to_owned(),
            Error::HostFailure(m) => "failed to execute program: ".to_owned().concat(m.as_str()),
            Error::MissingAddress => "missing address".to_owned(),
            Error::UnknownParameter(prog, param) => {
                "unknown parameter ".to_owned().concat(param.as_str()).concat(
                    " for program ",
                ).concat(prog.as_str())
            },
            Error::ParameterIsContinuous(prog, param) => {
                "parameter ".to_owned().concat(prog.as_str()).concat(" for program ").concat(
                    param.as_str(),
                ).concat(" is continuous")
            },
            Error::ParameterIsDiscrete(prog, param) => {
                "parameter ".to_owned().concat(prog.as_str()).concat(" for program ").concat(
                    param.as_str(),
                ).concat(" is discrete")
            },
            Error::InvalidDiscreteValue(_) => "invalid value for discrete parameter".to_owned(),
            Error::InvalidEnableSignal(_) => "expected integer in [1,3]".to_owned(),
        }
    }
}

} // verus!
