use kaleidoscope::error::Error;
use kaleidoscope::parameters::{
    FixtureProgramParameter, FixtureProgramParameterDiscreteLevel, FixtureProgramParameterType,
    ParameterSetRequest,
};
use kaleidoscope::values::Fixed;

fn level(name: &str) -> FixtureProgramParameterDiscreteLevel {
    FixtureProgramParameterDiscreteLevel {
        name: name.to_string(),
        description: format!("level {}", name),
    }
}

fn discrete3() -> FixtureProgramParameterType {
    FixtureProgramParameterType::Discrete {
        levels: vec![level("L0"), level("L1"), level("L2")],
        current_index: 0,
    }
}

fn continuous(lower: i64, upper: i64, current: i64) -> FixtureProgramParameterType {
    FixtureProgramParameterType::Continuous {
        lower_limit_incl: Fixed { micros: lower },
        upper_limit_incl: Fixed { micros: upper },
        current: Fixed { micros: current },
    }
}

#[test]
fn discrete_cycle_three_times_round_trips() {
    let mut p = discrete3();
    assert_eq!(p.cycle().unwrap(), "L1");
    assert_eq!(p.cycle().unwrap(), "L2");
    assert_eq!(p.cycle().unwrap(), "L0");
    match p {
        FixtureProgramParameterType::Discrete { current_index, .. } => {
            assert_eq!(current_index, 0)
        }
        _ => panic!("parameter changed kind"),
    }
}

#[test]
fn continuous_set_then_read_returns_exactly() {
    let mut p = continuous(0, 1_000_000, 0);
    let x = Fixed { micros: 437_531 };
    p.set(&ParameterSetRequest::Continuous { value: x }).unwrap();
    match p {
        FixtureProgramParameterType::Continuous { current, .. } => assert_eq!(current, x),
        _ => panic!("parameter changed kind"),
    }
}

#[test]
fn continuous_set_out_of_range_is_refused() {
    let mut p = continuous(0, 1_000_000, 500_000);
    let r = p.set(&ParameterSetRequest::Continuous { value: Fixed { micros: 1_000_001 } });
    assert_eq!(r, Err(Error::ValueOutOfRange));
    match p {
        FixtureProgramParameterType::Continuous { current, .. } => {
            assert_eq!(current.micros, 500_000)
        }
        _ => panic!("parameter changed kind"),
    }
}

#[test]
fn discrete_set_unknown_level_is_refused() {
    let mut p = discrete3();
    let r = p.set(&ParameterSetRequest::Discrete { level: "L9".to_string() });
    assert_eq!(r, Err(Error::LevelNotFound));
}

#[test]
fn discrete_set_finds_level_by_name() {
    let mut p = discrete3();
    p.set(&ParameterSetRequest::Discrete { level: "L2".to_string() }).unwrap();
    match p {
        FixtureProgramParameterType::Discrete { current_index, .. } => {
            assert_eq!(current_index, 2)
        }
        _ => panic!("parameter changed kind"),
    }
}

#[test]
fn type_mismatch_is_refused_both_ways() {
    let mut d = discrete3();
    assert_eq!(
        d.set(&ParameterSetRequest::Continuous { value: Fixed { micros: 0 } }),
        Err(Error::ContinuousValueForDiscrete)
    );
    let mut c = continuous(0, 1_000_000, 0);
    assert_eq!(
        c.set(&ParameterSetRequest::Discrete { level: "L0".to_string() }),
        Err(Error::DiscreteValueForContinuous)
    );
}

#[test]
fn continuous_cannot_be_cycled() {
    let mut c = continuous(0, 1_000_000, 0);
    let r = c.cycle();
    assert_eq!(r, Err(Error::ContinuousCannotBeCycled));
    assert_eq!(
        Error::ContinuousCannotBeCycled.message(),
        "continuous parameter can not be cycled"
    );
}

#[test]
fn named_parameter_keeps_its_name_through_mutation() {
    let mut p = FixtureProgramParameter { name: "speed".to_string(), value: discrete3() };
    p.cycle().unwrap();
    assert_eq!(p.name, "speed");
}
