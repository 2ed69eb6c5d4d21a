use kaleidoscope::error::Error;
use kaleidoscope::store::{
    DiscreteParameterValue, DiscreteProgramParameter, ParameterDelta, ParameterTable,
    ProgramEnableDelta,
};
use kaleidoscope::values::Fixed;

fn values(vs: &[(&str, i32)]) -> Vec<DiscreteParameterValue> {
    vs.iter()
        .map(|(label, value)| DiscreteParameterValue { label: label.to_string(), value: *value })
        .collect()
}

#[test]
fn try_set_accepts_only_possible_values() {
    let mut p = DiscreteProgramParameter {
        values: values(&[("off", 0), ("half", 5), ("full", 10)]),
        current: 0,
    };
    assert_eq!(p.try_set(5), Ok(5));
    assert_eq!(p.current, 5);
    assert_eq!(p.try_set(7), Err(Error::InvalidDiscreteValue(7)));
    assert_eq!(p.current, 5);
}

#[test]
fn try_inc_by_wraps_by_the_number_of_values() {
    let mut p = DiscreteProgramParameter {
        values: values(&[("a", 0), ("b", 1), ("c", 2)]),
        current: 2,
    };
    assert_eq!(p.try_inc_by(1), Ok(0));
    assert_eq!(p.current, 0);
    assert_eq!(p.try_inc_by(2), Ok(2));
    assert_eq!(p.current, 2);
}

#[test]
fn try_inc_by_can_step_outside_the_possible_values() {
    // wrapping uses the count of values, so a gap in the values can be hit
    let mut p = DiscreteProgramParameter {
        values: values(&[("a", 0), ("b", 5)]),
        current: 0,
    };
    assert_eq!(p.try_inc_by(1), Err(Error::InvalidDiscreteValue(1)));
    assert_eq!(p.current, 0);
}

#[test]
fn store_declares_sets_and_reads_parameters() {
    let mut t = ParameterTable::new();
    t.declare_discrete_parameter(
        "lamp".to_string(),
        "mode".to_string(),
        "lamp mode".to_string(),
        values(&[("off", 0), ("on", 1)]),
        0,
    )
    .unwrap();
    t.declare_continuous_parameter(
        "lamp".to_string(),
        "level".to_string(),
        "brightness".to_string(),
        Fixed { micros: 0 },
        Fixed { micros: 1_000_000 },
        Fixed { micros: 250_000 },
    )
    .unwrap();
    assert_eq!(
        t.get_discrete_parameter_value(&"lamp".to_string(), &"mode".to_string()),
        Ok(0)
    );
    assert_eq!(
        t.get_continuous_parameter_value(&"lamp".to_string(), &"level".to_string()),
        Ok(Fixed { micros: 250_000 })
    );
    t.set_discrete_parameter(&"lamp".to_string(), &"mode".to_string(), 1).unwrap();
    t.set_continuous_parameter(
        &"lamp".to_string(),
        &"level".to_string(),
        Fixed { micros: 900_000 },
    )
    .unwrap();
    assert_eq!(
        t.get_discrete_parameter_value(&"lamp".to_string(), &"mode".to_string()),
        Ok(1)
    );
    assert_eq!(
        t.get_continuous_parameter_value(&"lamp".to_string(), &"level".to_string()),
        Ok(Fixed { micros: 900_000 })
    );
}

#[test]
fn store_records_the_latest_delta_per_parameter() {
    let mut t = ParameterTable::new();
    t.declare_continuous_parameter(
        "lamp".to_string(),
        "level".to_string(),
        "brightness".to_string(),
        Fixed { micros: 0 },
        Fixed { micros: 1_000_000 },
        Fixed { micros: 0 },
    )
    .unwrap();
    t.set_continuous_parameter(&"lamp".to_string(), &"level".to_string(), Fixed { micros: 1 })
        .unwrap();
    t.set_continuous_parameter(&"lamp".to_string(), &"level".to_string(), Fixed { micros: 2 })
        .unwrap();
    let deltas = t.get_deltas();
    assert_eq!(
        deltas,
        vec![(
            "lamp".to_string(),
            "level".to_string(),
            ParameterDelta::Continuous(Fixed { micros: 2 })
        )]
    );
    assert_eq!(t.get_deltas(), vec![]);
}

#[test]
fn store_refuses_wrong_kind_and_unknown_names() {
    let mut t = ParameterTable::new();
    t.declare_continuous_parameter(
        "lamp".to_string(),
        "level".to_string(),
        "brightness".to_string(),
        Fixed { micros: 0 },
        Fixed { micros: 1_000_000 },
        Fixed { micros: 0 },
    )
    .unwrap();
    assert_eq!(
        t.set_discrete_parameter(&"lamp".to_string(), &"level".to_string(), 1),
        Err(Error::ParameterIsContinuous("lamp".to_string(), "level".to_string()))
    );
    assert_eq!(
        t.get_discrete_parameter_value(&"lamp".to_string(), &"ghost".to_string()),
        Err(Error::UnknownParameter("lamp".to_string(), "ghost".to_string()))
    );
    assert_eq!(
        t.declare_continuous_parameter(
            "lamp".to_string(),
            "level".to_string(),
            "again".to_string(),
            Fixed { micros: 0 },
            Fixed { micros: 1 },
            Fixed { micros: 0 },
        ),
        Err(Error::DuplicateParameterName("level".to_string()))
    );
    assert_eq!(
        t.set_continuous_parameter(
            &"lamp".to_string(),
            &"level".to_string(),
            Fixed { micros: 2_000_000 },
        ),
        Err(Error::ValueOutOfRange)
    );
}

#[test]
fn enable_signals_decode_exactly() {
    assert_eq!(ProgramEnableDelta::from_signal(1), Ok(ProgramEnableDelta::Enable));
    assert_eq!(ProgramEnableDelta::from_signal(2), Ok(ProgramEnableDelta::Disable));
    assert_eq!(ProgramEnableDelta::from_signal(3), Ok(ProgramEnableDelta::Toggle));
    assert_eq!(
        ProgramEnableDelta::from_signal(0),
        Err(Error::InvalidEnableSignal(0))
    );
    assert_eq!(
        ProgramEnableDelta::from_signal(4),
        Err(Error::InvalidEnableSignal(4))
    );
}
