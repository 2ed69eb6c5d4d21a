use kaleidoscope::error::Error;
use kaleidoscope::event::{AddressedEvent, ButtonEvent, Event, EventKind, InputValue};
use kaleidoscope::fixture::{Fixture, FixtureSetupBuilder};
use kaleidoscope::parameters::{
    FixtureProgramParameter, FixtureProgramParameterDiscreteLevel, FixtureProgramParameterType,
    ParameterSetRequest,
};
use kaleidoscope::programs::{
    BindingValue, HostTickOutcome, ProgramSetupBuilder, ScriptedFixtureProgram, SetRequest,
};
use kaleidoscope::runtime::Runtime;
use kaleidoscope::universe::AliasTable;
use kaleidoscope::values::Fixed;

fn table(pairs: &[(&str, u16)]) -> AliasTable {
    AliasTable {
        pairs: pairs.iter().map(|(a, n)| (a.to_string(), *n)).collect(),
    }
}

fn set_request(value: u16, target: u16) -> SetRequest {
    SetRequest { value, target }
}

/// Builds a fixture named `f` over the given output aliases; scripted
/// programs are appended after the bundled ones.
fn fixture_with(
    aliases: &[(&str, u16)],
    scripted: Vec<(String, ScriptedFixtureProgram)>,
) -> Fixture {
    let mut setup = FixtureSetupBuilder::new(table(aliases));
    setup.fixture_name("f".to_string());
    for (_, addr) in aliases {
        setup.add_output_address(*addr).unwrap();
    }
    Fixture::assemble(setup, "f.lua".to_string(), scripted).unwrap()
}

fn scripted_program(
    aliases: &[(&str, u16)],
    configure: impl FnOnce(&mut ProgramSetupBuilder),
) -> ScriptedFixtureProgram {
    let mut b = ProgramSetupBuilder::new(table(aliases), table(aliases));
    configure(&mut b);
    b.finish()
}

/// Runs one tick over the whole runtime; `host` answers for every fixture
/// whose active program wants the script host.
fn tick(rt: &mut Runtime, events: &Vec<AddressedEvent>, host: impl Fn(usize) -> HostTickOutcome) -> Vec<SetRequest> {
    rt.begin_tick();
    let n = rt.fixture_count();
    for i in 0..n {
        let _plan = rt.fixture_plan(i, events);
        let outcome = if rt.fixture_needs_host(i) { Some(host(i)) } else { None };
        let _ = rt.run_fixture(i, outcome.as_ref());
    }
    rt.take_batch()
}

#[test]
fn off_on_enable_emits_once() {
    let fixture = fixture_with(&[("a", 10), ("b", 11)], vec![]);
    let mut rt = Runtime::new(vec![fixture]).unwrap();
    rt.set_active_program(&"f".to_string(), &"OFF".to_string()).unwrap();
    let no_events: Vec<AddressedEvent> = Vec::new();
    let first = tick(&mut rt, &no_events, |_| HostTickOutcome::Outputs(vec![]));
    assert_eq!(first, vec![set_request(0, 10), set_request(0, 11)]);
    let second = tick(&mut rt, &no_events, |_| HostTickOutcome::Outputs(vec![]));
    assert_eq!(second, vec![]);
    // re-enabling makes it emit again
    rt.set_active_program(&"f".to_string(), &"OFF".to_string()).unwrap();
    let third = tick(&mut rt, &no_events, |_| HostTickOutcome::Outputs(vec![]));
    assert_eq!(third.len(), 2);
}

#[test]
fn manual_reflects_parameter() {
    let fixture = fixture_with(&[("a", 5), ("b", 6)], vec![]);
    let mut rt = Runtime::new(vec![fixture]).unwrap();
    rt.set_active_program(&"f".to_string(), &"MANUAL".to_string()).unwrap();
    rt.set_program_parameter(
        &"f".to_string(),
        &"MANUAL".to_string(),
        &"a".to_string(),
        &ParameterSetRequest::Continuous { value: Fixed { micros: 500_000 } },
    )
    .unwrap();
    let no_events: Vec<AddressedEvent> = Vec::new();
    let batch = tick(&mut rt, &no_events, |_| HostTickOutcome::Outputs(vec![]));
    assert_eq!(batch, vec![set_request(32768, 5), set_request(0, 6)]);
    // nothing changes, nothing is emitted
    let quiet = tick(&mut rt, &no_events, |_| HostTickOutcome::Outputs(vec![]));
    assert_eq!(quiet, vec![]);
}

#[test]
fn scripted_outputs_reach_the_batch() {
    let aliases = [("x", 5u16), ("y", 6u16)];
    let scr = scripted_program(&aliases, |b| {
        b.set_priority(3).unwrap();
        b.add_output_address(5).unwrap();
        b.add_output_address(6).unwrap();
    });
    assert_eq!(scr.priority, 3);
    let fixture = fixture_with(&aliases, vec![("scr".to_string(), scr)]);
    let mut rt = Runtime::new(vec![fixture]).unwrap();
    rt.set_active_program(&"f".to_string(), &"scr".to_string()).unwrap();
    let no_events: Vec<AddressedEvent> = Vec::new();
    let batch = tick(&mut rt, &no_events, |_| {
        HostTickOutcome::Outputs(vec![set_request(1000, 5), set_request(2000, 6)])
    });
    assert_eq!(batch, vec![set_request(1000, 5), set_request(2000, 6)]);
}

#[test]
fn scripted_outputs_for_unowned_addresses_are_dropped() {
    let aliases = [("x", 5u16)];
    let scr = scripted_program(&aliases, |b| {
        b.add_output_address(5).unwrap();
    });
    let fixture = fixture_with(&aliases, vec![("scr".to_string(), scr)]);
    let mut rt = Runtime::new(vec![fixture]).unwrap();
    rt.set_active_program(&"f".to_string(), &"scr".to_string()).unwrap();
    let no_events: Vec<AddressedEvent> = Vec::new();
    let batch = tick(&mut rt, &no_events, |_| {
        HostTickOutcome::Outputs(vec![set_request(7, 5), set_request(9, 99)])
    });
    assert_eq!(batch, vec![set_request(7, 5)]);
}

#[test]
fn slow_mode_skips_and_dirty_overrides() {
    let aliases = [("x", 5u16)];
    let scr = scripted_program(&aliases, |b| {
        b.set_slow_mode(true);
        b.add_output_address(5).unwrap();
        b.declare_parameter(FixtureProgramParameter {
            name: "speed".to_string(),
            value: FixtureProgramParameterType::Continuous {
                lower_limit_incl: Fixed { micros: 0 },
                upper_limit_incl: Fixed { micros: 1_000_000 },
                current: Fixed { micros: 0 },
            },
        })
        .unwrap();
    });
    let fixture = fixture_with(&aliases, vec![("scr".to_string(), scr)]);
    let mut rt = Runtime::new(vec![fixture]).unwrap();
    rt.set_active_program(&"f".to_string(), &"scr".to_string()).unwrap();
    let no_events: Vec<AddressedEvent> = Vec::new();
    let mut producing_ticks: Vec<u32> = Vec::new();
    for t in 1..=1001u32 {
        let batch = tick(&mut rt, &no_events, |_| {
            HostTickOutcome::Outputs(vec![set_request(1, 5)])
        });
        if !batch.is_empty() {
            producing_ticks.push(t);
        }
        if t == 500 {
            rt.set_program_parameter(
                &"f".to_string(),
                &"scr".to_string(),
                &"speed".to_string(),
                &ParameterSetRequest::Continuous { value: Fixed { micros: 10 } },
            )
            .unwrap();
        }
    }
    // tick 1 runs; the write after tick 500 makes tick 501 run again and the
    // skip counter restart, so no further tick up to 1001 produces anything
    assert_eq!(producing_ticks, vec![1, 501]);
}

#[test]
fn slow_mode_without_writes_runs_every_thousandth_tick() {
    let aliases = [("x", 5u16)];
    let scr = scripted_program(&aliases, |b| {
        b.set_slow_mode(true);
        b.add_output_address(5).unwrap();
    });
    let fixture = fixture_with(&aliases, vec![("scr".to_string(), scr)]);
    let mut rt = Runtime::new(vec![fixture]).unwrap();
    rt.set_active_program(&"f".to_string(), &"scr".to_string()).unwrap();
    let no_events: Vec<AddressedEvent> = Vec::new();
    let mut producing_ticks: Vec<u32> = Vec::new();
    for t in 1..=2001u32 {
        let batch = tick(&mut rt, &no_events, |_| {
            HostTickOutcome::Outputs(vec![set_request(1, 5)])
        });
        if !batch.is_empty() {
            producing_ticks.push(t);
        }
    }
    assert_eq!(producing_ticks, vec![1, 1001, 2001]);
}

#[test]
fn cycle_skips_manual_and_external() {
    let aliases = [("x", 5u16)];
    let scr1 = scripted_program(&aliases, |b| {
        b.add_output_address(5).unwrap();
    });
    let scr2 = scripted_program(&aliases, |b| {
        b.add_output_address(5).unwrap();
    });
    let fixture = fixture_with(
        &aliases,
        vec![("SCR1".to_string(), scr1), ("SCR2".to_string(), scr2)],
    );
    // programs in order: OFF, ON, EXTERNAL, MANUAL, SCR1, SCR2; start at OFF
    let mut rt = Runtime::new(vec![fixture]).unwrap();
    let f = "f".to_string();
    assert_eq!(rt.cycle_active_program(&f).unwrap(), "ON");
    assert_eq!(rt.cycle_active_program(&f).unwrap(), "SCR1");
    assert_eq!(rt.cycle_active_program(&f).unwrap(), "SCR2");
    assert_eq!(rt.cycle_active_program(&f).unwrap(), "OFF");
    assert_eq!(rt.cycle_active_program(&f).unwrap(), "ON");
}

#[test]
fn cycle_with_only_builtins_lands_on_off_or_on() {
    let fixture = fixture_with(&[("x", 5u16)], vec![]);
    let mut rt = Runtime::new(vec![fixture]).unwrap();
    let f = "f".to_string();
    let name = rt.cycle_active_program(&f).unwrap();
    assert!(name == "OFF" || name == "ON");
}

#[test]
fn fixture_without_cyclable_programs_is_refused_at_load() {
    let mut setup = FixtureSetupBuilder::new(table(&[("x", 5)]));
    setup.fixture_name("f".to_string());
    setup.add_output_address(5).unwrap();
    setup.disable_builtin_programs(true);
    let r = Fixture::assemble(setup, "f.lua".to_string(), vec![]);
    assert_eq!(r.unwrap_err(), Error::NoCyclablePrograms);
}

#[test]
fn duplicate_program_name_is_refused_at_load() {
    let aliases = [("x", 5u16)];
    let scr = scripted_program(&aliases, |_| {});
    let mut setup = FixtureSetupBuilder::new(table(&aliases));
    setup.fixture_name("f".to_string());
    setup.add_output_address(5).unwrap();
    let r = Fixture::assemble(setup, "f.lua".to_string(), vec![("MANUAL".to_string(), scr)]);
    assert_eq!(
        r.unwrap_err(),
        Error::DuplicateProgramName("MANUAL".to_string())
    );
}

#[test]
fn event_routing_delivers_to_matching_handlers_only() {
    let aliases = [("btn", 42u16)];
    let scr = scripted_program(&aliases, |b| {
        b.add_event_subscription(
            &"btn".to_string(),
            &"button_clicked".to_string(),
            &"on_click".to_string(),
        )
        .unwrap();
    });
    let fixture = fixture_with(&aliases, vec![("scr".to_string(), scr)]);
    let mut rt = Runtime::new(vec![fixture]).unwrap();
    rt.set_active_program(&"f".to_string(), &"scr".to_string()).unwrap();
    let events = vec![
        AddressedEvent {
            address: 42,
            event: Event {
                inner: Ok(EventKind::Button(ButtonEvent::Clicked {
                    duration: Fixed { micros: 300_000 },
                })),
            },
        },
        AddressedEvent {
            address: 42,
            event: Event {
                inner: Ok(EventKind::Update {
                    new_value: InputValue::Continuous(Fixed { micros: 1 }),
                }),
            },
        },
    ];
    let plan = rt.fixture_plan(0, &events).unwrap();
    assert_eq!(plan.deliveries.len(), 1);
    assert_eq!(plan.deliveries[0].target_function, "on_click");
    assert_eq!(plan.deliveries[0].event.address, 42);
    assert!(matches!(
        plan.deliveries[0].event.event.inner,
        Ok(EventKind::Button(ButtonEvent::Clicked { .. }))
    ));
}

#[test]
fn dirty_parameters_are_rebound_on_the_next_plan() {
    let aliases = [("x", 5u16)];
    let scr = scripted_program(&aliases, |b| {
        b.declare_parameter(FixtureProgramParameter {
            name: "mode".to_string(),
            value: FixtureProgramParameterType::Discrete {
                levels: vec![
                    FixtureProgramParameterDiscreteLevel {
                        name: "slow".to_string(),
                        description: "slowly".to_string(),
                    },
                    FixtureProgramParameterDiscreteLevel {
                        name: "fast".to_string(),
                        description: "quickly".to_string(),
                    },
                ],
                current_index: 0,
            },
        })
        .unwrap();
    });
    let fixture = fixture_with(&aliases, vec![("scr".to_string(), scr)]);
    let mut rt = Runtime::new(vec![fixture]).unwrap();
    rt.set_active_program(&"f".to_string(), &"scr".to_string()).unwrap();
    let cycled = rt
        .cycle_program_parameter(&"f".to_string(), &"scr".to_string(), &"mode".to_string())
        .unwrap();
    assert_eq!(cycled, "fast");
    let no_events: Vec<AddressedEvent> = Vec::new();
    let plan = rt.fixture_plan(0, &no_events).unwrap();
    let bindings = plan.bindings.expect("dirty parameters must be rebound");
    assert_eq!(bindings.len(), 1);
    assert_eq!(bindings[0].name, "mode");
    assert!(matches!(&bindings[0].value, BindingValue::Level(l) if l == "fast"));
}

#[test]
fn setup_refuses_bad_declarations() {
    let aliases = [("x", 5u16)];
    let mut b = ProgramSetupBuilder::new(table(&aliases), table(&aliases));
    assert_eq!(b.set_priority(21).unwrap_err(), Error::PriorityTooHigh);
    assert_eq!(b.set_priority(20), Ok(()));
    assert_eq!(
        b.add_input_alias(&"unknown".to_string()).unwrap_err(),
        Error::UnknownAlias("unknown".to_string())
    );
    assert_eq!(
        b.add_output_address(9).unwrap_err(),
        Error::AddressNotInUse(9)
    );
    assert_eq!(
        b.add_event_subscription(
            &"x".to_string(),
            &"button_wiggled".to_string(),
            &"h".to_string()
        )
        .unwrap_err(),
        Error::InvalidEventType("button_wiggled".to_string())
    );
    let param = FixtureProgramParameter {
        name: "p".to_string(),
        value: FixtureProgramParameterType::Continuous {
            lower_limit_incl: Fixed { micros: 0 },
            upper_limit_incl: Fixed { micros: 10 },
            current: Fixed { micros: 5 },
        },
    };
    b.declare_parameter(param.clone()).unwrap();
    assert_eq!(
        b.declare_parameter(param).unwrap_err(),
        Error::DuplicateParameterName("p".to_string())
    );
    assert_eq!(
        b.declare_parameter(FixtureProgramParameter {
            name: "empty".to_string(),
            value: FixtureProgramParameterType::Discrete { levels: vec![], current_index: 0 },
        })
        .unwrap_err(),
        Error::MissingLevels("empty".to_string())
    );
}

#[test]
fn program_failure_leaves_the_batch_untouched() {
    let aliases = [("x", 5u16)];
    let scr = scripted_program(&aliases, |b| {
        b.add_output_address(5).unwrap();
    });
    let fixture = fixture_with(&aliases, vec![("scr".to_string(), scr)]);
    let mut rt = Runtime::new(vec![fixture]).unwrap();
    rt.set_active_program(&"f".to_string(), &"scr".to_string()).unwrap();
    let no_events: Vec<AddressedEvent> = Vec::new();
    let batch = tick(&mut rt, &no_events, |_| {
        HostTickOutcome::Failed("script blew up".to_string())
    });
    assert_eq!(batch, vec![]);
    // the scheduler carries on: the next tick still works
    let batch = tick(&mut rt, &no_events, |_| {
        HostTickOutcome::Outputs(vec![set_request(1, 5)])
    });
    assert_eq!(batch, vec![set_request(1, 5)]);
}

#[test]
fn runtime_refuses_duplicate_fixture_names() {
    let f1 = fixture_with(&[("x", 5u16)], vec![]);
    let f2 = fixture_with(&[("y", 6u16)], vec![]);
    let r = Runtime::new(vec![f1, f2]);
    assert!(matches!(r.unwrap_err(), Error::DuplicateFixtureName(_)));
}

#[test]
fn unknown_fixture_and_program_are_not_found() {
    let fixture = fixture_with(&[("x", 5u16)], vec![]);
    let mut rt = Runtime::new(vec![fixture]).unwrap();
    assert_eq!(
        rt.set_active_program(&"ghost".to_string(), &"OFF".to_string()),
        Err(Error::NotFound)
    );
    assert_eq!(
        rt.set_active_program(&"f".to_string(), &"GHOST".to_string()),
        Err(Error::NotFound)
    );
    assert!(rt.get_fixture(&"f".to_string()).is_some());
    assert!(rt.get_fixture(&"ghost".to_string()).is_none());
}

#[test]
fn metadata_lists_programs_and_selection() {
    let fixture = fixture_with(&[("a", 5u16)], vec![]);
    let mut rt = Runtime::new(vec![fixture]).unwrap();
    rt.set_active_program(&"f".to_string(), &"MANUAL".to_string()).unwrap();
    let md = rt.metadata();
    assert_eq!(md.fixtures.len(), 1);
    let (fname, fmd) = &md.fixtures[0];
    assert_eq!(fname, "f");
    assert_eq!(fmd.selected_program, "MANUAL");
    let names: Vec<&str> = fmd.programs.iter().map(|(n, _)| n.as_str()).collect();
    assert_eq!(names, vec!["OFF", "ON", "EXTERNAL", "MANUAL"]);
}

#[test]
fn manual_outputs_are_sorted_by_address() {
    // aliases arrive unsorted; the manual program orders its outputs by
    // numeric address and pairs each with its alias's parameter
    let fixture = fixture_with(&[("b", 6), ("a", 5)], vec![]);
    let mut rt = Runtime::new(vec![fixture]).unwrap();
    rt.set_active_program(&"f".to_string(), &"MANUAL".to_string()).unwrap();
    rt.set_program_parameter(
        &"f".to_string(),
        &"MANUAL".to_string(),
        &"b".to_string(),
        &ParameterSetRequest::Continuous { value: Fixed { micros: 1_000_000 } },
    )
    .unwrap();
    let no_events: Vec<AddressedEvent> = Vec::new();
    let batch = tick(&mut rt, &no_events, |_| HostTickOutcome::Outputs(vec![]));
    assert_eq!(batch, vec![set_request(0, 5), set_request(65535, 6)]);
}

#[test]
fn external_program_does_nothing() {
    let fixture = fixture_with(&[("x", 5)], vec![]);
    let mut rt = Runtime::new(vec![fixture]).unwrap();
    rt.set_active_program(&"f".to_string(), &"EXTERNAL".to_string()).unwrap();
    let no_events: Vec<AddressedEvent> = Vec::new();
    let batch = tick(&mut rt, &no_events, |_| HostTickOutcome::Outputs(vec![]));
    assert_eq!(batch, vec![]);
}
