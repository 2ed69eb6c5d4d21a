use kaleidoscope::event::{
    AddressedEvent, ButtonEvent, ButtonEventFilter, Event, EventFilter, EventFilterEntry,
    EventFilterKind, EventFilterStrategy, EventKind, InputValue,
};
use kaleidoscope::ingest::EventIngester;
use kaleidoscope::universe::{ChannelState, UniverseView};
use kaleidoscope::values::Fixed;

fn clicked(address: u16) -> AddressedEvent {
    AddressedEvent {
        address,
        event: Event {
            inner: Ok(EventKind::Button(ButtonEvent::Clicked {
                duration: Fixed { micros: 300_000 },
            })),
        },
    }
}

fn update(address: u16, micros: i64) -> AddressedEvent {
    AddressedEvent {
        address,
        event: Event {
            inner: Ok(EventKind::Update {
                new_value: InputValue::Continuous(Fixed { micros }),
            }),
        },
    }
}

fn error_event(address: u16) -> AddressedEvent {
    AddressedEvent { address, event: Event { inner: Err("sensor gone".to_string()) } }
}

fn kind_entry(kind: EventFilterKind) -> EventFilterEntry {
    EventFilterEntry::Kind { kind }
}

#[test]
fn any_strategy_matches_when_one_entry_matches() {
    let mut f = EventFilter::new(EventFilterStrategy::Any);
    f.insert_entry(kind_entry(EventFilterKind::Update));
    f.insert_entry(kind_entry(EventFilterKind::Button { filter: ButtonEventFilter::Clicked }));
    assert!(f.matches(&clicked(1).event));
    assert!(f.matches(&update(1, 5).event));
    let down = AddressedEvent {
        address: 1,
        event: Event { inner: Ok(EventKind::Button(ButtonEvent::Down)) },
    };
    assert!(!f.matches(&down.event));
}

#[test]
fn all_strategy_needs_every_entry_to_match() {
    let mut f = EventFilter::new(EventFilterStrategy::All);
    f.insert_entry(EventFilterEntry::Any);
    f.insert_entry(kind_entry(EventFilterKind::Update));
    assert!(f.matches(&update(1, 5).event));
    assert!(!f.matches(&clicked(1).event));
}

#[test]
fn empty_filters_follow_their_strategy() {
    let any = EventFilter::new(EventFilterStrategy::Any);
    let all = EventFilter::new(EventFilterStrategy::All);
    assert!(!any.matches(&update(1, 5).event));
    assert!(all.matches(&update(1, 5).event));
}

#[test]
fn error_payload_never_matches_a_kind_entry() {
    let mut f = EventFilter::new(EventFilterStrategy::Any);
    f.insert_entry(kind_entry(EventFilterKind::Update));
    f.insert_entry(kind_entry(EventFilterKind::Button { filter: ButtonEventFilter::Up }));
    assert!(!f.matches(&error_event(1).event));
    let mut anyf = EventFilter::new(EventFilterStrategy::Any);
    anyf.insert_entry(EventFilterEntry::Any);
    assert!(anyf.matches(&error_event(1).event));
}

#[test]
fn filter_entries_stay_sorted_and_deduplicated() {
    let mut f = EventFilter::new(EventFilterStrategy::Any);
    f.insert_entry(kind_entry(EventFilterKind::Button { filter: ButtonEventFilter::LongPress }));
    f.insert_entry(EventFilterEntry::Any);
    f.insert_entry(kind_entry(EventFilterKind::Update));
    f.insert_entry(EventFilterEntry::Any);
    f.insert_entry(kind_entry(EventFilterKind::Update));
    assert_eq!(
        f.entries,
        vec![
            EventFilterEntry::Any,
            kind_entry(EventFilterKind::Update),
            kind_entry(EventFilterKind::Button { filter: ButtonEventFilter::LongPress }),
        ]
    );
}

#[test]
fn universe_view_applies_updates_and_errors_but_not_buttons() {
    let mut view = UniverseView::new_with_addresses(&vec![7, 9]);
    view.apply_event(&update(7, 123)).unwrap();
    view.apply_event(&clicked(9)).unwrap();
    view.apply_event(&error_event(9)).unwrap();
    let slot7: &ChannelState = &view.slots.iter().find(|s| s.0 == 7).unwrap().1;
    let slot9: &ChannelState = &view.slots.iter().find(|s| s.0 == 9).unwrap().1;
    assert_eq!(
        *slot7,
        Some(Ok(InputValue::Continuous(Fixed { micros: 123 })))
    );
    assert_eq!(*slot9, Some(Err("sensor gone".to_string())));
    assert!(view.apply_event(&update(8, 1)).is_err());
}

#[test]
fn ingester_counts_updates_and_queues_in_arrival_order() {
    let view = UniverseView::new_with_addresses(&vec![42]);
    let mut ingester = EventIngester::new(view);
    assert_eq!(ingester.events_processed(), 0);
    ingester.apply_event(clicked(42));
    ingester.apply_event(update(42, 55));
    ingester.apply_event(update(99, 1)); // unknown address: counted, view untouched
    assert_eq!(ingester.events_processed(), 3);
    let drained = ingester.drain();
    assert_eq!(drained.len(), 3);
    assert_eq!(drained[0].address, 42);
    assert_eq!(drained[2].address, 99);
    assert_eq!(ingester.events_processed(), 3);
    assert_eq!(ingester.drain().len(), 0);
    let slot42 = &ingester.universe.slots.iter().find(|s| s.0 == 42).unwrap().1;
    assert_eq!(
        *slot42,
        Some(Ok(InputValue::Continuous(Fixed { micros: 55 })))
    );
}
