//! Events arriving from upstream, and the filters programs use to describe
//! which events they are interested in.

use vstd::prelude::*;

use crate::values::Fixed;

verus! {

/// The value carried by an input channel.
#[derive(Clone, Copy, Debug, PartialEq, Eq, Structural)]
pub enum InputValue {
    Binary(bool),
    Temperature(Fixed),
    Humidity(Fixed),
    Pressure(Fixed),
    Continuous(Fixed),
}

/// A button gesture.
#[derive(Clone, Copy, Debug, PartialEq, Eq, Structural)]
pub enum ButtonEvent {
    Up,
    Down,
    Clicked { duration: Fixed },
    LongPress { seconds: i64 },
}

/// What an event reports about its channel.
#[derive(Clone, Copy, Debug, PartialEq, Eq, Structural)]
pub enum EventKind {
    Update { new_value: InputValue },
    Button(ButtonEvent),
}

/// An event as delivered: either a kind, or an error reported upstream.
#[derive(Debug, PartialEq, Eq)]
pub struct Event {
    pub inner: Result<EventKind, String>,
}

impl Clone for Event {
    fn clone(&self) -> (r: Self)
        ensures
            r == *self,
    {
        Event {
            inner: match &self.inner {
                Ok(k) => Ok(*k),
                Err(s) => Err(s.clone()),
            },
        }
    }
}

/// An event together with the address it concerns.
#[derive(Debug, PartialEq, Eq)]
pub struct AddressedEvent {
    pub address: u16,
    pub event: Event,
}

impl Clone for AddressedEvent {
    fn clone(&self) -> (r: Self)
        ensures
            r == *self,
    {
        AddressedEvent { address: self.address, event: self.event.clone() }
    }
}

/// Filter specification for button events.
#[derive(Clone, Copy, Debug, PartialEq, Eq, Structural)]
pub enum ButtonEventFilter {
    Down,
    Up,
    Clicked,
    LongPress,
}

/// Specification for events to be filtered in.
#[derive(Clone, Copy, Debug, PartialEq, Eq, Structural)]
pub enum EventFilterKind {
    Update,
    Button { filter: ButtonEventFilter },
}

/// A single filter entry: everything, or one kind of event.
#[derive(Clone, Copy, Debug, PartialEq, Eq, Structural)]
pub enum EventFilterEntry {
    Any,
    Kind { kind: EventFilterKind },
}

/// How a filter combines its entries.
#[derive(Clone, Copy, Debug, PartialEq, Eq, Structural)]
pub enum EventFilterStrategy {
    Any,
    All,
}

/// A filter over events: a strategy applied to a list of entries, kept
/// sorted and free of duplicates.
#[derive(Debug, PartialEq, Eq)]
pub struct EventFilter {
    pub strategy: EventFilterStrategy,
    pub entries: Vec<EventFilterEntry>,
}

impl Clone for EventFilter {
    fn clone(&self) -> (r: Self)
        ensures
            r.strategy == self.strategy,
            r.entries@ == self.entries@,
    {
        let entries = self.entries.clone();
        proof {
            assert(entries@ =~= self.entries@);
        }
        EventFilter { strategy: self.strategy, entries }
    }
}

/// Whether a single entry accepts an event. An entry accepts everything if
/// it is `Any`; a kind entry accepts exactly the events of its kind, and an
/// event carrying an error payload never matches a kind entry.
pub open spec fn spec_entry_matches(entry: EventFilterEntry, e: Event) -> bool {
    match entry {
        EventFilterEntry::Any => true,
        EventFilterEntry::Kind { kind } => match e.inner {
            Ok(inner) => match kind {
                EventFilterKind::Update => inner is Update,
                EventFilterKind::Button { filter } => match inner {
                    EventKind::Button(b) => match filter {
                        ButtonEventFilter::Down => b is Down,
                        ButtonEventFilter::Up => b is Up,
                        ButtonEventFilter::Clicked => b is Clicked,
                        ButtonEventFilter::LongPress => b is LongPress,
                    },
                    EventKind::Update { .. } => false,
                },
            },
            Err(_) => false,
        },
    }
}

/// Whether a filter accepts an event: under `Any` at least one entry must
/// match, under `All` every entry must.
pub open spec fn spec_filter_matches(f: EventFilter, e: Event) -> bool {
    match f.strategy {
        EventFilterStrategy::Any => exists|i: int|
            0 <= i < f.entries@.len() && #[trigger] spec_entry_matches(f.entries@[i], e),
        EventFilterStrategy::All => forall|i: int|
            0 <= i < f.entries@.len() ==> #[trigger] spec_entry_matches(f.entries@[i], e),
    }
}

/// A fixed rank for each possible entry; the order filter entries are kept
/// in.
pub open spec fn spec_entry_rank(entry: EventFilterEntry) -> int {
    match entry {
        EventFilterEntry::Any => 0,
        EventFilterEntry::Kind { kind } => match kind {
            EventFilterKind::Update => 1,
            EventFilterKind::Button { filter } => match filter {
                ButtonEventFilter::Down => 2,
                ButtonEventFilter::Up => 3,
                ButtonEventFilter::Clicked => 4,
                ButtonEventFilter::LongPress => 5,
            },
        },
    }
}

/// The rank determines the entry.
pub proof fn lemma_entry_rank_injective(a: EventFilterEntry, b: EventFilterEntry)
    requires
        spec_entry_rank(a) == spec_entry_rank(b),
    ensures
        a == b,
{
}

fn entry_rank(entry: &EventFilterEntry) -> (r: u8)
    ensures
        r as int == spec_entry_rank(*entry),
{
    match entry {
        EventFilterEntry::Any => 0,
        EventFilterEntry::Kind { kind } => match kind {
            EventFilterKind::Update => 1,
            EventFilterKind::Button { filter } => match filter {
                ButtonEventFilter::Down => 2,
                ButtonEventFilter::Up => 3,
                ButtonEventFilter::Clicked => 4,
                ButtonEventFilter::LongPress => 5,
            },
        },
    }
}

impl EventFilter {
    /// Entries are strictly ascending by rank: sorted, no duplicates.
    pub open spec fn wf(self) -> bool {
        forall|i: int, j: int|
            0 <= i < j < self.entries@.len() ==> spec_entry_rank(self.entries@[i])
                < spec_entry_rank(self.entries@[j])
    }

    /// An empty filter with the given strategy.
    pub fn new(strategy: EventFilterStrategy) -> (r: EventFilter)
        ensures
            r.wf(),
            r.strategy == strategy,
            r.entries@.len() == 0,
    {
        EventFilter { strategy, entries: Vec::new() }
    }

    /// Whether a single entry accepts an event.
    pub fn match_inner(entry: &EventFilterEntry, e: &Event) -> (r: bool)
        ensures
            r == spec_entry_matches(*entry, *e),
    {
        match entry {
            EventFilterEntry::Any => true,
            EventFilterEntry::Kind { kind } => match &e.inner {
                Ok(inner) => match kind {
                    EventFilterKind::Update => match inner {
                        EventKind::Update { .. } => true,
                        _ => false,
                    },
                    EventFilterKind::Button { filter } => match inner {
                        EventKind::Button(b) => match filter {
                            ButtonEventFilter::Down => matches!(b, ButtonEvent::Down),
                            ButtonEventFilter::Up => matches!(b, ButtonEvent::Up),
                            ButtonEventFilter::Clicked => matches!(b, ButtonEvent::Clicked { .. }),
                            ButtonEventFilter::LongPress => matches!(
                                b,
                                ButtonEvent::LongPress { .. },
                            ),
                        },
                        _ => false,
                    },
                },
                Err(_) => false,
            },
        }
    }

    /// Whether this filter accepts an event.
    pub fn matches(&self, e: &Event) -> (r: bool)
        ensures
            r == spec_filter_matches(*self, *e),
    {
        let n = self.entries.len();
        match self.strategy {
            EventFilterStrategy::Any => {
                let mut i: usize = 0;
                while i < n
                    invariant
                        self.strategy is Any,
                        n == self.entries@.len(),
                        0 <= i <= n,
                        forall|j: int| 0 <= j < i ==> !spec_entry_matches(self.entries@[j], *e),
                    decreases n - i,
                {
                    if Self::match_inner(&self.entries[i], e) {
                        return true;
                    }
                    i = i + 1;
                }
                false
            },
            EventFilterStrategy::All => {
                let mut i: usize = 0;
                while i < n
                    invariant
                        self.strategy is All,
                        n == self.entries@.len(),
                        0 <= i <= n,
                        forall|j: int| 0 <= j < i ==> spec_entry_matches(self.entries@[j], *e),
                    decreases n - i,
                {
                    if !Self::match_inner(&self.entries[i], e) {
                        return false;
                    }
                    i = i + 1;
                }
                true
            },
        }
    }

    /// Adds an entry, keeping the entries sorted and deduplicated: the new
    /// entry list holds exactly the old entries and the new one.
    pub fn insert_entry(&mut self, entry: EventFilterEntry)
        requires
            old(self).wf(),
        ensures
            final(self).wf(),
            final(self).strategy == old(self).strategy,
            final(self).entries@.to_set() == old(self).entries@.to_set().insert(entry),
    {
        let new_rank = entry_rank(&entry);
        let (i, found) = find_rank_position(&self.entries, new_rank);
        if found {
            proof {
                lemma_entry_rank_injective(self.entries@[i as int], entry);
                assert(self.entries@.contains(entry));
                assert(self.entries@.to_set() =~= old(self).entries@.to_set().insert(entry));
            }
            return ;
        }
        let ghost prior = self.entries@;
        self.entries.insert(i, entry);
        proof {
            let s = self.entries@;
            assert forall|p: int, q: int| 0 <= p < q < s.len() implies spec_entry_rank(s[p])
                < spec_entry_rank(s[q]) by {
                if q < i {
                } else if p < i && q == i {
                } else if p < i && q > i {
                    assert(s[q] == prior[q - 1]);
                } else if p == i && q > i {
                    assert(s[q] == prior[q - 1]);
                    if q - 1 > i {
                        assert(spec_entry_rank(prior[i as int]) < spec_entry_rank(prior[q - 1]));
                    }
                } else {
                    assert(s[p] == prior[p - 1] && s[q] == prior[q - 1]);
                }
            }
            assert forall|x: EventFilterEntry| s.to_set().contains(x) implies prior.to_set().insert(
                entry,
            ).contains(x) by {
                let idx = choose|idx: int| 0 <= idx < s.len() && s[idx] == x;
                if idx < i {
                    assert(prior[idx] == x);
                } else if idx > i {
                    assert(prior[idx - 1] == x);
                }
            }
            assert forall|x: EventFilterEntry| prior.to_set().insert(entry).contains(
                x,
            ) implies s.to_set().contains(x) by {
                if x == entry {
                    assert(s[i as int] == x);
                } else {
                    let idx = choose|idx: int| 0 <= idx < prior.len() && prior[idx] == x;
                    if idx < i {
                        assert(s[idx] == x);
                    } else {
                        assert(s[idx + 1] == x);
                    }
                }
            }
            assert(s.to_set() =~= prior.to_set().insert(entry));
        }
    }
}

/// The first position whose entry's rank is not below `new_rank`, and
/// whether the entry there has exactly that rank.
fn find_rank_position(entries: &Vec<EventFilterEntry>, new_rank: u8) -> (r: (usize, bool))
    ensures
        r.0 <= entries@.len(),
        forall|j: int| 0 <= j < r.0 ==> spec_entry_rank(entries@[j]) < new_rank as int,
        r.1 ==> r.0 < entries@.len() && spec_entry_rank(entries@[r.0 as int]) == new_rank as int,
        !r.1 ==> r.0 == entries@.len() || spec_entry_rank(entries@[r.0 as int]) > new_rank as int,
{
    let n = entries.len();
    let mut i: usize = 0;
    while i < n
        invariant
            n == entries@.len(),
            0 <= i <= n,
            forall|j: int| 0 <= j < i ==> spec_entry_rank(entries@[j]) < new_rank as int,
        decreases n - i,
    {
        let r = entry_rank(&entries[i]);
        if r == new_rank {
            return (i, true);
        }
        if r > new_rank {
            return (i, false);
        }
        i = i + 1;
    }
    (n, false)
}

} // verus!
