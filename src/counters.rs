//! Named monotonic counters that mint display numbers, one per entity type.

use vstd::prelude::*;
use crate::error::StoreError;

verus! {

/// The current value of every known counter.
#[derive(Debug, Clone, Copy, PartialEq, Eq, Structural)]
pub struct Counters {
    pub client: i64,
    pub invoice: i64,
    pub offer: i64,
    pub credentials: i64,
    pub concept: i64,
    pub documentation: i64,
}

/// Counters that have never been advanced.
pub open spec fn zero_counters() -> Counters {
    Counters { client: 0, invoice: 0, offer: 0, credentials: 0, concept: 0, documentation: 0 }
}

/// The position of a known counter name, `None` for any other name.
pub open spec fn counter_slot(name: Seq<char>) -> Option<nat> {
    if name == "client"@ {
        Some(0)
    } else if name == "invoice"@ {
        Some(1)
    } else if name == "offer"@ {
        Some(2)
    } else if name == "credentials"@ {
        Some(3)
    } else if name == "concept"@ {
        Some(4)
    } else if name == "documentation"@ {
        Some(5)
    } else {
        None
    }
}

impl Counters {
    pub open spec fn value_at(self, slot: nat) -> i64 {
        if slot == 0 {
            self.client
        } else if slot == 1 {
            self.invoice
        } else if slot == 2 {
            self.offer
        } else if slot == 3 {
            self.credentials
        } else if slot == 4 {
            self.concept
        } else {
            self.documentation
        }
    }

    pub open spec fn with_value(self, slot: nat, v: i64) -> Counters {
        if slot == 0 {
            Counters { client: v, ..self }
        } else if slot == 1 {
            Counters { invoice: v, ..self }
        } else if slot == 2 {
            Counters { offer: v, ..self }
        } else if slot == 3 {
            Counters { credentials: v, ..self }
        } else if slot == 4 {
            Counters { concept: v, ..self }
        } else {
            Counters { documentation: v, ..self }
        }
    }
}

impl Default for Counters {
    fn default() -> (r: Counters)
        ensures
            r == zero_counters(),
    {
        Counters { client: 0, invoice: 0, offer: 0, credentials: 0, concept: 0, documentation: 0 }
    }
}

fn slot_of(name: &str) -> (r: Option<usize>)
    ensures
        match counter_slot(name@) {
            Some(k) => r == Some(k as usize),
            None => r.is_none(),
        },
{
    let n = name.to_owned();
    if n == String::from_str("client") {
        Some(0)
    } else if n == String::from_str("invoice") {
        Some(1)
    } else if n == String::from_str("offer") {
        Some(2)
    } else if n == String::from_str("credentials") {
        Some(3)
    } else if n == String::from_str("concept") {
        Some(4)
    } else if n == String::from_str("documentation") {
        Some(5)
    } else {
        None
    }
}

/// The counters of one data directory, with the path they are kept at.
pub struct CounterStore {
    path: String,
    counters: Counters,
}

impl View for CounterStore {
    type V = Counters;

    closed spec fn view(&self) -> Counters {
        self.counters
    }
}

impl CounterStore {
    pub closed spec fn location(&self) -> Seq<char> {
        self.path@
    }

    /// Counters kept at `path`, none advanced yet.
    pub fn new(path: &str) -> (r: CounterStore)
        ensures
            r@ == zero_counters(),
            r.location() == path@,
    {
        CounterStore { path: path.to_owned(), counters: Counters::default() }
    }

    /// Counters at the conventional location `data/counters.json`.
    pub fn default() -> (r: CounterStore)
        ensures
            r@ == zero_counters(),
            r.location() == "data/counters.json"@,
    {
        Self::new("data/counters.json")
    }

    /// Counters kept at `path` with the values read from there.
    pub fn with_counters(path: &str, counters: Counters) -> (r: CounterStore)
        ensures
            r@ == counters,
            r.location() == path@,
    {
        CounterStore { path: path.to_owned(), counters }
    }

    pub fn path(&self) -> (r: &str)
        ensures
            r@ == self.location(),
    {
        self.path.as_str()
    }

    /// The values, to be persisted.
    pub fn counters(&self) -> (r: Counters)
        ensures
            r == self@,
    {
        self.counters
    }

    /// Advances the named counter by one and returns its new value; the first
    /// allocation of a counter returns 1. An unknown name, or a counter at
    /// the largest `i64`, is an error and changes nothing.
    pub fn next(&mut self, counter_type: &str) -> (r: Result<i64, StoreError>)
        ensures
            final(self).location() == old(self).location(),
            match counter_slot(counter_type@) {
                None => r matches Err(StoreError::InvalidCounterName(t)) && t@ == counter_type@
                    && final(self)@ == old(self)@,
                Some(k) => if old(self)@.value_at(k) == i64::MAX {
                    r matches Err(StoreError::Exhausted(t)) && t@ == counter_type@ && final(self)@
                        == old(self)@
                } else {
                    r == Ok::<i64, StoreError>((old(self)@.value_at(k) + 1) as i64)
                        && final(self)@ == old(self)@.with_value(
                        k,
                        (old(self)@.value_at(k) + 1) as i64,
                    )
                },
            },
    {
        match slot_of(counter_type) {
            None => Err(StoreError::InvalidCounterName(counter_type.to_owned())),
            Some(k) => {
                let current = self.get_slot(k);
                if current == i64::MAX {
                    Err(StoreError::Exhausted(counter_type.to_owned()))
                } else {
                    let v = current + 1;
                    if k == 0 {
                        self.counters.client = v;
                    } else if k == 1 {
                        self.counters.invoice = v;
                    } else if k == 2 {
                        self.counters.offer = v;
                    } else if k == 3 {
                        self.counters.credentials = v;
                    } else if k == 4 {
                        self.counters.concept = v;
                    } else {
                        self.counters.documentation = v;
                    }
                    Ok(v)
                }
            },
        }
    }

    fn get_slot(&self, k: usize) -> (r: i64)
        requires
            k < 6,
        ensures
            r == self@.value_at(k as nat),
    {
        if k == 0 {
            self.counters.client
        } else if k == 1 {
            self.counters.invoice
        } else if k == 2 {
            self.counters.offer
        } else if k == 3 {
            self.counters.credentials
        } else if k == 4 {
            self.counters.concept
        } else {
            self.counters.documentation
        }
    }

    /// The named counter's current value, without advancing it; 0 for a
    /// counter never advanced. An unknown name is an error.
    pub fn get(&self, counter_type: &str) -> (r: Result<i64, StoreError>)
        ensures
            match counter_slot(counter_type@) {
                None => r matches Err(StoreError::InvalidCounterName(t)) && t@ == counter_type@,
                Some(k) => r == Ok::<i64, StoreError>(self@.value_at(k)),
            },
    {
        match slot_of(counter_type) {
            None => Err(StoreError::InvalidCounterName(counter_type.to_owned())),
            Some(k) => Ok(self.get_slot(k)),
        }
    }
}

} // verus!
