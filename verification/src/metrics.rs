//! The metrics contract the core consumes: register a named, tagged
//! counter, and increment it monotonically.

use vstd::prelude::*;

verus! {

/// One metric tag: a name and a value.
#[derive(Clone, Debug)]
pub struct Tag {
    pub name: String,
    pub value: String,
}

impl Tag {
    pub fn new(name: String, value: String) -> (t: Tag)
        ensures
            t.name == name,
            t.value == value,
    {
        Tag { name, value }
    }
}

/// A monotonically increasing counter, saturating at the machine limit.
#[derive(Clone, Debug)]
pub struct Counter {
    pub name: String,
    pub tags: Vec<Tag>,
    pub value: u64,
}

impl Counter {
    /// A counter that has counted nothing.
    pub fn zero() -> (c: Counter)
        ensures
            c.value == 0,
    {
        Counter { name: String::new(), tags: Vec::new(), value: 0 }
    }

    /// Add to the counter; the count never decreases, and saturates at
    /// the machine limit rather than wrapping.
    pub fn fetch_add(&mut self, n: u64)
        ensures
            final(self).value == if old(self).value + n <= u64::MAX {
                (old(self).value + n) as u64
            } else {
                u64::MAX
            },
            final(self).value >= old(self).value,
            final(self).name == old(self).name,
            final(self).tags == old(self).tags,
    {
        if self.value <= u64::MAX - n {
            self.value = self.value + n;
        } else {
            self.value = u64::MAX;
        }
    }

    pub fn get(&self) -> (v: u64)
        ensures
            v == self.value,
    {
        self.value
    }
}

/// Register a named, tagged counter, starting at zero.
pub fn register_counter(name: String, tags: Vec<Tag>) -> (c: Counter)
    ensures
        c.value == 0,
        c.name == name,
        c.tags == tags,
{
    Counter { name, tags, value: 0 }
}

} // verus!
