//! The registry of libraries: a table from a name to the handles of an
//! archive that was opened and indexed.
//!
//! The table only grows. It is filled once at startup; sessions look their
//! library up by name, and a lookup before the library is registered finds
//! nothing rather than waiting.

use vstd::prelude::*;
use crate::text::same_text;

verus! {

/// The first handle registered under `name`, if there is one.
pub open spec fn first_named<T>(entries: Seq<(Seq<char>, T)>, name: Seq<char>) -> Option<T>
    decreases entries.len(),
{
    if entries.len() == 0 {
        None
    } else if entries[0].0 == name {
        Some(entries[0].1)
    } else {
        first_named(entries.drop_first(), name)
    }
}

/// The first handle registered under `name` at place `from` or later.
pub open spec fn first_named_from<T>(entries: Seq<(Seq<char>, T)>, name: Seq<char>, from: int)
    -> Option<T>
    decreases entries.len() - from,
{
    if from < 0 || from >= entries.len() {
        None
    } else if entries[from].0 == name {
        Some(entries[from].1)
    } else {
        first_named_from(entries, name, from + 1)
    }
}

/// Looking from place `from` on is looking through the rest of the table.
pub proof fn lemma_first_named_from<T>(entries: Seq<(Seq<char>, T)>, name: Seq<char>, from: int)
    requires
        0 <= from <= entries.len(),
    ensures
        first_named_from(entries, name, from) == first_named(entries.skip(from), name),
    decreases entries.len() - from,
{
    if from < entries.len() {
        assert(entries.skip(from)[0] == entries[from]);
        if entries[from].0 != name {
            lemma_first_named_from(entries, name, from + 1);
            assert(entries.skip(from).drop_first() =~= entries.skip(from + 1));
        }
    }
}

/// A table of handles by name.
pub struct Registry<T> {
    entries: Vec<(String, T)>,
}

impl<T> View for Registry<T> {
    type V = Seq<(Seq<char>, T)>;

    closed spec fn view(&self) -> Seq<(Seq<char>, T)> {
        self.entries@.map_values(|e: (String, T)| (e.0@, e.1))
    }
}

impl<T> Registry<T> {
    /// An empty registry.
    pub fn new() -> (registry: Self)
        ensures
            registry@ == Seq::<(Seq<char>, T)>::empty(),
    {
        let registry = Registry { entries: Vec::new() };
        assert(registry@ =~= Seq::empty());
        registry
    }

    /// Registers `handle` under `name`, after all that is registered.
    pub fn register(&mut self, name: String, handle: T)
        ensures
            final(self)@ == old(self)@.push((name@, handle)),
    {
        self.entries.push((name, handle));
        assert(self@ =~= old(self)@.push((name@, handle)));
    }

    /// The number of registrations.
    pub fn len(&self) -> (count: usize)
        ensures
            count == self@.len(),
    {
        self.entries.len()
    }

    /// Looks up the handle registered under `name`: the first, where several
    /// were; `None` where none was.
    pub fn lookup(&self, name: &str) -> (found: Option<&T>)
        ensures
            match found {
                Some(handle) => first_named(self@, name@) == Some(*handle),
                None => first_named(self@, name@) is None,
            },
    {
        proof {
            lemma_first_named_from(self@, name@, 0);
            assert(self@.skip(0) =~= self@);
        }
        let mut i: usize = 0;
        while i < self.entries.len()
            invariant
                i <= self.entries.len(),
                first_named(self@, name@) == first_named_from(self@, name@, i as int),
            decreases self.entries.len() - i,
        {
            if same_text(self.entries[i].0.as_str(), name) {
                return Some(&self.entries[i].1);
            }
            i += 1;
        }
        None
    }
}

/// Nothing is found in a registry in which nothing is registered.
pub proof fn law_lookup_before_registration<T>(name: Seq<char>)
    ensures
        first_named(Seq::<(Seq<char>, T)>::empty(), name) is None,
{
}

/// The registry only grows: what a lookup finds stays found, under the same
/// handle, whatever is registered later; and a name that was not registered
/// is found under the handle of its first registration.
pub proof fn law_registrations_stay<T>(
    entries: Seq<(Seq<char>, T)>,
    name: Seq<char>,
    later_name: Seq<char>,
    later: T,
)
    ensures
        first_named(entries, name) is Some ==> first_named(
            entries.push((later_name, later)),
            name,
        ) == first_named(entries, name),
        first_named(entries, name) is None && later_name == name ==> first_named(
            entries.push((later_name, later)),
            name,
        ) == Some(later),
        first_named(entries, name) is None && later_name != name ==> first_named(
            entries.push((later_name, later)),
            name,
        ) is None,
    decreases entries.len(),
{
    let grown = entries.push((later_name, later));
    if entries.len() == 0 {
        assert(grown[0] == (later_name, later));
        assert(grown.drop_first() =~= Seq::<(Seq<char>, T)>::empty());
    } else {
        assert(grown[0] == entries[0]);
        assert(grown.drop_first() =~= entries.drop_first().push((later_name, later)));
        if entries[0].0 != name {
            law_registrations_stay(entries.drop_first(), name, later_name, later);
        }
    }
}

} // verus!
