//! The result of probing: for each requested name, whether the feature is enabled and its
//! categories if so.

use vstd::prelude::*;
use crate::names::{order, FeatureName, NameOrder};
use crate::recognized::FeatureEnabled;

verus! {

/// Whether an entry of `entries` has the name `name`.
pub open spec fn has_name(entries: Seq<(Seq<char>, FeatureEnabled)>, name: Seq<char>) -> bool {
    exists|i: int| 0 <= i < entries.len() && (#[trigger] entries[i]).0 == name
}

/// The names of the entries, in the order of the entries.
pub open spec fn entry_names(entries: Seq<(Seq<char>, FeatureEnabled)>) -> Seq<Seq<char>> {
    Seq::new(entries.len(), |i: int| entries[i].0)
}

/// Whether the entry at `i` is the first one with the name `name`.
pub open spec fn is_first(entries: Seq<(Seq<char>, FeatureEnabled)>, name: Seq<char>, i: int) -> bool {
    &&& 0 <= i < entries.len()
    &&& entries[i].0 == name
    &&& forall|j: int| 0 <= j < i ==> (#[trigger] entries[j]).0 != name
}

/// The place of the first entry with the name `name`.
pub open spec fn index_of(entries: Seq<(Seq<char>, FeatureEnabled)>, name: Seq<char>) -> int {
    choose|i: int| is_first(entries, name, i)
}

/// Whether no two entries share a name.
pub open spec fn distinct_names(entries: Seq<(Seq<char>, FeatureEnabled)>) -> bool {
    forall|i: int, j: int|
        0 <= i < j < entries.len() ==> (#[trigger] entries[i]).0 != (#[trigger] entries[j]).0
}

/// The mapping that the entries stand for: each name that has an entry, with the value of its
/// first entry.
pub open spec fn map_of(entries: Seq<(Seq<char>, FeatureEnabled)>) -> Map<
    Seq<char>,
    FeatureEnabled,
> {
    Map::new(
        |name: Seq<char>| has_name(entries, name),
        |name: Seq<char>| entries[index_of(entries, name)].1,
    )
}

/// The entries after `name` was given the value `enabled`: the first entry of that name holds
/// the new value where there was one, and a new entry stands at the end where there was none.
pub open spec fn inserted(
    entries: Seq<(Seq<char>, FeatureEnabled)>,
    name: Seq<char>,
    enabled: FeatureEnabled,
) -> Seq<(Seq<char>, FeatureEnabled)> {
    if has_name(entries, name) {
        entries.update(index_of(entries, name), (name, enabled))
    } else {
        entries.push((name, enabled))
    }
}

/// Where the entry at `at` has the name `name`, some entry is the first with that name.
proof fn lemma_first_before(entries: Seq<(Seq<char>, FeatureEnabled)>, name: Seq<char>, at: int)
    requires
        0 <= at < entries.len(),
        entries[at].0 == name,
    ensures
        is_first(entries, name, index_of(entries, name)),
        index_of(entries, name) <= at,
    decreases at,
{
    if forall|j: int| 0 <= j < at ==> (#[trigger] entries[j]).0 != name {
        assert(is_first(entries, name, at));
    } else {
        let j = choose|j: int| 0 <= j < at && (#[trigger] entries[j]).0 == name;
        lemma_first_before(entries, name, j);
    }
}

/// A name that has an entry has a first entry, and only one entry is the first.
pub proof fn lemma_index_of(entries: Seq<(Seq<char>, FeatureEnabled)>, name: Seq<char>)
    requires
        has_name(entries, name),
    ensures
        is_first(entries, name, index_of(entries, name)),
        forall|i: int| is_first(entries, name, i) ==> i == index_of(entries, name),
{
    let at = choose|i: int| 0 <= i < entries.len() && (#[trigger] entries[i]).0 == name;
    lemma_first_before(entries, name, at);
}

/// Giving a name a value changes the mapping at that name only, and keeps the names distinct
/// where they were.
pub proof fn lemma_inserted(
    entries: Seq<(Seq<char>, FeatureEnabled)>,
    name: Seq<char>,
    enabled: FeatureEnabled,
)
    ensures
        distinct_names(entries) ==> distinct_names(inserted(entries, name, enabled)),
        map_of(inserted(entries, name, enabled)) == map_of(entries).insert(name, enabled),
{
    let after = inserted(entries, name, enabled);
    if has_name(entries, name) {
        lemma_index_of(entries, name);
    }
    let at: int = if has_name(entries, name) {
        index_of(entries, name)
    } else {
        entries.len() as int
    };
    assert(is_first(after, name, at));
    assert forall|n: Seq<char>| has_name(after, n) <==> (n == name || has_name(entries, n)) by {
        if has_name(after, n) {
            let i = choose|i: int| 0 <= i < after.len() && (#[trigger] after[i]).0 == n;
            if i != at {
                assert(entries[i].0 == n);
            }
        }
        if n == name {
            assert(after[at].0 == n);
        } else if has_name(entries, n) {
            let i = choose|i: int| 0 <= i < entries.len() && (#[trigger] entries[i]).0 == n;
            assert(after[i].0 == n);
        }
    }
    assert forall|n: Seq<char>| has_name(after, n) implies #[trigger] map_of(after)[n] == map_of(
        entries,
    ).insert(name, enabled)[n] by {
        lemma_index_of(after, n);
        if n != name {
            lemma_index_of(entries, n);
            let j = index_of(entries, n);
            assert(is_first(after, n, j));
        }
    }
    assert(map_of(after) =~= map_of(entries).insert(name, enabled));
}

/// Where no two entries share a name, the mapping has as many names as there are entries.
pub proof fn lemma_as_many_names_as_entries(entries: Seq<(Seq<char>, FeatureEnabled)>)
    requires
        distinct_names(entries),
    ensures
        map_of(entries).dom().finite(),
        map_of(entries).dom().len() == entries.len(),
    decreases entries.len(),
{
    if entries.len() == 0 {
        assert(map_of(entries).dom() =~= Set::<Seq<char>>::empty());
    } else {
        let before = entries.drop_last();
        let name = entries.last().0;
        lemma_as_many_names_as_entries(before);
        assert forall|n: Seq<char>| has_name(entries, n) <==> (n == name || has_name(before, n)) by {
            if has_name(entries, n) && n != name {
                let i = choose|i: int| 0 <= i < entries.len() && (#[trigger] entries[i]).0 == n;
                assert(before[i].0 == n);
            }
            if has_name(before, n) {
                let i = choose|i: int| 0 <= i < before.len() && (#[trigger] before[i]).0 == n;
                assert(entries[i].0 == n);
            }
            if n == name {
                assert(entries[entries.len() - 1].0 == n);
            }
        }
        if has_name(before, name) {
            let i = choose|i: int| 0 <= i < before.len() && (#[trigger] before[i]).0 == name;
            assert(entries[i].0 == entries[entries.len() - 1].0);
        }
        assert(map_of(entries).dom() =~= map_of(before).dom().insert(name));
    }
}

/// Indicates whether each from a set of features was found to be enabled and its categories.
///
/// One entry for each name, in the order in which the names were first given.
#[derive(Debug)]
pub struct EnabledFeatures<F: FeatureName> {
    entries: Vec<(F, FeatureEnabled)>,
}

impl<F: FeatureName> View for EnabledFeatures<F> {
    type V = Map<Seq<char>, FeatureEnabled>;

    open spec fn view(&self) -> Map<Seq<char>, FeatureEnabled> {
        map_of(self.entries())
    }
}

impl<F: FeatureName> EnabledFeatures<F> {
    /// The entries: each name's text with what was found of it.
    pub closed spec fn entries(&self) -> Seq<(Seq<char>, FeatureEnabled)> {
        Seq::new(self.entries@.len(), |i: int| (self.entries@[i].0.text(), self.entries@[i].1))
    }

    /// No two entries share a name.
    pub open spec fn well_formed(&self) -> bool {
        distinct_names(self.entries())
    }

    /// The result for no names.
    pub fn new() -> (made: Self)
        ensures
            made.entries() == Seq::<(Seq<char>, FeatureEnabled)>::empty(),
            made@ == Map::<Seq<char>, FeatureEnabled>::empty(),
            made.well_formed(),
    {
        let made = EnabledFeatures { entries: Vec::new() };
        assert(made.entries() =~= Seq::<(Seq<char>, FeatureEnabled)>::empty());
        assert(made@ =~= Map::<Seq<char>, FeatureEnabled>::empty());
        made
    }

    /// The place of the entry for `name`, if there is one.
    fn position(&self, name: &str) -> (found: Option<usize>)
        ensures
            match found {
                Some(i) => {
                    &&& i < self.entries@.len()
                    &&& has_name(self.entries(), name@)
                    &&& is_first(self.entries(), name@, i as int)
                    &&& i == index_of(self.entries(), name@)
                },
                None => !has_name(self.entries(), name@),
            },
    {
        let mut i: usize = 0;
        while i < self.entries.len()
            invariant
                i <= self.entries@.len(),
                self.entries().len() == self.entries@.len(),
                forall|j: int| 0 <= j < i ==> (#[trigger] self.entries()[j]).0 != name@,
            decreases self.entries@.len() - i,
        {
            if order(self.entries[i].0.as_name(), name) == NameOrder::Same {
                proof {
                    assert(is_first(self.entries(), name@, i as int));
                    lemma_index_of(self.entries(), name@);
                }
                return Some(i);
            }
            i = i + 1;
        }
        None
    }

    /// How many names have an entry.
    pub fn len(&self) -> (n: usize)
        ensures
            n == self.entries().len(),
            self.well_formed() ==> n == self@.dom().len(),
    {
        proof {
            if self.well_formed() {
                lemma_as_many_names_as_entries(self.entries());
            }
        }
        self.entries.len()
    }

    /// Whether no name has an entry.
    pub fn is_empty(&self) -> (b: bool)
        ensures
            b == (self.entries().len() == 0),
            b == (self@ =~= Map::<Seq<char>, FeatureEnabled>::empty()),
    {
        proof {
            if self.entries().len() > 0 {
                assert(has_name(self.entries(), self.entries()[0].0));
                assert(self@.contains_key(self.entries()[0].0));
            }
        }
        self.entries.len() == 0
    }

    /// Whether `name` has an entry.
    pub fn contains_key(&self, name: &str) -> (b: bool)
        ensures
            b == self@.contains_key(name@),
    {
        self.position(name).is_some()
    }

    /// What was found of `name`, if it has an entry.
    pub fn get(&self, name: &str) -> (found: Option<FeatureEnabled>)
        ensures
            found == if self@.contains_key(name@) {
                Some(self@[name@])
            } else {
                None
            },
    {
        match self.position(name) {
            Some(i) => Some(self.entries[i].1),
            None => None,
        }
    }

    /// The key of the entry at `index`, as the caller gave it.
    pub fn key_at(&self, index: usize) -> (key: &F)
        requires
            index < self.entries().len(),
        ensures
            key.text() == self.entries()[index as int].0,
    {
        &self.entries[index].0
    }

    /// The name of the entry at `index`.
    pub fn name_at(&self, index: usize) -> (name: &str)
        requires
            index < self.entries().len(),
        ensures
            name@ == self.entries()[index as int].0,
    {
        self.entries[index].0.as_name()
    }

    /// What was found of the name of the entry at `index`.
    pub fn enabled_at(&self, index: usize) -> (enabled: FeatureEnabled)
        requires
            index < self.entries().len(),
        ensures
            enabled == self.entries()[index as int].1,
    {
        self.entries[index].1
    }

    /// Record what was found of `name`.  Where the name had an entry, the entry keeps its place
    /// and gets the new value, and the old value is returned.
    pub fn insert(&mut self, name: F, enabled: FeatureEnabled) -> (previous: Option<
        FeatureEnabled,
    >)
        ensures
            final(self).entries() == inserted(old(self).entries(), name.text(), enabled),
            final(self)@ == old(self)@.insert(name.text(), enabled),
            old(self).well_formed() ==> final(self).well_formed(),
            previous == if old(self)@.contains_key(name.text()) {
                Some(old(self)@[name.text()])
            } else {
                None
            },
    {
        proof {
            lemma_inserted(self.entries(), name.text(), enabled);
        }
        match self.position(name.as_name()) {
            Some(i) => {
                let (key, previous) = self.entries.remove(i);
                self.entries.insert(i, (key, enabled));
                assert(self.entries() =~= inserted(old(self).entries(), name.text(), enabled));
                Some(previous)
            },
            None => {
                self.entries.push((name, enabled));
                assert(self.entries() =~= inserted(old(self).entries(), name.text(), enabled));
                None
            },
        }
    }
}

} // verus!
