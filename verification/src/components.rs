use crate::level::LevelFilter;
use vstd::prelude::*;
use vstd::set_lib::lemma_subset_equality;
use vstd::std_specs::cmp::PartialEqSpecImpl;

verus! {

/// The map that a list of entries stands for: read left to right, each
/// entry sets the level of its key.
pub open spec fn entries_map(entries: Seq<(String, LevelFilter)>) -> Map<Seq<char>, LevelFilter>
    decreases entries.len(),
{
    if entries.len() == 0 {
        Map::empty()
    } else {
        entries_map(entries.drop_last()).insert(entries.last().0@, entries.last().1)
    }
}

/// No key stands in two entries.
pub open spec fn distinct_keys(entries: Seq<(String, LevelFilter)>) -> bool {
    forall|i: int, j: int| 0 <= i < j < entries.len() ==> entries[i].0@ != entries[j].0@
}

/// Some entry holds the key.
pub open spec fn has_key(entries: Seq<(String, LevelFilter)>, key: Seq<char>) -> bool {
    exists|i: int| 0 <= i < entries.len() && (#[trigger] entries[i]).0@ == key
}

proof fn lemma_entries_map_keys(entries: Seq<(String, LevelFilter)>)
    ensures
        entries_map(entries).dom().finite(),
        forall|key: Seq<char>| #[trigger]
            entries_map(entries).contains_key(key) <==> has_key(entries, key),
    decreases entries.len(),
{
    if entries.len() != 0 {
        let rest = entries.drop_last();
        lemma_entries_map_keys(rest);
        assert forall|key: Seq<char>| #[trigger]
            entries_map(entries).contains_key(key) <==> has_key(entries, key) by {
            if has_key(entries, key) {
                let i = choose|i: int| 0 <= i < entries.len() && (#[trigger] entries[i]).0@ == key;
                if i < entries.len() - 1 {
                    assert(rest[i].0@ == key);
                }
            }
            if entries_map(entries).contains_key(key) {
                if entries.last().0@ == key {
                    assert(entries[entries.len() - 1].0@ == key);
                } else {
                    let i = choose|i: int| 0 <= i < rest.len() && (#[trigger] rest[i]).0@ == key;
                    assert(entries[i].0@ == key);
                }
            }
        }
    }
}

proof fn lemma_entries_map_value(entries: Seq<(String, LevelFilter)>, i: int)
    requires
        distinct_keys(entries),
        0 <= i < entries.len(),
    ensures
        entries_map(entries).contains_key(entries[i].0@),
        entries_map(entries)[entries[i].0@] == entries[i].1,
    decreases entries.len(),
{
    if i < entries.len() - 1 {
        let rest = entries.drop_last();
        assert(rest[i] == entries[i]);
        lemma_entries_map_value(rest, i);
    }
}

proof fn lemma_entries_map_len(entries: Seq<(String, LevelFilter)>)
    requires
        distinct_keys(entries),
    ensures
        entries_map(entries).dom().finite(),
        entries_map(entries).dom().len() == entries.len(),
    decreases entries.len(),
{
    lemma_entries_map_keys(entries);
    if entries.len() != 0 {
        let rest = entries.drop_last();
        lemma_entries_map_len(rest);
        lemma_entries_map_keys(rest);
        let key = entries.last().0@;
        if has_key(rest, key) {
            let i = choose|i: int| 0 <= i < rest.len() && (#[trigger] rest[i]).0@ == key;
            assert(entries[i].0@ == entries[entries.len() - 1].0@);
        }
        assert(!entries_map(rest).dom().contains(key));
        assert(entries_map(entries).dom() =~= entries_map(rest).dom().insert(key));
    }
}

proof fn lemma_entries_map_update(
    entries: Seq<(String, LevelFilter)>,
    i: int,
    entry: (String, LevelFilter),
)
    requires
        distinct_keys(entries),
        0 <= i < entries.len(),
        entry.0@ == entries[i].0@,
    ensures
        distinct_keys(entries.update(i, entry)),
        entries_map(entries.update(i, entry)) == entries_map(entries).insert(entry.0@, entry.1),
    decreases entries.len(),
{
    let updated = entries.update(i, entry);
    let rest = entries.drop_last();
    if i == entries.len() - 1 {
        assert(updated.drop_last() =~= rest);
        assert(entries_map(updated) =~= entries_map(entries).insert(entry.0@, entry.1));
    } else {
        assert(updated.drop_last() =~= rest.update(i, entry));
        assert(rest[i] == entries[i]);
        lemma_entries_map_update(rest, i, entry);
        assert(entries[i].0@ != entries[entries.len() - 1].0@);
        assert(entries_map(updated) =~= entries_map(entries).insert(entry.0@, entry.1));
    }
}

/// The place of `key` among the entries, if it has one.
fn position(entries: &Vec<(String, LevelFilter)>, key: &str) -> (r: Option<usize>)
    ensures
        match r {
            Some(i) => i < entries.len() && entries[i as int].0@ == key@,
            None => !has_key(entries@, key@),
        },
{
    let mut i: usize = 0;
    while i < entries.len()
        invariant
            i <= entries.len(),
            forall|j: int| 0 <= j < i ==> (#[trigger] entries[j]).0@ != key@,
        decreases entries.len() - i,
    {
        if entries[i].0.as_str().eq(key) {
            return Some(i);
        }
        i += 1;
    }
    None
}

/// The level ceilings set for single components: a finite map from a
/// component's name to its filter.
#[derive(Debug)]
pub struct ComponentLevels {
    entries: Vec<(String, LevelFilter)>,
}

impl View for ComponentLevels {
    type V = Map<Seq<char>, LevelFilter>;

    closed spec fn view(&self) -> Map<Seq<char>, LevelFilter> {
        entries_map(self.entries@)
    }
}

impl ComponentLevels {
    #[verifier::type_invariant]
    spec fn keys_are_distinct(self) -> bool {
        distinct_keys(self.entries@)
    }

    /// The map without any component.
    pub fn new() -> (r: Self)
        ensures
            r@ == Map::<Seq<char>, LevelFilter>::empty(),
    {
        ComponentLevels { entries: Vec::new() }
    }

    /// The number of components that have a level of their own.
    pub fn len(&self) -> (r: usize)
        ensures
            self@.dom().finite(),
            r == self@.len(),
    {
        proof {
            use_type_invariant(self);
            lemma_entries_map_len(self.entries@);
        }
        self.entries.len()
    }

    /// Sets the level of `key`, in place of the one it had.
    pub fn insert(&mut self, key: String, level: LevelFilter)
        ensures
            final(self)@ == old(self)@.insert(key@, level),
    {
        let mut taken = ComponentLevels::new();
        std::mem::swap(self, &mut taken);
        proof {
            use_type_invariant(&taken);
        }
        let ComponentLevels { mut entries } = taken;
        let ghost before = entries@;
        match position(&entries, key.as_str()) {
            Some(i) => {
                proof {
                    lemma_entries_map_update(before, i as int, (key, level));
                }
                entries.set(i, (key, level));
            },
            None => {
                entries.push((key, level));
                assert(entries@.drop_last() =~= before);
                assert forall|i: int, j: int| 0 <= i < j < entries@.len() implies entries@[i].0@
                    != entries@[j].0@ by {
                    assert(entries@[i] == before[i]);
                }
            },
        }
        *self = ComponentLevels { entries };
    }

    /// The level set for `key`, if one is.
    pub fn get(&self, key: &str) -> (r: Option<LevelFilter>)
        ensures
            r == if self@.contains_key(key@) {
                Some(self@[key@])
            } else {
                None
            },
    {
        proof {
            use_type_invariant(self);
            lemma_entries_map_keys(self.entries@);
        }
        match position(&self.entries, key) {
            Some(i) => {
                proof {
                    lemma_entries_map_value(self.entries@, i as int);
                }
                Some(self.entries[i].1)
            },
            None => None,
        }
    }

    /// The components with their levels, each component once.
    pub fn to_vec(&self) -> (r: Vec<(String, LevelFilter)>)
        ensures
            entries_map(r@) == self@,
            distinct_keys(r@),
    {
        proof {
            use_type_invariant(self);
        }
        let mut out: Vec<(String, LevelFilter)> = Vec::new();
        let mut i: usize = 0;
        while i < self.entries.len()
            invariant
                i <= self.entries.len(),
                out@ == self.entries@.take(i as int),
            decreases self.entries.len() - i,
        {
            let key = self.entries[i].0.clone();
            out.push((key, self.entries[i].1));
            assert(out@ =~= self.entries@.take(i + 1));
            i += 1;
        }
        assert(self.entries@.take(i as int) =~= self.entries@);
        out
    }
}

impl Clone for ComponentLevels {
    fn clone(&self) -> (r: Self)
        ensures
            r@ == self@,
    {
        proof {
            use_type_invariant(self);
        }
        let entries = self.to_vec();
        ComponentLevels { entries }
    }
}

impl PartialEq for ComponentLevels {
    fn eq(&self, other: &Self) -> (r: bool) {
        proof {
            use_type_invariant(self);
            use_type_invariant(other);
            lemma_entries_map_len(self.entries@);
            lemma_entries_map_len(other.entries@);
            lemma_entries_map_keys(self.entries@);
        }
        if self.entries.len() != other.entries.len() {
            return false;
        }
        let mut i: usize = 0;
        while i < self.entries.len()
            invariant
                i <= self.entries.len(),
                forall|j: int|
                    0 <= j < i ==> other@.contains_key((#[trigger] self.entries[j]).0@)
                        && other@[self.entries[j].0@] == self.entries[j].1,
            decreases self.entries.len() - i,
        {
            proof {
                use_type_invariant(self);
                lemma_entries_map_value(self.entries@, i as int);
            }
            match other.get(self.entries[i].0.as_str()) {
                Some(level) => {
                    if level != self.entries[i].1 {
                        return false;
                    }
                },
                None => {
                    return false;
                },
            }
            i += 1;
        }
        proof {
            use_type_invariant(self);
            assert forall|key: Seq<char>| self@.contains_key(key) implies other@.contains_key(key)
                && other@[key] == self@[key] by {
                let j = choose|j: int|
                    0 <= j < self.entries@.len() && (#[trigger] self.entries@[j]).0@ == key;
                lemma_entries_map_value(self.entries@, j);
            }
            assert(self@.dom().subset_of(other@.dom()));
            lemma_subset_equality(self@.dom(), other@.dom());
            assert(self@ =~= other@);
        }
        true
    }
}

impl PartialEqSpecImpl for ComponentLevels {
    open spec fn obeys_eq_spec() -> bool {
        true
    }

    open spec fn eq_spec(&self, other: &ComponentLevels) -> bool {
        self@ == other@
    }
}

} // verus!
