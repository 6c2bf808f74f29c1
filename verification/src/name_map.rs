//! A map from names to values, kept in the order in which names came in.
use vstd::prelude::*;
use vstd::string::*;

verus! {

/// Values filed under text names. Each name holds the value filed last.
pub struct NameMap<V> {
    entries: Vec<(String, V)>,
}

/// What a run of entries maps each name to: the last entry for a name counts.
pub closed spec fn entries_map<V>(entries: Seq<(String, V)>) -> Map<Seq<char>, V>
    decreases entries.len(),
{
    if entries.len() == 0 {
        Map::empty()
    } else {
        entries_map(entries.drop_last()).insert(entries.last().0@, entries.last().1)
    }
}

/// Entries for other names leave a name as the entries before them had it.
proof fn lemma_other_names<V>(entries: Seq<(String, V)>, n: int, name: Seq<char>)
    requires
        0 <= n <= entries.len(),
        forall|i: int| n <= i < entries.len() ==> (#[trigger] entries[i]).0@ != name,
    ensures
        entries_map(entries).contains_key(name) == entries_map(entries.take(n)).contains_key(name),
        entries_map(entries).contains_key(name) ==> entries_map(entries)[name] == entries_map(
            entries.take(n),
        )[name],
    decreases entries.len(),
{
    if n < entries.len() {
        assert(entries.last().0@ != name);
        let rest = entries.drop_last();
        assert(forall|i: int| n <= i < rest.len() ==> rest[i] == entries[i]);
        lemma_other_names(rest, n, name);
        assert(rest.take(n) =~= entries.take(n));
    } else {
        assert(entries.take(n) =~= entries);
    }
}

proof fn lemma_replace<V>(entries: Seq<(String, V)>, n: int, entry: (String, V))
    requires
        0 <= n < entries.len(),
        entries[n].0@ == entry.0@,
        forall|i: int| n < i < entries.len() ==> (#[trigger] entries[i]).0@ != entry.0@,
    ensures
        entries_map(entries.update(n, entry)) =~= entries_map(entries).insert(entry.0@, entry.1),
    decreases entries.len(),
{
    let rest = entries.drop_last();
    if n == entries.len() - 1 {
        assert(entries.update(n, entry).drop_last() =~= rest);
    } else {
        assert(entries.last().0@ != entry.0@);
        assert(forall|i: int| n < i < rest.len() ==> rest[i] == entries[i]);
        lemma_replace(rest, n, entry);
        assert(entries.update(n, entry).drop_last() =~= rest.update(n, entry));
    }
}

proof fn lemma_names<V>(entries: Seq<(String, V)>)
    ensures
        forall|name: Seq<char>| #[trigger]
            entries_map(entries).contains_key(name) <==> exists|i: int|
                0 <= i < entries.len() && (#[trigger] entries[i]).0@ == name,
    decreases entries.len(),
{
    if entries.len() > 0 {
        let rest = entries.drop_last();
        lemma_names(rest);
        assert forall|name: Seq<char>| #[trigger]
            entries_map(entries).contains_key(name) implies exists|i: int|
            0 <= i < entries.len() && (#[trigger] entries[i]).0@ == name by {
            if entries.last().0@ != name {
                assert(entries_map(rest).contains_key(name));
                let i = choose|i: int| 0 <= i < rest.len() && (#[trigger] rest[i]).0@ == name;
                assert(entries[i].0@ == name);
            } else {
                assert(entries[entries.len() - 1].0@ == name);
            }
        }
        assert forall|name: Seq<char>|
            (exists|i: int| 0 <= i < entries.len() && (#[trigger] entries[i]).0@ == name) implies #[trigger]
        entries_map(entries).contains_key(name) by {
            let i = choose|i: int| 0 <= i < entries.len() && (#[trigger] entries[i]).0@ == name;
            if i < rest.len() {
                assert(rest[i].0@ == name);
                assert(entries_map(rest).contains_key(name));
            }
        }
    }
}

impl<V> View for NameMap<V> {
    type V = Map<Seq<char>, V>;

    closed spec fn view(&self) -> Map<Seq<char>, V> {
        entries_map(self.entries@)
    }
}

impl<V> NameMap<V> {
    /// The names in the order in which they came in.
    pub closed spec fn names(&self) -> Seq<Seq<char>> {
        self.entries@.map_values(|entry: (String, V)| entry.0@)
    }

    /// The listed names are the names that hold a value.
    pub proof fn law_names_are_the_keys(&self)
        ensures
            forall|name: Seq<char>| #[trigger]
                self@.contains_key(name) <==> self.names().contains(name),
    {
        lemma_names(self.entries@);
        assert forall|name: Seq<char>| #[trigger] self@.contains_key(name) implies self.names().contains(
            name,
        ) by {
            let i = choose|i: int|
                0 <= i < self.entries@.len() && (#[trigger] self.entries@[i]).0@ == name;
            assert(self.names()[i] == name);
        }
        assert forall|name: Seq<char>| self.names().contains(name) implies #[trigger]
        self@.contains_key(name) by {
            let i = choose|i: int| 0 <= i < self.names().len() && self.names()[i] == name;
            assert(self.entries@[i].0@ == name);
        }
    }

    pub fn new() -> (map: NameMap<V>)
        ensures
            map@ == Map::<Seq<char>, V>::empty(),
    {
        NameMap { entries: Vec::new() }
    }

    /// The place of the last entry for `name`.
    fn find(&self, name: &str) -> (place: Option<usize>)
        ensures
            match place {
                Some(i) => {
                    &&& i < self.entries@.len()
                    &&& self.entries@[i as int].0@ == name@
                    &&& forall|j: int|
                        i < j < self.entries@.len() ==> (#[trigger] self.entries@[j]).0@ != name@
                    &&& self@.contains_key(name@)
                    &&& self@[name@] == self.entries@[i as int].1
                },
                None => !self@.contains_key(name@) && forall|j: int|
                    0 <= j < self.entries@.len() ==> (#[trigger] self.entries@[j]).0@ != name@,
            },
    {
        let wanted: String = String::from_str(name);
        let mut i: usize = self.entries.len();
        while i > 0
            invariant
                i <= self.entries@.len(),
                wanted@ == name@,
                forall|j: int|
                    i <= j < self.entries@.len() ==> (#[trigger] self.entries@[j]).0@ != name@,
            decreases i,
        {
            i = i - 1;
            if self.entries[i].0 == wanted {
                proof {
                    lemma_other_names(self.entries@, i + 1, name@);
                    assert(self.entries@.take(i + 1).last() == self.entries@[i as int]);
                }
                return Some(i);
            }
        }
        proof {
            lemma_other_names(self.entries@, 0, name@);
            assert(self.entries@.take(0) =~= Seq::empty());
        }
        None
    }

    /// Files `value` under `name`, in place of what the name held.
    pub fn insert(&mut self, name: String, value: V)
        ensures
            final(self)@ == old(self)@.insert(name@, value),
    {
        match self.find(name.as_str()) {
            Some(i) => {
                let entry: (String, V) = (name, value);
                proof {
                    lemma_replace(self.entries@, i as int, entry);
                }
                self.entries.set(i, entry);
            },
            None => {
                let ghost before = self.entries@;
                self.entries.push((name, value));
                assert(self.entries@.drop_last() =~= before);
            },
        }
    }

    pub fn get(&self, name: &str) -> (value: Option<&V>)
        ensures
            match value {
                Some(v) => self@.contains_key(name@) && *v == self@[name@],
                None => !self@.contains_key(name@),
            },
    {
        match self.find(name) {
            Some(i) => Some(&self.entries[i].1),
            None => None,
        }
    }

    pub fn contains(&self, name: &str) -> (found: bool)
        ensures
            found == self@.contains_key(name@),
    {
        self.find(name).is_some()
    }

    pub fn len(&self) -> (len: usize)
        ensures
            len == self.names().len(),
    {
        self.entries.len()
    }

    pub fn name_at(&self, i: usize) -> (name: &str)
        requires
            i < self.names().len(),
        ensures
            name@ == self.names()[i as int],
    {
        self.entries[i].0.as_str()
    }
}

} // verus!
