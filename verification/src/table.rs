//! A small table from names to values, in which a later insertion under a
//! name replaces the earlier one.

use vstd::prelude::*;

verus! {

/// A finite map from names to values.
///
/// The entries are kept in the order in which their names first came in.
#[derive(Debug)]
pub struct NameMap<V> {
    entries: Vec<(String, V)>,
}

impl<V: Clone + View> Clone for NameMap<V> {
    /// A table with the same names in the same order, each with a clone of
    /// its value. Where the clones hold what the values hold, the copy
    /// holds what the table holds.
    fn clone(&self) -> (copy: NameMap<V>)
        ensures
            copy.entry_names() == self.entry_names(),
            copy.entry_values().len() == self.entry_values().len(),
            forall|i: int|
                0 <= i < self.entry_values().len() ==> cloned(
                    #[trigger] self.entry_values()[i],
                    copy.entry_values()[i],
                ),
            (forall|i: int|
                0 <= i < self.entry_values().len() ==> (#[trigger] self.entry_values()[i])@
                    == copy.entry_values()[i]@) ==> copy@ == self@,
    {
        proof {
            use_type_invariant(self);
        }
        let mut entries: Vec<(String, V)> = Vec::new();
        let n = self.entries.len();
        let mut i: usize = 0;
        while i < n
            invariant
                i <= n,
                n == self.entries.len(),
                entries.len() == i,
                forall|k: int| 0 <= k < i ==> (#[trigger] entries[k]).0@ == self.entries[k].0@,
                forall|k: int| 0 <= k < i ==> cloned(self.entries[k].1, (#[trigger] entries[k]).1),
            decreases n - i,
        {
            let name = self.entries[i].0.clone();
            let value = self.entries[i].1.clone();
            entries.push((name, value));
            i += 1;
        }
        let copy = NameMap { entries };
        proof {
            assert(copy.entry_names() =~= self.entry_names());
            if forall|i: int|
                0 <= i < self.entry_values().len() ==> (#[trigger] self.entry_values()[i])@
                    == copy.entry_values()[i]@ {
                assert forall|k: int| 0 <= k < n implies (#[trigger] self.entries[k]).1@
                    == copy.entries[k].1@ by {
                    assert(self.entry_values()[k]@ == copy.entry_values()[k]@);
                }
                map_of_same(self.entries@, copy.entries@);
            }
        }
        copy
    }
}

/// The values of a sequence of entries.
spec fn values_of<V>(entries: Seq<(String, V)>) -> Seq<V> {
    Seq::new(entries.len(), |i: int| entries[i].1)
}

/// Two sequences of entries with the same names in the same order, whose
/// values hold the same, stand for the same map.
proof fn map_of_same<V: View>(first: Seq<(String, V)>, second: Seq<(String, V)>)
    requires
        names_differ(first),
        first.len() == second.len(),
        forall|k: int| 0 <= k < first.len() ==> (#[trigger] first[k]).0@ == second[k].0@,
        forall|k: int| 0 <= k < first.len() ==> (#[trigger] first[k]).1@ == second[k].1@,
    ensures
        names_differ(second),
        map_of(first) == map_of(second),
{
    assert(names_differ(second)) by {
        assert forall|a: int, b: int|
            0 <= a < second.len() && 0 <= b < second.len() && a != b implies (
        #[trigger] second[a]).0@ != (#[trigger] second[b]).0@ by {
            assert(first[a].0@ == second[a].0@);
            assert(first[b].0@ == second[b].0@);
        }
    }
    assert forall|key: Seq<char>| position(first, key) >= 0 <==> position(second, key) >= 0 by {
        if position(first, key) >= 0 {
            let p = position(first, key);
            assert(second[p].0@ == key);
        }
        if position(second, key) >= 0 {
            let p = position(second, key);
            assert(first[p].0@ == key);
        }
    }
    assert forall|key: Seq<char>| position(first, key) >= 0 implies #[trigger] map_of(first)[key]
        == map_of(second)[key] by {
        let p = position(first, key);
        assert(second[p].0@ == key);
        position_found(first, p);
        position_found(second, p);
    }
    assert(map_of(first) =~= map_of(second));
}

/// The names of a sequence of entries.
spec fn names_of<V>(entries: Seq<(String, V)>) -> Seq<Seq<char>> {
    Seq::new(entries.len(), |i: int| entries[i].0@)
}

/// No two entries of a sequence have the same name.
spec fn names_differ<V>(entries: Seq<(String, V)>) -> bool {
    forall|i: int, j: int|
        0 <= i < entries.len() && 0 <= j < entries.len() && i != j ==> (#[trigger] entries[i]).0@
            != (#[trigger] entries[j]).0@
}

/// Where the entry of a name stands, or -1 where there is none.
spec fn position<V>(entries: Seq<(String, V)>, name: Seq<char>) -> int {
    if exists|i: int| 0 <= i < entries.len() && (#[trigger] entries[i]).0@ == name {
        choose|i: int| 0 <= i < entries.len() && (#[trigger] entries[i]).0@ == name
    } else {
        -1
    }
}

/// The map that a sequence of entries with different names stands for.
spec fn map_of<V: View>(entries: Seq<(String, V)>) -> Map<Seq<char>, V::V> {
    Map::new(
        |name: Seq<char>| position(entries, name) >= 0,
        |name: Seq<char>| entries[position(entries, name)].1@,
    )
}

proof fn position_found<V>(entries: Seq<(String, V)>, i: int)
    requires
        names_differ(entries),
        0 <= i < entries.len(),
    ensures
        position(entries, entries[i].0@) == i,
{
    let p = position(entries, entries[i].0@);
    assert(0 <= p < entries.len() && entries[p].0@ == entries[i].0@);
}

proof fn position_absent<V>(entries: Seq<(String, V)>, name: Seq<char>)
    requires
        forall|k: int| 0 <= k < entries.len() ==> (#[trigger] entries[k]).0@ != name,
    ensures
        position(entries, name) == -1,
{
}

proof fn map_of_replace<V: View>(entries: Seq<(String, V)>, i: int, name: String, value: V)
    requires
        names_differ(entries),
        0 <= i < entries.len(),
        entries[i].0@ == name@,
    ensures
        names_differ(entries.update(i, (name, value))),
        map_of(entries.update(i, (name, value))) == map_of(entries).insert(name@, value@),
{
    let after = entries.update(i, (name, value));
    assert(names_differ(after)) by {
        assert forall|a: int, b: int|
            0 <= a < after.len() && 0 <= b < after.len() && a != b implies (#[trigger] after[a]).0@
            != (#[trigger] after[b]).0@ by {
            assert(after[a].0@ == entries[a].0@);
            assert(after[b].0@ == entries[b].0@);
        }
    }
    assert forall|key: Seq<char>|
        position(after, key) >= 0 <==> position(entries, key) >= 0 || key == name@ by {
        if position(entries, key) >= 0 {
            let p = position(entries, key);
            assert(after[p].0@ == key);
        }
        if key == name@ {
            assert(after[i].0@ == key);
        }
        if position(after, key) >= 0 {
            let p = position(after, key);
            assert(entries[p].0@ == key);
        }
    }
    assert forall|key: Seq<char>| position(after, key) >= 0 implies #[trigger] map_of(after)[key]
        == map_of(entries).insert(name@, value@)[key] by {
        let p = position(after, key);
        assert(entries[p].0@ == key);
        position_found(entries, p);
        position_found(after, p);
    }
    assert(map_of(after) =~= map_of(entries).insert(name@, value@));
}

proof fn map_of_push<V: View>(entries: Seq<(String, V)>, name: String, value: V)
    requires
        names_differ(entries),
        forall|k: int| 0 <= k < entries.len() ==> (#[trigger] entries[k]).0@ != name@,
    ensures
        names_differ(entries.push((name, value))),
        map_of(entries.push((name, value))) == map_of(entries).insert(name@, value@),
{
    let after = entries.push((name, value));
    let n = entries.len() as int;
    assert(names_differ(after)) by {
        assert forall|a: int, b: int|
            0 <= a < after.len() && 0 <= b < after.len() && a != b implies (#[trigger] after[a]).0@
            != (#[trigger] after[b]).0@ by {
            if a < n {
                assert(after[a] == entries[a]);
            }
            if b < n {
                assert(after[b] == entries[b]);
            }
        }
    }
    assert forall|key: Seq<char>|
        position(after, key) >= 0 <==> position(entries, key) >= 0 || key == name@ by {
        if position(entries, key) >= 0 {
            let p = position(entries, key);
            assert(after[p].0@ == key);
        }
        if key == name@ {
            assert(after[n].0@ == key);
        }
        if position(after, key) >= 0 {
            let p = position(after, key);
            if p < n {
                assert(entries[p].0@ == key);
            }
        }
    }
    assert forall|key: Seq<char>| position(after, key) >= 0 implies #[trigger] map_of(after)[key]
        == map_of(entries).insert(name@, value@)[key] by {
        let p = position(after, key);
        position_found(after, p);
        if p < n {
            assert(entries[p].0@ == key);
            position_found(entries, p);
        }
    }
    assert(map_of(after) =~= map_of(entries).insert(name@, value@));
}

impl<V> NameMap<V> {
    #[verifier::type_invariant]
    spec fn valid(self) -> bool {
        names_differ(self.entries@)
    }

    /// The names in the order in which they first came in.
    pub closed spec fn entry_names(&self) -> Seq<Seq<char>> {
        names_of(self.entries@)
    }

    /// The values in the order in which their names first came in.
    pub closed spec fn entry_values(&self) -> Seq<V> {
        values_of(self.entries@)
    }
}

impl<V: View> View for NameMap<V> {
    type V = Map<Seq<char>, V::V>;

    closed spec fn view(&self) -> Map<Seq<char>, V::V> {
        map_of(self.entries@)
    }
}

impl<V: View> NameMap<V> {
    /// The number of names in the table.
    pub closed spec fn spec_len(&self) -> nat {
        self.entries.len() as nat
    }

    /// The values in the order in which their names first came in.
    pub closed spec fn values(&self) -> Seq<V::V> {
        Seq::new(self.entries.len() as nat, |i: int| self.entries[i].1@)
    }

    /// The names in the order in which they first came in.
    pub closed spec fn names(&self) -> Seq<Seq<char>> {
        self.entry_names()
    }

    /// An empty table.
    pub fn new() -> (table: Self)
        ensures
            table@ == Map::<Seq<char>, V::V>::empty(),
            table.spec_len() == 0,
    {
        let table = NameMap { entries: Vec::new() };
        assert(table@ =~= Map::<Seq<char>, V::V>::empty());
        table
    }

    /// The number of names in the table. The names are pairwise different
    /// and are exactly the names under which the map holds a value.
    pub fn len(&self) -> (n: usize)
        ensures
            n == self.spec_len(),
            self.names().len() == n,
            self.values().len() == n,
            self.names().no_duplicates(),
            forall|name: Seq<char>| #[trigger]
                self@.contains_key(name) <==> self.names().contains(name),
    {
        proof {
            use_type_invariant(self);
            assert forall|name: Seq<char>| #[trigger] self@.contains_key(name) implies self.names()
                .contains(name) by {
                let p = position(self.entries@, name);
                assert(self.names()[p] == name);
            }
            assert forall|name: Seq<char>| self.names().contains(name) implies #[trigger] self@
                .contains_key(name) by {
                let i = choose|i: int| 0 <= i < self.names().len() && self.names()[i] == name;
                position_found(self.entries@, i);
            }
        }
        self.entries.len()
    }

    /// Puts a value under a name. A value that stood there before is
    /// replaced, and the name keeps its place in the order.
    pub fn insert(&mut self, name: String, value: V)
        ensures
            final(self)@ == old(self)@.insert(name@, value@),
    {
        proof {
            use_type_invariant(&*self);
        }
        let mut entries: Vec<(String, V)> = Vec::new();
        core::mem::swap(&mut self.entries, &mut entries);
        let ghost before = entries@;
        let n = entries.len();
        let mut i: usize = 0;
        let mut found: Option<usize> = None;
        while i < n
            invariant_except_break
                found is None,
                forall|k: int| 0 <= k < i ==> (#[trigger] entries[k]).0@ != name@,
            invariant
                i <= n,
                n == entries.len(),
                entries@ == before,
            ensures
                match found {
                    Some(at) => at < n && entries[at as int].0@ == name@,
                    None => forall|k: int| 0 <= k < n ==> (#[trigger] entries[k]).0@ != name@,
                },
            decreases n - i,
        {
            if entries[i].0 == name {
                found = Some(i);
                break ;
            }
            i += 1;
        }
        match found {
            Some(at) => {
                proof {
                    map_of_replace(before, at as int, name, value);
                }
                entries[at] = (name, value);
            },
            None => {
                proof {
                    map_of_push(before, name, value);
                }
                entries.push((name, value));
            },
        }
        self.entries = entries;
    }

    /// The value under a name, if there is one.
    pub fn get(&self, name: &str) -> (found: Option<&V>)
        ensures
            match found {
                Some(value) => self@.contains_key(name@) && self@[name@] == value@,
                None => !self@.contains_key(name@),
            },
    {
        proof {
            use_type_invariant(self);
        }
        let wanted = name.to_owned();
        let n = self.entries.len();
        let mut i: usize = 0;
        while i < n
            invariant
                i <= n,
                n == self.entries.len(),
                wanted@ == name@,
                names_differ(self.entries@),
                forall|k: int| 0 <= k < i ==> (#[trigger] self.entries[k]).0@ != name@,
            decreases n - i,
        {
            if self.entries[i].0 == wanted {
                proof {
                    position_found(self.entries@, i as int);
                }
                return Some(&self.entries[i].1);
            }
            i += 1;
        }
        proof {
            position_absent(self.entries@, name@);
        }
        None
    }

    /// The value at a place in the order of first insertion.
    pub fn value_at(&self, index: usize) -> (value: &V)
        requires
            index < self.spec_len(),
        ensures
            value@ == self.values()[index as int],
            self@.contains_key(self.names()[index as int]),
            self@[self.names()[index as int]] == value@,
    {
        proof {
            use_type_invariant(self);
            position_found(self.entries@, index as int);
        }
        &self.entries[index].1
    }

    /// The name at a place in the order of first insertion.
    pub fn name_at(&self, index: usize) -> (name: &String)
        requires
            index < self.spec_len(),
        ensures
            name@ == self.names()[index as int],
            self@.contains_key(name@),
    {
        proof {
            use_type_invariant(self);
            position_found(self.entries@, index as int);
        }
        &self.entries[index].0
    }
}

} // verus!
