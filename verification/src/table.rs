//! A small keyed table: rows found by a name that occurs at most once.

use vstd::prelude::*;

verus! {

/// One row of a [`Table`] together with the name it is filed under.
pub struct Entry<T> {
    pub name: String,
    pub row: T,
}

/// Rows filed under distinct names, in the order in which they were added.
///
/// Its view is the map from each name to its row.
pub struct Table<T> {
    entries: Vec<Entry<T>>,
}

/// The position of the entry named `name`, if `entries` has one.
pub open spec fn position_of<T>(entries: Seq<Entry<T>>, name: Seq<char>) -> Option<int> {
    if exists|i: int| 0 <= i < entries.len() && entries[i].name@ == name {
        Some(choose|i: int| 0 <= i < entries.len() && entries[i].name@ == name)
    } else {
        None
    }
}

/// No two entries of `entries` carry the same name.
pub open spec fn distinct_names<T>(entries: Seq<Entry<T>>) -> bool {
    forall|i: int, j: int|
        0 <= i < entries.len() && 0 <= j < entries.len() && i != j ==> entries[i].name@
            != entries[j].name@
}

/// The map that `entries` stands for.
pub open spec fn as_map<T>(entries: Seq<Entry<T>>) -> Map<Seq<char>, T> {
    Map::new(
        |name: Seq<char>| position_of(entries, name) is Some,
        |name: Seq<char>| entries[position_of(entries, name).unwrap()].row,
    )
}

/// With distinct names, the entry at position `i` is the one its name maps to.
pub proof fn lemma_position_known<T>(entries: Seq<Entry<T>>, i: int)
    requires
        distinct_names(entries),
        0 <= i < entries.len(),
    ensures
        position_of(entries, entries[i].name@) == Some(i),
        as_map(entries).contains_key(entries[i].name@),
        as_map(entries)[entries[i].name@] == entries[i].row,
{
}

/// A name that no entry carries is not a key of the map.
pub proof fn lemma_position_absent<T>(entries: Seq<Entry<T>>, name: Seq<char>)
    requires
        forall|i: int| 0 <= i < entries.len() ==> entries[i].name@ != name,
    ensures
        position_of(entries, name) is None,
        !as_map(entries).contains_key(name),
{
}

/// Appending an entry under a fresh name inserts it into the map.
pub proof fn lemma_push_inserts<T>(entries: Seq<Entry<T>>, entry: Entry<T>)
    requires
        distinct_names(entries),
        !as_map(entries).contains_key(entry.name@),
    ensures
        distinct_names(entries.push(entry)),
        as_map(entries.push(entry)) == as_map(entries).insert(entry.name@, entry.row),
{
    let after = entries.push(entry);
    assert forall|i: int| 0 <= i < entries.len() implies entries[i].name@ != entry.name@ by {
        lemma_position_known(entries, i);
    }
    assert forall|name: Seq<char>|
        as_map(after).contains_key(name) == as_map(entries).insert(
            entry.name@,
            entry.row,
        ).contains_key(name) by {
        if name == entry.name@ {
            lemma_position_known(after, entries.len() as int);
        } else if position_of(entries, name) is Some {
            let i = position_of(entries, name).unwrap();
            assert(after[i].name@ == name);
        }
    }
    assert forall|name: Seq<char>| as_map(after).contains_key(name) implies as_map(after)[name]
        == as_map(entries).insert(entry.name@, entry.row)[name] by {
        let i = position_of(after, name).unwrap();
        lemma_position_known(after, i);
        if i < entries.len() {
            lemma_position_known(entries, i);
        }
    }
}

/// Replacing the row at position `i` replaces the value under that name.
pub proof fn lemma_update_inserts<T>(entries: Seq<Entry<T>>, i: int, row: T)
    requires
        distinct_names(entries),
        0 <= i < entries.len(),
    ensures
        distinct_names(entries.update(i, Entry { name: entries[i].name, row })),
        as_map(entries.update(i, Entry { name: entries[i].name, row })) == as_map(entries).insert(
            entries[i].name@,
            row,
        ),
{
    let name_i = entries[i].name@;
    let after = entries.update(i, Entry { name: entries[i].name, row });
    assert forall|name: Seq<char>|
        as_map(after).contains_key(name) == as_map(entries).insert(name_i, row).contains_key(
            name,
        ) by {
        if name == name_i {
            lemma_position_known(after, i);
        } else if position_of(entries, name) is Some {
            let k = position_of(entries, name).unwrap();
            assert(after[k].name@ == name);
        }
    }
    assert forall|name: Seq<char>| as_map(after).contains_key(name) implies as_map(after)[name]
        == as_map(entries).insert(name_i, row)[name] by {
        let k = position_of(after, name).unwrap();
        lemma_position_known(after, k);
        lemma_position_known(entries, k);
    }
}

/// Taking the entry at position `i` away removes its name from the map.
pub proof fn lemma_remove_removes<T>(entries: Seq<Entry<T>>, i: int)
    requires
        distinct_names(entries),
        0 <= i < entries.len(),
    ensures
        distinct_names(entries.remove(i)),
        as_map(entries.remove(i)) == as_map(entries).remove(entries[i].name@),
{
    let name_i = entries[i].name@;
    let after = entries.remove(i);
    assert forall|name: Seq<char>|
        as_map(after).contains_key(name) == as_map(entries).remove(name_i).contains_key(
            name,
        ) by {
        if position_of(after, name) is Some {
            let k = position_of(after, name).unwrap();
            let k0 = if k < i { k } else { k + 1 };
            lemma_position_known(entries, k0);
        } else if name != name_i && position_of(entries, name) is Some {
            let k0 = position_of(entries, name).unwrap();
            let k = if k0 < i { k0 } else { k0 - 1 };
            assert(after[k].name@ == name);
        }
    }
    assert forall|name: Seq<char>| as_map(after).contains_key(name) implies as_map(after)[name]
        == as_map(entries).remove(name_i)[name] by {
        let k = position_of(after, name).unwrap();
        let k0 = if k < i { k } else { k + 1 };
        lemma_position_known(after, k);
        lemma_position_known(entries, k0);
    }
}

/// Distinct names are as many as their entries.
pub proof fn lemma_names_counted<T>(entries: Seq<Entry<T>>)
    requires
        distinct_names(entries),
    ensures
        as_map(entries).dom().finite(),
        as_map(entries).dom().len() == entries.len(),
    decreases entries.len(),
{
    if entries.len() == 0 {
        assert(as_map(entries).dom() =~= Set::<Seq<char>>::empty());
    } else {
        let last = entries.last();
        let front = entries.drop_last();
        lemma_names_counted(front);
        assert(!as_map(front).contains_key(last.name@));
        lemma_push_inserts(front, last);
        assert(front.push(last) =~= entries);
    }
}

impl<T> Table<T> {
    #[verifier::type_invariant]
    spec fn names_are_distinct(self) -> bool {
        distinct_names(self.entries@)
    }

    /// The entries in the order in which they were added.
    pub closed spec fn entries(&self) -> Seq<Entry<T>> {
        self.entries@
    }

    /// The map from each name to its row.
    pub open spec fn view(&self) -> Map<Seq<char>, T> {
        as_map(self.entries())
    }

    /// A table without rows.
    pub fn new() -> (table: Self)
        ensures
            table@ == Map::<Seq<char>, T>::empty(),
            table.entries().len() == 0,
    {
        Table { entries: Vec::new() }
    }

    /// The number of rows.
    pub fn len(&self) -> (n: usize)
        ensures
            n == self.entries().len(),
            self@.dom().finite(),
            n == self@.dom().len(),
    {
        proof {
            use_type_invariant(self);
            lemma_names_counted(self.entries@);
        }
        self.entries.len()
    }

    /// The entry at position `i`.
    pub fn entry(&self, i: usize) -> (e: &Entry<T>)
        requires
            i < self.entries().len(),
        ensures
            *e == self.entries()[i as int],
            self@.contains_key(e.name@),
            self@[e.name@] == e.row,
    {
        proof {
            use_type_invariant(self);
            lemma_position_known(self.entries@, i as int);
        }
        &self.entries[i]
    }

    /// The position of the entry filed under `name`.
    pub fn position(&self, name: &String) -> (found: Option<usize>)
        ensures
            match found {
                Some(i) => i < self.entries().len() && self.entries()[i as int].name@ == name@
                    && self@.contains_key(name@),
                None => !self@.contains_key(name@),
            },
    {
        let mut i: usize = 0;
        while i < self.entries.len()
            invariant
                i <= self.entries@.len(),
                forall|k: int| 0 <= k < i ==> self.entries@[k].name@ != name@,
            decreases self.entries@.len() - i,
        {
            if self.entries[i].name == *name {
                proof {
                    use_type_invariant(self);
                    lemma_position_known(self.entries@, i as int);
                }
                return Some(i);
            }
            i += 1;
        }
        proof {
            lemma_position_absent(self.entries@, name@);
        }
        None
    }

    /// Whether a row is filed under `name`.
    pub fn contains(&self, name: &String) -> (found: bool)
        ensures
            found == self@.contains_key(name@),
    {
        self.position(name).is_some()
    }

    /// The row filed under `name`.
    pub fn get(&self, name: &String) -> (row: Option<&T>)
        ensures
            match row {
                Some(r) => self@.contains_key(name@) && *r == self@[name@],
                None => !self@.contains_key(name@),
            },
    {
        match self.position(name) {
            Some(i) => {
                proof {
                    use_type_invariant(self);
                    lemma_position_known(self.entries@, i as int);
                }
                Some(&self.entries[i].row)
            },
            None => None,
        }
    }

    /// Files `row` under `name` unless the name is taken; says whether it did.
    pub fn insert(&mut self, name: String, row: T) -> (added: bool)
        ensures
            added == !old(self)@.contains_key(name@),
            added ==> final(self)@ == old(self)@.insert(name@, row),
            added ==> final(self).entries() == old(self).entries().push(Entry { name, row }),
            !added ==> *final(self) == *old(self),
    {
        if self.contains(&name) {
            return false;
        }
        proof {
            use_type_invariant(&*self);
            lemma_push_inserts(self.entries@, Entry { name, row });
        }
        let mut entries: Vec<Entry<T>> = Vec::new();
        core::mem::swap(&mut self.entries, &mut entries);
        entries.push(Entry { name, row });
        core::mem::swap(&mut self.entries, &mut entries);
        true
    }

    /// Puts `row` in place of the row filed under `name`; says whether there was one.
    pub fn replace(&mut self, name: &String, row: T) -> (replaced: bool)
        ensures
            replaced == old(self)@.contains_key(name@),
            replaced ==> final(self)@ == old(self)@.insert(name@, row),
            replaced ==> final(self).entries().len() == old(self).entries().len(),
            !replaced ==> *final(self) == *old(self),
    {
        match self.position(name) {
            Some(i) => {
                proof {
                    use_type_invariant(&*self);
                    lemma_update_inserts(self.entries@, i as int, row);
                }
                let mut entries: Vec<Entry<T>> = Vec::new();
                core::mem::swap(&mut self.entries, &mut entries);
                let entry = entries.remove(i);
                entries.insert(i, Entry { name: entry.name, row });
                assert(entries@ =~= old(self).entries().update(
                    i as int,
                    Entry { name: old(self).entries()[i as int].name, row },
                ));
                core::mem::swap(&mut self.entries, &mut entries);
                true
            },
            None => false,
        }
    }

    /// Takes the row filed under `name` out of the table.
    pub fn remove(&mut self, name: &String) -> (row: Option<T>)
        ensures
            match row {
                Some(r) => old(self)@.contains_key(name@) && r == old(self)@[name@],
                None => !old(self)@.contains_key(name@),
            },
            final(self)@ == old(self)@.remove(name@),
    {
        match self.position(name) {
            Some(i) => {
                proof {
                    use_type_invariant(&*self);
                    lemma_position_known(self.entries@, i as int);
                    lemma_remove_removes(self.entries@, i as int);
                }
                let mut entries: Vec<Entry<T>> = Vec::new();
                core::mem::swap(&mut self.entries, &mut entries);
                let entry = entries.remove(i);
                core::mem::swap(&mut self.entries, &mut entries);
                Some(entry.row)
            },
            None => {
                None
            },
        }
    }
}

} // verus!
