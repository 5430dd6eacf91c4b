//! A table from names to values.
//!
//! The rows stand in a vector in the order in which their names first came;
//! no name stands in two rows.

use vstd::prelude::*;

use crate::text::same_text;

verus! {

/// The map that a list of rows stands for.
pub open spec fn rows_map<V>(rows: Seq<(String, V)>) -> Map<Seq<char>, V>
    decreases rows.len(),
{
    if rows.len() == 0 {
        Map::empty()
    } else {
        rows_map(rows.drop_last()).insert(rows.last().0@, rows.last().1)
    }
}

/// No two rows bear one name.
pub open spec fn names_distinct<V>(rows: Seq<(String, V)>) -> bool {
    forall|i: int, j: int|
        #![trigger rows[i], rows[j]]
        0 <= i < j < rows.len() ==> rows[i].0@ != rows[j].0@
}

/// A table from names to values.
#[derive(Debug)]
pub struct Table<V> {
    pub(crate) rows: Vec<(String, V)>,
}

impl<V> View for Table<V> {
    type V = Map<Seq<char>, V>;

    closed spec fn view(&self) -> Map<Seq<char>, V> {
        rows_map(self.rows@)
    }
}

/// A table is the map that its rows stand for.
pub(crate) proof fn lemma_table_rows<V>(table: Table<V>)
    ensures
        table@ == rows_map(table.rows@),
{
}

/// A row's name is in the map, and its value is the row's where names are distinct.
pub proof fn lemma_row_in_map<V>(rows: Seq<(String, V)>, i: int)
    requires
        0 <= i < rows.len(),
    ensures
        rows_map(rows).contains_key(rows[i].0@),
        names_distinct(rows) ==> rows_map(rows)[rows[i].0@] == rows[i].1,
    decreases rows.len(),
{
    let init = rows.drop_last();
    if i < init.len() {
        lemma_row_in_map(init, i);
        assert(init[i] == rows[i]);
        if names_distinct(rows) {
            assert forall|a: int, b: int| 0 <= a < b < init.len() implies #[trigger] init[a].0@
                != #[trigger] init[b].0@ by {
                assert(rows[a].0@ != rows[b].0@);
            }
            assert(rows[i].0@ != rows[rows.len() - 1].0@);
        }
    }
}

/// Every name of the map stands in some row.
pub proof fn lemma_name_has_row<V>(rows: Seq<(String, V)>, name: Seq<char>) -> (i: int)
    requires
        rows_map(rows).contains_key(name),
    ensures
        0 <= i < rows.len(),
        rows[i].0@ == name,
    decreases rows.len(),
{
    if rows.last().0@ == name {
        rows.len() - 1
    } else {
        let i = lemma_name_has_row(rows.drop_last(), name);
        assert(rows.drop_last()[i] == rows[i]);
        i
    }
}

/// The map has as many names as there are rows, where names are distinct.
pub proof fn lemma_map_len<V>(rows: Seq<(String, V)>)
    requires
        names_distinct(rows),
    ensures
        rows_map(rows).dom().finite(),
        rows_map(rows).len() == rows.len(),
    decreases rows.len(),
{
    if rows.len() > 0 {
        let init = rows.drop_last();
        assert(names_distinct(init)) by {
            assert forall|a: int, b: int| 0 <= a < b < init.len() implies #[trigger] init[a].0@
                != #[trigger] init[b].0@ by {
                assert(rows[a].0@ != rows[b].0@);
            }
        }
        lemma_map_len(init);
        if rows_map(init).contains_key(rows.last().0@) {
            let i = lemma_name_has_row(init, rows.last().0@);
            assert(init[i] == rows[i]);
            assert(rows[i].0@ != rows[rows.len() - 1].0@);
        }
    }
}

/// Rows with distinct names stand for the map that has just these names and their values.
proof fn lemma_map_is<V>(rows: Seq<(String, V)>, m: Map<Seq<char>, V>)
    requires
        names_distinct(rows),
        forall|k: Seq<char>| m.contains_key(k) ==> exists|i: int|
            0 <= i < rows.len() && #[trigger] rows[i].0@ == k,
        forall|i: int|
            #![trigger rows[i]]
            0 <= i < rows.len() ==> m.contains_key(rows[i].0@) && m[rows[i].0@] == rows[i].1,
    ensures
        rows_map(rows) == m,
{
    assert forall|k: Seq<char>| #[trigger] rows_map(rows).contains_key(k) implies m.contains_key(k)
        && m[k] == rows_map(rows)[k] by {
        let i = lemma_name_has_row(rows, k);
        lemma_row_in_map(rows, i);
    }
    assert forall|k: Seq<char>| #[trigger] m.contains_key(k) implies rows_map(rows).contains_key(
        k,
    ) by {
        let i = choose|i: int| 0 <= i < rows.len() && #[trigger] rows[i].0@ == k;
        lemma_row_in_map(rows, i);
    }
    assert(rows_map(rows) =~= m);
}

impl<V> Table<V> {
    #[verifier::type_invariant]
    pub(crate) open spec fn well_formed(self) -> bool {
        names_distinct(self.rows@)
    }

    /// The names in the order of their rows.
    pub closed spec fn names(&self) -> Seq<Seq<char>> {
        Seq::new(self.rows@.len(), |i: int| self.rows@[i].0@)
    }

    /// An empty table.
    pub fn new() -> (table: Self)
        ensures
            table@ == Map::<Seq<char>, V>::empty(),
            table.names() == Seq::<Seq<char>>::empty(),
    {
        let rows: Vec<(String, V)> = Vec::new();
        Table { rows }
    }

    /// The index of the row that bears `name`.
    fn find(&self, name: &str) -> (found: Option<usize>)
        ensures
            (match found {
                Some(i) => i < self.rows@.len() && self.rows@[i as int].0@ == name@,
                None => forall|i: int| 0 <= i < self.rows@.len() ==> #[trigger] self.rows@[i].0@ != name@,
            }),
    {
        let mut i: usize = 0;
        while i < self.rows.len()
            invariant
                i <= self.rows@.len(),
                forall|j: int| 0 <= j < i ==> #[trigger] self.rows@[j].0@ != name@,
            decreases self.rows@.len() - i,
        {
            if same_text(self.rows[i].0.as_str(), name) {
                return Some(i);
            }
            i = i + 1;
        }
        None
    }

    /// The value under `name`.
    pub fn get(&self, name: &str) -> (value: Option<&V>)
        ensures
            value is Some <==> self@.contains_key(name@),
            value matches Some(v) ==> *v == self@[name@],
    {
        proof {
            use_type_invariant(self);
        }
        match self.find(name) {
            Some(i) => {
                proof {
                    lemma_row_in_map(self.rows@, i as int);
                }
                Some(&self.rows[i].1)
            },
            None => {
                proof {
                    if self@.contains_key(name@) {
                        let i = lemma_name_has_row(self.rows@, name@);
                    }
                }
                None
            },
        }
    }

    /// Whether there is a value under `name`.
    pub fn contains_key(&self, name: &str) -> (found: bool)
        ensures
            found == self@.contains_key(name@),
    {
        self.get(name).is_some()
    }

    /// Puts `value` under `name` and returns the value that stood there.
    pub fn insert(&mut self, name: String, value: V) -> (old_value: Option<V>)
        ensures
            final(self)@ == old(self)@.insert(name@, value),
            old_value is Some <==> old(self)@.contains_key(name@),
            old_value matches Some(v) ==> v == old(self)@[name@],
    {
        proof {
            use_type_invariant(&*self);
        }
        let found = self.find(name.as_str());
        let mut rows: Vec<(String, V)> = Vec::new();
        core::mem::swap(&mut rows, &mut self.rows);
        let ghost before = rows@;
        let ghost m = rows_map(before).insert(name@, value);
        let result = match found {
            Some(i) => {
                proof {
                    lemma_row_in_map(before, i as int);
                }
                rows.push((name, value));
                let old_row = rows.swap_remove(i);
                proof {
                    assert(rows@ == before.update(i as int, (name, value)));
                    assert forall|k: Seq<char>| m.contains_key(k) implies exists|j: int|
                        0 <= j < rows@.len() && #[trigger] rows@[j].0@ == k by {
                        if k == name@ {
                            assert(rows@[i as int].0@ == k);
                        } else {
                            let j = lemma_name_has_row(before, k);
                            assert(rows@[j].0@ == k);
                        }
                    }
                    assert forall|j: int| #![trigger rows@[j]] 0 <= j < rows@.len() implies m.contains_key(
                        rows@[j].0@,
                    ) && m[rows@[j].0@] == rows@[j].1 by {
                        if j != i {
                            lemma_row_in_map(before, j);
                            assert(before[j].0@ != before[i as int].0@);
                        }
                    }
                    assert forall|a: int, b: int| 0 <= a < b < rows@.len() implies #[trigger] rows@[a].0@
                        != #[trigger] rows@[b].0@ by {
                        assert(before[a].0@ != before[b].0@);
                    }
                    lemma_map_is(rows@, m);
                }
                Some(old_row.1)
            },
            None => {
                rows.push((name, value));
                proof {
                    if rows_map(before).contains_key(name@) {
                        let i = lemma_name_has_row(before, name@);
                    }
                    assert(rows@.drop_last() == before);
                }
                None
            },
        };
        self.rows = rows;
        result
    }

    /// Takes the value under `name` out of the table.
    pub fn remove(&mut self, name: &str) -> (removed: Option<V>)
        ensures
            final(self)@ == old(self)@.remove(name@),
            removed is Some <==> old(self)@.contains_key(name@),
            removed matches Some(v) ==> v == old(self)@[name@],
    {
        proof {
            use_type_invariant(&*self);
        }
        let found = self.find(name);
        let mut rows: Vec<(String, V)> = Vec::new();
        core::mem::swap(&mut rows, &mut self.rows);
        let ghost before = rows@;
        let ghost m = rows_map(before).remove(name@);
        let result = match found {
            Some(i) => {
                proof {
                    lemma_row_in_map(before, i as int);
                }
                let row = rows.remove(i);
                proof {
                    assert(rows@ == before.remove(i as int));
                    assert forall|k: Seq<char>| m.contains_key(k) implies exists|j: int|
                        0 <= j < rows@.len() && #[trigger] rows@[j].0@ == k by {
                        let j = lemma_name_has_row(before, k);
                        if j < i {
                            assert(rows@[j].0@ == k);
                        } else {
                            assert(rows@[j - 1].0@ == k);
                        }
                    }
                    assert forall|j: int| #![trigger rows@[j]] 0 <= j < rows@.len() implies m.contains_key(
                        rows@[j].0@,
                    ) && m[rows@[j].0@] == rows@[j].1 by {
                        let a = if j < i { j } else { j + 1 };
                        lemma_row_in_map(before, a);
                        assert(rows@[j] == before[a]);
                        assert(before[a].0@ != before[i as int].0@);
                    }
                    assert forall|a: int, b: int| 0 <= a < b < rows@.len() implies #[trigger] rows@[a].0@
                        != #[trigger] rows@[b].0@ by {
                        let a0 = if a < i { a } else { a + 1 };
                        let b0 = if b < i { b } else { b + 1 };
                        assert(before[a0].0@ != before[b0].0@);
                    }
                    lemma_map_is(rows@, m);
                }
                Some(row.1)
            },
            None => {
                proof {
                    if rows_map(before).contains_key(name@) {
                        let i = lemma_name_has_row(before, name@);
                    }
                    assert(m =~= rows_map(before));
                }
                None
            },
        };
        self.rows = rows;
        result
    }

    /// How many names the table holds.
    pub fn len(&self) -> (n: usize)
        ensures
            n == self@.len(),
            n == self.names().len(),
            self@.dom().finite(),
            self.names().no_duplicates(),
            self.names().to_set() == self@.dom(),
    {
        proof {
            use_type_invariant(self);
            lemma_map_len(self.rows@);
            assert forall|k: Seq<char>| #[trigger]
                self.names().contains(k) <==> self@.contains_key(k) by {
                if self@.contains_key(k) {
                    let i = lemma_name_has_row(self.rows@, k);
                    assert(self.names()[i] == k);
                }
                if self.names().contains(k) {
                    let i = choose|i: int| 0 <= i < self.names().len() && self.names()[i] == k;
                    lemma_row_in_map(self.rows@, i);
                }
            }
            assert(self.names().to_set() =~= self@.dom());
        }
        self.rows.len()
    }

    /// Whether the table holds no name.
    pub fn is_empty(&self) -> (empty: bool)
        ensures
            empty == (self@.dom() =~= Set::<Seq<char>>::empty()),
    {
        proof {
            use_type_invariant(self);
            if self.rows@.len() > 0 {
                lemma_row_in_map(self.rows@, 0);
            }
        }
        self.rows.len() == 0
    }

    /// The row at `index`: its name and its value.
    pub fn row(&self, index: usize) -> (row: (&String, &V))
        requires
            index < self.names().len(),
        ensures
            row.0@ == self.names()[index as int],
            self@.contains_key(row.0@),
            *row.1 == self@[row.0@],
    {
        proof {
            use_type_invariant(self);
            lemma_row_in_map(self.rows@, index as int);
        }
        let row: &(String, V) = &self.rows[index];
        (&row.0, &row.1)
    }

    /// The names, in the order of their rows.
    pub fn keys(&self) -> (keys: Vec<String>)
        ensures
            keys@.map_values(|k: String| k@) == self.names(),
            self.names().no_duplicates(),
            self.names().to_set() == self@.dom(),
    {
        let count: usize = self.len();
        let mut keys: Vec<String> = Vec::new();
        let mut i: usize = 0;
        while i < count
            invariant
                i <= count == self.rows@.len(),
                keys@.len() == i,
                forall|j: int| 0 <= j < i ==> #[trigger] keys@[j]@ == self.names()[j],
            decreases count - i,
        {
            keys.push(self.rows[i].0.clone());
            i = i + 1;
        }
        assert(keys@.map_values(|k: String| k@) =~= self.names());
        keys
    }
}

impl<V: Clone> Clone for Table<V> {
    fn clone(&self) -> (copy: Self)
        ensures
            copy.names() == self.names(),
            copy@.dom() == self@.dom(),
            forall|k: Seq<char>| #[trigger]
                self@.contains_key(k) ==> cloned(self@[k], copy@[k]),
    {
        let mut rows: Vec<(String, V)> = Vec::new();
        let mut i: usize = 0;
        while i < self.rows.len()
            invariant
                i <= self.rows@.len(),
                rows@.len() == i,
                forall|j: int|
                    #![trigger rows@[j]]
                    0 <= j < i ==> rows@[j].0@ == self.rows@[j].0@ && cloned(
                        self.rows@[j].1,
                        rows@[j].1,
                    ),
            decreases self.rows@.len() - i,
        {
            let row: &(String, V) = &self.rows[i];
            rows.push((row.0.clone(), row.1.clone()));
            i = i + 1;
        }
        proof {
            use_type_invariant(self);
            let before = self.rows@;
            assert forall|a: int, b: int| 0 <= a < b < rows@.len() implies #[trigger] rows@[a].0@
                != #[trigger] rows@[b].0@ by {
                assert(before[a].0@ != before[b].0@);
            }
            assert forall|k: Seq<char>| #[trigger] rows_map(before).contains_key(
                k,
            ) implies rows_map(rows@).contains_key(k) && cloned(
                rows_map(before)[k],
                rows_map(rows@)[k],
            ) by {
                let j = lemma_name_has_row(before, k);
                lemma_row_in_map(before, j);
                lemma_row_in_map(rows@, j);
                assert(rows@[j].0@ == k);
            }
            assert forall|k: Seq<char>| #[trigger] rows_map(rows@).contains_key(
                k,
            ) implies rows_map(before).contains_key(k) by {
                let j = lemma_name_has_row(rows@, k);
                lemma_row_in_map(before, j);
                assert(rows@[j].0@ == before[j].0@);
            }
            assert(rows_map(rows@).dom() =~= rows_map(before).dom());
        }
        let copy = Table { rows };
        assert(copy.names() =~= self.names());
        copy
    }
}

} // verus!
