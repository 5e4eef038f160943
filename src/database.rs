use vstd::prelude::*;

use crate::schema::Schema;
use crate::table::Table;

verus! {

#[derive(Debug, PartialEq)]
pub enum DatabaseError {
    DuplicateTableName(String),
    TableNotFound { name: String },
}

/// Named tables.
pub struct Database {
    tables: Vec<(String, Table)>,
}

/// `k` is the position of the table named `name`.
pub open spec fn names_table(tables: Seq<(String, Table)>, name: Seq<char>, k: int) -> bool {
    0 <= k < tables.len() && tables[k].0@ == name
}

/// Some table is named `name`.
pub open spec fn has_table(tables: Seq<(String, Table)>, name: Seq<char>) -> bool {
    exists|k: int| names_table(tables, name, k)
}

impl Database {
    /// The tables with their names.
    pub closed spec fn tables_spec(&self) -> Seq<(String, Table)> {
        self.tables@
    }

    /// Table names are distinct and every table is well formed.
    pub open spec fn wf(&self) -> bool {
        &&& forall|i: int, j: int|
            0 <= i < j < self.tables_spec().len() ==> self.tables_spec()[i].0@
                != self.tables_spec()[j].0@
        &&& forall|i: int|
            0 <= i < self.tables_spec().len() ==> (#[trigger] self.tables_spec()[i]).1.wf()
    }

    pub fn new() -> (r: Self)
        ensures
            r.wf(),
            r.tables_spec().len() == 0,
    {
        Database { tables: Vec::new() }
    }

    /// The position of the table with the given name.
    fn position_of(&self, name: &String) -> (r: Option<usize>)
        ensures
            match r {
                Some(k) => names_table(self.tables_spec(), name@, k as int),
                None => !has_table(self.tables_spec(), name@),
            },
    {
        let mut i: usize = 0;
        while i < self.tables.len()
            invariant
                i <= self.tables.len(),
                forall|k: int| 0 <= k < i ==> self.tables@[k].0@ != name@,
            decreases self.tables.len() - i,
        {
            if self.tables[i].0.eq(name) {
                return Some(i);
            }
            i = i + 1;
        }
        None
    }

    pub fn create_table(&mut self, name: String, schema: Schema) -> (r: Result<(), DatabaseError>)
        requires
            old(self).wf(),
        ensures
            final(self).wf(),
            has_table(old(self).tables_spec(), name@) ==> r == Err::<(), DatabaseError>(
                DatabaseError::DuplicateTableName(name),
            ) && *final(self) == *old(self),
            !has_table(old(self).tables_spec(), name@) ==> (r is Ok && final(self).tables_spec().drop_last()
                == old(self).tables_spec() && final(self).tables_spec().len() == old(self).tables_spec().len()
                + 1 && final(self).tables_spec().last().0 == name && final(self).tables_spec().last().1.schema_spec()
                == schema && final(self).tables_spec().last().1.rows_spec().len() == 0),
    {
        if self.position_of(&name).is_some() {
            return Err(DatabaseError::DuplicateTableName(name));
        }
        let ghost before = self.tables@;
        self.tables.push((name, Table::new(schema)));
        assert(self.tables@.drop_last() =~= before);
        assert forall|i: int| 0 <= i < self.tables@.len() implies (#[trigger] self.tables@[i]).1.wf() by {
            if i < before.len() {
                assert(self.tables@[i] == before[i]);
            }
        }
        assert forall|i: int, j: int| 0 <= i < j < self.tables@.len() implies self.tables@[i].0@
            != self.tables@[j].0@ by {
            assert(self.tables@[i] == before[i]);
            if j < before.len() {
                assert(self.tables@[j] == before[j]);
            } else {
                assert(!names_table(before, name@, i));
            }
        }
        Ok(())
    }

    pub fn update_table_name(&mut self, name: String, new_name: String) -> (r: Result<(), DatabaseError>)
        requires
            old(self).wf(),
        ensures
            final(self).wf(),
            !has_table(old(self).tables_spec(), name@) ==> r == Err::<(), DatabaseError>(
                DatabaseError::TableNotFound { name },
            ) && *final(self) == *old(self),
            has_table(old(self).tables_spec(), name@) && has_table(old(self).tables_spec(), new_name@)
                ==> r == Err::<(), DatabaseError>(DatabaseError::DuplicateTableName(new_name))
                && *final(self) == *old(self),
            has_table(old(self).tables_spec(), name@) && !has_table(old(self).tables_spec(), new_name@)
                ==> (r is Ok && exists|k: int|
                names_table(old(self).tables_spec(), name@, k) && final(self).tables_spec()
                    == old(self).tables_spec().update(k, (new_name, old(self).tables_spec()[k].1))),
    {
        let k = match self.position_of(&name) {
            Some(k) => k,
            None => return Err(DatabaseError::TableNotFound { name }),
        };
        if self.position_of(&new_name).is_some() {
            return Err(DatabaseError::DuplicateTableName(new_name));
        }
        let ghost before = self.tables@;
        let (_, table) = self.tables.remove(k);
        self.tables.insert(k, (new_name, table));
        assert(self.tables@ =~= before.update(k as int, (new_name, before[k as int].1)));
        assert(names_table(before, name@, k as int));
        assert forall|i: int, j: int| 0 <= i < j < self.tables@.len() implies self.tables@[i].0@
            != self.tables@[j].0@ by {
            if i == k {
                assert(!names_table(before, new_name@, j));
            } else if j == k {
                assert(!names_table(before, new_name@, i));
            }
        }
        assert forall|i: int| 0 <= i < self.tables@.len() implies (#[trigger] self.tables@[i]).1.wf() by {
            assert(self.tables@[i].1 == before[i].1);
        }
        Ok(())
    }

    pub fn delete_table(&mut self, name: String) -> (r: Result<(), DatabaseError>)
        requires
            old(self).wf(),
        ensures
            final(self).wf(),
            !has_table(old(self).tables_spec(), name@) ==> r == Err::<(), DatabaseError>(
                DatabaseError::TableNotFound { name },
            ) && *final(self) == *old(self),
            has_table(old(self).tables_spec(), name@) ==> (r is Ok && exists|k: int|
                names_table(old(self).tables_spec(), name@, k) && final(self).tables_spec()
                    == old(self).tables_spec().remove(k)),
    {
        let k = match self.position_of(&name) {
            Some(k) => k,
            None => return Err(DatabaseError::TableNotFound { name }),
        };
        let ghost before = self.tables@;
        self.tables.remove(k);
        assert(names_table(before, name@, k as int));
        assert forall|i: int, j: int| 0 <= i < j < self.tables@.len() implies self.tables@[i].0@
            != self.tables@[j].0@ by {
            if j < k {
            } else if i < k {
                assert(self.tables@[j] == before[j + 1]);
            } else {
                assert(self.tables@[i] == before[i + 1] && self.tables@[j] == before[j + 1]);
            }
        }
        assert forall|i: int| 0 <= i < self.tables@.len() implies (#[trigger] self.tables@[i]).1.wf() by {
            if i >= k {
                assert(self.tables@[i] == before[i + 1]);
            }
        }
        Ok(())
    }

    /// The table with the given name.
    pub fn get_table(&self, name: String) -> (r: Result<&Table, DatabaseError>)
        ensures
            match r {
                Ok(t) => exists|k: int|
                    names_table(self.tables_spec(), name@, k) && *t == self.tables_spec()[k].1,
                Err(e) => e == DatabaseError::TableNotFound { name } && !has_table(
                    self.tables_spec(),
                    name@,
                ),
            },
    {
        match self.position_of(&name) {
            Some(k) => Ok(&self.tables[k].1),
            None => Err(DatabaseError::TableNotFound { name }),
        }
    }

    /// The table with the given name, for changes.
    pub fn get_table_mut(&mut self, name: String) -> (r: Result<&mut Table, DatabaseError>)
        ensures
            match r {
                Ok(t) => exists|k: int|
                    names_table(old(self).tables_spec(), name@, k) && *t == old(self).tables_spec()[k].1
                        && final(self).tables_spec() == old(self).tables_spec().update(
                        k,
                        (old(self).tables_spec()[k].0, *final(t)),
                    ),
                Err(e) => e == DatabaseError::TableNotFound { name } && !has_table(
                    old(self).tables_spec(),
                    name@,
                ) && *final(self) == *old(self),
            },
    {
        match self.position_of(&name) {
            Some(k) => Ok(&mut self.tables[k].1),
            None => Err(DatabaseError::TableNotFound { name }),
        }
    }
}

} // verus!
