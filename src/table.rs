use vstd::prelude::*;

use crate::constraint_state::ConstraintState;
use crate::row::{Row, RowErrors, Value, validated};
use crate::schema::Schema;

verus! {

#[derive(Debug)]
pub enum TableErrors {
    RowConstructionError(RowErrors),
    RowNotFound(u64),
}

/// A schema, its constraint state, and the stored rows keyed by row id. Ids are
/// handed out in increasing order and never reused, so the rows are kept in
/// ascending id order.
#[derive(Debug)]
pub struct Table {
    schema: Schema,
    rows: Vec<(u64, Row)>,
    constraint_state: ConstraintState,
    next_id: u64,
}

/// Ids strictly ascend and all lie below `next`.
pub open spec fn ids_ascend(rows: Seq<(u64, Row)>, next: u64) -> bool {
    &&& forall|i: int, j: int| 0 <= i < j < rows.len() ==> rows[i].0 < rows[j].0
    &&& forall|i: int| 0 <= i < rows.len() ==> rows[i].0 < next
}

/// `k` is the position of the row with id `id`.
pub open spec fn holds_id(rows: Seq<(u64, Row)>, id: u64, k: int) -> bool {
    0 <= k < rows.len() && rows[k].0 == id
}

impl Table {
    pub closed spec fn schema_spec(&self) -> Schema {
        self.schema
    }

    /// The stored rows with their ids, in storage order.
    pub closed spec fn rows_spec(&self) -> Seq<(u64, Row)> {
        self.rows@
    }

    pub closed spec fn state_spec(&self) -> ConstraintState {
        self.constraint_state
    }

    /// The id the next stored row will get.
    pub closed spec fn next_id_spec(&self) -> u64 {
        self.next_id
    }

    pub open spec fn wf(&self) -> bool {
        &&& self.state_spec().tracks(&self.schema_spec())
        &&& ids_ascend(self.rows_spec(), self.next_id_spec())
        &&& forall|i: int|
            0 <= i < self.rows_spec().len() ==> (#[trigger] self.rows_spec()[i]).1.values.len()
                == self.schema_spec().cols().len()
    }

    pub fn new(schema: Schema) -> (r: Self)
        ensures
            r.wf(),
            r.schema_spec() == schema,
            r.rows_spec().len() == 0,
            r.next_id_spec() == 0,
            forall|j: int|
                0 <= j < r.state_spec().columns.len() ==> (#[trigger] r.state_spec().columns[j]).seen().len()
                    == 0 && r.state_spec().columns[j].indexed().len() == 0,
    {
        let constraint_state = ConstraintState::new(&schema);
        Table { schema, rows: Vec::new(), constraint_state, next_id: 0 }
    }

    pub fn schema(&self) -> (r: &Schema)
        ensures
            *r == self.schema_spec(),
    {
        &self.schema
    }

    pub fn constraint_state(&self) -> (r: &ConstraintState)
        ensures
            *r == self.state_spec(),
    {
        &self.constraint_state
    }

    /// The stored rows with their ids, in storage order.
    pub fn rows(&self) -> (r: &Vec<(u64, Row)>)
        ensures
            r@ == self.rows_spec(),
    {
        &self.rows
    }

    pub fn row_count(&self) -> (r: usize)
        ensures
            r == self.rows_spec().len(),
    {
        self.rows.len()
    }

    /// The id the next stored row will get.
    pub fn next_row_id(&self) -> (r: u64)
        ensures
            r == self.next_id_spec(),
    {
        self.next_id
    }

    /// Validates the values and stores them as a new row under a fresh id.
    pub fn add_row(&mut self, row_values: Vec<Value>) -> (r: Result<u64, TableErrors>)
        requires
            old(self).wf(),
            old(self).next_id_spec() < u64::MAX,
        ensures
            final(self).wf(),
            final(self).schema_spec() == old(self).schema_spec(),
            match r {
                Ok(id) => id == old(self).next_id_spec() && final(self).next_id_spec() == id + 1
                    && final(self).rows_spec().len() == old(self).rows_spec().len() + 1
                    && final(self).rows_spec().drop_last() == old(self).rows_spec()
                    && final(self).rows_spec().last().0 == id && validated(
                    old(self).schema_spec().cols(),
                    old(self).state_spec(),
                    row_values@,
                    Ok(()),
                    final(self).rows_spec().last().1.values@,
                    final(self).state_spec(),
                ),
                Err(TableErrors::RowConstructionError(e)) => *final(self) == *old(self)
                    && validated(
                    old(self).schema_spec().cols(),
                    old(self).state_spec(),
                    row_values@,
                    Err(e),
                    row_values@,
                    old(self).state_spec(),
                ),
                Err(TableErrors::RowNotFound(_)) => false,
            },
    {
        let row = match Row::new(&self.schema, &mut self.constraint_state, row_values) {
            Ok(row) => row,
            Err(e) => return Err(TableErrors::RowConstructionError(e)),
        };
        let id = self.next_id;
        self.rows.push((id, row));
        self.next_id = id + 1;
        assert(self.rows@.drop_last() =~= old(self).rows@);
        Ok(id)
    }

    /// The position of the row with the given id.
    fn position_of(&self, id: u64) -> (r: Option<usize>)
        ensures
            match r {
                Some(k) => holds_id(self.rows_spec(), id, k as int),
                None => forall|k: int| 0 <= k < self.rows_spec().len() ==> self.rows_spec()[k].0 != id,
            },
    {
        let mut i: usize = 0;
        while i < self.rows.len()
            invariant
                i <= self.rows.len(),
                forall|k: int| 0 <= k < i ==> self.rows@[k].0 != id,
            decreases self.rows.len() - i,
        {
            if self.rows[i].0 == id {
                return Some(i);
            }
            i = i + 1;
        }
        None
    }

    /// Removes the row with the given id.
    pub fn delete_row(&mut self, index: u64) -> (r: Result<(), TableErrors>)
        requires
            old(self).wf(),
        ensures
            final(self).wf(),
            final(self).schema_spec() == old(self).schema_spec(),
            final(self).state_spec() == old(self).state_spec(),
            final(self).next_id_spec() == old(self).next_id_spec(),
            match r {
                Ok(()) => exists|k: int|
                    holds_id(old(self).rows_spec(), index, k) && final(self).rows_spec()
                        == old(self).rows_spec().remove(k),
                Err(e) => e matches TableErrors::RowNotFound(i) && i == index && *final(self)
                    == *old(self) && forall|k: int|
                    0 <= k < old(self).rows_spec().len() ==> old(self).rows_spec()[k].0 != index,
            },
    {
        match self.position_of(index) {
            Some(k) => {
                let ghost before = self.rows@;
                self.rows.remove(k);
                assert(self.rows@ == before.remove(k as int));
                assert forall|i: int, j: int| 0 <= i < j < self.rows@.len() implies self.rows@[i].0
                    < self.rows@[j].0 by {
                    if j < k {
                    } else if i < k {
                        assert(self.rows@[j] == before[j + 1]);
                    } else {
                        assert(self.rows@[i] == before[i + 1] && self.rows@[j] == before[j + 1]);
                    }
                }
                assert forall|i: int| 0 <= i < self.rows@.len() implies (#[trigger] self.rows@[i]).1.values.len()
                    == self.schema.cols().len() by {
                    if i >= k {
                        assert(self.rows@[i] == before[i + 1]);
                    }
                }
                Ok(())
            },
            None => Err(TableErrors::RowNotFound(index)),
        }
    }

    /// Replaces the row with the given id by a newly validated one.
    pub fn edit_row(&mut self, index: u64, row_values: Vec<Value>) -> (r: Result<(), TableErrors>)
        requires
            old(self).wf(),
        ensures
            final(self).wf(),
            final(self).schema_spec() == old(self).schema_spec(),
            final(self).next_id_spec() == old(self).next_id_spec(),
            match r {
                Ok(()) => exists|k: int|
                    holds_id(old(self).rows_spec(), index, k) && final(self).rows_spec().len()
                        == old(self).rows_spec().len() && (forall|i: int|
                        0 <= i < old(self).rows_spec().len() && i != k ==> final(self).rows_spec()[i]
                            == old(self).rows_spec()[i]) && final(self).rows_spec()[k].0 == index
                        && validated(
                        old(self).schema_spec().cols(),
                        old(self).state_spec(),
                        row_values@,
                        Ok(()),
                        final(self).rows_spec()[k].1.values@,
                        final(self).state_spec(),
                    ),
                Err(TableErrors::RowNotFound(i)) => i == index && *final(self) == *old(self)
                    && forall|k: int|
                    0 <= k < old(self).rows_spec().len() ==> old(self).rows_spec()[k].0 != index,
                Err(TableErrors::RowConstructionError(e)) => *final(self) == *old(self) && (exists|
                    k: int,
                | holds_id(old(self).rows_spec(), index, k)) && validated(
                    old(self).schema_spec().cols(),
                    old(self).state_spec(),
                    row_values@,
                    Err(e),
                    row_values@,
                    old(self).state_spec(),
                ),
            },
    {
        let k = match self.position_of(index) {
            Some(k) => k,
            None => return Err(TableErrors::RowNotFound(index)),
        };
        let row = match Row::new(&self.schema, &mut self.constraint_state, row_values) {
            Ok(row) => row,
            Err(e) => return Err(TableErrors::RowConstructionError(e)),
        };
        self.rows.set(k, (index, row));
        assert(holds_id(old(self).rows@, index, k as int));
        Ok(())
    }

    /// The row with the given id.
    pub fn get_row(&self, index: u64) -> (r: Option<&Row>)
        ensures
            match r {
                Some(row) => exists|k: int|
                    holds_id(self.rows_spec(), index, k) && self.rows_spec()[k].1 == *row,
                None => forall|k: int| 0 <= k < self.rows_spec().len() ==> self.rows_spec()[k].0 != index,
            },
    {
        match self.position_of(index) {
            Some(k) => Some(&self.rows[k].1),
            None => None,
        }
    }
}

} // verus!
