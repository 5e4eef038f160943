use vstd::prelude::*;

use crate::column::{Column, DataType};
use crate::constraint_state::{ColumnState, ConstraintState, adds_value, ascending, holds, insert_ascending};
use crate::schema::Schema;

verus! {

/// A scalar stored in a row.
#[derive(Clone, Debug, PartialEq, Eq, Hash, PartialOrd, Ord)]
pub enum Value {
    String(String),
    Integer(i64),
    Null,
}

/// The mathematical content of a `Value`: text is a sequence of characters.
pub enum ValueView {
    Text(Seq<char>),
    Integer(i64),
    Null,
}

impl View for Value {
    type V = ValueView;

    open spec fn view(&self) -> ValueView {
        match self {
            Value::String(s) => ValueView::Text(s@),
            Value::Integer(i) => ValueView::Integer(*i),
            Value::Null => ValueView::Null,
        }
    }
}

/// The type tag of a value.
pub open spec fn type_of(v: ValueView) -> DataType {
    match v {
        ValueView::Text(_) => DataType::String,
        ValueView::Integer(_) => DataType::Integer,
        ValueView::Null => DataType::Null,
    }
}

/// The views of a sequence of values.
pub open spec fn values_view(s: Seq<Value>) -> Seq<ValueView> {
    s.map_values(|v: Value| v@)
}

impl Value {
    pub fn get_data_type(&self) -> (r: DataType)
        ensures
            r == type_of(self@),
    {
        match self {
            Value::String(_) => DataType::String,
            Value::Integer(_) => DataType::Integer,
            Value::Null => DataType::Null,
        }
    }

    pub fn is_null(&self) -> (r: bool)
        ensures
            r == (self@ is Null),
    {
        match self {
            Value::Null => true,
            _ => false,
        }
    }

    /// Structural equality of two values.
    pub fn same_as(&self, other: &Value) -> (r: bool)
        ensures
            r == (self@ == other@),
    {
        match (self, other) {
            (Value::String(a), Value::String(b)) => a.eq(b),
            (Value::Integer(a), Value::Integer(b)) => *a == *b,
            (Value::Null, Value::Null) => true,
            _ => false,
        }
    }

    /// A copy of the value.
    pub fn duplicate(&self) -> (r: Value)
        ensures
            r == *self,
    {
        match self {
            Value::String(s) => Value::String(s.clone()),
            Value::Integer(i) => Value::Integer(*i),
            Value::Null => Value::Null,
        }
    }
}

#[allow(inconsistent_fields)]
#[derive(Debug, PartialEq, Eq)]
pub enum RowErrors {
    WrongValueCount { expected: usize, got: usize },
    TypeMismatch { column: String, expected: DataType, got: Value, got_type: DataType },
    NotNullViolated { column: String },
    UniqueViolated { column: String, value: Value },
}

/// A validated row: one value per schema column, in schema order.
#[derive(Clone, Debug, PartialEq, Eq)]
pub struct Row {
    pub values: Vec<Value>,
}

impl Row {
    /// A copy of the row.
    pub fn duplicate(&self) -> (r: Row)
        ensures
            r.values@ == self.values@,
    {
        let mut values: Vec<Value> = Vec::new();
        let mut i: usize = 0;
        while i < self.values.len()
            invariant
                i <= self.values.len(),
                values@ == self.values@.subrange(0, i as int),
            decreases self.values.len() - i,
        {
            values.push(self.values[i].duplicate());
            i = i + 1;
            assert(values@ =~= self.values@.subrange(0, i as int));
        }
        assert(values@ =~= self.values@);
        Row { values }
    }
}

/// The outcome of the rules of one column for one input value.
pub enum Verdict {
    /// The value to store.
    Accept(Value),
    WrongType,
    MissingValue,
    /// The value to store repeats one already seen in a Unique column.
    Repeated(Value),
}

/// The value after default substitution: Null becomes the column's default, if any.
pub open spec fn defaulted(e: ColumnState, v: Value) -> Value {
    if v@ is Null && e.default_value is Some {
        e.default_value->0
    } else {
        v
    }
}

/// The rules of one column, in order: type check, default substitution,
/// not-null check, uniqueness check.
pub open spec fn verdict(col: Column, e: ColumnState, v: Value) -> Verdict {
    if !(v@ is Null) && type_of(v@) != col.data_type {
        Verdict::WrongType
    } else {
        let w = defaulted(e, v);
        if e.not_null && w@ is Null {
            Verdict::MissingValue
        } else if e.unique_values is Some && !(w@ is Null) && holds(e.seen(), w@) {
            Verdict::Repeated(w)
        } else {
            Verdict::Accept(w)
        }
    }
}

/// `err` is the error that reports verdict `d` on value `v` of column `col`.
pub open spec fn reports_verdict(err: RowErrors, col: Column, v: Value, d: Verdict) -> bool {
    match d {
        Verdict::WrongType => err matches RowErrors::TypeMismatch {
            column,
            expected,
            got,
            got_type,
        } && column@ == col.name@ && expected == col.data_type && got == v && got_type == type_of(
            v@,
        ),
        Verdict::MissingValue => err matches RowErrors::NotNullViolated { column } && column@
            == col.name@,
        Verdict::Repeated(w) => err matches RowErrors::UniqueViolated { column, value } && column@
            == col.name@ && value == w,
        Verdict::Accept(_) => false,
    }
}

/// Column `j` accepts value `j` of the row.
pub open spec fn accepts(cols: Seq<Column>, es: Seq<ColumnState>, vs: Seq<Value>, j: int) -> bool {
    verdict(cols[j], es[j], vs[j]) is Accept
}

/// Column `k` is the first to refuse its value.
pub open spec fn first_refusal(
    cols: Seq<Column>,
    es: Seq<ColumnState>,
    vs: Seq<Value>,
    k: int,
) -> bool {
    &&& 0 <= k < vs.len()
    &&& !accepts(cols, es, vs, k)
    &&& forall|i: int| 0 <= i < k ==> #[trigger] accepts(cols, es, vs, i)
}

/// The values stored for a row that every column accepts.
pub open spec fn stored_values(cols: Seq<Column>, es: Seq<ColumnState>, vs: Seq<Value>) -> Seq<
    Value,
> {
    Seq::new(vs.len(), |j: int| verdict(cols[j], es[j], vs[j])->Accept_0)
}

/// `new_e` is `old_e` after storing `w`: a non-Null `w` joins the seen values of
/// a Unique column, and `w` joins the index of an Index column.
pub open spec fn committed(old_e: ColumnState, w: Value, new_e: ColumnState) -> bool {
    &&& new_e.name == old_e.name
    &&& new_e.not_null == old_e.not_null
    &&& new_e.default_value == old_e.default_value
    &&& match old_e.unique_values {
        None => new_e.unique_values is None,
        Some(s) => new_e.unique_values matches Some(t) && t@ == if w@ is Null {
            s@
        } else {
            s@.push(w)
        },
    }
    &&& match old_e.index {
        None => new_e.index is None,
        Some(ix) => new_e.index matches Some(ix2) && ascending(ix2@) && adds_value(ix@, ix2@, w@),
    }
}

/// The outcome of validating `vs` against a schema whose state is `old_st`:
/// `r`, the stored values `out` and the state `new_st` afterwards.
pub open spec fn validated(
    cols: Seq<Column>,
    old_st: ConstraintState,
    vs: Seq<Value>,
    r: Result<(), RowErrors>,
    out: Seq<Value>,
    new_st: ConstraintState,
) -> bool {
    let es = old_st.columns@;
    if vs.len() != cols.len() {
        &&& r == Err::<(), RowErrors>(
            RowErrors::WrongValueCount { expected: cols.len() as usize, got: vs.len() as usize },
        )
        &&& new_st == old_st
        &&& out == vs
    } else if forall|j: int| 0 <= j < vs.len() ==> #[trigger] accepts(cols, es, vs, j) {
        &&& r is Ok
        &&& out == stored_values(cols, es, vs)
        &&& new_st.columns.len() == es.len()
        &&& forall|j: int|
            0 <= j < es.len() ==> committed(es[j], out[j], #[trigger] new_st.columns[j])
    } else {
        &&& exists|k: int|
            first_refusal(cols, es, vs, k) && (r matches Err(e) && reports_verdict(
                e,
                cols[k],
                vs[k],
                verdict(cols[k], es[k], vs[k]),
            ))
        &&& new_st == old_st
        &&& out == vs
    }
}

impl Row {
    /// Validates `values` against the schema and its constraint state and builds
    /// the row. On failure neither the state nor anything else is changed.
    pub fn new(schema: &Schema, constraint_state: &mut ConstraintState, values: Vec<Value>) -> (r:
        Result<Self, RowErrors>)
        requires
            old(constraint_state).tracks(schema),
        ensures
            final(constraint_state).tracks(schema),
            match r {
                Ok(row) => validated(
                    schema.cols(),
                    *old(constraint_state),
                    values@,
                    Ok(()),
                    row.values@,
                    *final(constraint_state),
                ),
                Err(e) => validated(
                    schema.cols(),
                    *old(constraint_state),
                    values@,
                    Err(e),
                    values@,
                    *final(constraint_state),
                ),
            },
    {
        let mut values = values;
        match Self::validate_and_apply_constraints(&mut values, schema, constraint_state) {
            Ok(()) => Ok(Row { values }),
            Err(e) => Err(e),
        }
    }

    fn validate_value_count(values: &Vec<Value>, schema: &Schema) -> (r: Result<(), RowErrors>)
        ensures
            values.len() == schema.cols().len() ==> r is Ok,
            values.len() != schema.cols().len() ==> r == Err::<(), RowErrors>(
                RowErrors::WrongValueCount {
                    expected: schema.cols().len() as usize,
                    got: values.len(),
                },
            ),
    {
        if values.len() != schema.column_count() {
            return Err(
                RowErrors::WrongValueCount { expected: schema.column_count(), got: values.len() },
            );
        }
        Ok(())
    }

    /// Applies the rules of every column to `values`: on success `values` holds
    /// the values to store and the state has recorded them.
    pub fn validate_and_apply_constraints(
        values: &mut Vec<Value>,
        schema: &Schema,
        constraint_state: &mut ConstraintState,
    ) -> (r: Result<(), RowErrors>)
        requires
            old(constraint_state).tracks(schema),
        ensures
            final(constraint_state).tracks(schema),
            validated(
                schema.cols(),
                *old(constraint_state),
                old(values)@,
                r,
                final(values)@,
                *final(constraint_state),
            ),
    {
        if let Err(e) = Self::validate_value_count(values, schema) {
            return Err(e);
        }
        let cols = schema.columns();
        let ghost es = constraint_state.columns@;
        let ghost vs = values@;
        let n = values.len();
        let mut out: Vec<Value> = Vec::new();
        let mut j: usize = 0;
        while j < n
            invariant
                n == vs.len(),
                n == cols.len(),
                n == es.len(),
                cols@ == schema.cols(),
                values@ == vs,
                vs == old(values)@,
                constraint_state.columns@ == es,
                *constraint_state == *old(constraint_state),
                constraint_state.tracks(schema),
                j <= n,
                out@.len() == j,
                forall|i: int| 0 <= i < j ==> #[trigger] accepts(cols@, es, vs, i),
                forall|i: int| 0 <= i < j ==> out@[i] == (#[trigger] verdict(cols@[i], es[i], vs[i]))->Accept_0,
            decreases n - j,
        {
            let col = &cols[j];
            let entry = &constraint_state.columns[j];
            let ghost d = verdict(cols@[j as int], es[j as int], vs[j as int]);
            if let Err(e) = Self::validate_type(&values[j], &col.data_type, &col.name) {
                assert(first_refusal(cols@, es, vs, j as int));
                return Err(e);
            }
            let mut w = values[j].duplicate();
            Self::apply_default_if_null(&mut w, entry);
            if let Err(e) = Self::check_not_null(&w, col, entry) {
                assert(first_refusal(cols@, es, vs, j as int));
                return Err(e);
            }
            if let Err(e) = Self::check_unique(&w, col, entry) {
                assert(first_refusal(cols@, es, vs, j as int));
                return Err(e);
            }
            out.push(w);
            j = j + 1;
        }
        assert(out@ =~= stored_values(cols@, es, vs));
        let mut j: usize = 0;
        while j < n
            invariant
                n == es.len(),
                n == out@.len(),
                j <= n,
                es == old(constraint_state).columns@,
                old(constraint_state).tracks(schema),
                constraint_state.columns.len() == n,
                forall|i: int| 0 <= i < j ==> committed(es[i], out@[i], #[trigger] constraint_state.columns[i]),
                forall|i: int| j <= i < n ==> #[trigger] constraint_state.columns[i] == es[i],
            decreases n - j,
        {
            Self::check_if_indexed(&out[j], &mut constraint_state.columns[j]);
            j = j + 1;
        }
        *values = out;
        proof {
            assert forall|i: int| 0 <= i < n implies (#[trigger] constraint_state.columns[i]).configured_by(schema.cols()[i]) by {
                assert(committed(es[i], out@[i], constraint_state.columns[i]));
                assert(old(constraint_state).columns[i].configured_by(schema.cols()[i]));
            }
        }
        Ok(())
    }

    /// Null passes; any other value must have the declared type.
    fn validate_type(val: &Value, expected_type: &DataType, col_name: &String) -> (r: Result<(), RowErrors>)
        ensures
            (!(val@ is Null) && type_of(val@) != *expected_type) ==> (r matches Err(e) && e
                matches RowErrors::TypeMismatch { column, expected, got, got_type } && column@
                == col_name@ && expected == *expected_type && got == *val && got_type == type_of(
                val@,
            )),
            !(!(val@ is Null) && type_of(val@) != *expected_type) ==> r is Ok,
    {
        if val.is_null() {
            Ok(())
        } else if val.get_data_type() != *expected_type {
            Err(
                RowErrors::TypeMismatch {
                    column: col_name.clone(),
                    expected: *expected_type,
                    got: val.duplicate(),
                    got_type: val.get_data_type(),
                },
            )
        } else {
            Ok(())
        }
    }

    /// Replaces Null by the column's default, if it has one.
    fn apply_default_if_null(val: &mut Value, entry: &ColumnState)
        ensures
            *final(val) == defaulted(*entry, *old(val)),
    {
        if val.is_null() {
            if let Some(default_val) = &entry.default_value {
                *val = default_val.duplicate();
            }
        }
    }

    fn check_not_null(val: &Value, col: &Column, entry: &ColumnState) -> (r: Result<(), RowErrors>)
        ensures
            (entry.not_null && val@ is Null) ==> (r matches Err(e) && e matches RowErrors::NotNullViolated {
                column,
            } && column@ == col.name@),
            !(entry.not_null && val@ is Null) ==> r is Ok,
    {
        if entry.not_null && val.is_null() {
            Err(RowErrors::NotNullViolated { column: col.name.clone() })
        } else {
            Ok(())
        }
    }

    /// Fails on a non-Null value that a Unique column has seen before.
    fn check_unique(val: &Value, col: &Column, entry: &ColumnState) -> (r: Result<(), RowErrors>)
        ensures
            (entry.unique_values is Some && !(val@ is Null) && holds(entry.seen(), val@)) ==> (r matches Err(
                e,
            ) && e matches RowErrors::UniqueViolated { column, value } && column@ == col.name@
                && value == *val),
            !(entry.unique_values is Some && !(val@ is Null) && holds(entry.seen(), val@)) ==> r is Ok,
    {
        if val.is_null() {
            return Ok(());
        }
        if let Some(seen) = &entry.unique_values {
            let mut i: usize = 0;
            while i < seen.len()
                invariant
                    entry.unique_values == Some(*seen),
                    !(val@ is Null),
                    i <= seen.len(),
                    forall|k: int| 0 <= k < i ==> seen@[k]@ != val@,
                decreases seen.len() - i,
            {
                if seen[i].same_as(val) {
                    assert(entry.seen()[i as int]@ == val@);
                    return Err(
                        RowErrors::UniqueViolated { column: col.name.clone(), value: val.duplicate() },
                    );
                }
                i = i + 1;
            }
        }
        Ok(())
    }

    /// Records a stored value: in the seen values of a Unique column (unless
    /// Null) and in the index of an Index column.
    fn check_if_indexed(val: &Value, entry: &mut ColumnState)
        requires
            old(entry).index matches Some(ix) ==> ascending(ix@),
        ensures
            committed(*old(entry), *val, *final(entry)),
    {
        if !val.is_null() {
            if let Some(seen) = &mut entry.unique_values {
                seen.push(val.duplicate());
            }
        }
        if let Some(index) = &mut entry.index {
            insert_ascending(index, val);
        }
    }
}

/// Building a row from as many values as the schema has columns either
/// succeeds, storing one value per column that is the input value or, for a
/// Null input, the column's default; or fails with a type, not-null or
/// uniqueness error on a column.
pub proof fn lemma_row_outcome(
    schema: &Schema,
    st: ConstraintState,
    vs: Seq<Value>,
    r: Result<(), RowErrors>,
    out: Seq<Value>,
    st2: ConstraintState,
)
    requires
        st.tracks(schema),
        vs.len() == schema.cols().len(),
        validated(schema.cols(), st, vs, r, out, st2),
    ensures
        r is Ok ==> out.len() == schema.cols().len() && forall|j: int|
            0 <= j < out.len() ==> (#[trigger] out[j]) == defaulted(st.columns[j], vs[j]) && (!(
            vs[j]@ is Null) ==> out[j] == vs[j]) && (vs[j]@ is Null
            && schema.cols()[j].default_spec() is Some ==> out[j]
            == schema.cols()[j].default_spec()->0),
        r matches Err(e) ==> (e is TypeMismatch || e is NotNullViolated || e is UniqueViolated),
{
    let cols = schema.cols();
    let es = st.columns@;
    if r is Ok {
        assert forall|j: int| 0 <= j < out.len() implies (#[trigger] out[j]) == defaulted(
            es[j],
            vs[j],
        ) by {
            assert(accepts(cols, es, vs, j));
            assert(es[j].configured_by(cols[j]));
        }
        assert forall|j: int|
            0 <= j < out.len() && vs[j]@ is Null && cols[j].default_spec() is Some implies (#[trigger] out[j])
            == cols[j].default_spec()->0 by {
            assert(accepts(cols, es, vs, j));
            assert(es[j].configured_by(cols[j]));
        }
    } else {
        if !(forall|j: int| 0 <= j < vs.len() ==> #[trigger] accepts(cols, es, vs, j)) {
            let k = choose|k: int|
                first_refusal(cols, es, vs, k) && (r matches Err(e) && reports_verdict(
                    e,
                    cols[k],
                    vs[k],
                    verdict(cols[k], es[k], vs[k]),
                ));
        }
    }
}

/// Once a non-Null value is stored in a Unique column, a later row that
/// reaches that column with the same value there is refused with a uniqueness
/// error that names the column and the value.
pub proof fn lemma_unique_refuses_repeat(
    schema: &Schema,
    st0: ConstraintState,
    vs1: Seq<Value>,
    out1: Seq<Value>,
    st1: ConstraintState,
    vs2: Seq<Value>,
    r2: Result<(), RowErrors>,
    out2: Seq<Value>,
    st2: ConstraintState,
    j: int,
)
    requires
        schema.wf(),
        st0.tracks(schema),
        validated(schema.cols(), st0, vs1, Ok(()), out1, st1),
        validated(schema.cols(), st1, vs2, r2, out2, st2),
        vs2.len() == schema.cols().len(),
        0 <= j < schema.cols().len(),
        schema.cols()[j].declares(crate::constraint_state::ConstraintKind::Unique),
        !(out1[j]@ is Null),
        vs2[j]@ == out1[j]@,
        forall|i: int| 0 <= i < j ==> #[trigger] accepts(schema.cols(), st1.columns@, vs2, i),
    ensures
        r2 matches Err(RowErrors::UniqueViolated { column, value }) && column@ == schema.cols()[j].name@
            && value@ == out1[j]@,
{
    let cols = schema.cols();
    let es0 = st0.columns@;
    let es1 = st1.columns@;
    assert(vs1.len() == cols.len()) by {
        if vs1.len() != cols.len() {
            assert(false);
        }
    }
    if !(forall|i: int| 0 <= i < vs1.len() ==> #[trigger] accepts(cols, es0, vs1, i)) {
        assert(false);
    }
    assert(es0[j].configured_by(cols[j]));
    assert(committed(es0[j], out1[j], es1[j]));
    assert(accepts(cols, es0, vs1, j));
    assert(type_of(out1[j]@) == cols[j].data_type) by {
        if vs1[j]@ is Null {
            assert(es0[j].default_value == cols[j].default_spec());
            assert(!cols[j].has_bad_default());
        }
    }
    assert(es1[j].seen() =~= es0[j].seen().push(out1[j]));
    assert(holds(es1[j].seen(), out1[j]@)) by {
        assert(es1[j].seen()[es0[j].seen().len() as int] == out1[j]);
    }
    assert(holds(es1[j].seen(), vs2[j]@));
    assert(verdict(cols[j], es1[j], vs2[j]) == Verdict::Repeated(vs2[j]));
    assert(!accepts(cols, es1, vs2, j));
    assert(first_refusal(cols, es1, vs2, j));
    let k = choose|k: int|
        first_refusal(cols, es1, vs2, k) && (r2 matches Err(e) && reports_verdict(
            e,
            cols[k],
            vs2[k],
            verdict(cols[k], es1[k], vs2[k]),
        ));
    if k < j {
        assert(accepts(cols, es1, vs2, k));
    } else if k > j {
        assert(accepts(cols, es1, vs2, j));
    }
}

/// Null is exempt from uniqueness: a value that is Null after default
/// substitution is never refused as a repeat, however often it was stored.
pub proof fn lemma_null_never_repeats(col: Column, e: ColumnState, v: Value)
    requires
        defaulted(e, v)@ is Null,
    ensures
        !(verdict(col, e, v) is Repeated),
{
}

/// Default application: a Null input to a column with a default is stored as
/// the default, and a non-Null input is stored unchanged.
pub proof fn lemma_default_application(col: Column, e: ColumnState, v: Value)
    requires
        e.configured_by(col),
        verdict(col, e, v) is Accept,
    ensures
        v@ is Null && col.default_spec() is Some ==> verdict(col, e, v)->Accept_0
            == col.default_spec()->0,
        !(v@ is Null) ==> verdict(col, e, v)->Accept_0 == v,
{
}

} // verus!
