use vstd::prelude::*;

use crate::column::Column;
use crate::database::{Database, has_table, names_table};
use crate::parser::{BinaryOperator, Expression, Literal, SelectColumn, SelectStatement, Statements};
use crate::row::{Row, Value, ValueView, values_view};
use crate::schema::{Schema, find_name};

verus! {

#[derive(Debug, PartialEq)]
pub struct QueryResult {
    pub rows: Vec<Row>,
}

#[derive(Debug, PartialEq)]
pub enum ExecutionError {
    TableNotFound,
    ColumnNotFound(String),
    /// An expression or statement of a shape the executor does not handle,
    /// such as an operator other than `=`.
    InvalidExpression,
    /// Reserved for comparisons between values of different types.
    TypeMismatch,
}

/// Runs parsed statements against a database.
pub struct Executor {}

/// The value a literal expression denotes.
pub open spec fn literal_view(e: Expression) -> Option<ValueView> {
    match e {
        Expression::Literal(Literal::Integer(i)) => Some(ValueView::Integer(i)),
        Expression::Literal(Literal::String(s)) => Some(ValueView::Text(s@)),
        _ => None,
    }
}

/// The comparison a WHERE expression denotes: the position of its column and
/// the value the column must equal. Only `column = literal` is supported.
pub open spec fn condition_of(cols: Seq<Column>, e: Expression) -> Result<(int, ValueView), ExecutionError> {
    match e {
        Expression::Binary(l, op, r) => match *l {
            Expression::Identifier(name) => match find_name(cols, name@) {
                None => Err(ExecutionError::ColumnNotFound(name)),
                Some(i) => match literal_view(*r) {
                    None => Err(ExecutionError::InvalidExpression),
                    Some(v) => if op == BinaryOperator::Equals {
                        Ok((i, v))
                    } else {
                        Err(ExecutionError::InvalidExpression)
                    },
                },
            },
            _ => Err(ExecutionError::InvalidExpression),
        },
        _ => Err(ExecutionError::InvalidExpression),
    }
}

/// The filter of an optional WHERE clause.
pub open spec fn filter_of(cols: Seq<Column>, w: Option<Expression>) -> Result<Option<(int, ValueView)>, ExecutionError> {
    match w {
        None => Ok(None),
        Some(e) => match condition_of(cols, e) {
            Ok(c) => Ok(Some(c)),
            Err(x) => Err(x),
        },
    }
}

/// The column list is the single wildcard.
pub open spec fn is_wildcard(sel: Seq<SelectColumn>) -> bool {
    sel.len() == 1 && sel[0] is Wildcard
}

/// The positions of the named columns, in the order requested; wildcards in a
/// longer list are passed over.
pub open spec fn positions_of(cols: Seq<Column>, sel: Seq<SelectColumn>) -> Result<Seq<int>, ExecutionError>
    decreases sel.len(),
{
    if sel.len() == 0 {
        Ok(Seq::empty())
    } else {
        let rest = positions_of(cols, sel.drop_first());
        match sel[0] {
            SelectColumn::Wildcard => rest,
            SelectColumn::Identifier(n) => match find_name(cols, n@) {
                None => Err(ExecutionError::ColumnNotFound(n)),
                Some(i) => match rest {
                    Ok(is) => Ok(seq![i] + is),
                    Err(x) => Err(x),
                },
            },
        }
    }
}

/// The projection of a column list: None keeps whole rows.
pub open spec fn projection_of(cols: Seq<Column>, sel: Seq<SelectColumn>) -> Result<Option<Seq<int>>, ExecutionError> {
    if is_wildcard(sel) {
        Ok(None)
    } else {
        match positions_of(cols, sel) {
            Ok(is) => Ok(Some(is)),
            Err(x) => Err(x),
        }
    }
}

pub open spec fn ints(s: Seq<usize>) -> Seq<int> {
    s.map_values(|x: usize| x as int)
}

/// Puts the positions `acc` in front of a list of positions.
pub open spec fn prepend_positions(acc: Seq<int>, r: Result<Seq<int>, ExecutionError>) -> Result<Seq<int>, ExecutionError> {
    match r {
        Ok(is) => Ok(acc + is),
        Err(x) => Err(x),
    }
}

/// A row passes the filter.
pub open spec fn passes(vals: Seq<ValueView>, f: Option<(int, ValueView)>) -> bool {
    match f {
        None => true,
        Some((i, v)) => vals[i] == v,
    }
}

/// The stored rows that pass the filter, in storage order.
pub open spec fn kept(rows: Seq<(u64, Row)>, f: Option<(int, ValueView)>) -> Seq<Seq<ValueView>>
    decreases rows.len(),
{
    if rows.len() == 0 {
        Seq::empty()
    } else {
        let prev = kept(rows.drop_last(), f);
        let vals = values_view(rows.last().1.values@);
        if passes(vals, f) {
            prev.push(vals)
        } else {
            prev
        }
    }
}

/// The row cut down to the given positions.
pub open spec fn cut(vals: Seq<ValueView>, p: Option<Seq<int>>) -> Seq<ValueView> {
    match p {
        None => vals,
        Some(is) => Seq::new(is.len(), |m: int| vals[is[m]]),
    }
}

pub open spec fn rows_view(rows: Seq<Row>) -> Seq<Seq<ValueView>> {
    Seq::new(rows.len(), |k: int| values_view(rows[k].values@))
}

/// What a SELECT statement yields on `db`.
pub open spec fn select_result(db: Database, stmt: SelectStatement, r: Result<QueryResult, ExecutionError>) -> bool {
    if !has_table(db.tables_spec(), stmt.from_table@) {
        r == Err::<QueryResult, ExecutionError>(ExecutionError::TableNotFound)
    } else {
        exists|k: int|
            names_table(db.tables_spec(), stmt.from_table@, k) && {
                let t = db.tables_spec()[k].1;
                let cols = t.schema_spec().cols();
                match filter_of(cols, stmt.where_clause) {
                    Err(x) => r == Err::<QueryResult, ExecutionError>(x),
                    Ok(f) => match projection_of(cols, stmt.columns@) {
                        Err(x) => r == Err::<QueryResult, ExecutionError>(x),
                        Ok(p) => r matches Ok(q) && rows_view(q.rows@) == kept(t.rows_spec(), f).map_values(
                            |vals: Seq<ValueView>| cut(vals, p),
                        ),
                    },
                }
            }
    }
}

impl Executor {
    /// Executes a statement; only SELECT can be executed.
    pub fn execute(&self, ast: &Statements, db: &Database) -> (r: Result<QueryResult, ExecutionError>)
        requires
            db.wf(),
        ensures
            match ast {
                Statements::Select(stmt) => select_result(*db, *stmt, r),
                _ => r == Err::<QueryResult, ExecutionError>(ExecutionError::InvalidExpression),
            },
    {
        match ast {
            Statements::Select(stmt) => self.execute_select(stmt, db),
            _ => Err(ExecutionError::InvalidExpression),
        }
    }

    fn execute_select(&self, stmt: &SelectStatement, db: &Database) -> (r: Result<QueryResult, ExecutionError>)
        requires
            db.wf(),
        ensures
            select_result(*db, *stmt, r),
    {
        let table = match db.get_table(stmt.from_table.clone()) {
            Ok(t) => t,
            Err(_) => return Err(ExecutionError::TableNotFound),
        };
        let ghost k = choose|k: int| names_table(db.tables_spec(), stmt.from_table@, k) && *table == db.tables_spec()[k].1;
        assert(table.wf());
        let schema = table.schema();
        let cond = match &stmt.where_clause {
            Some(expression) => match self.evaluate_expression(expression, schema) {
                Ok(c) => Some(c),
                Err(e) => return Err(e),
            },
            None => None,
        };
        let ghost f: Option<(int, ValueView)> = match cond {
            Some((i, ref v)) => Some((i as int, v@)),
            None => None,
        };
        let rows = table.rows();
        let n = schema.column_count();
        let mut filtered: Vec<Row> = Vec::new();
        let mut i: usize = 0;
        while i < rows.len()
            invariant
                table.wf(),
                rows@ == table.rows_spec(),
                *schema == table.schema_spec(),
                n == schema.cols().len(),
                i <= rows.len(),
                cond matches Some((c, _)) ==> c < n,
                f == match cond {
                    Some((c, v)) => Some((c as int, v@)),
                    None => None::<(int, ValueView)>,
                },
                rows_view(filtered@) == kept(rows@.subrange(0, i as int), f),
                forall|m: int| 0 <= m < filtered.len() ==> (#[trigger] filtered[m]).values.len() == n,
            decreases rows.len() - i,
        {
            let row = &rows[i].1;
            assert(rows@.subrange(0, i + 1).drop_last() =~= rows@.subrange(0, i as int));
            assert(rows@[i as int].1.values.len() == n);
            let keep = match &cond {
                Some((c, v)) => row.values[*c].same_as(v),
                None => true,
            };
            if keep {
                let copy = row.duplicate();
                filtered.push(copy);
            }
            i = i + 1;
            assert(rows_view(filtered@) =~= kept(rows@.subrange(0, i as int), f));
        }
        assert(rows@.subrange(0, rows.len() as int) =~= rows@);
        let final_rows = match self.project_columns(&filtered, &stmt.columns, schema) {
            Ok(r) => r,
            Err(e) => return Err(e),
        };
        Ok(QueryResult { rows: final_rows })
    }

    /// Reduces a WHERE expression to the comparison it denotes.
    fn evaluate_expression(&self, expr: &Expression, schema: &Schema) -> (r: Result<(usize, Value), ExecutionError>)
        ensures
            match condition_of(schema.cols(), *expr) {
                Ok((i, v)) => r matches Ok((j, w)) && j == i && w@ == v && j < schema.cols().len(),
                Err(x) => r == Err::<(usize, Value), ExecutionError>(x),
            },
    {
        match expr {
            Expression::Binary(left, op, right) => {
                let index = match self.resolve_value(left, schema) {
                    Ok(i) => i,
                    Err(e) => return Err(e),
                };
                let value = match self.resolve_value_from_literal(right) {
                    Ok(v) => v,
                    Err(e) => return Err(e),
                };
                match op {
                    BinaryOperator::Equals => Ok((index, value)),
                    _ => Err(ExecutionError::InvalidExpression),
                }
            },
            _ => Err(ExecutionError::InvalidExpression),
        }
    }

    /// The position of the column an identifier expression names.
    fn resolve_value(&self, expr: &Expression, schema: &Schema) -> (r: Result<usize, ExecutionError>)
        ensures
            match *expr {
                Expression::Identifier(name) => match find_name(schema.cols(), name@) {
                    Some(i) => r matches Ok(j) && j as int == i && j < schema.cols().len(),
                    None => r == Err::<usize, ExecutionError>(ExecutionError::ColumnNotFound(name)),
                },
                _ => r == Err::<usize, ExecutionError>(ExecutionError::InvalidExpression),
            },
    {
        proof {
            if let Expression::Identifier(name) = expr {
                crate::schema::lemma_find_name(schema.cols(), name@);
            }
        }
        match expr {
            Expression::Identifier(col_name) => match schema.get_column_index(col_name.as_str()) {
                Some(i) => Ok(i),
                None => Err(ExecutionError::ColumnNotFound(col_name.clone())),
            },
            _ => Err(ExecutionError::InvalidExpression),
        }
    }

    /// The value a literal expression denotes.
    fn resolve_value_from_literal(&self, expr: &Expression) -> (r: Result<Value, ExecutionError>)
        ensures
            match literal_view(*expr) {
                Some(v) => r matches Ok(w) && w@ == v,
                None => r == Err::<Value, ExecutionError>(ExecutionError::InvalidExpression),
            },
    {
        match expr {
            Expression::Literal(Literal::Integer(i)) => Ok(Value::Integer(*i)),
            Expression::Literal(Literal::String(s)) => Ok(Value::String(s.clone())),
            _ => Err(ExecutionError::InvalidExpression),
        }
    }

    /// The positions of the requested columns, in the order requested.
    fn column_positions(&self, columns: &Vec<SelectColumn>, schema: &Schema) -> (r: Result<Vec<usize>, ExecutionError>)
        ensures
            match positions_of(schema.cols(), columns@) {
                Ok(is) => r matches Ok(v) && ints(v@) == is && forall|m: int|
                    0 <= m < is.len() ==> is[m] < schema.cols().len(),
                Err(x) => r == Err::<Vec<usize>, ExecutionError>(x),
            },
    {
        let ghost sel = columns@;
        let ghost cols = schema.cols();
        let mut positions: Vec<usize> = Vec::new();
        let mut i: usize = 0;
        assert(sel.subrange(0, sel.len() as int) =~= sel);
        assert(ints(positions@) =~= Seq::<int>::empty());
        while i < columns.len()
            invariant
                sel == columns@,
                cols == schema.cols(),
                i <= sel.len(),
                positions_of(cols, sel) == prepend_positions(
                    ints(positions@),
                    positions_of(cols, sel.subrange(i as int, sel.len() as int)),
                ),
                forall|m: int| 0 <= m < positions.len() ==> positions@[m] < cols.len(),
            decreases sel.len() - i,
        {
            let ghost rest = sel.subrange(i as int, sel.len() as int);
            assert(rest.drop_first() =~= sel.subrange(i + 1, sel.len() as int));
            let ghost before = positions@;
            match &columns[i] {
                SelectColumn::Identifier(name) => match schema.get_column_index(name.as_str()) {
                    Some(p) => {
                        proof {
                            crate::schema::lemma_find_name(cols, name@);
                        }
                        positions.push(p);
                        proof {
                            assert(ints(positions@) =~= ints(before) + seq![p as int]);
                            match positions_of(cols, rest.drop_first()) {
                                Ok(is) => {
                                    assert(ints(before) + (seq![p as int] + is) =~= ints(positions@) + is);
                                },
                                Err(_) => {},
                            }
                        }
                    },
                    None => {
                        return Err(ExecutionError::ColumnNotFound(name.clone()));
                    },
                },
                SelectColumn::Wildcard => {},
            }
            i = i + 1;
        }
        assert(sel.subrange(i as int, sel.len() as int) =~= Seq::<SelectColumn>::empty());
        assert(ints(positions@) + Seq::<int>::empty() =~= ints(positions@));
        Ok(positions)
    }

    /// Cuts every row down to the requested columns; the single wildcard keeps
    /// whole rows.
    fn project_columns(&self, rows: &Vec<Row>, columns: &Vec<SelectColumn>, schema: &Schema) -> (r: Result<Vec<Row>, ExecutionError>)
        requires
            forall|m: int| 0 <= m < rows.len() ==> (#[trigger] rows[m]).values.len() == schema.cols().len(),
        ensures
            match projection_of(schema.cols(), columns@) {
                Err(x) => r == Err::<Vec<Row>, ExecutionError>(x),
                Ok(p) => r matches Ok(out) && rows_view(out@) == rows_view(rows@).map_values(
                    |vals: Seq<ValueView>| cut(vals, p),
                ),
            },
    {
        let wildcard = columns.len() == 1 && match &columns[0] {
            SelectColumn::Wildcard => true,
            _ => false,
        };
        let mut projected: Vec<Row> = Vec::new();
        if wildcard {
            let mut k: usize = 0;
            while k < rows.len()
                invariant
                    k <= rows.len(),
                    projected.len() == k,
                    forall|j: int| 0 <= j < k ==> (#[trigger] projected@[j]).values@ == rows@[j].values@,
                decreases rows.len() - k,
            {
                projected.push(rows[k].duplicate());
                k = k + 1;
            }
            assert(rows_view(projected@) =~= rows_view(rows@).map_values(
                |vals: Seq<ValueView>| cut(vals, None),
            ));
            return Ok(projected);
        }
        let positions = match self.column_positions(columns, schema) {
            Ok(p) => p,
            Err(e) => return Err(e),
        };
        let ghost p = Some(ints(positions@));
        assert forall|m: int| 0 <= m < positions.len() implies positions@[m] < schema.cols().len() by {
            assert(ints(positions@)[m] == positions@[m] as int);
        }
        let mut k: usize = 0;
        while k < rows.len()
            invariant
                k <= rows.len(),
                forall|m: int| 0 <= m < rows.len() ==> (#[trigger] rows[m]).values.len() == schema.cols().len(),
                forall|m: int| 0 <= m < positions.len() ==> positions@[m] < schema.cols().len(),
                p == Some(ints(positions@)),
                projected.len() == k,
                forall|j: int| 0 <= j < k ==> values_view((#[trigger] projected@[j]).values@) == cut(values_view(rows@[j].values@), p),
            decreases rows.len() - k,
        {
            let row = &rows[k];
            let mut values: Vec<Value> = Vec::new();
            let mut m: usize = 0;
            while m < positions.len()
                invariant
                    m <= positions.len(),
                    row.values.len() == schema.cols().len(),
                    forall|x: int| 0 <= x < positions.len() ==> positions@[x] < schema.cols().len(),
                    values.len() == m,
                    forall|x: int| 0 <= x < m ==> (#[trigger] values@[x])@ == row.values@[positions@[x] as int]@,
                decreases positions.len() - m,
            {
                values.push(row.values[positions[m]].duplicate());
                m = m + 1;
            }
            let ghost vals = values_view(row.values@);
            assert(values_view(values@) =~= cut(vals, p));
            projected.push(Row { values });
            k = k + 1;
        }
        assert(rows_view(projected@) =~= rows_view(rows@).map_values(
            |vals: Seq<ValueView>| cut(vals, p),
        ));
        Ok(projected)
    }
}

} // verus!
