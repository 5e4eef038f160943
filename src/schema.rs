use vstd::prelude::*;

use crate::column::Column;

verus! {

#[derive(Debug, PartialEq)]
pub enum SchemaError {
    DuplicateColumnName(String),
    IndexOutOfBounds { name: String, index: usize, len: usize },
    DefaultValueTypeMismatch { column_name: String },
}

/// The ordered columns of a table. Built once by `Schema::new`, which checks
/// that column names are unique and that defaults have their column's type.
#[derive(Clone, Debug, PartialEq)]
pub struct Schema {
    columns: Vec<Column>,
}

/// No two columns share a name.
pub open spec fn names_distinct(cols: Seq<Column>) -> bool {
    forall|i: int, j: int| 0 <= i < j < cols.len() ==> cols[i].name@ != cols[j].name@
}

/// Column `j` repeats the name of an earlier column.
pub open spec fn repeats_name(cols: Seq<Column>, j: int) -> bool {
    exists|i: int| 0 <= i < j && cols[i].name@ == cols[j].name@
}

/// `k` is the first position of `cols` whose column has an ill-typed default.
pub open spec fn first_bad_default(cols: Seq<Column>, k: int) -> bool {
    &&& 0 <= k < cols.len()
    &&& cols[k].has_bad_default()
    &&& forall|i: int| 0 <= i < k ==> !(#[trigger] cols[i]).has_bad_default()
}

/// `k` is the first position of `cols` whose name an earlier column already has.
pub open spec fn first_repeat(cols: Seq<Column>, k: int) -> bool {
    &&& 0 <= k < cols.len()
    &&& repeats_name(cols, k)
    &&& forall|i: int| 0 <= i < k ==> !#[trigger] repeats_name(cols, i)
}

/// The position of the first column named `name`.
pub open spec fn find_name(cols: Seq<Column>, name: Seq<char>) -> Option<int>
    decreases cols.len(),
{
    if cols.len() == 0 {
        None
    } else if cols[0].name@ == name {
        Some(0)
    } else {
        match find_name(cols.drop_first(), name) {
            Some(i) => Some(i + 1),
            None => None,
        }
    }
}

/// `find_name` yields the first position with the name, or None when there is none.
pub proof fn lemma_find_name(cols: Seq<Column>, name: Seq<char>)
    ensures
        match find_name(cols, name) {
            Some(i) => 0 <= i < cols.len() && cols[i].name@ == name && forall|j: int|
                0 <= j < i ==> cols[j].name@ != name,
            None => forall|j: int| 0 <= j < cols.len() ==> cols[j].name@ != name,
        },
    decreases cols.len(),
{
    if cols.len() > 0 && cols[0].name@ != name {
        lemma_find_name(cols.drop_first(), name);
        assert forall|j: int| 0 < j < cols.len() implies cols[j] == cols.drop_first()[j - 1] by {}
    }
}

impl Schema {
    pub closed spec fn cols(&self) -> Seq<Column> {
        self.columns@
    }

    pub open spec fn wf(&self) -> bool {
        &&& names_distinct(self.cols())
        &&& forall|i: int| 0 <= i < self.cols().len() ==> !(#[trigger] self.cols()[i]).has_bad_default()
    }

    /// Checks the columns: first every default against its column's type, then the
    /// names for repeats.
    pub fn new(columns: Vec<Column>) -> (r: Result<Self, SchemaError>)
        ensures
            (exists|i: int| 0 <= i < columns.len() && columns[i].has_bad_default()) ==> (r matches Err(
                SchemaError::DefaultValueTypeMismatch { column_name },
            ) && exists|k: int|
                first_bad_default(columns@, k)
                    && column_name@ == columns[k].name@),
            (forall|i: int| 0 <= i < columns.len() ==> !columns[i].has_bad_default())
                && !names_distinct(columns@) ==> (r matches Err(SchemaError::DuplicateColumnName(n))
                && exists|k: int|
                first_repeat(columns@, k) && n@
                    == columns[k].name@),
            (forall|i: int| 0 <= i < columns.len() ==> !columns[i].has_bad_default())
                && names_distinct(columns@) ==> (r matches Ok(s) && s.cols() == columns@ && s.wf()),
    {
        if let Err(e) = Self::validate_default_value_types(&columns) {
            return Err(e);
        }
        if let Err(e) = Self::check_names(&columns) {
            return Err(e);
        }
        Schema { columns }.into_ok()
    }

    fn into_ok(self) -> (r: Result<Self, SchemaError>)
        ensures
            r == Ok::<Self, SchemaError>(self),
    {
        Ok(self)
    }

    fn validate_default_value_types(columns: &Vec<Column>) -> (r: Result<(), SchemaError>)
        ensures
            (forall|i: int| 0 <= i < columns.len() ==> !columns[i].has_bad_default()) ==> r is Ok,
            (exists|i: int| 0 <= i < columns.len() && columns[i].has_bad_default()) ==> (r matches Err(
                SchemaError::DefaultValueTypeMismatch { column_name },
            ) && exists|k: int|
                first_bad_default(columns@, k)
                    && column_name@ == columns[k].name@),
    {
        let mut i: usize = 0;
        while i < columns.len()
            invariant
                i <= columns.len(),
                forall|j: int| 0 <= j < i ==> !columns[j].has_bad_default(),
            decreases columns.len() - i,
        {
            let col = &columns[i];
            if let Some(val) = col.default_value() {
                let t = val.get_data_type();
                if t != col.data_type && t != crate::column::DataType::Null {
                    let ghost k = i as int;
                    assert(first_bad_default(columns@, k));
                    return Err(
                        SchemaError::DefaultValueTypeMismatch { column_name: col.name.clone() },
                    );
                }
            }
            i = i + 1;
        }
        Ok(())
    }

    /// Fails on the first column whose name an earlier column already has.
    fn check_names(columns: &Vec<Column>) -> (r: Result<(), SchemaError>)
        ensures
            names_distinct(columns@) ==> r is Ok,
            !names_distinct(columns@) ==> (r matches Err(SchemaError::DuplicateColumnName(n))
                && exists|k: int|
                first_repeat(columns@, k) && n@
                    == columns[k].name@),
    {
        let mut j: usize = 0;
        while j < columns.len()
            invariant
                j <= columns.len(),
                forall|a: int, b: int| 0 <= a < b < j ==> columns[a].name@ != columns[b].name@,
            decreases columns.len() - j,
        {
            let mut i: usize = 0;
            while i < j
                invariant
                    i <= j < columns.len(),
                    forall|a: int| 0 <= a < i ==> columns[a].name@ != columns[j as int].name@,
                    forall|a: int, b: int| 0 <= a < b < j ==> columns[a].name@ != columns[b].name@,
                decreases j - i,
            {
                if columns[i].name.eq(&columns[j].name) {
                    let ghost k = j as int;
                    assert(repeats_name(columns@, k));
                    assert forall|b: int| 0 <= b < k implies !repeats_name(columns@, b) by {
                        if repeats_name(columns@, b) {
                            let a = choose|a: int| 0 <= a < b && columns@[a].name@ == columns@[b].name@;
                            assert(columns[a].name@ != columns[b].name@);
                        }
                    }
                    assert(first_repeat(columns@, k));
                    return Err(SchemaError::DuplicateColumnName(columns[j].name.clone()));
                }
                i = i + 1;
            }
            j = j + 1;
        }
        Ok(())
    }

    pub fn columns(&self) -> (r: &Vec<Column>)
        ensures
            r@ == self.cols(),
    {
        &self.columns
    }

    pub fn column_count(&self) -> (r: usize)
        ensures
            r == self.cols().len(),
    {
        self.columns.len()
    }

    /// The position of the column with the given name.
    pub fn get_column_index(&self, name: &str) -> (r: Option<usize>)
        ensures
            match r {
                Some(i) => find_name(self.cols(), name@) == Some(i as int),
                None => find_name(self.cols(), name@) is None,
            },
            match r {
                Some(i) => i < self.cols().len() && self.cols()[i as int].name@ == name@ && forall|
                    j: int,
                | 0 <= j < i ==> self.cols()[j].name@ != name@,
                None => forall|j: int| 0 <= j < self.cols().len() ==> self.cols()[j].name@ != name@,
            },
    {
        proof {
            lemma_find_name(self.columns@, name@);
        }
        let target = name.to_owned();
        let mut i: usize = 0;
        while i < self.columns.len()
            invariant
                i <= self.columns.len(),
                target@ == name@,
                forall|j: int| 0 <= j < i ==> self.columns[j].name@ != name@,
                match find_name(self.columns@, name@) {
                    Some(k) => 0 <= k < self.columns.len() && self.columns[k].name@ == name@
                        && forall|j: int| 0 <= j < k ==> self.columns[j].name@ != name@,
                    None => forall|j: int| 0 <= j < self.columns.len() ==> self.columns[j].name@ != name@,
                },
            decreases self.columns.len() - i,
        {
            if self.columns[i].name.eq(&target) {
                return Some(i);
            }
            i = i + 1;
        }
        None
    }

    pub fn get_column_by_name(&self, name: &str) -> (r: Option<&Column>)
        ensures
            match r {
                Some(c) => exists|i: int|
                    0 <= i < self.cols().len() && self.cols()[i] == *c && c.name@ == name@,
                None => forall|j: int| 0 <= j < self.cols().len() ==> self.cols()[j].name@ != name@,
            },
    {
        match self.get_column_index(name) {
            Some(i) => Some(&self.columns[i]),
            None => None,
        }
    }

    pub fn get_column_by_index(&self, index: usize) -> (r: Option<&Column>)
        ensures
            index < self.cols().len() ==> r == Some(&self.cols()[index as int]),
            index >= self.cols().len() ==> r is None,
    {
        if index < self.columns.len() {
            Some(&self.columns[index])
        } else {
            None
        }
    }
}

/// In a well-formed schema a name belongs to at most one position, so every
/// lookup of that name yields the same position for as long as the schema lives.
pub proof fn lemma_column_position_unique(s: &Schema, name: Seq<char>, i: int, j: int)
    requires
        s.wf(),
        0 <= i < s.cols().len(),
        0 <= j < s.cols().len(),
        s.cols()[i].name@ == name,
        s.cols()[j].name@ == name,
    ensures
        i == j,
{
    if i < j {
        assert(s.cols()[i].name@ != s.cols()[j].name@);
    } else if j < i {
        assert(s.cols()[j].name@ != s.cols()[i].name@);
    }
}

} // verus!
