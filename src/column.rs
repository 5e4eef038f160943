use vstd::prelude::*;

use crate::constraint_state::{Constraint, ConstraintKind, kind_of};
use crate::row::{Value, type_of};

verus! {

/// The declared type of a column, and the type tag of a value.
#[derive(Clone, Copy, Debug, PartialEq, Eq, Structural, Hash)]
pub enum DataType {
    String,
    Integer,
    Null,
}

#[derive(Debug, PartialEq)]
pub enum ColumnError {
    DefaultValueTypeMismatch,
}

/// A named, typed column and the constraints declared on it.
#[derive(Clone, Debug, PartialEq)]
pub struct Column {
    pub name: String,
    pub data_type: DataType,
    pub constraints: Vec<Constraint>,
}

/// Builds a `Column` one constraint at a time; each kind of constraint is held at
/// most once, and declaring a kind again replaces the earlier declaration.
#[derive(Debug)]
pub struct ColumnBuilder {
    name: String,
    data_type: DataType,
    constraints: Vec<Constraint>,
}

/// No two constraints of the sequence have the same kind.
pub open spec fn distinct_kinds(s: Seq<Constraint>) -> bool {
    forall|i: int, j: int| 0 <= i < j < s.len() ==> kind_of(s[i]) != kind_of(s[j])
}

/// `s` with `c` declared: the entry of `c`'s kind, if any, is replaced by `c`.
pub open spec fn replaces_kind(s: Seq<Constraint>, c: Constraint, r: Seq<Constraint>) -> bool {
    &&& distinct_kinds(r)
    &&& forall|x: Constraint|
        r.contains(x) <==> (x == c || (s.contains(x) && kind_of(x) != kind_of(c)))
}

/// The value of the first `Default` constraint of the sequence.
pub open spec fn first_default(s: Seq<Constraint>) -> Option<Value>
    decreases s.len(),
{
    if s.len() == 0 {
        None
    } else {
        match s[0] {
            Constraint::WithValue(ConstraintKind::Default, v) => Some(v),
            _ => first_default(s.drop_first()),
        }
    }
}

impl Column {
    /// The column declares the constraint `Unit(kind)`.
    pub open spec fn declares(&self, kind: ConstraintKind) -> bool {
        self.constraints@.contains(Constraint::Unit(kind))
    }

    /// The column's default value, if it declares one.
    pub open spec fn default_spec(&self) -> Option<Value> {
        first_default(self.constraints@)
    }

    /// A default that is neither of the column's type nor Null.
    pub open spec fn has_bad_default(&self) -> bool {
        match self.default_spec() {
            Some(v) => type_of(v@) != self.data_type && type_of(v@) != DataType::Null,
            None => false,
        }
    }

    /// Whether some constraint of the given kind is declared.
    pub fn has_constraint(&self, kind: ConstraintKind) -> (r: bool)
        ensures
            r == exists|i: int| 0 <= i < self.constraints.len() && kind_of(self.constraints[i]) == kind,
    {
        let mut i: usize = 0;
        while i < self.constraints.len()
            invariant
                0 <= i <= self.constraints.len(),
                forall|j: int| 0 <= j < i ==> kind_of(self.constraints[j]) != kind,
            decreases self.constraints.len() - i,
        {
            if self.constraints[i].kind() == kind {
                return true;
            }
            i = i + 1;
        }
        false
    }

    /// The first constraint of the given kind.
    pub fn get_constraint(&self, kind: ConstraintKind) -> (r: Option<&Constraint>)
        ensures
            match r {
                Some(c) => exists|i: int|
                    0 <= i < self.constraints.len() && self.constraints[i] == *c
                        && kind_of(*c) == kind
                        && forall|j: int| 0 <= j < i ==> kind_of(self.constraints[j]) != kind,
                None => forall|i: int|
                    0 <= i < self.constraints.len() ==> kind_of(self.constraints[i]) != kind,
            },
    {
        let mut i: usize = 0;
        while i < self.constraints.len()
            invariant
                0 <= i <= self.constraints.len(),
                forall|j: int| 0 <= j < i ==> kind_of(self.constraints[j]) != kind,
            decreases self.constraints.len() - i,
        {
            if self.constraints[i].kind() == kind {
                return Some(&self.constraints[i]);
            }
            i = i + 1;
        }
        None
    }

    pub fn constraint_count(&self) -> (r: usize)
        ensures
            r == self.constraints.len(),
    {
        self.constraints.len()
    }

    /// The column's default value, read off its constraints.
    pub fn default_value(&self) -> (r: Option<&Value>)
        ensures
            match r {
                Some(v) => self.default_spec() == Some(*v),
                None => self.default_spec() is None,
            },
    {
        let mut i: usize = 0;
        assert(self.constraints@.subrange(0, self.constraints.len() as int) =~= self.constraints@);
        while i < self.constraints.len()
            invariant
                0 <= i <= self.constraints.len(),
                first_default(self.constraints@) == first_default(
                    self.constraints@.subrange(i as int, self.constraints.len() as int),
                ),
            decreases self.constraints.len() - i,
        {
            let ghost rest = self.constraints@.subrange(i as int, self.constraints.len() as int);
            assert(rest.drop_first() =~= self.constraints@.subrange(
                i + 1,
                self.constraints.len() as int,
            ));
            if let Constraint::WithValue(ConstraintKind::Default, v) = &self.constraints[i] {
                return Some(v);
            }
            i = i + 1;
        }
        None
    }

    /// Whether the constraint `Unit(kind)` is declared.
    pub fn declares_unit(&self, kind: ConstraintKind) -> (r: bool)
        ensures
            r == self.declares(kind),
    {
        let mut i: usize = 0;
        while i < self.constraints.len()
            invariant
                0 <= i <= self.constraints.len(),
                forall|j: int| 0 <= j < i ==> self.constraints[j] != Constraint::Unit(kind),
            decreases self.constraints.len() - i,
        {
            if let Constraint::Unit(k) = &self.constraints[i] {
                if *k == kind {
                    return true;
                }
            }
            i = i + 1;
        }
        false
    }
}

/// Declares `c` in `constraints`, replacing an earlier constraint of the same kind.
fn put_constraint(constraints: &mut Vec<Constraint>, c: Constraint)
    requires
        distinct_kinds(old(constraints)@),
    ensures
        replaces_kind(old(constraints)@, c, final(constraints)@),
{
    let ghost s = constraints@;
    let kind = c.kind();
    let mut i: usize = 0;
    let mut found = false;
    while i < constraints.len()
        invariant_except_break
            !found,
        invariant
            constraints@ == s,
            kind == kind_of(c),
            0 <= i <= s.len(),
            forall|j: int| 0 <= j < i ==> kind_of(s[j]) != kind,
        ensures
            found ==> i < s.len() && kind_of(s[i as int]) == kind,
            !found ==> i == s.len(),
        decreases s.len() - i,
    {
        if constraints[i].kind() == kind {
            found = true;
            break;
        }
        i = i + 1;
    }
    if found {
        constraints.set(i, c);
        assert(forall|j: int| 0 <= j < s.len() ==> kind_of(constraints@[j]) == kind_of(s[j]));
        assert forall|a: int, b: int| 0 <= a < b < constraints@.len() implies kind_of(
            constraints@[a],
        ) != kind_of(constraints@[b]) by {
            assert(kind_of(constraints@[a]) == kind_of(s[a]));
            assert(kind_of(constraints@[b]) == kind_of(s[b]));
        }
        assert forall|x: Constraint|
            constraints@.contains(x) <==> (x == c || (s.contains(x) && kind_of(x) != kind_of(c))) by {
            if constraints@.contains(x) {
                let k = choose|k: int| 0 <= k < constraints@.len() && constraints@[k] == x;
                if k != i {
                    assert(s[k] == x);
                }
            }
            if s.contains(x) && kind_of(x) != kind_of(c) {
                let k = choose|k: int| 0 <= k < s.len() && s[k] == x;
                assert(k != i);
                assert(constraints@[k] == x);
            }
            if x == c {
                assert(constraints@[i as int] == x);
            }
        }
    } else {
        constraints.push(c);
        assert forall|x: Constraint|
            constraints@.contains(x) <==> (x == c || (s.contains(x) && kind_of(x) != kind_of(c))) by {
            if constraints@.contains(x) {
                let k = choose|k: int| 0 <= k < constraints@.len() && constraints@[k] == x;
                if k < s.len() {
                    assert(s[k] == x);
                }
            }
            if s.contains(x) && kind_of(x) != kind_of(c) {
                let k = choose|k: int| 0 <= k < s.len() && s[k] == x;
                assert(constraints@[k] == x);
            }
            if x == c {
                assert(constraints@[s.len() as int] == x);
            }
        }
    }
}

impl ColumnBuilder {
    pub closed spec fn spec_name(&self) -> Seq<char> {
        self.name@
    }

    pub closed spec fn spec_data_type(&self) -> DataType {
        self.data_type
    }

    pub closed spec fn spec_constraints(&self) -> Seq<Constraint> {
        self.constraints@
    }

    pub closed spec fn wf(&self) -> bool {
        distinct_kinds(self.constraints@)
    }

    pub fn new(name: &str, data_type: DataType) -> (r: Self)
        ensures
            r.wf(),
            r.spec_name() == name@,
            r.spec_data_type() == data_type,
            r.spec_constraints() == Seq::<Constraint>::empty(),
    {
        ColumnBuilder { name: name.to_owned(), data_type, constraints: Vec::new() }
    }

    pub fn not_null(self) -> (r: Self)
        requires
            self.wf(),
        ensures
            r.wf(),
            r.spec_name() == self.spec_name(),
            r.spec_data_type() == self.spec_data_type(),
            replaces_kind(
                self.spec_constraints(),
                Constraint::Unit(ConstraintKind::NotNull),
                r.spec_constraints(),
            ),
    {
        let mut b = self;
        put_constraint(&mut b.constraints, Constraint::Unit(ConstraintKind::NotNull));
        b
    }

    pub fn unique(self) -> (r: Self)
        requires
            self.wf(),
        ensures
            r.wf(),
            r.spec_name() == self.spec_name(),
            r.spec_data_type() == self.spec_data_type(),
            replaces_kind(
                self.spec_constraints(),
                Constraint::Unit(ConstraintKind::Unique),
                r.spec_constraints(),
            ),
    {
        let mut b = self;
        put_constraint(&mut b.constraints, Constraint::Unit(ConstraintKind::Unique));
        b
    }

    /// Declares a default value, which must have the column's declared type.
    pub fn default(self, value: Value) -> (r: Result<Self, ColumnError>)
        requires
            self.wf(),
        ensures
            type_of(value@) != self.spec_data_type() ==> r == Err::<Self, ColumnError>(
                ColumnError::DefaultValueTypeMismatch,
            ),
            type_of(value@) == self.spec_data_type() ==> (r matches Ok(b) && {
                &&& b.wf()
                &&& b.spec_name() == self.spec_name()
                &&& b.spec_data_type() == self.spec_data_type()
                &&& replaces_kind(
                    self.spec_constraints(),
                    Constraint::WithValue(ConstraintKind::Default, value),
                    b.spec_constraints(),
                )
            }),
    {
        if value.get_data_type() != self.data_type {
            return Err(ColumnError::DefaultValueTypeMismatch);
        }
        let mut b = self;
        put_constraint(&mut b.constraints, Constraint::WithValue(ConstraintKind::Default, value));
        Ok(b)
    }

    pub fn index(self) -> (r: Self)
        requires
            self.wf(),
        ensures
            r.wf(),
            r.spec_name() == self.spec_name(),
            r.spec_data_type() == self.spec_data_type(),
            replaces_kind(
                self.spec_constraints(),
                Constraint::Unit(ConstraintKind::Index),
                r.spec_constraints(),
            ),
    {
        let mut b = self;
        put_constraint(&mut b.constraints, Constraint::Unit(ConstraintKind::Index));
        b
    }

    pub fn build(self) -> (r: Column)
        requires
            self.wf(),
        ensures
            r.name@ == self.spec_name(),
            r.data_type == self.spec_data_type(),
            r.constraints@ == self.spec_constraints(),
            distinct_kinds(r.constraints@),
    {
        Column { name: self.name, data_type: self.data_type, constraints: self.constraints }
    }
}

} // verus!
