use vstd::prelude::*;

use crate::column::Column;
use crate::row::{Value, ValueView};
use crate::schema::Schema;

verus! {

#[derive(Debug, Clone, Copy, PartialEq, Eq, Structural, Hash)]
pub enum ConstraintKind {
    NotNull,
    Unique,
    Default,
    Index,
}

/// A constraint declared on a column; `Default` carries its value.
#[derive(Debug, Clone, PartialEq)]
pub enum Constraint {
    Unit(ConstraintKind),
    WithValue(ConstraintKind, Value),
}

pub open spec fn kind_of(c: Constraint) -> ConstraintKind {
    match c {
        Constraint::Unit(k) => k,
        Constraint::WithValue(k, _) => k,
    }
}

impl Constraint {
    pub fn kind(&self) -> (r: ConstraintKind)
        ensures
            r == kind_of(*self),
    {
        match self {
            Constraint::Unit(k) => *k,
            Constraint::WithValue(k, _) => *k,
        }
    }
}

/// Lexicographic order on texts, character by character.
pub open spec fn text_lt(a: Seq<char>, b: Seq<char>) -> bool
    decreases a.len(),
{
    if a.len() == 0 {
        b.len() > 0
    } else if b.len() == 0 {
        false
    } else if a[0] != b[0] {
        (a[0] as u32) < (b[0] as u32)
    } else {
        text_lt(a.drop_first(), b.drop_first())
    }
}

/// The order of index entries: Null first, then integers by value, then texts
/// lexicographically.
pub open spec fn value_lt(a: ValueView, b: ValueView) -> bool {
    match (a, b) {
        (ValueView::Null, ValueView::Null) => false,
        (ValueView::Null, _) => true,
        (_, ValueView::Null) => false,
        (ValueView::Integer(x), ValueView::Integer(y)) => x < y,
        (ValueView::Integer(_), ValueView::Text(_)) => true,
        (ValueView::Text(_), ValueView::Integer(_)) => false,
        (ValueView::Text(s), ValueView::Text(t)) => text_lt(s, t),
    }
}

/// Of two different texts one comes first.
pub proof fn lemma_text_lt_total(a: Seq<char>, b: Seq<char>)
    requires
        a != b,
    ensures
        text_lt(a, b) || text_lt(b, a),
    decreases a.len(),
{
    if a.len() == 0 {
        if b.len() == 0 {
            assert(a =~= b);
        }
    } else if b.len() == 0 {
    } else if a[0] != b[0] {
        vstd::utf8::char_u32_cast(a[0], a[0] as u32);
        vstd::utf8::char_u32_cast(b[0], b[0] as u32);
    } else {
        if a.drop_first() == b.drop_first() {
            assert(a =~= seq![a[0]] + a.drop_first());
            assert(b =~= seq![b[0]] + b.drop_first());
        }
        lemma_text_lt_total(a.drop_first(), b.drop_first());
    }
}

/// Of two different values one comes first.
pub proof fn lemma_value_lt_total(a: ValueView, b: ValueView)
    requires
        a != b,
    ensures
        value_lt(a, b) || value_lt(b, a),
{
    if let (ValueView::Text(s), ValueView::Text(t)) = (a, b) {
        lemma_text_lt_total(s, t);
    }
}

/// Some entry of `s` has the view `x`.
pub open spec fn holds(s: Seq<Value>, x: ValueView) -> bool {
    exists|i: int| 0 <= i < s.len() && (#[trigger] s[i])@ == x
}

/// `after` holds what `before` holds and `v`, and nothing else.
pub open spec fn adds_value(before: Seq<Value>, after: Seq<Value>, v: ValueView) -> bool {
    forall|x: ValueView| holds(after, x) <==> (holds(before, x) || x == v)
}

/// Each entry comes strictly before the next.
pub open spec fn ascending(s: Seq<Value>) -> bool {
    forall|i: int| 0 <= i < s.len() - 1 ==> value_lt((#[trigger] s[i])@, s[i + 1]@)
}

/// The enforcement state of one column.
#[derive(Debug)]
pub struct ColumnState {
    pub name: String,
    pub not_null: bool,
    pub default_value: Option<Value>,
    /// For a Unique column, the non-Null values stored so far.
    pub unique_values: Option<Vec<Value>>,
    /// For an Index column, the values stored so far, in ascending order.
    pub index: Option<Vec<Value>>,
}

/// The enforcement state of a table: one entry per schema column, in schema order.
#[derive(Debug)]
pub struct ConstraintState {
    pub columns: Vec<ColumnState>,
}

impl ColumnState {
    /// The entry holds the configuration that `col` declares.
    pub open spec fn configured_by(&self, col: Column) -> bool {
        &&& self.name@ == col.name@
        &&& self.not_null == col.declares(ConstraintKind::NotNull)
        &&& self.default_value == col.default_spec()
        &&& (self.unique_values is Some <==> col.declares(ConstraintKind::Unique))
        &&& (self.index is Some <==> col.declares(ConstraintKind::Index))
        &&& (self.index matches Some(ix) ==> ascending(ix@))
    }

    /// The seen values, as a sequence (empty for a column without Unique).
    pub open spec fn seen(&self) -> Seq<Value> {
        match self.unique_values {
            Some(v) => v@,
            None => Seq::empty(),
        }
    }

    /// The index entries, as a sequence (empty for a column without Index).
    pub open spec fn indexed(&self) -> Seq<Value> {
        match self.index {
            Some(v) => v@,
            None => Seq::empty(),
        }
    }
}

impl ConstraintState {
    /// The state belongs to `schema`: one entry per column, configured by it.
    pub open spec fn tracks(&self, schema: &Schema) -> bool {
        &&& self.columns.len() == schema.cols().len()
        &&& forall|j: int|
            0 <= j < self.columns.len() ==> (#[trigger] self.columns[j]).configured_by(
                schema.cols()[j],
            )
    }

    pub fn new(schema: &Schema) -> (r: Self)
        ensures
            r.tracks(schema),
            forall|j: int| 0 <= j < r.columns.len() ==> (#[trigger] r.columns[j]).seen().len() == 0
                && r.columns[j].indexed().len() == 0,
    {
        Self::from_schema(schema)
    }

    /// The state of a table just created with `schema`: nothing seen, nothing indexed.
    pub fn from_schema(schema: &Schema) -> (r: Self)
        ensures
            r.tracks(schema),
            forall|j: int| 0 <= j < r.columns.len() ==> (#[trigger] r.columns[j]).seen().len() == 0
                && r.columns[j].indexed().len() == 0,
    {
        let cols = schema.columns();
        let mut columns: Vec<ColumnState> = Vec::new();
        let mut j: usize = 0;
        while j < cols.len()
            invariant
                cols@ == schema.cols(),
                j <= cols.len(),
                columns.len() == j,
                forall|i: int| 0 <= i < j ==> (#[trigger] columns[i]).configured_by(cols[i]),
                forall|i: int| 0 <= i < j ==> (#[trigger] columns[i]).seen().len() == 0
                    && columns[i].indexed().len() == 0,
            decreases cols.len() - j,
        {
            let col = &cols[j];
            let default_value = match col.default_value() {
                Some(v) => Some(v.duplicate()),
                None => None,
            };
            let unique_values = if col.declares_unit(ConstraintKind::Unique) {
                Some(Vec::new())
            } else {
                None
            };
            let index = if col.declares_unit(ConstraintKind::Index) {
                Some(Vec::new())
            } else {
                None
            };
            columns.push(
                ColumnState {
                    name: col.name.clone(),
                    not_null: col.declares_unit(ConstraintKind::NotNull),
                    default_value,
                    unique_values,
                    index,
                },
            );
            j = j + 1;
        }
        ConstraintState { columns }
    }

    /// The position of the first entry with the given name.
    fn entry_named(&self, name: &str) -> (r: Option<usize>)
        ensures
            match r {
                Some(k) => k < self.columns.len() && self.columns[k as int].name@ == name@
                    && forall|j: int| 0 <= j < k ==> self.columns[j].name@ != name@,
                None => forall|j: int| 0 <= j < self.columns.len() ==> self.columns[j].name@ != name@,
            },
    {
        let target = name.to_owned();
        let mut i: usize = 0;
        while i < self.columns.len()
            invariant
                i <= self.columns.len(),
                target@ == name@,
                forall|j: int| 0 <= j < i ==> self.columns[j].name@ != name@,
            decreases self.columns.len() - i,
        {
            if self.columns[i].name.eq(&target) {
                return Some(i);
            }
            i = i + 1;
        }
        None
    }

    /// Whether the named column keeps a set of seen values (it is Unique).
    pub fn has_unique_values(&self, name: &str) -> (r: bool)
        ensures
            r == exists|k: int|
                0 <= k < self.columns.len() && self.columns[k].name@ == name@
                    && self.columns[k].unique_values is Some && forall|j: int|
                    0 <= j < k ==> self.columns[j].name@ != name@,
    {
        match self.entry_named(name) {
            Some(k) => self.columns[k].unique_values.is_some(),
            None => false,
        }
    }

    /// Whether the named column is NotNull.
    pub fn is_not_null_column(&self, name: &str) -> (r: bool)
        ensures
            r == exists|k: int|
                0 <= k < self.columns.len() && self.columns[k].name@ == name@
                    && self.columns[k].not_null && forall|j: int|
                    0 <= j < k ==> self.columns[j].name@ != name@,
    {
        match self.entry_named(name) {
            Some(k) => self.columns[k].not_null,
            None => false,
        }
    }

    /// The default value of the named column.
    pub fn default_value_for(&self, name: &str) -> (r: Option<&Value>)
        ensures
            match r {
                Some(v) => exists|k: int|
                    0 <= k < self.columns.len() && self.columns[k].name@ == name@
                        && self.columns[k].default_value == Some(*v),
                None => forall|k: int|
                    0 <= k < self.columns.len() && self.columns[k].name@ == name@ && (forall|j: int|
                        0 <= j < k ==> self.columns[j].name@ != name@)
                        ==> self.columns[k].default_value is None,
            },
    {
        match self.entry_named(name) {
            Some(k) => match &self.columns[k].default_value {
                Some(v) => Some(v),
                None => None,
            },
            None => None,
        }
    }

    /// The index of the named column, in ascending order.
    pub fn index_for(&self, name: &str) -> (r: Option<&Vec<Value>>)
        ensures
            match r {
                Some(v) => exists|k: int|
                    0 <= k < self.columns.len() && self.columns[k].name@ == name@
                        && self.columns[k].index == Some(*v),
                None => forall|k: int|
                    0 <= k < self.columns.len() && self.columns[k].name@ == name@ && (forall|j: int|
                        0 <= j < k ==> self.columns[j].name@ != name@)
                        ==> self.columns[k].index is None,
            },
    {
        match self.entry_named(name) {
            Some(k) => match &self.columns[k].index {
                Some(v) => Some(v),
                None => None,
            },
            None => None,
        }
    }

    /// The number of columns that keep a set of seen values.
    pub fn unique_column_count(&self) -> (r: usize)
        ensures
            r <= self.columns.len(),
            r == 0 <==> forall|j: int| 0 <= j < self.columns.len() ==> self.columns[j].unique_values is None,
    {
        let mut n: usize = 0;
        let mut i: usize = 0;
        while i < self.columns.len()
            invariant
                i <= self.columns.len(),
                n <= i,
                n == 0 <==> forall|j: int| 0 <= j < i ==> self.columns[j].unique_values is None,
            decreases self.columns.len() - i,
        {
            if self.columns[i].unique_values.is_some() {
                n = n + 1;
            }
            i = i + 1;
        }
        n
    }

    /// The number of NotNull columns.
    pub fn not_null_column_count(&self) -> (r: usize)
        ensures
            r <= self.columns.len(),
            r == 0 <==> forall|j: int| 0 <= j < self.columns.len() ==> !self.columns[j].not_null,
    {
        let mut n: usize = 0;
        let mut i: usize = 0;
        while i < self.columns.len()
            invariant
                i <= self.columns.len(),
                n <= i,
                n == 0 <==> forall|j: int| 0 <= j < i ==> !self.columns[j].not_null,
            decreases self.columns.len() - i,
        {
            if self.columns[i].not_null {
                n = n + 1;
            }
            i = i + 1;
        }
        n
    }

    /// The number of columns with a default value.
    pub fn default_column_count(&self) -> (r: usize)
        ensures
            r <= self.columns.len(),
            r == 0 <==> forall|j: int| 0 <= j < self.columns.len() ==> self.columns[j].default_value is None,
    {
        let mut n: usize = 0;
        let mut i: usize = 0;
        while i < self.columns.len()
            invariant
                i <= self.columns.len(),
                n <= i,
                n == 0 <==> forall|j: int| 0 <= j < i ==> self.columns[j].default_value is None,
            decreases self.columns.len() - i,
        {
            if self.columns[i].default_value.is_some() {
                n = n + 1;
            }
            i = i + 1;
        }
        n
    }
}

/// Whether `a` comes before `b` in the index order.
pub fn text_less(a: &String, b: &String) -> (r: bool)
    ensures
        r == text_lt(a@, b@),
{
    let sa = a.as_str();
    let sb = b.as_str();
    let n = sa.unicode_len();
    let m = sb.unicode_len();
    let mut i: usize = 0;
    assert(a@.subrange(0, n as int) =~= a@);
    assert(b@.subrange(0, m as int) =~= b@);
    while i < n && i < m && sa.get_char(i) == sb.get_char(i)
        invariant
            n == a@.len(),
            m == b@.len(),
            sa@ == a@,
            sb@ == b@,
            i <= n,
            i <= m,
            text_lt(a@, b@) == text_lt(a@.subrange(i as int, n as int), b@.subrange(i as int, m as int)),
        decreases n - i,
    {
        assert(a@.subrange(i as int, n as int).drop_first() =~= a@.subrange(i + 1, n as int));
        assert(b@.subrange(i as int, m as int).drop_first() =~= b@.subrange(i + 1, m as int));
        i = i + 1;
    }
    if i == n {
        i < m
    } else if i == m {
        false
    } else {
        (sa.get_char(i) as u32) < (sb.get_char(i) as u32)
    }
}

/// Whether `a` comes before `b` in the index order.
pub fn value_less(a: &Value, b: &Value) -> (r: bool)
    ensures
        r == value_lt(a@, b@),
{
    match (a, b) {
        (Value::Null, Value::Null) => false,
        (Value::Null, _) => true,
        (_, Value::Null) => false,
        (Value::Integer(x), Value::Integer(y)) => *x < *y,
        (Value::Integer(_), Value::String(_)) => true,
        (Value::String(_), Value::Integer(_)) => false,
        (Value::String(s), Value::String(t)) => text_less(s, t),
    }
}

/// Putting `v` at position `k`, after the entries below it and before one above
/// it, keeps a sequence ascending.
proof fn lemma_insert_ascending(s: Seq<Value>, k: int, v: Value)
    requires
        ascending(s),
        0 <= k <= s.len(),
        forall|i: int| 0 <= i < k ==> value_lt(s[i]@, v@),
        k < s.len() ==> value_lt(v@, s[k]@),
    ensures
        ascending(s.insert(k, v)),
{
    let t = s.insert(k, v);
    assert forall|i: int| 0 <= i < t.len() - 1 implies value_lt((#[trigger] t[i])@, t[i + 1]@) by {
        if i < k - 1 {
            assert(t[i] == s[i] && t[i + 1] == s[i + 1]);
        } else if i == k - 1 {
            assert(t[i] == s[i] && t[i + 1] == v);
        } else if i == k {
            assert(t[i] == v && t[i + 1] == s[i]);
        } else {
            assert(t[i] == s[i - 1] && t[i + 1] == s[i]);
        }
    }
}

/// Inserting `v` adds exactly its view to what a sequence holds.
proof fn lemma_insert_holds(s: Seq<Value>, k: int, v: Value)
    requires
        0 <= k <= s.len(),
    ensures
        adds_value(s, s.insert(k, v), v@),
{
    let t = s.insert(k, v);
    assert forall|x: ValueView| holds(t, x) <==> (holds(s, x) || x == v@) by {
        if holds(t, x) {
            let i = choose|i: int| 0 <= i < t.len() && (#[trigger] t[i])@ == x;
            if i < k {
                assert(s[i]@ == x);
            } else if i > k {
                assert(s[i - 1]@ == x);
            }
        }
        if holds(s, x) {
            let i = choose|i: int| 0 <= i < s.len() && (#[trigger] s[i])@ == x;
            if i < k {
                assert(t[i]@ == x);
            } else {
                assert(t[i + 1]@ == x);
            }
        }
        if x == v@ {
            assert(t[k]@ == x);
        }
    }
}

/// The number of leading entries that come before `v`.
fn insertion_point(ix: &Vec<Value>, v: &Value) -> (k: usize)
    ensures
        k <= ix.len(),
        forall|i: int| 0 <= i < k ==> value_lt(ix@[i]@, v@),
        k < ix.len() ==> !value_lt(ix@[k as int]@, v@),
{
    let mut k: usize = 0;
    while k < ix.len() && value_less(&ix[k], v)
        invariant
            k <= ix.len(),
            forall|i: int| 0 <= i < k ==> value_lt(ix@[i]@, v@),
        decreases ix.len() - k,
    {
        k = k + 1;
    }
    k
}

/// Adds `v` to an ascending index, unless a value equal to it is there already.
pub fn insert_ascending(ix: &mut Vec<Value>, v: &Value)
    requires
        ascending(old(ix)@),
    ensures
        ascending(final(ix)@),
        adds_value(old(ix)@, final(ix)@, v@),
{
    let k = insertion_point(ix, v);
    if k < ix.len() && ix[k].same_as(v) {
        assert(ix@[k as int]@ == v@);
        assert(adds_value(ix@, ix@, v@));
        return;
    }
    let ghost s = ix@;
    proof {
        if k < s.len() {
            lemma_value_lt_total(s[k as int]@, v@);
        }
        lemma_insert_ascending(s, k as int, *v);
        lemma_insert_holds(s, k as int, *v);
    }
    ix.insert(k, v.duplicate());
}

} // verus!
