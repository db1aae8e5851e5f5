use vstd::prelude::*;
use crate::catalog::{is_dropped, TableEntry};
use crate::compose::{
    conjoin, conjoin_all, disjoin, disjoin_all, opt_tree, with_and, with_and_all, with_or, with_or_any,
};
use crate::error::ValidationError;
use crate::filter::{trees, FilterStmt};
use crate::registry::{check_value, filter_ok, Column, ColumnRegistry};
use crate::value::{fits, Value};

verus! {

/// A query: the columns to read from a table, and an optional filter.
#[derive(Debug)]
pub struct Select<'a> {
    pub table: &'a TableEntry,
    pub cols: Vec<String>,
    pub filter: Option<FilterStmt>,
}

/// One row to insert, a value for each column of the table.
#[derive(Debug)]
pub struct Insert<'a> {
    pub table: &'a TableEntry,
    pub row: Vec<(String, Value)>,
}

/// Assignments to columns, at least one, and an optional filter.
#[derive(Debug)]
pub struct Update<'a> {
    table: &'a TableEntry,
    values: Vec<(String, Value)>,
    filter: Option<FilterStmt>,
}

/// A deletion. Without a filter it deletes every row, which only
/// `Delete::all_rows` builds.
#[derive(Debug)]
pub struct Delete<'a> {
    table: &'a TableEntry,
    filter: Option<FilterStmt>,
}

/// Any one statement.
#[derive(Debug)]
pub enum Statement<'a> {
    Select(Select<'a>),
    Insert(Insert<'a>),
    Update(Update<'a>),
    Delete(Delete<'a>),
}

/// An optional filter whose leaves all pass their checks against `cols`.
pub open spec fn opt_filter_ok(cols: Seq<Column>, f: Option<FilterStmt>) -> bool {
    match f {
        None => true,
        Some(f) => filter_ok(cols, f),
    }
}

/// Each assignment names a column of `cols` with a value that fits it.
pub open spec fn assignments_ok(cols: Seq<Column>, v: Seq<(String, Value)>) -> bool {
    forall|i: int| 0 <= i < v.len() ==> check_value(cols, (#[trigger] v[i]).0, v[i].1) is Ok
}

/// `row` holds one value per column of `cols`, in column order, each fitting
/// its column.
pub open spec fn row_ok(cols: Seq<Column>, row: Seq<(String, Value)>) -> bool {
    &&& row.len() == cols.len()
    &&& forall|i: int|
        0 <= i < row.len() ==> (#[trigger] row[i]).0@ == cols[i].name@ && fits(cols[i].ty, cols[i].optional, row[i].1)
}

/// The statement's filter and assignments, if any, fit the columns of its
/// own table.
pub open spec fn statement_ok(s: Statement) -> bool {
    match s {
        Statement::Select(q) => opt_filter_ok(q.table.columns.cols@, q.filter),
        Statement::Insert(q) => row_ok(q.table.columns.cols@, q.row@),
        Statement::Update(q) => assignments_ok(q.spec_table().columns.cols@, q.spec_values()) && opt_filter_ok(
            q.spec_table().columns.cols@,
            q.spec_filter(),
        ),
        Statement::Delete(q) => opt_filter_ok(q.spec_table().columns.cols@, q.spec_filter()),
    }
}

fn check_opt_filter(reg: &ColumnRegistry, f: &Option<FilterStmt>) -> (r: Result<(), ValidationError>)
    ensures
        r is Ok <==> opt_filter_ok(reg.cols@, *f),
{
    match f {
        None => Ok(()),
        Some(f) => reg.check_filter(f),
    }
}

fn check_assignments(reg: &ColumnRegistry, v: &Vec<(String, Value)>) -> (r: Result<(), ValidationError>)
    ensures
        r is Ok <==> assignments_ok(reg.cols@, v@),
{
    let mut i: usize = 0;
    while i < v.len()
        invariant
            i <= v@.len(),
            forall|k: int| 0 <= k < i ==> check_value(reg.cols@, (#[trigger] v@[k]).0, v@[k].1) is Ok,
        decreases v@.len() - i,
    {
        let (col, value) = &v[i];
        match reg.check_value(col, value) {
            Ok(()) => {},
            Err(e) => {
                assert(check_value(reg.cols@, v@[i as int].0, v@[i as int].1) is Err);
                return Err(e);
            },
        }
        i = i + 1;
    }
    Ok(())
}

fn check_row(reg: &ColumnRegistry, row: &Vec<(String, Value)>) -> (r: Result<(), ValidationError>)
    ensures
        r is Ok <==> row_ok(reg.cols@, row@),
{
    let cols = &reg.cols;
    if row.len() != cols.len() {
        return Err(ValidationError::RowShape);
    }
    let mut i: usize = 0;
    while i < row.len()
        invariant
            i <= row@.len() == cols@.len(),
            cols@ == reg.cols@,
            forall|k: int|
                0 <= k < i ==> (#[trigger] row@[k]).0@ == cols@[k].name@ && fits(
                    cols@[k].ty,
                    cols@[k].optional,
                    row@[k].1,
                ),
        decreases row@.len() - i,
    {
        let (col, value) = &row[i];
        let c = &cols[i];
        if !(*col == c.name) {
            return Err(ValidationError::UnknownColumn(col.clone()));
        }
        if !value.fits(c.ty, c.optional) {
            return Err(ValidationError::TypeMismatch(col.clone()));
        }
        i = i + 1;
    }
    Ok(())
}

impl<'a> Statement<'a> {
    /// Checks, before the statement is sent, that an inserted row holds one
    /// fitting value per column in column order, and that every assignment
    /// and every leaf of its filter names a column of the statement's own
    /// table with a value that fits, which a filter built against another
    /// table may not.
    pub fn validate(&self) -> (r: Result<(), ValidationError>)
        ensures
            r is Ok <==> statement_ok(*self),
    {
        match self {
            Statement::Select(q) => check_opt_filter(&q.table.columns, &q.filter),
            Statement::Insert(q) => check_row(&q.table.columns, &q.row),
            Statement::Update(q) => {
                match check_assignments(&q.table.columns, &q.values) {
                    Ok(()) => check_opt_filter(&q.table.columns, &q.filter),
                    Err(e) => Err(e),
                }
            },
            Statement::Delete(q) => check_opt_filter(&q.table.columns, &q.filter),
        }
    }
}

/// No two assignments name the same column.
pub open spec fn keys_unique(v: Seq<(String, Value)>) -> bool {
    forall|i: int, j: int| 0 <= i < j < v.len() ==> (#[trigger] v[i]).0@ != (#[trigger] v[j]).0@
}

/// The position of the first misfit among `vals` against `cols`, in order.
pub open spec fn first_misfit(cols: Seq<Column>, vals: Seq<Value>) -> Option<int>
    decreases vals.len(),
{
    if vals.len() == 0 {
        None
    } else {
        match first_misfit(cols, vals.drop_last()) {
            Some(i) => Some(i),
            None => {
                let i = vals.len() - 1;
                if fits(cols[i].ty, cols[i].optional, vals[i]) {
                    None
                } else {
                    Some(i)
                }
            },
        }
    }
}

/// Why `vals` is not a full row of `cols`, if it is one.
pub open spec fn row_error(cols: Seq<Column>, vals: Seq<Value>) -> Option<ValidationError> {
    if vals.len() != cols.len() {
        Some(ValidationError::RowShape)
    } else {
        match first_misfit(cols, vals) {
            Some(i) => Some(ValidationError::TypeMismatch(cols[i].name)),
            None => None,
        }
    }
}

proof fn lemma_misfit_extends(cols: Seq<Column>, vals: Seq<Value>, i: int)
    requires
        0 < i <= vals.len(),
        first_misfit(cols, vals.subrange(0, i)) is Some,
    ensures
        first_misfit(cols, vals) == first_misfit(cols, vals.subrange(0, i)),
    decreases vals.len() - i,
{
    if i < vals.len() {
        assert(vals.subrange(0, i + 1).drop_last() =~= vals.subrange(0, i));
        lemma_misfit_extends(cols, vals, i + 1);
    } else {
        assert(vals.subrange(0, i) =~= vals);
    }
}

impl<'a> Update<'a> {
    /// At least one assignment, and no two for the same column.
    #[verifier::type_invariant]
    spec fn well_formed(&self) -> bool {
        self.values@.len() > 0 && keys_unique(self.values@)
    }

    /// The table this update writes.
    pub closed spec fn spec_table(&self) -> TableEntry {
        *self.table
    }

    /// The assignments, in the order their columns were first set.
    pub closed spec fn spec_values(&self) -> Seq<(String, Value)> {
        self.values@
    }

    /// The filter, if any.
    pub closed spec fn spec_filter(&self) -> Option<FilterStmt> {
        self.filter
    }

    /// The table it is on.
    pub fn table(&self) -> (r: &'a TableEntry)
        ensures
            *r == self.spec_table(),
    {
        self.table
    }

    /// The assignments: never empty, and never two for one column.
    pub fn values(&self) -> (r: &Vec<(String, Value)>)
        ensures
            r@ == self.spec_values(),
            r@.len() > 0,
            keys_unique(r@),
    {
        proof {
            use_type_invariant(self);
        }
        &self.values
    }

    /// The filter, if any.
    pub fn filter(&self) -> (r: &Option<FilterStmt>)
        ensures
            *r == self.spec_filter(),
    {
        &self.filter
    }
}

impl<'a> Delete<'a> {
    /// The table this deletion empties.
    pub closed spec fn spec_table(&self) -> TableEntry {
        *self.table
    }

    /// The filter; `None` only for a deletion built by `all_rows`.
    pub closed spec fn spec_filter(&self) -> Option<FilterStmt> {
        self.filter
    }

    /// The table it is on.
    pub fn table(&self) -> (r: &'a TableEntry)
        ensures
            *r == self.spec_table(),
    {
        self.table
    }

    /// The filter, if any.
    pub fn filter(&self) -> (r: &Option<FilterStmt>)
        ensures
            *r == self.spec_filter(),
    {
        &self.filter
    }
}

impl<'a> Select<'a> {
    /// Every column of the table, in declaration order, and no filter.
    pub fn find(table: &'a TableEntry) -> (r: Select<'a>)
        requires
            !is_dropped(*table),
        ensures
            r.table == table,
            r.cols@.len() == table.ddl.cols@.len(),
            forall|i: int| 0 <= i < r.cols@.len() ==> (#[trigger] r.cols@[i]) == table.ddl.cols@[i].name,
            r.filter is None,
    {
        let mut cols: Vec<String> = Vec::new();
        let n = table.ddl.cols.len();
        let mut i: usize = 0;
        while i < n
            invariant
                n == table.ddl.cols@.len(),
                i <= n,
                cols@.len() == i,
                forall|k: int| 0 <= k < i ==> (#[trigger] cols@[k]) == table.ddl.cols@[k].name,
            decreases n - i,
        {
            cols.push(table.ddl.cols[i].name.clone());
            i = i + 1;
        }
        Select { table, cols, filter: None }
    }
}

impl<'a> Insert<'a> {
    /// The row whose values, in the table's column order, are `vals`:
    /// refused unless there is one value per column and each fits.
    #[verifier::loop_isolation(false)]
    pub fn new(table: &'a TableEntry, vals: Vec<Value>) -> (r: Result<Insert<'a>, ValidationError>)
        requires
            !is_dropped(*table),
        ensures
            match row_error(table.columns.cols@, vals@) {
                Some(e) => r == Err::<Insert<'a>, ValidationError>(e),
                None => r matches Ok(ins) && ins.table == table && ins.row@.len() == vals@.len() && (
                forall|i: int|
                    0 <= i < vals@.len() ==> (#[trigger] ins.row@[i]).0 == table.columns.cols@[i].name
                        && ins.row@[i].1 == vals@[i]),
            },
    {
        let cols = &table.columns.cols;
        if vals.len() != cols.len() {
            return Err(ValidationError::RowShape);
        }
        let ghost orig = vals@;
        let n = vals.len();
        let mut rest = vals;
        let mut row: Vec<(String, Value)> = Vec::new();
        let mut i: usize = 0;
        while i < n
            invariant
                n == orig.len() == cols@.len(),
                cols@ == table.columns.cols@,
                i <= n,
                row@.len() == i,
                rest@ == orig.subrange(i as int, n as int),
                first_misfit(cols@, orig.subrange(0, i as int)) is None,
                forall|k: int| 0 <= k < i ==> (#[trigger] row@[k]).0 == cols@[k].name && row@[k].1 == orig[k],
            decreases n - i,
        {
            let v = rest.remove(0);
            let c = &cols[i];
            proof {
                let pre = orig.subrange(0, i as int + 1);
                assert(pre.drop_last() =~= orig.subrange(0, i as int));
                assert(pre.last() == orig[i as int]);
                assert(rest@ =~= orig.subrange(i as int + 1, n as int));
            }
            if !v.fits(c.ty, c.optional) {
                proof {
                    assert(first_misfit(cols@, orig.subrange(0, i as int + 1)) == Some(i as int));
                    lemma_misfit_extends(cols@, orig, i as int + 1);
                }
                return Err(ValidationError::TypeMismatch(c.name.clone()));
            }
            row.push((c.name.clone(), v));
            i = i + 1;
        }
        assert(orig.subrange(0, n as int) =~= orig);
        Ok(Insert { table, row })
    }
}

impl<'a> Delete<'a> {
    /// A deletion of the rows that `filter` selects. It always has a filter.
    pub fn where_(table: &'a TableEntry, filter: FilterStmt) -> (r: Delete<'a>)
        requires
            !is_dropped(*table),
        ensures
            r.spec_table() == *table,
            r.spec_filter() is Some,
            opt_tree(r.spec_filter()) == Some(filter@),
    {
        Delete { table, filter: Some(filter) }
    }

    /// A deletion of every row: the only way to build a deletion without a
    /// filter.
    pub fn all_rows(table: &'a TableEntry) -> (r: Delete<'a>)
        requires
            !is_dropped(*table),
        ensures
            r.spec_table() == *table,
            r.spec_filter() is None,
    {
        Delete { table, filter: None }
    }
}

impl<'a> Update<'a> {
    /// An update that assigns `value` to the column `col`, once the value is
    /// checked against the column's type.
    pub fn new(table: &'a TableEntry, col: String, value: Value) -> (r: Result<Update<'a>, ValidationError>)
        requires
            !is_dropped(*table),
        ensures
            match check_value(table.columns.cols@, col, value) {
                Err(e) => r == Err::<Update<'a>, ValidationError>(e),
                Ok(_) => r matches Ok(u) && u.spec_table() == *table && u.spec_values() == seq![(col, value)]
                    && u.spec_filter() is None,
            },
    {
        match table.columns.check_value(&col, &value) {
            Err(e) => Err(e),
            Ok(()) => {
                let values = vec![(col, value)];
                Ok(Update { table, values, filter: None })
            },
        }
    }

    /// This update with `col` also set to `value`; a later assignment to a
    /// column replaces an earlier one.
    #[verifier::loop_isolation(false)]
    pub fn set(self, col: String, value: Value) -> (r: Result<Update<'a>, ValidationError>)
        ensures
            match check_value(self.spec_table().columns.cols@, col, value) {
                Err(e) => r == Err::<Update<'a>, ValidationError>(e),
                Ok(_) => r matches Ok(u) && u.spec_table() == self.spec_table() && u.spec_filter() == self.spec_filter() && keys_unique(
                    u.spec_values(),
                ) && (if exists|i: int| 0 <= i < self.spec_values().len() && (#[trigger] self.spec_values()[i]).0@ == col@ {
                    exists|i: int|
                        0 <= i < self.spec_values().len() && (#[trigger] self.spec_values()[i]).0@ == col@ && u.spec_values()
                            == self.spec_values().update(i, (col, value))
                } else {
                    u.spec_values() == self.spec_values().push((col, value))
                }),
            },
    {
        proof {
            use_type_invariant(&self);
        }
        match self.table.columns.check_value(&col, &value) {
            Err(e) => Err(e),
            Ok(()) => {
                let ghost orig = self.values@;
                let ghost gcol = col;
                let ghost gval = value;
                let Update { table, mut values, filter } = self;
                let n = values.len();
                let mut i: usize = 0;
                while i < n
                    invariant
                        n == values@.len(),
                        i <= n,
                        values@ == orig,
                        keys_unique(orig),
                        forall|k: int| 0 <= k < i ==> (#[trigger] orig[k]).0@ != col@,
                    decreases n - i,
                {
                    if values[i].0 == col {
                        let ghost before = values@;
                        assert(orig[i as int].0@ == col@);
                        values.set(i, (col, value));
                        assert(keys_unique(values@)) by {
                            assert forall|p: int, q: int| 0 <= p < q < values@.len() implies (#[trigger] values@[p]).0@
                                != (#[trigger] values@[q]).0@ by {
                                assert(before[p].0@ != before[q].0@);
                            }
                        }
                        assert(values@ == orig.update(i as int, (gcol, gval)));
                        assert(0 <= i < orig.len() && orig[i as int].0@ == gcol@);
                        return Ok(Update { table, values, filter });
                    }
                    i = i + 1;
                }
                let ghost before = values@;
                values.push((col, value));
                assert(keys_unique(values@)) by {
                    assert forall|p: int, q: int| 0 <= p < q < values@.len() implies (#[trigger] values@[p]).0@
                        != (#[trigger] values@[q]).0@ by {
                        if q < n {
                            assert(before[p].0@ != before[q].0@);
                        }
                    }
                }
                Ok(Update { table, values, filter })
            },
        }
    }
}


impl<'a> Select<'a> {
    /// This statement with its filter and-ed with `f`.
    pub fn and(self, f: FilterStmt) -> (r: Select<'a>)
        ensures
            r.table == self.table,
            r.cols == self.cols,
            opt_tree(r.filter) == Some(with_and(opt_tree(self.filter), f@)),
    {
        Select { table: self.table, cols: self.cols, filter: Some(conjoin(self.filter, f)) }
    }

    /// The same as `and`: `where_(f)` on a statement without a filter sets it.
    pub fn where_(self, f: FilterStmt) -> (r: Select<'a>)
        ensures
            r.table == self.table,
            r.cols == self.cols,
            opt_tree(r.filter) == Some(with_and(opt_tree(self.filter), f@)),
    {
        self.and(f)
    }

    /// This statement with its filter or-ed with `f`.
    pub fn or(self, f: FilterStmt) -> (r: Select<'a>)
        ensures
            r.table == self.table,
            r.cols == self.cols,
            opt_tree(r.filter) == Some(with_or(opt_tree(self.filter), f@)),
    {
        Select { table: self.table, cols: self.cols, filter: Some(disjoin(self.filter, f)) }
    }

    /// This statement with its filter and-ed with each of `list`, in one pass.
    pub fn and_all(self, list: Vec<FilterStmt>) -> (r: Select<'a>)
        ensures
            r.table == self.table,
            r.cols == self.cols,
            opt_tree(r.filter) == with_and_all(opt_tree(self.filter), trees(list@)),
    {
        Select { table: self.table, cols: self.cols, filter: conjoin_all(self.filter, list) }
    }

    /// This statement with its filter or-ed with each of `list`, in one pass.
    pub fn or_any(self, list: Vec<FilterStmt>) -> (r: Select<'a>)
        ensures
            r.table == self.table,
            r.cols == self.cols,
            opt_tree(r.filter) == with_or_any(opt_tree(self.filter), trees(list@)),
    {
        Select { table: self.table, cols: self.cols, filter: disjoin_all(self.filter, list) }
    }
}

impl<'a> Update<'a> {
    /// This statement with its filter and-ed with `f`.
    pub fn and(self, f: FilterStmt) -> (r: Update<'a>)
        ensures
            r.spec_table() == self.spec_table(),
            r.spec_values() == self.spec_values(),
            opt_tree(r.spec_filter()) == Some(with_and(opt_tree(self.spec_filter()), f@)),
    {
        proof {
            use_type_invariant(&self);
        }
        Update { table: self.table, values: self.values, filter: Some(conjoin(self.filter, f)) }
    }

    /// The same as `and`: `where_(f)` on a statement without a filter sets it.
    pub fn where_(self, f: FilterStmt) -> (r: Update<'a>)
        ensures
            r.spec_table() == self.spec_table(),
            r.spec_values() == self.spec_values(),
            opt_tree(r.spec_filter()) == Some(with_and(opt_tree(self.spec_filter()), f@)),
    {
        self.and(f)
    }

    /// This statement with its filter or-ed with `f`.
    pub fn or(self, f: FilterStmt) -> (r: Update<'a>)
        ensures
            r.spec_table() == self.spec_table(),
            r.spec_values() == self.spec_values(),
            opt_tree(r.spec_filter()) == Some(with_or(opt_tree(self.spec_filter()), f@)),
    {
        proof {
            use_type_invariant(&self);
        }
        Update { table: self.table, values: self.values, filter: Some(disjoin(self.filter, f)) }
    }

    /// This statement with its filter and-ed with each of `list`, in one pass.
    pub fn and_all(self, list: Vec<FilterStmt>) -> (r: Update<'a>)
        ensures
            r.spec_table() == self.spec_table(),
            r.spec_values() == self.spec_values(),
            opt_tree(r.spec_filter()) == with_and_all(opt_tree(self.spec_filter()), trees(list@)),
    {
        proof {
            use_type_invariant(&self);
        }
        Update { table: self.table, values: self.values, filter: conjoin_all(self.filter, list) }
    }

    /// This statement with its filter or-ed with each of `list`, in one pass.
    pub fn or_any(self, list: Vec<FilterStmt>) -> (r: Update<'a>)
        ensures
            r.spec_table() == self.spec_table(),
            r.spec_values() == self.spec_values(),
            opt_tree(r.spec_filter()) == with_or_any(opt_tree(self.spec_filter()), trees(list@)),
    {
        proof {
            use_type_invariant(&self);
        }
        Update { table: self.table, values: self.values, filter: disjoin_all(self.filter, list) }
    }
}

impl<'a> Delete<'a> {
    /// This statement with its filter and-ed with `f`.
    pub fn and(self, f: FilterStmt) -> (r: Delete<'a>)
        ensures
            r.spec_table() == self.spec_table(),
            opt_tree(r.spec_filter()) == Some(with_and(opt_tree(self.spec_filter()), f@)),
    {
        Delete { table: self.table, filter: Some(conjoin(self.filter, f)) }
    }

    /// This statement with its filter or-ed with `f`.
    pub fn or(self, f: FilterStmt) -> (r: Delete<'a>)
        ensures
            r.spec_table() == self.spec_table(),
            opt_tree(r.spec_filter()) == Some(with_or(opt_tree(self.spec_filter()), f@)),
    {
        Delete { table: self.table, filter: Some(disjoin(self.filter, f)) }
    }

    /// This statement with its filter and-ed with each of `list`, in one pass.
    pub fn and_all(self, list: Vec<FilterStmt>) -> (r: Delete<'a>)
        ensures
            r.spec_table() == self.spec_table(),
            opt_tree(r.spec_filter()) == with_and_all(opt_tree(self.spec_filter()), trees(list@)),
    {
        Delete { table: self.table, filter: conjoin_all(self.filter, list) }
    }

    /// This statement with its filter or-ed with each of `list`, in one pass.
    pub fn or_any(self, list: Vec<FilterStmt>) -> (r: Delete<'a>)
        ensures
            r.spec_table() == self.spec_table(),
            opt_tree(r.spec_filter()) == with_or_any(opt_tree(self.spec_filter()), trees(list@)),
    {
        Delete { table: self.table, filter: disjoin_all(self.filter, list) }
    }
}

} // verus!
