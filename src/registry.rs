use vstd::prelude::*;
use crate::error::ValidationError;
use crate::filter::{FilterItem, FilterStmt};
use crate::value::{fits, SqlType, Value};

verus! {

/// One declared column: its name, type and nullability.
#[derive(Debug)]
pub struct Column {
    pub name: String,
    pub ty: SqlType,
    pub optional: bool,
}

/// The columns of one table, against which filters and assignments are checked.
#[derive(Debug)]
pub struct ColumnRegistry {
    pub cols: Vec<Column>,
}

/// The first column in `cols` named `name`.
pub open spec fn lookup(cols: Seq<Column>, name: Seq<char>) -> Option<Column>
    decreases cols.len(),
{
    if cols.len() == 0 {
        None
    } else if cols[0].name@ == name {
        Some(cols[0])
    } else {
        lookup(cols.drop_first(), name)
    }
}

/// The verdict on storing `v` in the column `col`.
pub open spec fn check_value(cols: Seq<Column>, col: String, v: Value) -> Result<(), ValidationError> {
    match lookup(cols, col@) {
        None => Err(ValidationError::UnknownColumn(col)),
        Some(c) => if fits(c.ty, c.optional, v) {
            Ok(())
        } else {
            Err(ValidationError::TypeMismatch(col))
        },
    }
}

/// The verdict on comparing the column `col` with each of `vs`.
pub open spec fn check_values(cols: Seq<Column>, col: String, vs: Seq<Value>) -> Result<(), ValidationError> {
    match lookup(cols, col@) {
        None => Err(ValidationError::UnknownColumn(col)),
        Some(c) => if forall|i: int| 0 <= i < vs.len() ==> fits(c.ty, c.optional, #[trigger] vs[i]) {
            Ok(())
        } else {
            Err(ValidationError::TypeMismatch(col))
        },
    }
}

/// The verdict on naming the column `col`.
pub open spec fn check_column(cols: Seq<Column>, col: String) -> Result<(), ValidationError> {
    match lookup(cols, col@) {
        None => Err(ValidationError::UnknownColumn(col)),
        Some(_) => Ok(()),
    }
}

/// The verdict on one leaf against the columns `cols`.
pub open spec fn item_check(cols: Seq<Column>, i: FilterItem) -> Result<(), ValidationError> {
    match i {
        FilterItem::Eq { col, value } => check_value(cols, col, value),
        FilterItem::Ne { col, value } => check_value(cols, col, value),
        FilterItem::Gt { col, value } => check_value(cols, col, value),
        FilterItem::Gte { col, value } => check_value(cols, col, value),
        FilterItem::Lt { col, value } => check_value(cols, col, value),
        FilterItem::Lte { col, value } => check_value(cols, col, value),
        FilterItem::In { col, values } => check_values(cols, col, values@),
        FilterItem::Nin { col, values } => check_values(cols, col, values@),
        FilterItem::Between { col, start, end } => check_values(cols, col, seq![start, end]),
        FilterItem::Like { col, .. } => check_column(cols, col),
        FilterItem::IsNull { col } => check_column(cols, col),
        FilterItem::IsNotNull { col } => check_column(cols, col),
    }
}

/// Every leaf of `f` passes its check against the columns `cols`.
pub open spec fn filter_ok(cols: Seq<Column>, f: FilterStmt) -> bool
    decreases f,
{
    match f {
        FilterStmt::Leaf(i) => item_check(cols, i) is Ok,
        FilterStmt::And(v) => forall|k: int| 0 <= k < v.len() ==> filter_ok(cols, #[trigger] v[k]),
        FilterStmt::Or(v) => forall|k: int| 0 <= k < v.len() ==> filter_ok(cols, #[trigger] v[k]),
    }
}

/// The leaf `f` when the check passed, else the check's error.
pub open spec fn leaf_or(chk: Result<(), ValidationError>, f: FilterItem) -> Result<FilterStmt, ValidationError> {
    match chk {
        Ok(_) => Ok(FilterStmt::Leaf(f)),
        Err(e) => Err(e),
    }
}

/// A leaf whose value does not fit the named column's type is refused with
/// a type mismatch, so no leaf exists: text against an integer column, for
/// one.
pub proof fn mismatched_value_builds_no_leaf(cols: Seq<Column>, col: String, v: Value, item: FilterItem)
    requires
        lookup(cols, col@) matches Some(c) && !fits(c.ty, c.optional, v),
    ensures
        leaf_or(check_value(cols, col, v), item) == Err::<FilterStmt, ValidationError>(
            ValidationError::TypeMismatch(col),
        ),
        check_value(cols, col, v) is Err,
{
}

/// Text never fits an integer column.
pub proof fn text_does_not_fit_integers(ty: SqlType, optional: bool, s: String)
    requires
        ty == SqlType::TinyInt || ty == SqlType::SmallInt || ty == SqlType::Int || ty == SqlType::BigInt,
    ensures
        !fits(ty, optional, Value::Text(s)),
{
}

proof fn lemma_item_errors(cols: Seq<Column>, i: FilterItem)
    ensures
        item_check(cols, i) matches Err(e) ==> e is UnknownColumn || e is TypeMismatch,
{
}

proof fn lemma_lookup_skip(cols: Seq<Column>, i: int, name: Seq<char>)
    requires
        0 <= i < cols.len(),
        cols[i].name@ != name,
    ensures
        lookup(cols.subrange(i, cols.len() as int), name) == lookup(cols.subrange(i + 1, cols.len() as int), name),
{
    assert(cols.subrange(i, cols.len() as int).drop_first() =~= cols.subrange(i + 1, cols.len() as int));
}

impl ColumnRegistry {
    /// The position of the first column named `name`, if any.
    pub fn position(&self, name: &String) -> (r: Option<usize>)
        ensures
            r is None <==> lookup(self.cols@, name@) is None,
            r matches Some(i) ==> i < self.cols@.len() && lookup(self.cols@, name@) == Some(self.cols@[i as int]),
    {
        let n = self.cols.len();
        let mut i: usize = 0;
        assert(self.cols@.subrange(0, n as int) =~= self.cols@);
        while i < n
            invariant
                n == self.cols@.len(),
                i <= n,
                lookup(self.cols@, name@) == lookup(self.cols@.subrange(i as int, n as int), name@),
            decreases n - i,
        {
            if self.cols[i].name == *name {
                return Some(i);
            }
            proof {
                lemma_lookup_skip(self.cols@, i as int, name@);
            }
            i = i + 1;
        }
        None
    }

    pub(crate) fn check_value(&self, col: &String, v: &Value) -> (r: Result<(), ValidationError>)
        ensures
            r == check_value(self.cols@, *col, *v),
    {
        match self.position(col) {
            None => Err(ValidationError::UnknownColumn(col.clone())),
            Some(i) => {
                let c = &self.cols[i];
                if v.fits(c.ty, c.optional) {
                    Ok(())
                } else {
                    Err(ValidationError::TypeMismatch(col.clone()))
                }
            },
        }
    }

    fn check_values(&self, col: &String, vs: &Vec<Value>) -> (r: Result<(), ValidationError>)
        ensures
            r == check_values(self.cols@, *col, vs@),
    {
        match self.position(col) {
            None => Err(ValidationError::UnknownColumn(col.clone())),
            Some(i) => {
                let c = &self.cols[i];
                let mut k: usize = 0;
                while k < vs.len()
                    invariant
                        k <= vs@.len(),
                        lookup(self.cols@, col@) == Some(*c),
                        forall|j: int| 0 <= j < k ==> fits(c.ty, c.optional, #[trigger] vs@[j]),
                    decreases vs@.len() - k,
                {
                    if !vs[k].fits(c.ty, c.optional) {
                        assert(!fits(c.ty, c.optional, vs@[k as int]));
                        return Err(ValidationError::TypeMismatch(col.clone()));
                    }
                    k = k + 1;
                }
                Ok(())
            },
        }
    }

    fn check_item(&self, i: &FilterItem) -> (r: Result<(), ValidationError>)
        ensures
            r == item_check(self.cols@, *i),
    {
        match i {
            FilterItem::Eq { col, value } => self.check_value(col, value),
            FilterItem::Ne { col, value } => self.check_value(col, value),
            FilterItem::Gt { col, value } => self.check_value(col, value),
            FilterItem::Gte { col, value } => self.check_value(col, value),
            FilterItem::Lt { col, value } => self.check_value(col, value),
            FilterItem::Lte { col, value } => self.check_value(col, value),
            FilterItem::In { col, values } => self.check_values(col, values),
            FilterItem::Nin { col, values } => self.check_values(col, values),
            FilterItem::Between { col, start, end } => {
                let pair = vec![start.duplicate(), end.duplicate()];
                assert(pair@ =~= seq![*start, *end]);
                self.check_values(col, &pair)
            },
            FilterItem::Like { col, .. } => self.check_column(col),
            FilterItem::IsNull { col } => self.check_column(col),
            FilterItem::IsNotNull { col } => self.check_column(col),
        }
    }

    /// Checks every leaf of `f` against these columns, as the leaf
    /// constructors do; the first refusal met is returned.
    pub fn check_filter(&self, f: &FilterStmt) -> (r: Result<(), ValidationError>)
        ensures
            r is Ok <==> filter_ok(self.cols@, *f),
            r matches Err(e) ==> e is UnknownColumn || e is TypeMismatch,
        decreases f,
    {
        match f {
            FilterStmt::Leaf(i) => {
                let r = self.check_item(i);
                proof {
                    lemma_item_errors(self.cols@, *i);
                }
                r
            },
            FilterStmt::And(v) => {
                let mut k: usize = 0;
                while k < v.len()
                    invariant
                        k <= v@.len(),
                        *f == FilterStmt::And(*v),
                        forall|j: int| 0 <= j < k ==> filter_ok(self.cols@, #[trigger] v@[j]),
                    decreases v@.len() - k,
                {
                    proof {
                        assert(decreases_to!(*f => f->And_0));
                    }
                    match self.check_filter(&v[k]) {
                        Ok(()) => {},
                        Err(e) => {
                            assert(!filter_ok(self.cols@, v[k as int]));
                            return Err(e);
                        },
                    }
                    k = k + 1;
                }
                Ok(())
            },
            FilterStmt::Or(v) => {
                let mut k: usize = 0;
                while k < v.len()
                    invariant
                        k <= v@.len(),
                        *f == FilterStmt::Or(*v),
                        forall|j: int| 0 <= j < k ==> filter_ok(self.cols@, #[trigger] v@[j]),
                    decreases v@.len() - k,
                {
                    proof {
                        assert(decreases_to!(*f => f->Or_0));
                    }
                    match self.check_filter(&v[k]) {
                        Ok(()) => {},
                        Err(e) => {
                            assert(!filter_ok(self.cols@, v[k as int]));
                            return Err(e);
                        },
                    }
                    k = k + 1;
                }
                Ok(())
            },
        }
    }

    fn check_column(&self, col: &String) -> (r: Result<(), ValidationError>)
        ensures
            r == check_column(self.cols@, *col),
    {
        match self.position(col) {
            None => Err(ValidationError::UnknownColumn(col.clone())),
            Some(_) => Ok(()),
        }
    }

    /// The leaf `col = value`, once `value` is checked against the column's type.
    pub fn eq(&self, col: String, value: Value) -> (r: Result<FilterStmt, ValidationError>)
        ensures
            r == leaf_or(check_value(self.cols@, col, value), FilterItem::Eq { col, value }),
    {
        match self.check_value(&col, &value) {
            Ok(()) => Ok(FilterStmt::Leaf(FilterItem::Eq { col, value })),
            Err(e) => Err(e),
        }
    }

    /// The leaf `col <> value`, once `value` is checked against the column's type.
    pub fn ne(&self, col: String, value: Value) -> (r: Result<FilterStmt, ValidationError>)
        ensures
            r == leaf_or(check_value(self.cols@, col, value), FilterItem::Ne { col, value }),
    {
        match self.check_value(&col, &value) {
            Ok(()) => Ok(FilterStmt::Leaf(FilterItem::Ne { col, value })),
            Err(e) => Err(e),
        }
    }

    /// The leaf `col > value`, once `value` is checked against the column's type.
    pub fn gt(&self, col: String, value: Value) -> (r: Result<FilterStmt, ValidationError>)
        ensures
            r == leaf_or(check_value(self.cols@, col, value), FilterItem::Gt { col, value }),
    {
        match self.check_value(&col, &value) {
            Ok(()) => Ok(FilterStmt::Leaf(FilterItem::Gt { col, value })),
            Err(e) => Err(e),
        }
    }

    /// The leaf `col >= value`, once `value` is checked against the column's type.
    pub fn gte(&self, col: String, value: Value) -> (r: Result<FilterStmt, ValidationError>)
        ensures
            r == leaf_or(check_value(self.cols@, col, value), FilterItem::Gte { col, value }),
    {
        match self.check_value(&col, &value) {
            Ok(()) => Ok(FilterStmt::Leaf(FilterItem::Gte { col, value })),
            Err(e) => Err(e),
        }
    }

    /// The leaf `col < value`, once `value` is checked against the column's type.
    pub fn lt(&self, col: String, value: Value) -> (r: Result<FilterStmt, ValidationError>)
        ensures
            r == leaf_or(check_value(self.cols@, col, value), FilterItem::Lt { col, value }),
    {
        match self.check_value(&col, &value) {
            Ok(()) => Ok(FilterStmt::Leaf(FilterItem::Lt { col, value })),
            Err(e) => Err(e),
        }
    }

    /// The leaf `col <= value`, once `value` is checked against the column's type.
    pub fn lte(&self, col: String, value: Value) -> (r: Result<FilterStmt, ValidationError>)
        ensures
            r == leaf_or(check_value(self.cols@, col, value), FilterItem::Lte { col, value }),
    {
        match self.check_value(&col, &value) {
            Ok(()) => Ok(FilterStmt::Leaf(FilterItem::Lte { col, value })),
            Err(e) => Err(e),
        }
    }

    /// The leaf `col IN values`, once each value is checked against the column's type.
    pub fn in_(&self, col: String, values: Vec<Value>) -> (r: Result<FilterStmt, ValidationError>)
        ensures
            r == leaf_or(check_values(self.cols@, col, values@), FilterItem::In { col, values }),
    {
        match self.check_values(&col, &values) {
            Ok(()) => Ok(FilterStmt::Leaf(FilterItem::In { col, values })),
            Err(e) => Err(e),
        }
    }

    /// The leaf `col NOT IN values`, once each value is checked against the column's type.
    pub fn nin(&self, col: String, values: Vec<Value>) -> (r: Result<FilterStmt, ValidationError>)
        ensures
            r == leaf_or(check_values(self.cols@, col, values@), FilterItem::Nin { col, values }),
    {
        match self.check_values(&col, &values) {
            Ok(()) => Ok(FilterStmt::Leaf(FilterItem::Nin { col, values })),
            Err(e) => Err(e),
        }
    }

    /// The leaf `col BETWEEN start AND end`, once both bounds are checked
    /// against the column's type.
    pub fn between(&self, col: String, start: Value, end: Value) -> (r: Result<FilterStmt, ValidationError>)
        ensures
            r == leaf_or(
                check_values(self.cols@, col, seq![start, end]),
                FilterItem::Between { col, start, end },
            ),
    {
        let ghost bounds = seq![start, end];
        match self.position(&col) {
            None => Err(ValidationError::UnknownColumn(col)),
            Some(i) => {
                let c = &self.cols[i];
                if start.fits(c.ty, c.optional) && end.fits(c.ty, c.optional) {
                    assert(forall|k: int| 0 <= k < bounds.len() ==> fits(c.ty, c.optional, #[trigger] bounds[k]));
                    Ok(FilterStmt::Leaf(FilterItem::Between { col, start, end }))
                } else {
                    assert(!fits(c.ty, c.optional, bounds[0]) || !fits(c.ty, c.optional, bounds[1]));
                    Err(ValidationError::TypeMismatch(col))
                }
            },
        }
    }

    /// The leaf `col LIKE expr`, once the column is known.
    pub fn like(&self, col: String, expr: String) -> (r: Result<FilterStmt, ValidationError>)
        ensures
            r == leaf_or(check_column(self.cols@, col), FilterItem::Like { col, expr }),
    {
        match self.check_column(&col) {
            Ok(()) => Ok(FilterStmt::Leaf(FilterItem::Like { col, expr })),
            Err(e) => Err(e),
        }
    }

    /// The leaf `col IS NULL`, once the column is known.
    pub fn is_null(&self, col: String) -> (r: Result<FilterStmt, ValidationError>)
        ensures
            r == leaf_or(check_column(self.cols@, col), FilterItem::IsNull { col }),
    {
        match self.check_column(&col) {
            Ok(()) => Ok(FilterStmt::Leaf(FilterItem::IsNull { col })),
            Err(e) => Err(e),
        }
    }

    /// The leaf `col IS NOT NULL`, once the column is known.
    pub fn is_not_null(&self, col: String) -> (r: Result<FilterStmt, ValidationError>)
        ensures
            r == leaf_or(check_column(self.cols@, col), FilterItem::IsNotNull { col }),
    {
        match self.check_column(&col) {
            Ok(()) => Ok(FilterStmt::Leaf(FilterItem::IsNotNull { col })),
            Err(e) => Err(e),
        }
    }
}

} // verus!
