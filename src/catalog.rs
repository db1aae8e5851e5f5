use vstd::prelude::*;
use crate::error::ValidationError;
use crate::registry::{Column, ColumnRegistry};
use crate::schema::{
    field_error, first_field_error, sql_type_for, sql_type_of, table, table_ddl_of, table_error,
    snake_of, FieldShape, RecordShape, TableDDL, TableDDLOp,
};

verus! {

/// A registered table: its schema and the registry of its columns.
#[derive(Debug)]
pub struct TableEntry {
    pub ddl: TableDDL,
    pub columns: ColumnRegistry,
}

/// Every table known to the guest, registered once at start-up.
#[derive(Debug)]
pub struct Schema {
    pub tables: Vec<TableEntry>,
}

/// `cols` are the columns that the record `r` declares, in order.
pub open spec fn columns_of(r: RecordShape, cols: Seq<Column>) -> bool {
    &&& cols.len() == r.fields@.len()
    &&& forall|i: int|
        0 <= i < cols.len() ==> {
            &&& (#[trigger] cols[i]).name == r.fields@[i].name
            &&& sql_type_of(r.fields@[i].ty@) == Some(cols[i].ty)
            &&& cols[i].optional == r.fields@[i].optional
        }
}

/// The first registered table named `name`.
pub open spec fn find_table(tables: Seq<TableEntry>, name: Seq<char>) -> Option<TableEntry>
    decreases tables.len(),
{
    if tables.len() == 0 {
        None
    } else if tables[0].ddl.name@ == name {
        Some(tables[0])
    } else {
        find_table(tables.drop_first(), name)
    }
}

/// The table is dropped: only its schema stays reachable.
pub open spec fn is_dropped(t: TableEntry) -> bool {
    t.ddl.op is Drop || t.ddl.op is DropAll
}

proof fn lemma_fields_valid(fields: Seq<FieldShape>, i: int)
    requires
        first_field_error(fields) is None,
        0 <= i < fields.len(),
    ensures
        field_error(fields[i]) is None,
    decreases fields.len(),
{
    if i < fields.len() - 1 {
        assert(fields.drop_last()[i] == fields[i]);
        lemma_fields_valid(fields.drop_last(), i);
    }
}

proof fn lemma_find_skip(tables: Seq<TableEntry>, i: int, name: Seq<char>)
    requires
        0 <= i < tables.len(),
        tables[i].ddl.name@ != name,
    ensures
        find_table(tables.subrange(i, tables.len() as int), name) == find_table(
            tables.subrange(i + 1, tables.len() as int),
            name,
        ),
{
    assert(tables.subrange(i, tables.len() as int).drop_first() =~= tables.subrange(i + 1, tables.len() as int));
}

/// The registry of the columns that a valid record declares.
pub fn columns(r: &RecordShape) -> (res: ColumnRegistry)
    requires
        first_field_error(r.fields@) is None,
    ensures
        columns_of(*r, res.cols@),
{
    let mut cols: Vec<Column> = Vec::new();
    let n = r.fields.len();
    let mut i: usize = 0;
    while i < n
        invariant
            n == r.fields@.len(),
            i <= n,
            cols@.len() == i,
            first_field_error(r.fields@) is None,
            forall|k: int|
                0 <= k < i ==> {
                    &&& (#[trigger] cols@[k]).name == r.fields@[k].name
                    &&& sql_type_of(r.fields@[k].ty@) == Some(cols@[k].ty)
                    &&& cols@[k].optional == r.fields@[k].optional
                },
        decreases n - i,
    {
        let f = &r.fields[i];
        proof {
            lemma_fields_valid(r.fields@, i as int);
        }
        let ty = match sql_type_for(&f.ty) {
            Ok(t) => t,
            Err(_) => {
                assert(false);
                return ColumnRegistry { cols };
            },
        };
        cols.push(Column { name: f.name.clone(), ty, optional: f.optional });
        i = i + 1;
    }
    ColumnRegistry { cols }
}

impl Schema {
    /// A registry with no tables.
    pub fn new() -> (r: Schema)
        ensures
            r.tables@.len() == 0,
    {
        Schema { tables: Vec::new() }
    }

    /// The position of the first table named `name`, if any.
    pub fn position(&self, name: &String) -> (r: Option<usize>)
        ensures
            r is None <==> find_table(self.tables@, name@) is None,
            r matches Some(i) ==> i < self.tables@.len() && find_table(self.tables@, name@) == Some(
                self.tables@[i as int],
            ),
    {
        let n = self.tables.len();
        let mut i: usize = 0;
        assert(self.tables@.subrange(0, n as int) =~= self.tables@);
        while i < n
            invariant
                n == self.tables@.len(),
                i <= n,
                find_table(self.tables@, name@) == find_table(self.tables@.subrange(i as int, n as int), name@),
            decreases n - i,
        {
            if self.tables[i].ddl.name == *name {
                return Some(i);
            }
            proof {
                lemma_find_skip(self.tables@, i as int, name@);
            }
            i = i + 1;
        }
        None
    }

    /// Registers a record: its schema and its columns. A record with a valid
    /// schema and a new table name is always registered; one without a valid
    /// schema, or whose table name is taken, leaves the registry as it was.
    pub fn register(&mut self, r: &RecordShape) -> (res: Result<(), ValidationError>)
        ensures
            table_error(*r) matches Some(e) ==> res == Err::<(), ValidationError>(e),
            res is Ok ==> {
                &&& table_error(*r) is None
                &&& find_table(old(self).tables@, snake_of(r.name@)) is None
                &&& final(self).tables@.len() == old(self).tables@.len() + 1
                &&& final(self).tables@.drop_last() == old(self).tables@
                &&& table_ddl_of(*r, final(self).tables@.last().ddl)
                &&& columns_of(*r, final(self).tables@.last().columns.cols@)
            },
            res is Err ==> final(self).tables@ == old(self).tables@,
            table_error(*r) is None && find_table(old(self).tables@, snake_of(r.name@)) is None ==> res is Ok,
            table_error(*r) is None && find_table(old(self).tables@, snake_of(r.name@)) is Some ==> (res matches Err(
                ValidationError::DuplicateTable(n),
            ) && n@ == snake_of(r.name@)),
    {
        let ddl = match table(r) {
            Ok(t) => t,
            Err(e) => return Err(e),
        };
        if self.position(&ddl.name).is_some() {
            return Err(ValidationError::DuplicateTable(ddl.name));
        }
        let columns = columns(r);
        self.tables.push(TableEntry { ddl, columns });
        assert(self.tables@.drop_last() =~= old(self).tables@);
        Ok(())
    }

    /// The schema of the table named `name`, dropped or not.
    pub fn ddl(&self, name: &String) -> (r: Option<&TableDDL>)
        ensures
            match find_table(self.tables@, name@) {
                None => r is None,
                Some(t) => r == Some(&t.ddl),
            },
    {
        match self.position(name) {
            None => None,
            Some(i) => Some(&self.tables[i].ddl),
        }
    }

    /// The table named `name`, for building statements on it: refused when
    /// no such table is registered or when it is dropped.
    pub fn table(&self, name: &String) -> (r: Result<&TableEntry, ValidationError>)
        ensures
            match find_table(self.tables@, name@) {
                None => r == Err::<&TableEntry, ValidationError>(ValidationError::UnknownTable(*name)),
                Some(t) => if is_dropped(t) {
                    r == Err::<&TableEntry, ValidationError>(ValidationError::DroppedTable(*name))
                } else {
                    r == Ok::<&TableEntry, ValidationError>(&t)
                },
            },
    {
        match self.position(name) {
            None => Err(ValidationError::UnknownTable(name.clone())),
            Some(i) => {
                let t = &self.tables[i];
                match t.ddl.op {
                    TableDDLOp::Drop | TableDDLOp::DropAll => Err(ValidationError::DroppedTable(name.clone())),
                    _ => Ok(t),
                }
            },
        }
    }
}

} // verus!
