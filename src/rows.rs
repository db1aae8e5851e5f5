use vstd::prelude::*;
use crate::error::Error;
use crate::registry::{lookup, Column};
use crate::statement::Select;
use crate::value::{fits, Value};

verus! {

/// The value of the first field of `row` named `name`.
pub open spec fn entry_for(row: Seq<(String, Value)>, name: Seq<char>) -> Option<Value>
    decreases row.len(),
{
    if row.len() == 0 {
        None
    } else if row[0].0@ == name {
        Some(row[0].1)
    } else {
        entry_for(row.drop_first(), name)
    }
}

/// `row` has a field named `name` whose value fits that column of `reg`.
pub open spec fn cell_fits(reg: Seq<Column>, row: Seq<(String, Value)>, name: Seq<char>) -> bool {
    &&& entry_for(row, name) matches Some(v)
    &&& lookup(reg, name) matches Some(c)
    &&& fits(c.ty, c.optional, v)
}

/// `row` has exactly the fields `cols`, each fitting its column.
pub open spec fn row_fits(cols: Seq<String>, reg: Seq<Column>, row: Seq<(String, Value)>) -> bool {
    &&& row.len() == cols.len()
    &&& forall|j: int| 0 <= j < cols.len() ==> cell_fits(reg, row, (#[trigger] cols[j])@)
}

/// The value of the field `name` of `row`.
pub open spec fn cell(row: Seq<(String, Value)>, name: Seq<char>) -> Value {
    match entry_for(row, name) {
        Some(v) => v,
        None => Value::Null,
    }
}

proof fn lemma_entry_skip(row: Seq<(String, Value)>, i: int, name: Seq<char>)
    requires
        0 <= i < row.len(),
        row[i].0@ != name,
    ensures
        entry_for(row.subrange(i, row.len() as int), name) == entry_for(row.subrange(i + 1, row.len() as int), name),
{
    assert(row.subrange(i, row.len() as int).drop_first() =~= row.subrange(i + 1, row.len() as int));
}

fn entry_position(row: &Vec<(String, Value)>, name: &String) -> (r: Option<usize>)
    ensures
        r is None <==> entry_for(row@, name@) is None,
        r matches Some(i) ==> i < row@.len() && entry_for(row@, name@) == Some(row@[i as int].1),
{
    let n = row.len();
    let mut i: usize = 0;
    assert(row@.subrange(0, n as int) =~= row@);
    while i < n
        invariant
            n == row@.len(),
            i <= n,
            entry_for(row@, name@) == entry_for(row@.subrange(i as int, n as int), name@),
        decreases n - i,
    {
        if row[i].0 == *name {
            return Some(i);
        }
        proof {
            lemma_entry_skip(row@, i as int, name@);
        }
        i = i + 1;
    }
    None
}

impl<'a> Select<'a> {
    /// Reads one row of a reply: its values in the order of `self.cols`,
    /// refused unless it has exactly those fields, each fitting its column.
    pub fn row(&self, row: &Vec<(String, Value)>) -> (r: Result<Vec<Value>, Error>)
        ensures
            r is Ok <==> row_fits(self.cols@, self.table.columns.cols@, row@),
            r matches Ok(out) ==> out@.len() == self.cols@.len() && forall|j: int|
                0 <= j < self.cols@.len() ==> (#[trigger] out@[j]) == cell(row@, self.cols@[j]@),
            r matches Err(e) ==> e is Deserialization,
    {
        let n = self.cols.len();
        if row.len() != n {
            return Err(Error::Deserialization(self.table.ddl.name.clone()));
        }
        let mut out: Vec<Value> = Vec::new();
        let mut j: usize = 0;
        while j < n
            invariant
                n == self.cols@.len() == row@.len(),
                j <= n,
                out@.len() == j,
                forall|k: int| 0 <= k < j ==> cell_fits(self.table.columns.cols@, row@, (#[trigger] self.cols@[k])@),
                forall|k: int| 0 <= k < j ==> (#[trigger] out@[k]) == cell(row@, self.cols@[k]@),
            decreases n - j,
        {
            let name = &self.cols[j];
            let k = match entry_position(row, name) {
                None => return Err(Error::Deserialization(name.clone())),
                Some(k) => k,
            };
            let c = match self.table.columns.position(name) {
                None => return Err(Error::Deserialization(name.clone())),
                Some(c) => c,
            };
            let col = &self.table.columns.cols[c];
            if !row[k].1.fits(col.ty, col.optional) {
                return Err(Error::Deserialization(name.clone()));
            }
            out.push(row[k].1.duplicate());
            j = j + 1;
        }
        Ok(out)
    }

    /// Reads every row of a reply, as `row` does; refused if any row is.
    pub fn rows(&self, rows: &Vec<Vec<(String, Value)>>) -> (r: Result<Vec<Vec<Value>>, Error>)
        ensures
            r is Ok <==> forall|i: int|
                0 <= i < rows@.len() ==> row_fits(self.cols@, self.table.columns.cols@, (#[trigger] rows@[i])@),
            r matches Ok(out) ==> out@.len() == rows@.len() && forall|i: int, j: int|
                0 <= i < rows@.len() && 0 <= j < self.cols@.len() ==> (#[trigger] out@[i]@[j]) == cell(
                    rows@[i]@,
                    self.cols@[j]@,
                ) && out@[i]@.len() == self.cols@.len(),
            r matches Err(e) ==> e is Deserialization,
    {
        let mut out: Vec<Vec<Value>> = Vec::new();
        let n = rows.len();
        let mut i: usize = 0;
        while i < n
            invariant
                n == rows@.len(),
                i <= n,
                out@.len() == i,
                forall|k: int| 0 <= k < i ==> row_fits(self.cols@, self.table.columns.cols@, (#[trigger] rows@[k])@),
                forall|k: int, j: int|
                    0 <= k < i && 0 <= j < self.cols@.len() ==> (#[trigger] out@[k]@[j]) == cell(
                        rows@[k]@,
                        self.cols@[j]@,
                    ) && out@[k]@.len() == self.cols@.len(),
            decreases n - i,
        {
            match self.row(&rows[i]) {
                Ok(vals) => out.push(vals),
                Err(e) => return Err(e),
            }
            i = i + 1;
        }
        Ok(out)
    }
}

} // verus!
