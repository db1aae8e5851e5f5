use vstd::prelude::*;
use convert_case::Casing;
use crate::error::ValidationError;
use crate::registry::{Column, ColumnRegistry};
use crate::value::{type_text, SqlType};

verus! {

/// What happens to one column when the schema is applied.
#[derive(Debug)]
pub enum DDLOp {
    Keep,
    /// The column was renamed from the given name.
    Rename(String),
}

/// What happens to the table when the schema is applied.
#[derive(Debug)]
pub enum TableDDLOp {
    Keep,
    /// The table was renamed from the given name.
    Rename(String),
    /// The table is dropped, its data kept.
    Drop,
    /// The table and its data are dropped.
    DropAll,
    /// A dropped table is restored.
    Undrop,
}

/// The schema of one column.
#[derive(Debug)]
pub struct FieldDDL {
    pub name: String,
    pub opt: bool,
    /// The SQL spelling of the column type.
    pub ty: String,
    pub op: DDLOp,
}

/// The schema of one table and the operation pending on it.
#[derive(Debug)]
pub struct TableDDL {
    pub name: String,
    pub cols: Vec<FieldDDL>,
    pub op: TableDDLOp,
}

/// One declared field of a record: its name, its value type as declared
/// (`i64`, `String`, ...), whether it is optional, and the name it was
/// renamed from, if any.
#[derive(Debug)]
pub struct FieldShape {
    pub name: String,
    pub ty: String,
    pub optional: bool,
    pub renamed_from: Option<String>,
}

/// A table-level declaration on a record.
#[derive(Debug)]
pub enum TableAttr {
    /// The table was renamed from the given name.
    RenamedFrom(String),
    Dropped,
    DroppedWithData,
    Undropped,
}

/// A record declaration: its type name, fields in order, and table-level
/// declarations.
#[derive(Debug)]
pub struct RecordShape {
    pub name: String,
    pub fields: Vec<FieldShape>,
    pub attrs: Vec<TableAttr>,
}

/// The column type of a declared value type, if it has one.
pub open spec fn sql_type_of(ty: Seq<char>) -> Option<SqlType> {
    if ty == "bool"@ {
        Some(SqlType::Boolean)
    } else if ty == "i8"@ {
        Some(SqlType::TinyInt)
    } else if ty == "i16"@ {
        Some(SqlType::SmallInt)
    } else if ty == "i32"@ {
        Some(SqlType::Int)
    } else if ty == "i64"@ {
        Some(SqlType::BigInt)
    } else if ty == "f32"@ {
        Some(SqlType::Float)
    } else if ty == "f64"@ {
        Some(SqlType::Double)
    } else if ty == "char"@ {
        Some(SqlType::Char)
    } else if ty == "str"@ || ty == "String"@ {
        Some(SqlType::VarChar(65535))
    } else {
        None
    }
}

/// Why a field has no column schema, if it has one.
pub open spec fn field_error(f: FieldShape) -> Option<ValidationError> {
    if sql_type_of(f.ty@) is None {
        Some(ValidationError::UnsupportedType(f.ty))
    } else if f.renamed_from matches Some(n) && n@.len() == 0 {
        Some(ValidationError::MalformedRename)
    } else {
        None
    }
}

/// `d` is the column schema of the field `f`.
pub open spec fn field_ddl_of(f: FieldShape, d: FieldDDL) -> bool {
    &&& d.name@ == f.name@
    &&& d.opt == f.optional
    &&& sql_type_of(f.ty@) matches Some(t) && d.ty@ == type_text(t)
    &&& match (f.renamed_from, d.op) {
        (None, DDLOp::Keep) => true,
        (Some(a), DDLOp::Rename(b)) => a@ == b@,
        _ => false,
    }
}

/// The first error among `fields`, in order.
pub open spec fn first_field_error(fields: Seq<FieldShape>) -> Option<ValidationError>
    decreases fields.len(),
{
    if fields.len() == 0 {
        None
    } else {
        match first_field_error(fields.drop_last()) {
            Some(e) => Some(e),
            None => field_error(fields.last()),
        }
    }
}

/// The one table-level declaration is a rename from an empty name.
pub open spec fn malformed_table_rename(attrs: Seq<TableAttr>) -> bool {
    attrs.len() == 1 && (attrs[0] matches TableAttr::RenamedFrom(n) && n@.len() == 0)
}

/// Why a record has no table schema, if it has one: table-level
/// declarations are checked before the fields.
pub open spec fn table_error(r: RecordShape) -> Option<ValidationError> {
    if r.attrs@.len() > 1 {
        Some(ValidationError::ConflictingAttributes)
    } else if malformed_table_rename(r.attrs@) {
        Some(ValidationError::MalformedRename)
    } else {
        first_field_error(r.fields@)
    }
}

/// `op` is the table operation that the declarations `attrs` select.
pub open spec fn table_op_of(attrs: Seq<TableAttr>, op: TableDDLOp) -> bool {
    if attrs.len() == 0 {
        op is Keep
    } else {
        match (attrs[0], op) {
            (TableAttr::RenamedFrom(a), TableDDLOp::Rename(b)) => a@ == b@,
            (TableAttr::Dropped, TableDDLOp::Drop) => true,
            (TableAttr::DroppedWithData, TableDDLOp::DropAll) => true,
            (TableAttr::Undropped, TableDDLOp::Undrop) => true,
            _ => false,
        }
    }
}

/// The table name of a record type name: its snake case.
pub uninterp spec fn snake_of(s: Seq<char>) -> Seq<char>;

/// `t` is the table schema of the record `r`.
pub open spec fn table_ddl_of(r: RecordShape, t: TableDDL) -> bool {
    &&& t.name@ == snake_of(r.name@)
    &&& t.cols@.len() == r.fields@.len()
    &&& forall|i: int| 0 <= i < t.cols@.len() ==> field_ddl_of(r.fields@[i], #[trigger] t.cols@[i])
    &&& table_op_of(r.attrs@, t.op)
}

/// Relies on convert_case's `Casing::to_case` with `Case::Snake`, whose
/// result depends on the characters of `s` alone.
#[verifier::external_body]
fn snake_case(s: &String) -> (r: String)
    ensures
        r@ == snake_of(s@),
{
    s.to_case(convert_case::Case::Snake)
}

fn same_text(s: &String, lit: &str) -> (r: bool)
    ensures
        r == (s@ == lit@),
{
    *s == String::from_str(lit)
}

/// The column type of a declared value type such as `i64` or `String`.
pub fn sql_type_for(ty: &String) -> (r: Result<SqlType, ValidationError>)
    ensures
        match sql_type_of(ty@) {
            Some(t) => r == Ok::<SqlType, ValidationError>(t),
            None => r == Err::<SqlType, ValidationError>(ValidationError::UnsupportedType(*ty)),
        },
{
    if same_text(ty, "bool") {
        Ok(SqlType::Boolean)
    } else if same_text(ty, "i8") {
        Ok(SqlType::TinyInt)
    } else if same_text(ty, "i16") {
        Ok(SqlType::SmallInt)
    } else if same_text(ty, "i32") {
        Ok(SqlType::Int)
    } else if same_text(ty, "i64") {
        Ok(SqlType::BigInt)
    } else if same_text(ty, "f32") {
        Ok(SqlType::Float)
    } else if same_text(ty, "f64") {
        Ok(SqlType::Double)
    } else if same_text(ty, "char") {
        Ok(SqlType::Char)
    } else if same_text(ty, "str") || same_text(ty, "String") {
        Ok(SqlType::VarChar(65535))
    } else {
        Err(ValidationError::UnsupportedType(ty.clone()))
    }
}

/// The column schema of one declared field.
pub fn field_to_ddl(f: &FieldShape) -> (r: Result<FieldDDL, ValidationError>)
    ensures
        match field_error(*f) {
            Some(e) => r == Err::<FieldDDL, ValidationError>(e),
            None => r matches Ok(d) && field_ddl_of(*f, d),
        },
{
    let t = match sql_type_for(&f.ty) {
        Ok(t) => t,
        Err(e) => return Err(e),
    };
    let op = match &f.renamed_from {
        None => DDLOp::Keep,
        Some(n) => {
            if n.as_str().unicode_len() == 0 {
                return Err(ValidationError::MalformedRename);
            }
            DDLOp::Rename(n.clone())
        },
    };
    Ok(FieldDDL { name: f.name.clone(), opt: f.optional, ty: t.name(), op })
}

fn table_op(attrs: &Vec<TableAttr>) -> (r: Result<TableDDLOp, ValidationError>)
    requires
        attrs@.len() <= 1,
    ensures
        malformed_table_rename(attrs@) ==> r == Err::<TableDDLOp, ValidationError>(ValidationError::MalformedRename),
        !malformed_table_rename(attrs@) ==> (r matches Ok(op) && table_op_of(attrs@, op)),
{
    if attrs.len() == 0 {
        return Ok(TableDDLOp::Keep);
    }
    match &attrs[0] {
        TableAttr::RenamedFrom(n) => {
            if n.as_str().unicode_len() == 0 {
                Err(ValidationError::MalformedRename)
            } else {
                Ok(TableDDLOp::Rename(n.clone()))
            }
        },
        TableAttr::Dropped => Ok(TableDDLOp::Drop),
        TableAttr::DroppedWithData => Ok(TableDDLOp::DropAll),
        TableAttr::Undropped => Ok(TableDDLOp::Undrop),
    }
}

/// The table schema of a record: its snake-case name, one column per field
/// in order, and the operation its declarations select.
pub fn table(r: &RecordShape) -> (res: Result<TableDDL, ValidationError>)
    ensures
        match table_error(*r) {
            Some(e) => res == Err::<TableDDL, ValidationError>(e),
            None => res matches Ok(t) && table_ddl_of(*r, t),
        },
{
    if r.attrs.len() > 1 {
        return Err(ValidationError::ConflictingAttributes);
    }
    let op = match table_op(&r.attrs) {
        Ok(op) => op,
        Err(e) => return Err(e),
    };
    let mut cols: Vec<FieldDDL> = Vec::new();
    let n = r.fields.len();
    let mut i: usize = 0;
    while i < n
        invariant
            n == r.fields@.len(),
            i <= n,
            cols@.len() == i,
            r.attrs@.len() <= 1,
            !malformed_table_rename(r.attrs@),
            table_op_of(r.attrs@, op),
            first_field_error(r.fields@.subrange(0, i as int)) is None,
            forall|k: int| 0 <= k < i ==> field_ddl_of(r.fields@[k], #[trigger] cols@[k]),
        decreases n - i,
    {
        proof {
            let pre = r.fields@.subrange(0, i as int + 1);
            assert(pre.drop_last() =~= r.fields@.subrange(0, i as int));
            assert(pre.last() == r.fields@[i as int]);
        }
        match field_to_ddl(&r.fields[i]) {
            Ok(d) => cols.push(d),
            Err(e) => {
                proof {
                    let pre = r.fields@.subrange(0, i as int + 1);
                    assert(field_error(r.fields@[i as int]) == Some(e));
                    assert(first_field_error(pre) == Some(e));
                    lemma_first_error_extends(r.fields@, i as int + 1, n as int);
                }
                return Err(e);
            },
        }
        i = i + 1;
    }
    assert(r.fields@.subrange(0, n as int) =~= r.fields@);
    Ok(TableDDL { name: snake_case(&r.name), cols, op })
}

proof fn lemma_first_error_extends(fields: Seq<FieldShape>, i: int, n: int)
    requires
        0 < i <= n == fields.len(),
        first_field_error(fields.subrange(0, i)) is Some,
    ensures
        first_field_error(fields) == first_field_error(fields.subrange(0, i)),
    decreases n - i,
{
    if i < n {
        let pre = fields.subrange(0, i + 1);
        assert(pre.drop_last() =~= fields.subrange(0, i));
        lemma_first_error_extends(fields, i + 1, n);
    } else {
        assert(fields.subrange(0, n) =~= fields);
    }
}

} // verus!
