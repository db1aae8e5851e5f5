use riwaq_sql::catalog::Schema;
use riwaq_sql::error::ValidationError;
use riwaq_sql::schema::{
    field_to_ddl, sql_type_for, table, DDLOp, FieldShape, RecordShape, TableAttr, TableDDLOp,
};
use riwaq_sql::value::SqlType;

fn field(name: &str, ty: &str, optional: bool) -> FieldShape {
    FieldShape { name: name.to_string(), ty: ty.to_string(), optional, renamed_from: None }
}

fn users(attrs: Vec<TableAttr>) -> RecordShape {
    RecordShape {
        name: "Users".to_string(),
        fields: vec![field("id", "i64", false), field("name", "String", false), field("age", "i32", true)],
        attrs,
    }
}

#[test]
fn users_record_gives_users_ddl() {
    let ddl = table(&users(vec![])).unwrap();
    assert_eq!(ddl.name, "users");
    assert_eq!(ddl.cols.len(), 3);
    assert_eq!(ddl.cols[0].name, "id");
    assert!(!ddl.cols[0].opt);
    assert_eq!(ddl.cols[0].ty, "BIGINT");
    assert_eq!(ddl.cols[1].name, "name");
    assert!(!ddl.cols[1].opt);
    assert_eq!(ddl.cols[1].ty, "VARCHAR(65535)");
    assert_eq!(ddl.cols[2].name, "age");
    assert!(ddl.cols[2].opt);
    assert_eq!(ddl.cols[2].ty, "INT");
    assert!(matches!(ddl.op, TableDDLOp::Keep));
    assert!(ddl.cols.iter().all(|c| matches!(c.op, DDLOp::Keep)));
}

#[test]
fn record_name_goes_to_snake_case() {
    let mut r = users(vec![]);
    r.name = "UserAccount".to_string();
    assert_eq!(table(&r).unwrap().name, "user_account");
}

#[test]
fn type_mapping_table() {
    let cases = [
        ("bool", SqlType::Boolean, "BOOLEAN"),
        ("i8", SqlType::TinyInt, "TINYINT"),
        ("i16", SqlType::SmallInt, "SMALLINT"),
        ("i32", SqlType::Int, "INT"),
        ("i64", SqlType::BigInt, "BIGINT"),
        ("f32", SqlType::Float, "FLOAT"),
        ("f64", SqlType::Double, "DOUBLE"),
        ("char", SqlType::Char, "CHAR(1)"),
        ("str", SqlType::VarChar(65535), "VARCHAR(65535)"),
        ("String", SqlType::VarChar(65535), "VARCHAR(65535)"),
    ];
    for (ty, sql, text) in cases {
        let t = sql_type_for(&ty.to_string()).unwrap();
        assert_eq!(t, sql);
        assert_eq!(t.name(), text);
    }
}

#[test]
fn varchar_width_is_spelled_in_decimal() {
    assert_eq!(SqlType::VarChar(0).name(), "VARCHAR(0)");
    assert_eq!(SqlType::VarChar(7).name(), "VARCHAR(7)");
    assert_eq!(SqlType::VarChar(1024).name(), "VARCHAR(1024)");
    assert_eq!(SqlType::VarChar(u32::MAX).name(), "VARCHAR(4294967295)");
}

#[test]
fn unsupported_type_is_refused() {
    let r = field_to_ddl(&field("when", "DateTime", false));
    assert!(matches!(r, Err(ValidationError::UnsupportedType(t)) if t == "DateTime"));
    let mut rec = users(vec![]);
    rec.fields.push(field("x", "u64", false));
    assert!(matches!(table(&rec), Err(ValidationError::UnsupportedType(t)) if t == "u64"));
}

#[test]
fn field_rename_is_recorded() {
    let mut f = field("full_name", "String", true);
    f.renamed_from = Some("name".to_string());
    let d = field_to_ddl(&f).unwrap();
    assert!(matches!(d.op, DDLOp::Rename(ref n) if n == "name"));
    assert!(d.opt);
    f.renamed_from = Some(String::new());
    assert!(matches!(field_to_ddl(&f), Err(ValidationError::MalformedRename)));
}

#[test]
fn table_operations_follow_the_declaration() {
    let ddl = table(&users(vec![TableAttr::RenamedFrom("people".to_string())])).unwrap();
    assert!(matches!(ddl.op, TableDDLOp::Rename(ref n) if n == "people"));
    assert!(matches!(table(&users(vec![TableAttr::Dropped])).unwrap().op, TableDDLOp::Drop));
    assert!(matches!(table(&users(vec![TableAttr::DroppedWithData])).unwrap().op, TableDDLOp::DropAll));
    assert!(matches!(table(&users(vec![TableAttr::Undropped])).unwrap().op, TableDDLOp::Undrop));
    assert!(matches!(
        table(&users(vec![TableAttr::RenamedFrom(String::new())])),
        Err(ValidationError::MalformedRename)
    ));
}

#[test]
fn conflicting_table_attributes_are_refused() {
    let r = table(&users(vec![TableAttr::Dropped, TableAttr::Undropped]));
    assert!(matches!(r, Err(ValidationError::ConflictingAttributes)));
}

#[test]
fn dropped_table_keeps_only_its_schema() {
    let mut s = Schema::new();
    s.register(&users(vec![TableAttr::Dropped])).unwrap();
    let name = "users".to_string();
    assert!(s.ddl(&name).is_some());
    assert!(matches!(s.table(&name), Err(ValidationError::DroppedTable(n)) if n == "users"));
}

#[test]
fn registry_refuses_unknown_and_duplicate_tables() {
    let mut s = Schema::new();
    s.register(&users(vec![])).unwrap();
    assert!(matches!(s.register(&users(vec![])), Err(ValidationError::DuplicateTable(n)) if n == "users"));
    assert_eq!(s.tables.len(), 1);
    assert!(s.table(&"users".to_string()).is_ok());
    assert!(matches!(s.table(&"orders".to_string()), Err(ValidationError::UnknownTable(n)) if n == "orders"));
}

#[test]
fn valid_record_with_new_name_is_registered() {
    let mut s = Schema::new();
    assert!(s.register(&users(vec![])).is_ok());
    let mut other = users(vec![]);
    other.name = "Orders".to_string();
    assert!(s.register(&other).is_ok());
    assert_eq!(s.tables.len(), 2);
    assert_eq!(s.tables[1].ddl.name, "orders");
    assert_eq!(s.tables[1].columns.cols.len(), 3);
}
