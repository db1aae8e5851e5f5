use riwaq_sql::catalog::{Schema, TableEntry};
use riwaq_sql::codec::{exec_outcome, query_outcome};
use riwaq_sql::error::{Error, ValidationError};
use riwaq_sql::filter::{FilterItem, FilterStmt};
use riwaq_sql::schema::{FieldShape, RecordShape};
use riwaq_sql::statement::{Delete, Insert, Select, Statement, Update};
use riwaq_sql::value::Value;

fn users() -> Schema {
    let f = |name: &str, ty: &str, optional: bool| FieldShape {
        name: name.to_string(),
        ty: ty.to_string(),
        optional,
        renamed_from: None,
    };
    let mut s = Schema::new();
    s.register(&RecordShape {
        name: "Users".to_string(),
        fields: vec![f("id", "i64", false), f("name", "String", false), f("age", "i32", true)],
        attrs: vec![],
    })
    .unwrap();
    s
}

fn entry(s: &Schema) -> &TableEntry {
    s.table(&"users".to_string()).unwrap()
}

#[test]
fn find_with_where_and_like_builds_a_conjunction() {
    let s = users();
    let t = entry(&s);
    let age = t.columns.gte("age".to_string(), Value::Int(18)).unwrap();
    let name = t.columns.like("name".to_string(), "A%".to_string()).unwrap();
    let q = Select::find(t).where_(age).and(name);
    assert_eq!(q.cols, vec!["id", "name", "age"]);
    assert_eq!(q.table.ddl.name, "users");
    match q.filter {
        Some(FilterStmt::And(v)) => {
            assert_eq!(v.len(), 2);
            assert!(matches!(&v[0], FilterStmt::Leaf(FilterItem::Gte { col, value: Value::Int(18) }) if col == "age"));
            assert!(matches!(&v[1], FilterStmt::Leaf(FilterItem::Like { col, expr }) if col == "name" && expr == "A%"));
        },
        other => panic!("unexpected {:?}", other),
    }
}

#[test]
fn select_starts_with_all_columns_and_no_filter() {
    let s = users();
    let q = Select::find(entry(&s));
    assert_eq!(q.cols, vec!["id", "name", "age"]);
    assert!(q.filter.is_none());
    let q = q.and_all(vec![]);
    assert!(q.filter.is_none());
}

#[test]
fn update_by_id_reports_affected_rows() {
    let s = users();
    let t = entry(&s);
    let id = t.columns.eq("id".to_string(), Value::Int(5)).unwrap();
    let u = Update::new(t, "name".to_string(), Value::Text("Bob".to_string())).unwrap().where_(id);
    assert_eq!(u.values().len(), 1);
    assert_eq!(u.values()[0].0, "name");
    assert!(matches!(&u.values()[0].1, Value::Text(b) if b == "Bob"));
    assert!(matches!(u.filter(), Some(FilterStmt::Leaf(FilterItem::Eq { .. }))));
    assert_eq!(exec_outcome(Ok(1)).unwrap(), 1);
    assert_eq!(exec_outcome(Ok(0)).unwrap(), 0);
}

#[test]
fn update_last_assignment_wins() {
    let s = users();
    let t = entry(&s);
    let u = Update::new(t, "name".to_string(), Value::Text("Bob".to_string()))
        .unwrap()
        .set("age".to_string(), Value::Int(30))
        .unwrap()
        .set("name".to_string(), Value::Text("Ann".to_string()))
        .unwrap();
    assert_eq!(u.values().len(), 2);
    assert_eq!(u.values()[0].0, "name");
    assert!(matches!(&u.values()[0].1, Value::Text(b) if b == "Ann"));
    assert_eq!(u.values()[1].0, "age");
    assert!(matches!(u.values()[1].1, Value::Int(30)));
}

#[test]
fn update_assignments_are_type_checked() {
    let s = users();
    let t = entry(&s);
    assert!(matches!(
        Update::new(t, "age".to_string(), Value::Text("x".to_string())),
        Err(ValidationError::TypeMismatch(c)) if c == "age"
    ));
    let u = Update::new(t, "age".to_string(), Value::Int(1)).unwrap();
    assert!(matches!(u.set("nope".to_string(), Value::Int(1)), Err(ValidationError::UnknownColumn(_))));
}

#[test]
fn delete_all_rows_reports_the_row_count() {
    let s = users();
    let d = Delete::all_rows(entry(&s));
    assert!(d.filter().is_none());
    assert_eq!(exec_outcome(Ok(0)).unwrap(), 0);
    assert_eq!(exec_outcome(Ok(10)).unwrap(), 10);
}

#[test]
fn filtered_delete_always_has_a_filter() {
    let s = users();
    let t = entry(&s);
    let id = t.columns.eq("id".to_string(), Value::Int(5)).unwrap();
    let d = Delete::where_(t, id);
    assert!(d.filter().is_some());
    let d = d.and_all(vec![]).or_any(vec![]);
    assert!(d.filter().is_some());
    let older = t.columns.gt("age".to_string(), Value::Int(90)).unwrap();
    let d = Delete::all_rows(t).or(older);
    assert!(matches!(d.filter(), Some(FilterStmt::Leaf(FilterItem::Gt { .. }))));
}

#[test]
fn insert_needs_a_full_row_of_fitting_values() {
    let s = users();
    let t = entry(&s);
    let ins = Insert::new(t, vec![Value::Int(1), Value::Text("Ann".to_string()), Value::Null]).unwrap();
    assert_eq!(ins.row.len(), 3);
    assert_eq!(ins.row[2].0, "age");
    assert!(matches!(ins.row[2].1, Value::Null));
    assert!(matches!(Insert::new(t, vec![Value::Int(1)]), Err(ValidationError::RowShape)));
    assert!(matches!(
        Insert::new(t, vec![Value::Int(1), Value::Null, Value::Null]),
        Err(ValidationError::TypeMismatch(c)) if c == "name"
    ));
}

#[test]
fn host_failure_is_carried_verbatim() {
    assert!(matches!(exec_outcome(Err("no such table".to_string())), Err(Error::Execution(m)) if m == "no such table"));
}

#[test]
fn reply_rows_are_read_in_column_order() {
    let s = users();
    let q = Select::find(entry(&s));
    let row = vec![
        ("age".to_string(), Value::Int(40)),
        ("id".to_string(), Value::Int(7)),
        ("name".to_string(), Value::Text("Eve".to_string())),
    ];
    let out = q.rows(&vec![row]).unwrap();
    assert_eq!(out.len(), 1);
    assert!(matches!(out[0][0], Value::Int(7)));
    assert!(matches!(&out[0][1], Value::Text(n) if n == "Eve"));
    assert!(matches!(out[0][2], Value::Int(40)));
}

#[test]
fn reply_rows_of_the_wrong_shape_are_refused() {
    let s = users();
    let q = Select::find(entry(&s));
    let short = vec![("id".to_string(), Value::Int(7))];
    assert!(matches!(q.rows(&vec![short]), Err(Error::Deserialization(_))));
    let wrong_type = vec![
        ("id".to_string(), Value::Text("7".to_string())),
        ("name".to_string(), Value::Text("Eve".to_string())),
        ("age".to_string(), Value::Null),
    ];
    assert!(matches!(q.rows(&vec![wrong_type]), Err(Error::Deserialization(_))));
    assert!(q.rows(&vec![]).unwrap().is_empty());
}

#[test]
fn filter_from_another_table_fails_validation() {
    let mut s = users();
    s.register(&RecordShape {
        name: "Orders".to_string(),
        fields: vec![FieldShape { name: "total".to_string(), ty: "i64".to_string(), optional: false, renamed_from: None }],
        attrs: vec![],
    })
    .unwrap();
    let orders = s.table(&"orders".to_string()).unwrap();
    let t = entry(&s);
    let foreign = orders.columns.gt("total".to_string(), Value::Int(3)).unwrap();
    let own = t.columns.eq("id".to_string(), Value::Int(1)).unwrap();
    let bad = Statement::Delete(Delete::where_(t, own).or(foreign));
    assert!(matches!(bad.validate(), Err(ValidationError::UnknownColumn(c)) if c == "total"));
    let own = t.columns.eq("id".to_string(), Value::Int(1)).unwrap();
    let good = Statement::Select(Select::find(t).where_(own));
    assert!(good.validate().is_ok());
    assert!(Statement::Delete(Delete::all_rows(t)).validate().is_ok());
}

#[test]
fn statement_filters_compose_like_filters() {
    let s = users();
    let t = entry(&s);
    let a = t.columns.eq("id".to_string(), Value::Int(1)).unwrap();
    let b = t.columns.eq("id".to_string(), Value::Int(2)).unwrap();
    let c = t.columns.is_null("age".to_string()).unwrap();
    let q = Select::find(t).or_any(vec![a, b]).and(c);
    match q.filter {
        Some(FilterStmt::And(v)) => {
            assert_eq!(v.len(), 2);
            assert!(matches!(&v[0], FilterStmt::Or(w) if w.len() == 2));
            assert!(matches!(&v[1], FilterStmt::Leaf(FilterItem::IsNull { .. })));
        },
        other => panic!("unexpected {:?}", other),
    }
    let a = t.columns.eq("id".to_string(), Value::Int(1)).unwrap();
    let b = t.columns.eq("id".to_string(), Value::Int(2)).unwrap();
    let u = Update::new(t, "age".to_string(), Value::Int(3)).unwrap().and_all(vec![a, b]);
    assert!(matches!(u.filter(), Some(FilterStmt::And(v)) if v.len() == 2));
    let c = t.columns.is_not_null("age".to_string()).unwrap();
    let u = u.or(c);
    assert!(matches!(u.filter(), Some(FilterStmt::Or(v)) if v.len() == 2));
}

#[test]
fn nested_filters_are_checked_leaf_by_leaf() {
    let s = users();
    let t = entry(&s);
    let a = t.columns.eq("id".to_string(), Value::Int(1)).unwrap();
    let bad = FilterStmt::Leaf(FilterItem::Eq { col: "age".to_string(), value: Value::Text("x".to_string()) });
    let f = a.and(FilterStmt::Or(vec![bad]));
    assert!(matches!(t.columns.check_filter(&f), Err(ValidationError::TypeMismatch(c)) if c == "age"));
    let ok = t.columns.between("age".to_string(), Value::Int(1), Value::Int(2)).unwrap();
    assert!(t.columns.check_filter(&ok).is_ok());
    assert!(t.columns.check_filter(&FilterStmt::And(vec![])).is_ok());
}

#[test]
fn hand_built_insert_rows_must_be_full_and_in_order() {
    let s = users();
    let t = entry(&s);
    let partial = Insert { table: t, row: vec![("id".to_string(), Value::Int(1))] };
    assert!(matches!(Statement::Insert(partial).validate(), Err(ValidationError::RowShape)));
    let repeated = Insert {
        table: t,
        row: vec![
            ("id".to_string(), Value::Int(1)),
            ("id".to_string(), Value::Int(2)),
            ("age".to_string(), Value::Null),
        ],
    };
    assert!(matches!(Statement::Insert(repeated).validate(), Err(ValidationError::UnknownColumn(c)) if c == "id"));
    let full = Insert::new(t, vec![Value::Int(1), Value::Text("Ann".to_string()), Value::Int(3)]).unwrap();
    assert!(Statement::Insert(full).validate().is_ok());
}

#[test]
fn query_reply_is_read_or_its_failure_carried() {
    let s = users();
    let q = Select::find(entry(&s));
    assert!(matches!(query_outcome(&q, Err("timeout".to_string())), Err(Error::Execution(m)) if m == "timeout"));
    let row = vec![
        ("id".to_string(), Value::Int(7)),
        ("name".to_string(), Value::Text("Eve".to_string())),
        ("age".to_string(), Value::Null),
    ];
    let out = query_outcome(&q, Ok(vec![row])).unwrap();
    assert!(matches!(out[0][0], Value::Int(7)));
    assert!(matches!(query_outcome(&q, Ok(vec![vec![]])), Err(Error::Deserialization(_))));
}
