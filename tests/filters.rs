use riwaq_sql::catalog::Schema;
use riwaq_sql::error::ValidationError;
use riwaq_sql::filter::{FilterItem, FilterStmt};
use riwaq_sql::registry::{Column, ColumnRegistry};
use riwaq_sql::schema::{FieldShape, RecordShape};
use riwaq_sql::value::{SqlType, Value};

fn registry() -> ColumnRegistry {
    ColumnRegistry {
        cols: vec![
            Column { name: "id".to_string(), ty: SqlType::BigInt, optional: false },
            Column { name: "name".to_string(), ty: SqlType::VarChar(65535), optional: false },
            Column { name: "age".to_string(), ty: SqlType::Int, optional: true },
            Column { name: "level".to_string(), ty: SqlType::TinyInt, optional: false },
            Column { name: "initial".to_string(), ty: SqlType::Char, optional: false },
            Column { name: "score".to_string(), ty: SqlType::Double, optional: false },
            Column { name: "active".to_string(), ty: SqlType::Boolean, optional: false },
        ],
    }
}

fn leaf(col: &str) -> FilterStmt {
    FilterStmt::Leaf(FilterItem::IsNull { col: col.to_string() })
}

fn leaf_col(f: &FilterStmt) -> &str {
    match f {
        FilterStmt::Leaf(FilterItem::IsNull { col }) => col,
        _ => panic!("not a test leaf"),
    }
}

fn and_cols(f: &FilterStmt) -> Vec<&str> {
    match f {
        FilterStmt::And(v) => v.iter().map(leaf_col).collect(),
        _ => panic!("not an And"),
    }
}

#[test]
fn and_is_associative_with_and_all() {
    let left = leaf("a").and(leaf("b")).and(leaf("c"));
    let all = leaf("a").and_all(vec![leaf("b"), leaf("c")]);
    let right = leaf("a").and(leaf("b").and(leaf("c")));
    assert_eq!(and_cols(&left), vec!["a", "b", "c"]);
    assert_eq!(and_cols(&all), vec!["a", "b", "c"]);
    assert_eq!(and_cols(&right), vec!["a", "b", "c"]);
}

#[test]
fn and_all_of_nothing_is_the_filter_itself() {
    let f = leaf("a").and_all(vec![]);
    assert_eq!(leaf_col(&f), "a");
    let g = leaf("a").or_any(vec![]);
    assert_eq!(leaf_col(&g), "a");
}

#[test]
fn or_any_flattens_like_or() {
    let f = leaf("a").or(leaf("b")).or_any(vec![leaf("c"), leaf("d").or(leaf("e"))]);
    match f {
        FilterStmt::Or(v) => assert_eq!(v.iter().map(leaf_col).collect::<Vec<_>>(), vec!["a", "b", "c", "d", "e"]),
        _ => panic!("expected Or"),
    }
}

#[test]
fn and_then_or_does_not_flatten_across_kinds() {
    let f = leaf("a").and(leaf("b")).or(leaf("c"));
    match f {
        FilterStmt::Or(v) => {
            assert_eq!(v.len(), 2);
            assert_eq!(and_cols(&v[0]), vec!["a", "b"]);
            assert_eq!(leaf_col(&v[1]), "c");
        },
        _ => panic!("expected Or"),
    }
}

#[test]
fn text_against_integer_column_is_a_type_mismatch() {
    let r = registry().eq("age".to_string(), Value::Text("not-a-number".to_string()));
    assert!(matches!(r, Err(ValidationError::TypeMismatch(c)) if c == "age"));
}

#[test]
fn unknown_column_is_refused() {
    let r = registry().gt("height".to_string(), Value::Int(3));
    assert!(matches!(r, Err(ValidationError::UnknownColumn(c)) if c == "height"));
    assert!(matches!(registry().is_null("height".to_string()), Err(ValidationError::UnknownColumn(_))));
}

#[test]
fn leaf_constructors_build_their_leaf() {
    let reg = registry();
    match reg.gte("age".to_string(), Value::Int(18)).unwrap() {
        FilterStmt::Leaf(FilterItem::Gte { col, value: Value::Int(18) }) => assert_eq!(col, "age"),
        other => panic!("unexpected {:?}", other),
    }
    match reg.like("name".to_string(), "A%".to_string()).unwrap() {
        FilterStmt::Leaf(FilterItem::Like { col, expr }) => {
            assert_eq!(col, "name");
            assert_eq!(expr, "A%");
        },
        other => panic!("unexpected {:?}", other),
    }
    assert!(matches!(reg.ne("active".to_string(), Value::Bool(true)), Ok(FilterStmt::Leaf(FilterItem::Ne { .. }))));
    assert!(matches!(reg.lt("score".to_string(), Value::Real(1.5f64.to_bits())), Ok(FilterStmt::Leaf(FilterItem::Lt { .. }))));
    assert!(matches!(reg.lte("id".to_string(), Value::Int(i64::MAX)), Ok(FilterStmt::Leaf(FilterItem::Lte { .. }))));
    assert!(matches!(reg.is_not_null("age".to_string()), Ok(FilterStmt::Leaf(FilterItem::IsNotNull { .. }))));
}

#[test]
fn integer_ranges_follow_the_column_width() {
    let reg = registry();
    assert!(reg.eq("level".to_string(), Value::Int(127)).is_ok());
    assert!(reg.eq("level".to_string(), Value::Int(-128)).is_ok());
    assert!(matches!(reg.eq("level".to_string(), Value::Int(128)), Err(ValidationError::TypeMismatch(_))));
    assert!(reg.eq("age".to_string(), Value::Int(2147483647)).is_ok());
    assert!(matches!(reg.eq("age".to_string(), Value::Int(2147483648)), Err(ValidationError::TypeMismatch(_))));
}

#[test]
fn null_only_fits_optional_columns() {
    let reg = registry();
    assert!(reg.eq("age".to_string(), Value::Null).is_ok());
    assert!(matches!(reg.eq("id".to_string(), Value::Null), Err(ValidationError::TypeMismatch(_))));
}

#[test]
fn char_column_takes_one_character() {
    let reg = registry();
    assert!(reg.eq("initial".to_string(), Value::Text("\u{e9}".to_string())).is_ok());
    assert!(matches!(reg.eq("initial".to_string(), Value::Text("ab".to_string())), Err(ValidationError::TypeMismatch(_))));
}

#[test]
fn list_and_range_leaves_check_every_value() {
    let reg = registry();
    assert!(reg.in_("id".to_string(), vec![Value::Int(1), Value::Int(2)]).is_ok());
    assert!(reg.in_("id".to_string(), vec![]).is_ok());
    assert!(matches!(
        reg.nin("id".to_string(), vec![Value::Int(1), Value::Text("x".to_string())]),
        Err(ValidationError::TypeMismatch(_))
    ));
    assert!(reg.between("age".to_string(), Value::Int(1), Value::Int(9)).is_ok());
    assert!(matches!(
        reg.between("age".to_string(), Value::Int(1), Value::Bool(false)),
        Err(ValidationError::TypeMismatch(_))
    ));
}

#[test]
fn schema_registry_gives_column_registry() {
    let mut s = Schema::new();
    s.register(&RecordShape {
        name: "Users".to_string(),
        fields: vec![FieldShape { name: "age".to_string(), ty: "i32".to_string(), optional: true, renamed_from: None }],
        attrs: vec![],
    })
    .unwrap();
    let t = s.table(&"users".to_string()).unwrap();
    assert_eq!(t.columns.cols[0].ty, SqlType::Int);
    assert!(t.columns.cols[0].optional);
}
