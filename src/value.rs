use vstd::prelude::*;

verus! {

/// The column types a table can declare.
#[derive(Clone, Copy, Debug, PartialEq, Eq, Structural)]
pub enum SqlType {
    Boolean,
    TinyInt,
    SmallInt,
    Int,
    BigInt,
    Float,
    Double,
    /// Text of at most the given number of characters.
    VarChar(u32),
    /// Text of exactly one character.
    Char,
}

/// The character of the decimal digit `d`.
pub open spec fn digit_char(d: nat) -> char {
    if d == 0 {
        '0'
    } else if d == 1 {
        '1'
    } else if d == 2 {
        '2'
    } else if d == 3 {
        '3'
    } else if d == 4 {
        '4'
    } else if d == 5 {
        '5'
    } else if d == 6 {
        '6'
    } else if d == 7 {
        '7'
    } else if d == 8 {
        '8'
    } else {
        '9'
    }
}

/// The decimal digits of `n`, most significant first, without leading zeros.
pub open spec fn decimal(n: nat) -> Seq<char>
    decreases n,
{
    if n < 10 {
        seq![digit_char(n)]
    } else {
        decimal(n / 10).push(digit_char(n % 10))
    }
}

/// The SQL spelling of a column type.
pub open spec fn type_text(t: SqlType) -> Seq<char> {
    match t {
        SqlType::Boolean => "BOOLEAN"@,
        SqlType::TinyInt => "TINYINT"@,
        SqlType::SmallInt => "SMALLINT"@,
        SqlType::Int => "INT"@,
        SqlType::BigInt => "BIGINT"@,
        SqlType::Float => "FLOAT"@,
        SqlType::Double => "DOUBLE"@,
        SqlType::VarChar(n) => "VARCHAR("@ + decimal(n as nat) + ")"@,
        SqlType::Char => "CHAR(1)"@,
    }
}

fn digit_str(d: u32) -> (r: &'static str)
    requires
        d < 10,
    ensures
        r@ == seq![digit_char(d as nat)],
{
    proof {
        reveal_strlit("0");
        reveal_strlit("1");
        reveal_strlit("2");
        reveal_strlit("3");
        reveal_strlit("4");
        reveal_strlit("5");
        reveal_strlit("6");
        reveal_strlit("7");
        reveal_strlit("8");
        reveal_strlit("9");
    }
    let r = if d == 0 {
        "0"
    } else if d == 1 {
        "1"
    } else if d == 2 {
        "2"
    } else if d == 3 {
        "3"
    } else if d == 4 {
        "4"
    } else if d == 5 {
        "5"
    } else if d == 6 {
        "6"
    } else if d == 7 {
        "7"
    } else if d == 8 {
        "8"
    } else {
        "9"
    };
    assert(r@ =~= seq![digit_char(d as nat)]);
    r
}

fn push_decimal(s: &mut String, n: u32)
    ensures
        final(s)@ == old(s)@ + decimal(n as nat),
    decreases n,
{
    if n >= 10 {
        push_decimal(s, n / 10);
    }
    s.append(digit_str(n % 10));
    assert(old(s)@ + decimal(n as nat) =~= final(s)@);
}

impl SqlType {
    /// The SQL spelling of this type, such as `BIGINT` or `VARCHAR(65535)`.
    pub fn name(&self) -> (r: String)
        ensures
            r@ == type_text(*self),
    {
        match self {
            SqlType::Boolean => String::from_str("BOOLEAN"),
            SqlType::TinyInt => String::from_str("TINYINT"),
            SqlType::SmallInt => String::from_str("SMALLINT"),
            SqlType::Int => String::from_str("INT"),
            SqlType::BigInt => String::from_str("BIGINT"),
            SqlType::Float => String::from_str("FLOAT"),
            SqlType::Double => String::from_str("DOUBLE"),
            SqlType::VarChar(n) => {
                let mut s = String::from_str("VARCHAR(");
                push_decimal(&mut s, *n);
                s.append(")");
                s
            },
            SqlType::Char => String::from_str("CHAR(1)"),
        }
    }
}

/// A value carried by a filter, an assignment or a row.
/// Floating-point values travel as their IEEE-754 bit pattern.
#[derive(Debug)]
pub enum Value {
    Null,
    Bool(bool),
    Int(i64),
    Real(u64),
    Text(String),
}

/// Whether `v` may be stored in a column of type `ty`, nullable when `optional`.
pub open spec fn fits(ty: SqlType, optional: bool, v: Value) -> bool {
    match v {
        Value::Null => optional,
        Value::Bool(_) => ty == SqlType::Boolean,
        Value::Int(i) => match ty {
            SqlType::TinyInt => -128 <= i <= 127,
            SqlType::SmallInt => -32768 <= i <= 32767,
            SqlType::Int => -2147483648 <= i <= 2147483647,
            SqlType::BigInt => true,
            _ => false,
        },
        Value::Real(_) => ty == SqlType::Float || ty == SqlType::Double,
        Value::Text(s) => match ty {
            SqlType::VarChar(n) => s@.len() <= n,
            SqlType::Char => s@.len() == 1,
            _ => false,
        },
    }
}

impl Value {
    /// A copy of this value.
    pub fn duplicate(&self) -> (r: Value)
        ensures
            r == *self,
    {
        match self {
            Value::Null => Value::Null,
            Value::Bool(b) => Value::Bool(*b),
            Value::Int(i) => Value::Int(*i),
            Value::Real(x) => Value::Real(*x),
            Value::Text(s) => Value::Text(s.clone()),
        }
    }

    /// Whether this value may be stored in a column of type `ty`.
    pub fn fits(&self, ty: SqlType, optional: bool) -> (r: bool)
        ensures
            r == fits(ty, optional, *self),
    {
        match self {
            Value::Null => optional,
            Value::Bool(_) => ty == SqlType::Boolean,
            Value::Int(i) => match ty {
                SqlType::TinyInt => -128 <= *i && *i <= 127,
                SqlType::SmallInt => -32768 <= *i && *i <= 32767,
                SqlType::Int => -2147483648 <= *i && *i <= 2147483647,
                SqlType::BigInt => true,
                _ => false,
            },
            Value::Real(_) => ty == SqlType::Float || ty == SqlType::Double,
            Value::Text(s) => match ty {
                SqlType::VarChar(n) => s.as_str().unicode_len() <= n as usize,
                SqlType::Char => s.as_str().unicode_len() == 1,
                _ => false,
            },
        }
    }
}

} // verus!
