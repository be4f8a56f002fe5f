//! The values that the metadata store holds and binds, as plain data.
use vstd::prelude::*;

verus! {

/// What a column of a row holds.
#[derive(Clone, Debug, PartialEq, Eq)]
pub enum SqlValue {
    Null,
    Integer(i64),
    /// A floating-point number, by its bits. No column of the store holds
    /// one.
    Real(u64),
    Text(String),
    Blob(Vec<u8>),
}

/// What a statement binds to a parameter.
#[derive(Clone, Debug, PartialEq, Eq)]
pub enum SqlParam {
    Null,
    Integer(i64),
    Text(String),
}

/// A failure of the metadata store.
#[derive(Clone, Debug, PartialEq, Eq)]
pub enum StoreError {
    /// The database refused, in its own words.
    Database(String),
    /// A row does not hold what its record is read from.
    InvalidRow,
}

pub open spec fn holds_text(v: SqlValue) -> bool {
    v is Text
}

pub open spec fn holds_optional_text(v: SqlValue) -> bool {
    v is Text || v is Null
}

pub open spec fn holds_integer(v: SqlValue) -> bool {
    v is Integer
}

pub open spec fn holds_optional_integer(v: SqlValue) -> bool {
    v is Integer || v is Null
}

/// Whether `v` holds an integer of 32 bits.
pub open spec fn holds_small_integer(v: SqlValue) -> bool {
    v is Integer && i32::MIN <= v->Integer_0 <= i32::MAX
}

/// The text that `v` holds.
pub open spec fn text_of(v: SqlValue) -> Seq<char> {
    v->Text_0@
}

/// The integer that `v` holds.
pub open spec fn integer_of(v: SqlValue) -> int {
    v->Integer_0 as int
}

/// Whether `text` is what `v` holds, `None` standing for no value.
pub open spec fn optional_text_matches(text: Option<String>, v: SqlValue) -> bool {
    match text {
        Some(t) => v is Text && t@ == text_of(v),
        None => v is Null,
    }
}

/// Whether `n` is what `v` holds, `None` standing for no value.
pub open spec fn optional_integer_matches(n: Option<i64>, v: SqlValue) -> bool {
    match n {
        Some(n) => v is Integer && n == integer_of(v),
        None => v is Null,
    }
}

/// Whether `param` binds `text`, `None` as no value.
pub open spec fn binds_optional_text(param: SqlParam, text: Option<String>) -> bool {
    match text {
        Some(t) => param is Text && param->Text_0@ == t@,
        None => param is Null,
    }
}

/// Whether `param` binds `n`, `None` as no value.
pub open spec fn binds_optional_integer(param: SqlParam, n: Option<i64>) -> bool {
    match n {
        Some(n) => param == SqlParam::Integer(n),
        None => param is Null,
    }
}

/// The text in column `at` of `row`.
pub fn text_at(row: &Vec<SqlValue>, at: usize) -> (r: Option<String>)
    requires
        at < row@.len(),
    ensures
        match r {
            Some(t) => holds_text(row@[at as int]) && t@ == text_of(row@[at as int]),
            None => !holds_text(row@[at as int]),
        },
{
    match &row[at] {
        SqlValue::Text(t) => Some(t.clone()),
        _ => None,
    }
}

/// The text in column `at` of `row`, or `None` where it holds no value.
pub fn optional_text_at(row: &Vec<SqlValue>, at: usize) -> (r: Option<Option<String>>)
    requires
        at < row@.len(),
    ensures
        match r {
            Some(t) => holds_optional_text(row@[at as int]) && optional_text_matches(
                t,
                row@[at as int],
            ),
            None => !holds_optional_text(row@[at as int]),
        },
{
    match &row[at] {
        SqlValue::Text(t) => Some(Some(t.clone())),
        SqlValue::Null => Some(None),
        _ => None,
    }
}

/// The integer in column `at` of `row`.
pub fn integer_at(row: &Vec<SqlValue>, at: usize) -> (r: Option<i64>)
    requires
        at < row@.len(),
    ensures
        match r {
            Some(n) => holds_integer(row@[at as int]) && n == integer_of(row@[at as int]),
            None => !holds_integer(row@[at as int]),
        },
{
    match &row[at] {
        SqlValue::Integer(n) => Some(*n),
        _ => None,
    }
}

/// The integer in column `at` of `row`, or `None` where it holds no value.
pub fn optional_integer_at(row: &Vec<SqlValue>, at: usize) -> (r: Option<Option<i64>>)
    requires
        at < row@.len(),
    ensures
        match r {
            Some(n) => holds_optional_integer(row@[at as int]) && optional_integer_matches(
                n,
                row@[at as int],
            ),
            None => !holds_optional_integer(row@[at as int]),
        },
{
    match &row[at] {
        SqlValue::Integer(n) => Some(Some(*n)),
        SqlValue::Null => Some(None),
        _ => None,
    }
}

/// The integer of 32 bits in column `at` of `row`.
pub fn small_integer_at(row: &Vec<SqlValue>, at: usize) -> (r: Option<i32>)
    requires
        at < row@.len(),
    ensures
        match r {
            Some(n) => holds_small_integer(row@[at as int]) && n == integer_of(row@[at as int]),
            None => !holds_small_integer(row@[at as int]),
        },
{
    match &row[at] {
        SqlValue::Integer(n) => {
            if -0x8000_0000 <= *n && *n <= 0x7fff_ffff {
                Some(*n as i32)
            } else {
                None
            }
        },
        _ => None,
    }
}

/// The parameter that binds `text`.
pub fn text_param(text: &String) -> (param: SqlParam)
    ensures
        param is Text && param->Text_0@ == text@,
{
    SqlParam::Text(text.clone())
}

/// The parameter that binds the text `text`.
pub fn str_param(text: &str) -> (param: SqlParam)
    ensures
        param is Text && param->Text_0@ == text@,
{
    SqlParam::Text(String::from_str(text))
}

/// The parameter that binds `text`, or no value.
pub fn optional_text_param(text: &Option<String>) -> (param: SqlParam)
    ensures
        binds_optional_text(param, *text),
{
    match text {
        Some(t) => SqlParam::Text(t.clone()),
        None => SqlParam::Null,
    }
}

/// The parameter that binds `n`, or no value.
pub fn optional_integer_param(n: Option<i64>) -> (param: SqlParam)
    ensures
        binds_optional_integer(param, n),
{
    match n {
        Some(n) => SqlParam::Integer(n),
        None => SqlParam::Null,
    }
}

} // verus!
