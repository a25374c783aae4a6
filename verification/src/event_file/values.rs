//! The JSON scalars of event files and how they resolve against a symbol
//! table.
use vstd::prelude::*;
use crate::c_parser::symbol_table::{SymbolTable, SymView, lookups_safe, lemma_lookups_safe, evaluated, evaluation_panics};
use crate::error::{UxieError, invalid_data_text};
use crate::text::{dec_int, i64_to_string, push_str, trim, trimmed};

verus! {

/// A JSON value as event files use it.
#[derive(Debug, Clone, PartialEq, Eq)]
pub enum JsonValue {
    /// A number: its value when it is an `i64`, and its JSON text.
    Number(Option<i64>, String),
    Bool(bool),
    /// A string: a constant name or an expression.
    Text(String),
    /// Anything else (null, array, object), with its JSON text.
    Other(String),
}

/// The message of the error for a bad field value.
pub open spec fn field_error_text(field: Seq<char>, message: Seq<char>) -> Seq<char> {
    "invalid value for `"@ + field + "`: "@ + message
}

pub open spec fn unknown_expr(field: Seq<char>, e: Seq<char>) -> Seq<char> {
    field_error_text(field, "unknown symbol or expression `"@ + e + "`"@)
}

pub open spec fn out_of_range(field: Seq<char>, raw: i64, ty: Seq<char>) -> Seq<char> {
    field_error_text(field, "value "@ + dec_int(raw as int) + " out of range for "@ + ty)
}

/// A value whose string, if it has one, evaluates without overflow.
pub open spec fn value_safe(syms: SymView, v: JsonValue) -> bool {
    match v {
        JsonValue::Text(s) => !evaluation_panics(syms, trim(s@)),
        _ => true,
    }
}

pub open spec fn opt_safe(syms: SymView, o: Option<JsonValue>) -> bool {
    match o {
        Some(v) => value_safe(syms, v),
        None => true,
    }
}

pub open spec fn text_result<T>(r: Result<T, String>) -> Result<T, Seq<char>> {
    match r {
        Ok(v) => Ok(v),
        Err(m) => Err(m@),
    }
}

/// The error for a bad field value.
pub fn field_error(field: &str, message: &str) -> (m: String)
    ensures
        m@ == field_error_text(field@, message@),
{
    let mut m = String::from_str("invalid value for `");
    push_str(&mut m, field);
    push_str(&mut m, "`: ");
    push_str(&mut m, message);
    m
}

pub fn unknown_expr_error(field: &str, e: &str) -> (m: String)
    ensures
        m@ == unknown_expr(field@, e@),
{
    let mut msg = String::from_str("unknown symbol or expression `");
    push_str(&mut msg, e);
    push_str(&mut msg, "`");
    field_error(field, msg.as_str())
}

pub fn out_of_range_error(field: &str, raw: i64, ty: &str) -> (m: String)
    ensures
        m@ == out_of_range(field@, raw, ty@),
{
    let mut msg = String::from_str("value ");
    let n = i64_to_string(raw);
    push_str(&mut msg, n.as_str());
    push_str(&mut msg, " out of range for ");
    push_str(&mut msg, ty);
    field_error(field, msg.as_str())
}

/// The value of a trimmed expression, or the error naming it.
pub fn evaluate_field(symbols: &SymbolTable, s: &str, field: &str) -> (r: Result<i64, String>)
    requires
        !evaluation_panics(symbols.sv(), trim(s@)),
    ensures
        text_result(r) == match evaluated(symbols.sv(), trim(s@)) {
            Some(x) => Ok::<i64, Seq<char>>(x),
            None => Err(unknown_expr(field@, trim(s@))),
        },
{
    let e = trimmed(s);
    match symbols.evaluate_expression(e.as_str()) {
        Some(x) => Ok(x),
        None => Err(unknown_expr_error(field, e.as_str())),
    }
}

/// An error of kind `InvalidData` with this message.
pub fn data_error(m: String) -> (e: UxieError)
    ensures
        invalid_data_text(e) == Some(m@),
{
    UxieError::invalid_data(m)
}

/// A JSON number with value `n`, written in decimal.
pub open spec fn json_num(v: JsonValue, n: int) -> bool {
    v matches JsonValue::Number(Some(x), t) && x == n && t@ == dec_int(n)
}

/// A JSON string with these characters.
pub open spec fn json_text(v: JsonValue, s: Seq<char>) -> bool {
    v matches JsonValue::Text(t) && t@ == s
}

/// The JSON number `n`.
pub fn number_value(n: i64) -> (v: JsonValue)
    ensures
        json_num(v, n as int),
{
    JsonValue::Number(Some(n), i64_to_string(n))
}

} // verus!
