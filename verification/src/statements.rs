//! Statements for the database: their text, and the values for their
//! parameters.

use vstd::prelude::*;
use vstd::string::*;

use crate::media::Seconds;
use crate::text::{join, join_texts, opt_text, texts};

verus! {

/// A value for a parameter of a statement.
pub enum SqlValue {
    Null,
    Integer(i64),
    Real(Seconds),
    Text(String),
}

/// A value for a parameter, without regard to how its text is held.
pub enum ValueModel {
    Null,
    Integer(i64),
    Real(Seconds),
    Text(Seq<char>),
}

impl SqlValue {
    pub open spec fn model(self) -> ValueModel {
        match self {
            SqlValue::Null => ValueModel::Null,
            SqlValue::Integer(number) => ValueModel::Integer(number),
            SqlValue::Real(number) => ValueModel::Real(number),
            SqlValue::Text(text) => ValueModel::Text(text@),
        }
    }
}

/// Values for the parameters of a statement.
pub open spec fn value_models(values: Seq<SqlValue>) -> Seq<ValueModel> {
    values.map_values(|v: SqlValue| v.model())
}

/// A statement with the values for its parameters, in their order.
pub struct SqlStatement {
    pub sql: String,
    pub values: Vec<SqlValue>,
}

/// A statement as a value.
pub struct StatementModel {
    pub sql: Seq<char>,
    pub values: Seq<ValueModel>,
}

impl SqlStatement {
    pub open spec fn model(self) -> StatementModel {
        StatementModel { sql: self.sql@, values: value_models(self.values@) }
    }
}

/// Statements as values.
pub open spec fn statement_models(statements: Seq<SqlStatement>) -> Seq<StatementModel> {
    statements.map_values(|s: SqlStatement| s.model())
}

/// The value of an optional text.
pub open spec fn text_or_null(value: Option<Seq<char>>) -> ValueModel {
    match value {
        Some(text) => ValueModel::Text(text),
        None => ValueModel::Null,
    }
}

/// The value of an optional number.
pub open spec fn integer_or_null(value: Option<i64>) -> ValueModel {
    match value {
        Some(number) => ValueModel::Integer(number),
        None => ValueModel::Null,
    }
}

/// The value of an optional duration.
pub open spec fn real_or_null(value: Option<Seconds>) -> ValueModel {
    match value {
        Some(number) => ValueModel::Real(number),
        None => ValueModel::Null,
    }
}

/// One for yes, zero for no.
pub open spec fn flag(value: bool) -> ValueModel {
    ValueModel::Integer(
        if value {
            1
        } else {
            0
        },
    )
}

/// The value of a text.
pub fn text_value(text: &str) -> (r: SqlValue)
    ensures
        r.model() == ValueModel::Text(text@),
{
    SqlValue::Text(text.to_string())
}

/// The value of an optional text.
pub fn opt_text_value(value: &Option<String>) -> (r: SqlValue)
    ensures
        r.model() == text_or_null(opt_text(*value)),
{
    match value {
        Some(text) => SqlValue::Text(text.clone()),
        None => SqlValue::Null,
    }
}

/// The value of an optional number.
pub fn opt_integer_value(value: Option<i64>) -> (r: SqlValue)
    ensures
        r.model() == integer_or_null(value),
{
    match value {
        Some(number) => SqlValue::Integer(number),
        None => SqlValue::Null,
    }
}

/// The value of an optional duration.
pub fn opt_real_value(value: Option<Seconds>) -> (r: SqlValue)
    ensures
        r.model() == real_or_null(value),
{
    match value {
        Some(number) => SqlValue::Real(number),
        None => SqlValue::Null,
    }
}

/// One for yes, zero for no.
pub fn flag_value(value: bool) -> (r: SqlValue)
    ensures
        r.model() == flag(value),
{
    if value {
        SqlValue::Integer(1)
    } else {
        SqlValue::Integer(0)
    }
}

/// A statement with the values for its parameters.
pub fn statement(sql: &str, values: Vec<SqlValue>) -> (r: SqlStatement)
    ensures
        r.model() == (StatementModel { sql: sql@, values: value_models(values@) }),
{
    SqlStatement { sql: sql.to_string(), values }
}

/// As many parameters as there are values for them, with commas between.
pub open spec fn parameters(count: nat) -> Seq<char> {
    join(Seq::new(count, |i: int| "?"@), ", "@)
}

/// As many parameters as there are values for them, with commas between.
pub fn parameter_list(count: usize) -> (r: String)
    ensures
        r@ == parameters(count as nat),
{
    let mut marks: Vec<String> = Vec::new();
    let mut i: usize = 0;
    while i < count
        invariant
            i <= count,
            marks@.len() == i,
            forall|j: int| 0 <= j < i ==> (#[trigger] marks@[j])@ == "?"@,
        decreases count - i,
    {
        marks.push("?".to_string());
        i += 1;
    }
    proof {
        assert(texts(marks@) =~= Seq::new(count as nat, |j: int| "?"@));
    }
    join_texts(&marks, ", ")
}

/// The values of texts.
pub open spec fn text_models(list: Seq<Seq<char>>) -> Seq<ValueModel> {
    list.map_values(|t: Seq<char>| ValueModel::Text(t))
}

/// Adds the values of texts.
pub fn push_texts(values: &mut Vec<SqlValue>, list: Vec<String>)
    ensures
        value_models(final(values)@) == value_models(old(values)@) + text_models(texts(list@)),
{
    let ghost before = value_models(values@);
    let ghost all = text_models(texts(list@));
    for text in it: list
        invariant
            it.seq() == list@,
            all == text_models(texts(list@)),
            value_models(values@) == before + all.take(it.index() as int),
    {
        let ghost n = it.index() as int;
        let ghost held = values@;
        let ghost added = text@;
        values.push(SqlValue::Text(text));
        proof {
            assert(all[n] == ValueModel::Text(added));
            assert(value_models(values@) =~= value_models(held).push(ValueModel::Text(added)));
            assert(all.take(n + 1) =~= all.take(n).push(all[n]));
            assert(before + all.take(n + 1) =~= (before + all.take(n)).push(all[n]));
        }
    }
    proof {
        assert(all.take(list@.len() as int) =~= all);
    }
}

} // verus!
