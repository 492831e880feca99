//! The transform step of a run: null removal, then an equality filter.

use vstd::prelude::*;
use crate::cli::{TransformArgs, text_of};
use crate::error::EngineError;
use crate::filter::{
    column_position, complete_rows, drop_null_rows, equality_mask, evaluate_equality,
    find_column, keep_rows, select_rows, supports_equality,
};
use crate::table::{ColumnView, Table, is_rectangular};

verus! {

/// The model of an outcome: a table by its model.
pub open spec fn outcome_view(r: Result<Table, EngineError>) -> Result<
    Seq<ColumnView>,
    EngineError,
> {
    match r {
        Ok(t) => Ok(t@),
        Err(e) => Err(e),
    }
}

/// The table after the null removal, where it is asked for.
pub open spec fn after_drop(t: Seq<ColumnView>, drop_nulls: bool) -> Result<
    Seq<ColumnView>,
    EngineError,
> {
    if !drop_nulls {
        Ok(t)
    } else if is_rectangular(t) {
        Ok(keep_rows(t, complete_rows(t)))
    } else {
        Err(EngineError::MalformedTable)
    }
}

/// The table with only the rows in which the named column matches the
/// literal. The checks come in this order: the shape of the table, the
/// presence of the column, the type of the column.
pub open spec fn filtered(
    t: Seq<ColumnView>,
    name: Seq<char>,
    literal: Seq<char>,
    literal_float: Option<u64>,
) -> Result<Seq<ColumnView>, EngineError> {
    if !is_rectangular(t) {
        Err(EngineError::MalformedTable)
    } else {
        match column_position(t, name) {
            None => Err(EngineError::ColumnNotFound),
            Some(i) => if !supports_equality(t[i].declared_type) {
                Err(EngineError::UnsupportedFilterType)
            } else {
                Ok(keep_rows(t, equality_mask(t[i], literal, literal_float)))
            },
        }
    }
}

/// The outcome of the transform step: the null removal first, then the
/// filter where both its column and its value are given.
pub open spec fn transformed(
    t: Seq<ColumnView>,
    drop_nulls: bool,
    filter_col: Option<Seq<char>>,
    filter_val: Option<Seq<char>>,
    literal_float: Option<u64>,
) -> Result<Seq<ColumnView>, EngineError> {
    match after_drop(t, drop_nulls) {
        Err(e) => Err(e),
        Ok(u) => match (filter_col, filter_val) {
            (Some(c), Some(v)) => filtered(u, c, v, literal_float),
            _ => Ok(u),
        },
    }
}

/// Keeps the rows in which the named column equals the literal, as
/// [`evaluate_equality`] decides it.
pub fn filter_rows(table: &Table, name: &str, literal: &str, literal_float: Option<u64>) -> (r:
    Result<Table, EngineError>)
    ensures
        outcome_view(r) == filtered(table@, name@, literal@, literal_float),
{
    match table.row_count() {
        Ok(_) => {},
        Err(e) => {
            return Err(e);
        },
    }
    let i = match find_column(table, name) {
        Some(i) => i,
        None => {
            return Err(EngineError::ColumnNotFound);
        },
    };
    let mask = match evaluate_equality(&table.columns[i], literal, literal_float) {
        Ok(mask) => mask,
        Err(e) => {
            return Err(e);
        },
    };
    assert(table@[i as int].cells.len() == table@[0].cells.len());
    select_rows(table, &mask)
}

/// Runs the transform step on a table.
///
/// With `drop_nulls`, the rows that hold a null are removed first. Then,
/// where both `filter_col` and `filter_val` are given, only the rows in
/// which that column equals that value are kept; `literal_float` is the
/// value read as a 64-bit float, as [`evaluate_equality`] takes it.
/// Without either, the result is a copy of the table.
pub fn apply_transforms(table: &Table, args: &TransformArgs, literal_float: Option<u64>) -> (r:
    Result<Table, EngineError>)
    ensures
        outcome_view(r) == transformed(
            table@,
            args.drop_nulls,
            text_of(args.filter_col),
            text_of(args.filter_val),
            literal_float,
        ),
{
    let cleaned = if args.drop_nulls {
        match drop_null_rows(table) {
            Ok(t) => t,
            Err(e) => {
                return Err(e);
            },
        }
    } else {
        table.clone()
    };
    match &args.filter_col {
        Some(c) => match &args.filter_val {
            Some(v) => filter_rows(&cleaned, c.as_str(), v.as_str(), literal_float),
            None => Ok(cleaned),
        },
        None => Ok(cleaned),
    }
}

} // verus!
