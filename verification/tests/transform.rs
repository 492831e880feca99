use data_profiler::error::EngineError;
use data_profiler::table::{Column, Table};
use data_profiler::transform::{limit_rows, select_columns};
use data_profiler::value::{ColumnType, CellValue};

fn ints(name: &str, values: &[i64]) -> Column {
    Column::new(name.to_string(), ColumnType::Int, values.iter().map(|v| CellValue::Int(*v)).collect())
}

#[test]
fn it_works() {
    let result = data_profiler::transform::add(2, 2);
    assert_eq!(result, 4);
}

#[test]
fn lib_it_works() {
    let result = data_profiler::transform::add(2, 2);
    assert_eq!(result, 4);
}

#[test]
fn add_reaches_the_largest_sum() {
    assert_eq!(data_profiler::transform::add(u64::MAX - 1, 1), u64::MAX);
    assert_eq!(data_profiler::transform::add(0, 0), 0);
}

#[test]
fn test_select_columns_and_limit_rows() {
    let df = Table::new(vec![ints("a", &[1, 2, 3]), ints("b", &[4, 5, 6])]);
    let cols = vec!["a".to_string()];
    let df2 = select_columns(&df, &cols).unwrap();
    let names: Vec<&str> = df2.columns.iter().map(|c| c.name.as_str()).collect();
    assert_eq!(names, vec!["a"]);
    let df3 = limit_rows(&df, 2).unwrap();
    assert_eq!(df3.row_count(), Ok(2));
}

#[test]
fn selection_follows_the_order_of_the_names() {
    let df = Table::new(vec![ints("a", &[1]), ints("b", &[2]), ints("c", &[3])]);
    let out = select_columns(&df, &vec!["c".to_string(), "a".to_string()]).unwrap();
    assert_eq!(out, Table::new(vec![ints("c", &[3]), ints("a", &[1])]));
    assert_eq!(select_columns(&df, &vec![]), Ok(Table::new(vec![])));
}

#[test]
fn selection_errors() {
    let df = Table::new(vec![ints("a", &[1]), ints("b", &[2])]);
    assert_eq!(select_columns(&df, &vec!["z".to_string()]), Err(EngineError::ColumnNotFound));
    assert_eq!(
        select_columns(&df, &vec!["a".to_string(), "a".to_string()]),
        Err(EngineError::DuplicateColumn)
    );
    assert_eq!(
        select_columns(&df, &vec!["z".to_string(), "a".to_string(), "z".to_string()]),
        Err(EngineError::DuplicateColumn)
    );
}

#[test]
fn limit_cuts_every_column() {
    let df = Table::new(vec![ints("a", &[1, 2, 3]), ints("b", &[4, 5, 6])]);
    assert_eq!(limit_rows(&df, 0), Ok(Table::new(vec![ints("a", &[]), ints("b", &[])])));
    assert_eq!(limit_rows(&df, 1), Ok(Table::new(vec![ints("a", &[1]), ints("b", &[4])])));
    assert_eq!(limit_rows(&df, 3), Ok(df.clone()));
    assert_eq!(limit_rows(&df, 10), Ok(df.clone()));
}
