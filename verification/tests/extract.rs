use data_profiler::error::EngineError;
use data_profiler::extract::{extract_dispatch, join_lines, sheet_to_table, DataSource};
use data_profiler::table::{Column, Table};
use data_profiler::value::{ColumnType, CellValue};

fn row(cells: &[&str]) -> Vec<String> {
    cells.iter().map(|c| c.to_string()).collect()
}

fn texts(name: &str, cells: &[&str]) -> Column {
    Column::new(
        name.to_string(),
        ColumnType::Str,
        cells.iter().map(|c| CellValue::Str(c.to_string())).collect(),
    )
}

#[test]
fn dispatch_calls_the_reader_of_the_source() {
    let from_file: Result<String, String> = extract_dispatch(
        DataSource::File("data.csv"),
        |path| Ok(format!("file {}", path)),
        |data| Ok(format!("memory {}", data.len())),
    );
    assert_eq!(from_file, Ok("file data.csv".to_string()));
    let from_memory: Result<String, String> = extract_dispatch(
        DataSource::Memory(b"a,b\n1,2\n"),
        |path| Ok(format!("file {}", path)),
        |data| Ok(format!("memory {}", data.len())),
    );
    assert_eq!(from_memory, Ok("memory 8".to_string()));
}

#[test]
fn dispatch_hands_errors_on() {
    let failed: Result<usize, String> = extract_dispatch(
        DataSource::File("missing.csv"),
        |path| Err(format!("cannot open {}", path)),
        |data| Ok(data.len()),
    );
    assert_eq!(failed, Err("cannot open missing.csv".to_string()));
}

#[test]
fn sheet_rows_become_text_columns() {
    let records = vec![row(&["name", "age"]), row(&["Alice", "30"]), row(&["Bob", ""])];
    let table = sheet_to_table(&records).unwrap();
    assert_eq!(
        table,
        Table::new(vec![
            texts("col0", &["name", "Alice", "Bob"]),
            texts("col1", &["age", "30", ""]),
        ])
    );
}

#[test]
fn wide_sheet_numbers_its_columns_in_base_ten() {
    let cells: Vec<String> = (0..12).map(|i| format!("v{}", i)).collect();
    let table = sheet_to_table(&vec![cells]).unwrap();
    assert_eq!(table.width(), 12);
    assert_eq!(table.columns[9].name, "col9");
    assert_eq!(table.columns[10].name, "col10");
    assert_eq!(table.columns[11].values, vec![CellValue::Str("v11".to_string())]);
}

#[test]
fn sheet_errors() {
    assert_eq!(sheet_to_table(&vec![]), Err(EngineError::NoData));
    let ragged = vec![row(&["a", "b"]), row(&["1"])];
    assert_eq!(sheet_to_table(&ragged), Err(EngineError::MalformedTable));
    let no_cells = vec![row(&[]), row(&[])];
    assert_eq!(sheet_to_table(&no_cells), Ok(Table::new(vec![])));
}

#[test]
fn lines_are_joined_by_line_feeds() {
    assert_eq!(join_lines(&vec![]), "");
    assert_eq!(join_lines(&row(&["{\"a\":1}"])), "{\"a\":1}");
    assert_eq!(join_lines(&row(&["a", "b", "c"])), "a\nb\nc");
    assert_eq!(join_lines(&row(&["", "x", ""])), "\nx\n");
}
