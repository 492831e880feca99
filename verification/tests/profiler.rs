use data_profiler::error::EngineError;
use data_profiler::profiler::{
    collect_samples, column_extreme, count_distinct, count_nulls, find_extreme, profile_column,
    profile_df, profile_df_detailed, ColumnProfileDetailed, MinMaxValue, Profile,
};
use data_profiler::table::{Column, Table};
use data_profiler::value::{ColumnType, CellValue};

fn text(s: &str) -> CellValue {
    CellValue::Str(s.to_string())
}

fn float(x: f64) -> CellValue {
    CellValue::Float(x.to_bits())
}

fn column(name: &str, declared_type: ColumnType, values: Vec<CellValue>) -> Column {
    Column::new(name.to_string(), declared_type, values)
}

fn sample_table() -> Table {
    Table::new(vec![
        column("name", ColumnType::Str, vec![text("Alice"), text("Bob"), text("Alice")]),
        column("age", ColumnType::Int, vec![CellValue::Int(30), CellValue::Int(25), CellValue::Int(30)]),
        column("score", ColumnType::Float, vec![float(1.5), CellValue::Null, float(-2.25)]),
    ])
}

#[test]
fn test_profile_detailed() {
    let df = sample_table();
    let (_, profiles) = profile_df_detailed(&df).expect("detailed profiling failed");
    assert!(!profiles.is_empty());
    println!("{:#?}", profiles[0]);
}

#[test]
fn profiles_follow_column_order() {
    let df = sample_table();
    let (rows, profiles) = profile_df_detailed(&df).unwrap();
    assert_eq!(rows, 3);
    assert_eq!(profiles.len(), df.columns.len());
    let names: Vec<&str> = profiles.iter().map(|p| p.column.as_str()).collect();
    assert_eq!(names, vec!["name", "age", "score"]);
}

#[test]
fn detailed_profile_of_sample_table() {
    let (_, profiles) = profile_df_detailed(&sample_table()).unwrap();
    assert_eq!(
        profiles[0],
        ColumnProfileDetailed {
            column: "name".to_string(),
            dtype: "String".to_string(),
            nulls: 0,
            unique: Some(2),
            min: MinMaxValue::Null,
            max: MinMaxValue::Null,
            sample_values: Some(vec![
                "Alice".to_string(),
                "Bob".to_string(),
                "Alice".to_string()
            ]),
        }
    );
    assert_eq!(
        profiles[1],
        ColumnProfileDetailed {
            column: "age".to_string(),
            dtype: "Int64".to_string(),
            nulls: 0,
            unique: Some(2),
            min: MinMaxValue::Int(25),
            max: MinMaxValue::Int(30),
            sample_values: None,
        }
    );
    assert_eq!(
        profiles[2],
        ColumnProfileDetailed {
            column: "score".to_string(),
            dtype: "Float64".to_string(),
            nulls: 1,
            unique: Some(3),
            min: MinMaxValue::Float((-2.25f64).to_bits()),
            max: MinMaxValue::Float(1.5f64.to_bits()),
            sample_values: None,
        }
    );
}

#[test]
fn short_profile_of_sample_table() {
    let (rows, profiles) = profile_df(&sample_table()).unwrap();
    assert_eq!(rows, 3);
    assert_eq!(
        profiles,
        vec![
            Profile { column: "name".to_string(), dtype: "String".to_string(), nulls: 0 },
            Profile { column: "age".to_string(), dtype: "Int64".to_string(), nulls: 0 },
            Profile { column: "score".to_string(), dtype: "Float64".to_string(), nulls: 1 },
        ]
    );
}

#[test]
fn nulls_and_present_cells_add_up() {
    let values = vec![CellValue::Int(1), CellValue::Null, CellValue::Int(3), CellValue::Null, CellValue::Null];
    let present = values.iter().filter(|v| !v.is_null()).count();
    assert_eq!(count_nulls(&values), 3);
    assert_eq!(count_nulls(&values) + present, values.len());
}

#[test]
fn profiling_twice_gives_the_same() {
    let df = sample_table();
    let first = profile_df_detailed(&df).unwrap();
    let second = profile_df_detailed(&df).unwrap();
    assert_eq!(first, second);
}

#[test]
fn nan_is_neither_min_nor_max() {
    let c = column("x", ColumnType::Float, vec![float(1.0), float(f64::NAN), float(3.0)]);
    let p = profile_column(&c);
    assert_eq!(p.min, MinMaxValue::Float(1.0f64.to_bits()));
    assert_eq!(p.max, MinMaxValue::Float(3.0f64.to_bits()));
    assert_eq!(p.nulls, 0);
    assert_eq!(p.unique, Some(3));
}

#[test]
fn nan_only_column_has_no_extremes() {
    let c = column("x", ColumnType::Float, vec![float(f64::NAN), CellValue::Null, float(-f64::NAN)]);
    let p = profile_column(&c);
    assert_eq!(p.min, MinMaxValue::Null);
    assert_eq!(p.max, MinMaxValue::Null);
    assert_eq!(p.nulls, 1);
    assert_eq!(p.unique, Some(2));
}

#[test]
fn all_null_column() {
    let c = column("n", ColumnType::Int, vec![CellValue::Null, CellValue::Null, CellValue::Null, CellValue::Null, CellValue::Null]);
    let p = profile_column(&c);
    assert_eq!(p.nulls, 5);
    assert_eq!(p.min, MinMaxValue::Null);
    assert_eq!(p.max, MinMaxValue::Null);
    assert_eq!(p.unique, Some(1));
    assert_eq!(p.sample_values, None);
}

#[test]
fn empty_column() {
    let c = column("e", ColumnType::Float, vec![]);
    let p = profile_column(&c);
    assert_eq!(p.nulls, 0);
    assert_eq!(p.unique, Some(0));
    assert_eq!(p.min, MinMaxValue::Null);
    assert_eq!(p.max, MinMaxValue::Null);
}

#[test]
fn text_column_never_reports_extremes() {
    let c = column("s", ColumnType::Str, vec![text("10"), text("2"), CellValue::Null, text("zebra")]);
    let p = profile_column(&c);
    assert_eq!(p.min, MinMaxValue::Null);
    assert_eq!(p.max, MinMaxValue::Null);
    assert_eq!(p.nulls, 1);
    assert_eq!(p.unique, Some(4));
}

#[test]
fn unknown_column_never_reports_extremes() {
    let c = column("u", ColumnType::Unknown, vec![CellValue::Int(4), float(2.0), text("x")]);
    let p = profile_column(&c);
    assert_eq!(p.dtype, "Unknown");
    assert_eq!(p.min, MinMaxValue::Null);
    assert_eq!(p.max, MinMaxValue::Null);
    assert_eq!(p.sample_values, None);
}

#[test]
fn samples_are_the_first_three_texts_with_repeats() {
    let values = vec![text("a"), CellValue::Null, text("a"), text("b"), text("c")];
    assert_eq!(collect_samples(&values), vec!["a", "a", "b"]);
    let few = vec![CellValue::Null, text("only")];
    assert_eq!(collect_samples(&few), vec!["only"]);
    let none: Vec<CellValue> = vec![CellValue::Null];
    assert!(collect_samples(&none).is_empty());
    let c = column("s", ColumnType::Str, vec![]);
    assert_eq!(profile_column(&c).sample_values, Some(vec![]));
}

#[test]
fn bool_and_dates_are_profiled_as_integers() {
    let b = column("flag", ColumnType::Bool, vec![CellValue::Int(1), CellValue::Int(0), CellValue::Null, CellValue::Int(1)]);
    let p = profile_column(&b);
    assert_eq!(p.dtype, "Boolean");
    assert_eq!(p.min, MinMaxValue::Int(0));
    assert_eq!(p.max, MinMaxValue::Int(1));
    assert_eq!(p.unique, Some(3));
    let d = column("day", ColumnType::Date, vec![CellValue::Int(19000), CellValue::Int(-5), CellValue::Int(3)]);
    let p = profile_column(&d);
    assert_eq!(p.dtype, "Date");
    assert_eq!(p.min, MinMaxValue::Int(-5));
    assert_eq!(p.max, MinMaxValue::Int(19000));
    let t = column("at", ColumnType::Datetime, vec![CellValue::Int(i64::MAX), CellValue::Int(i64::MIN)]);
    let p = profile_column(&t);
    assert_eq!(p.dtype, "Datetime");
    assert_eq!(p.min, MinMaxValue::Int(i64::MIN));
    assert_eq!(p.max, MinMaxValue::Int(i64::MAX));
}

#[test]
fn float_extremes_follow_the_total_order() {
    let values = vec![
        float(0.0),
        float(-0.0),
        float(f64::INFINITY),
        float(f64::NEG_INFINITY),
        float(f64::NAN),
        float(-1.0e300),
    ];
    assert_eq!(
        column_extreme(ColumnType::Float, &values, false),
        MinMaxValue::Float(f64::NEG_INFINITY.to_bits())
    );
    assert_eq!(
        column_extreme(ColumnType::Float, &values, true),
        MinMaxValue::Float(f64::INFINITY.to_bits())
    );
    let zeros = vec![float(0.0), float(-0.0)];
    assert_eq!(column_extreme(ColumnType::Float, &zeros, false), MinMaxValue::Float((-0.0f64).to_bits()));
    assert_eq!(column_extreme(ColumnType::Float, &zeros, true), MinMaxValue::Float(0.0f64.to_bits()));
}

#[test]
fn find_extreme_gives_the_first_position() {
    let values = vec![CellValue::Int(7), CellValue::Int(2), CellValue::Null, CellValue::Int(2), CellValue::Int(9), CellValue::Int(9)];
    assert_eq!(find_extreme(ColumnType::Int, &values, false), Some(1));
    assert_eq!(find_extreme(ColumnType::Int, &values, true), Some(4));
    assert_eq!(find_extreme(ColumnType::Str, &values, true), None);
    assert_eq!(find_extreme(ColumnType::Float, &values, true), None);
}

#[test]
fn distinct_values_count_zeros_and_nans_once() {
    let values = vec![
        float(0.0),
        float(-0.0),
        float(f64::NAN),
        float(-f64::NAN),
        float(2.5),
        CellValue::Null,
        CellValue::Null,
        float(2.5),
    ];
    assert_eq!(count_distinct(&values), 4);
    let mixed = vec![CellValue::Int(0), float(0.0), text("0"), text(""), CellValue::Null, CellValue::Int(0)];
    assert_eq!(count_distinct(&mixed), 5);
}

#[test]
fn malformed_table_is_refused() {
    let df = Table::new(vec![
        column("a", ColumnType::Int, vec![CellValue::Int(1), CellValue::Int(2)]),
        column("b", ColumnType::Int, vec![CellValue::Int(1)]),
    ]);
    assert_eq!(profile_df_detailed(&df), Err(EngineError::MalformedTable));
    assert_eq!(profile_df(&df), Err(EngineError::MalformedTable));
    assert_eq!(df.row_count(), Err(EngineError::MalformedTable));
}

#[test]
fn table_without_columns_has_no_rows() {
    let df = Table::new(vec![]);
    assert_eq!(profile_df_detailed(&df), Ok((0, vec![])));
    assert_eq!(df.width(), 0);
}
