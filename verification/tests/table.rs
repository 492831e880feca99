use data_profiler::table::{fits, Column, Table};
use data_profiler::value::{float_ieee_eq, float_is_nan, float_total_less, CellValue, ColumnType};

fn ints(name: &str, values: &[i64]) -> Column {
    Column::new(name.to_string(), ColumnType::Int, values.iter().map(|v| CellValue::Int(*v)).collect())
}

#[test]
fn well_formed_table() {
    let t = Table::new(vec![ints("a", &[1, 2]), ints("b", &[3, 4])]);
    assert!(t.is_well_formed());
    assert_eq!(t.row_count(), Ok(2));
    assert_eq!(t.width(), 2);
    assert!(Table::new(vec![]).is_well_formed());
}

#[test]
fn tables_that_break_the_invariant() {
    let ragged = Table::new(vec![ints("a", &[1, 2]), ints("b", &[3])]);
    assert!(!ragged.is_well_formed());
    let same_name = Table::new(vec![ints("a", &[1]), ints("a", &[2])]);
    assert!(!same_name.is_well_formed());
    let no_name = Table::new(vec![ints("", &[1])]);
    assert!(!no_name.is_well_formed());
    let ill_typed = Table::new(vec![Column::new(
        "a".to_string(),
        ColumnType::Int,
        vec![CellValue::Str("1".to_string())],
    )]);
    assert!(!ill_typed.is_well_formed());
}

#[test]
fn cells_fit_their_declared_type() {
    assert!(fits(ColumnType::Int, &CellValue::Int(5)));
    assert!(fits(ColumnType::Date, &CellValue::Int(-5)));
    assert!(fits(ColumnType::Datetime, &CellValue::Null));
    assert!(fits(ColumnType::Bool, &CellValue::Int(1)));
    assert!(!fits(ColumnType::Bool, &CellValue::Int(2)));
    assert!(!fits(ColumnType::Float, &CellValue::Int(2)));
    assert!(fits(ColumnType::Float, &CellValue::Float(0)));
    assert!(!fits(ColumnType::Str, &CellValue::Float(0)));
    assert!(fits(ColumnType::Str, &CellValue::Str(String::new())));
    assert!(fits(ColumnType::Unknown, &CellValue::Str(String::new())));
    assert!(fits(ColumnType::Unknown, &CellValue::Float(1)));
}

#[test]
fn copies_are_equal() {
    let c = Column::new(
        "x".to_string(),
        ColumnType::Unknown,
        vec![CellValue::Int(1), CellValue::Float(2.0f64.to_bits()), CellValue::Str("s".to_string()), CellValue::Null],
    );
    assert_eq!(c.clone(), c);
    assert_eq!(c.len(), 4);
    let t = Table::new(vec![c.clone(), c]);
    assert_eq!(t.clone(), t);
}

#[test]
fn float_bits_compare_as_the_numbers_do() {
    let samples = [
        0.0f64,
        -0.0,
        1.0,
        -1.0,
        1.5,
        f64::MIN_POSITIVE,
        f64::MAX,
        f64::MIN,
        f64::INFINITY,
        f64::NEG_INFINITY,
        f64::NAN,
        -f64::NAN,
        5e-324,
        -5e-324,
    ];
    for a in samples {
        assert_eq!(float_is_nan(a.to_bits()), a.is_nan(), "{a}");
        for b in samples {
            assert_eq!(float_ieee_eq(a.to_bits(), b.to_bits()), a == b, "{a} == {b}");
            assert_eq!(
                float_total_less(a.to_bits(), b.to_bits()),
                a.total_cmp(&b) == std::cmp::Ordering::Less,
                "{a} < {b}"
            );
        }
    }
}

#[test]
fn same_value_groups_zeros_and_nans() {
    let zero = CellValue::Float(0.0f64.to_bits());
    let minus_zero = CellValue::Float((-0.0f64).to_bits());
    let nan = CellValue::Float(f64::NAN.to_bits());
    let other_nan = CellValue::Float(f64::NAN.to_bits() | 1);
    assert!(zero.same_as(&minus_zero));
    assert!(nan.same_as(&other_nan));
    assert!(!nan.same_as(&zero));
    assert!(!CellValue::Int(0).same_as(&zero));
    assert!(CellValue::Null.same_as(&CellValue::Null));
    assert!(!CellValue::Null.same_as(&CellValue::Int(0)));
    assert!(CellValue::Str("a".to_string()).same_as(&CellValue::Str("a".to_string())));
    assert!(!CellValue::Str("a".to_string()).same_as(&CellValue::Str("b".to_string())));
}
