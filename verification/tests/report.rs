use data_profiler::profiler::{profile_df_detailed, ColumnProfileDetailed, MinMaxValue};
use data_profiler::report::{
    export_profiles, node_value, profile_record, read_profiles, read_record, value_node, Entry, Node,
    Record, Scalar,
};
use data_profiler::table::{Column, Table};
use data_profiler::value::{CellValue, ColumnType};

fn entry(key: &str, value: Node) -> Entry {
    Entry { key: key.to_string(), value }
}

fn sample_profile() -> ColumnProfileDetailed {
    ColumnProfileDetailed {
        column: "score".to_string(),
        dtype: "Float64".to_string(),
        nulls: 2,
        unique: Some(5),
        min: MinMaxValue::Float((-1.5f64).to_bits()),
        max: MinMaxValue::Float(f64::INFINITY.to_bits()),
        sample_values: None,
    }
}

#[test]
fn record_has_the_fields_in_their_order() {
    let record = profile_record(&sample_profile());
    assert_eq!(
        record,
        Record {
            entries: vec![
                entry("column", Node::Text("score".to_string())),
                entry("dtype", Node::Text("Float64".to_string())),
                entry("nulls", Node::Number(2)),
                entry("unique", Node::Number(5)),
                entry("min", Node::Tagged("Float".to_string(), Scalar::Float((-1.5f64).to_bits()))),
                entry("max", Node::Tagged("Float".to_string(), Scalar::Float(f64::INFINITY.to_bits()))),
                entry("sample_values", Node::Null),
            ]
        }
    );
}

#[test]
fn values_are_written_under_their_kind() {
    assert_eq!(value_node(&MinMaxValue::Int(-3)), Node::Tagged("Int".to_string(), Scalar::Int(-3)));
    assert_eq!(
        value_node(&MinMaxValue::Str("None".to_string())),
        Node::Tagged("Str".to_string(), Scalar::Text("None".to_string()))
    );
    assert_eq!(value_node(&MinMaxValue::Null), Node::Text("None".to_string()));
    assert_eq!(node_value(&Node::Text("None".to_string())), Some(MinMaxValue::Null));
    assert_eq!(node_value(&Node::Text("none".to_string())), None);
    assert_eq!(node_value(&Node::Null), None);
    assert_eq!(node_value(&Node::Tagged("Int".to_string(), Scalar::Float(0))), None);
    assert_eq!(node_value(&Node::Tagged("Float".to_string(), Scalar::Float(7))), Some(MinMaxValue::Float(7)));
}

#[test]
fn report_round_trip() {
    let profiles = vec![
        sample_profile(),
        ColumnProfileDetailed {
            column: "name".to_string(),
            dtype: "String".to_string(),
            nulls: 0,
            unique: None,
            min: MinMaxValue::Null,
            max: MinMaxValue::Str("zed".to_string()),
            sample_values: Some(vec![]),
        },
        ColumnProfileDetailed {
            column: "age".to_string(),
            dtype: "Int64".to_string(),
            nulls: usize::MAX,
            unique: Some(0),
            min: MinMaxValue::Int(i64::MIN),
            max: MinMaxValue::Int(i64::MAX),
            sample_values: Some(vec!["a".to_string(), "".to_string(), "a".to_string()]),
        },
    ];
    let document = export_profiles(&profiles);
    assert_eq!(document.len(), 3);
    assert_eq!(read_profiles(&document), Some(profiles));
    assert_eq!(read_profiles(&vec![]), Some(vec![]));
}

#[test]
fn empty_samples_differ_from_absent_samples() {
    let mut with_empty = sample_profile();
    with_empty.sample_values = Some(vec![]);
    let absent = sample_profile();
    assert_ne!(profile_record(&with_empty), profile_record(&absent));
    assert_eq!(read_record(&profile_record(&with_empty)).unwrap().sample_values, Some(vec![]));
    assert_eq!(read_record(&profile_record(&absent)).unwrap().sample_values, None);
}

#[test]
fn profiles_of_a_table_round_trip() {
    let table = Table::new(vec![
        Column::new(
            "name".to_string(),
            ColumnType::Str,
            vec![CellValue::Str("Alice".to_string()), CellValue::Null],
        ),
        Column::new(
            "x".to_string(),
            ColumnType::Float,
            vec![CellValue::Float(2.5f64.to_bits()), CellValue::Float(f64::NAN.to_bits())],
        ),
    ]);
    let (_, profiles) = profile_df_detailed(&table).unwrap();
    assert_eq!(read_profiles(&export_profiles(&profiles)), Some(profiles));
}

#[test]
fn malformed_records_are_refused() {
    let good = profile_record(&sample_profile());
    assert!(read_record(&good).is_some());

    let mut short = profile_record(&sample_profile());
    short.entries.pop();
    assert_eq!(read_record(&short), None);

    let mut swapped = profile_record(&sample_profile());
    swapped.entries.swap(0, 1);
    assert_eq!(read_record(&swapped), None);

    let mut wrong_kind = profile_record(&sample_profile());
    wrong_kind.entries[2].value = Node::Text("2".to_string());
    assert_eq!(read_record(&wrong_kind), None);

    let mut wrong_tag = profile_record(&sample_profile());
    wrong_tag.entries[4].value = Node::Tagged("Int".to_string(), Scalar::Text("1".to_string()));
    assert_eq!(read_record(&wrong_tag), None);

    let mut no_name = profile_record(&sample_profile());
    no_name.entries[0].value = Node::Null;
    assert_eq!(read_record(&no_name), None);

    assert_eq!(read_profiles(&vec![good, short]), None);
}
