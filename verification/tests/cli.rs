use data_profiler::cli::{
    infer_format, load_format, reader_for, save_format, FileFormat, InputFormat, OutputArgs, Reader,
};
use data_profiler::error::EngineError;

#[test]
fn format_is_inferred_from_the_extension() {
    assert_eq!(infer_format(Some("csv")), InputFormat::Csv);
    assert_eq!(infer_format(Some("json")), InputFormat::Json);
    assert_eq!(infer_format(Some("parquet")), InputFormat::Parquet);
    assert_eq!(infer_format(Some("txt")), InputFormat::Txt);
    assert_eq!(infer_format(Some("CSV")), InputFormat::Unknown);
    assert_eq!(infer_format(Some("")), InputFormat::Unknown);
    assert_eq!(infer_format(Some("xlsx")), InputFormat::Unknown);
    assert_eq!(infer_format(None), InputFormat::Unknown);
}

#[test]
fn readers_by_format() {
    assert_eq!(reader_for(InputFormat::Csv, b','), Ok(Reader::Delimited { separator: b',' }));
    assert_eq!(reader_for(InputFormat::Txt, b'\t'), Ok(Reader::Delimited { separator: b'\t' }));
    assert_eq!(reader_for(InputFormat::Json, b','), Ok(Reader::Json));
    assert_eq!(reader_for(InputFormat::Parquet, b','), Ok(Reader::Parquet));
    assert_eq!(reader_for(InputFormat::Unknown, b','), Err(EngineError::UnsupportedFormat));
}

#[test]
fn formats_by_name() {
    assert_eq!(load_format("csv"), Ok(FileFormat::Csv));
    assert_eq!(load_format("json"), Ok(FileFormat::Json));
    assert_eq!(load_format("parquet"), Ok(FileFormat::Parquet));
    assert_eq!(load_format("txt"), Err(EngineError::UnsupportedFormat));
    assert_eq!(save_format("csv"), Ok(FileFormat::Csv));
    assert_eq!(save_format("parquet"), Ok(FileFormat::Parquet));
    assert_eq!(save_format("json"), Err(EngineError::UnsupportedOutputFormat));
    assert_eq!(save_format("Csv"), Err(EngineError::UnsupportedOutputFormat));
    for f in [FileFormat::Csv, FileFormat::Json, FileFormat::Parquet] {
        assert_eq!(FileFormat::from_name(&f.name()), Some(f));
    }
}

#[test]
fn output_target_defaults_by_format() {
    let given = OutputArgs { output: Some("out/clean.csv".to_string()), out_format: FileFormat::Parquet };
    assert_eq!(given.target(), "out/clean.csv");
    let csv = OutputArgs { output: None, out_format: FileFormat::Csv };
    assert_eq!(csv.target(), "output.csv");
    let json = OutputArgs { output: None, out_format: FileFormat::Json };
    assert_eq!(json.target(), "output.json");
    let parquet = OutputArgs { output: None, out_format: FileFormat::Parquet };
    assert_eq!(parquet.target(), "output.parquet");
}

#[test]
fn every_error_has_its_message() {
    let all = [
        EngineError::MalformedTable,
        EngineError::UnsupportedFilterType,
        EngineError::ColumnNotFound,
        EngineError::MaskLength,
        EngineError::DuplicateColumn,
        EngineError::UnsupportedFormat,
        EngineError::UnsupportedOutputFormat,
        EngineError::NoData,
    ];
    let mut seen: Vec<String> = Vec::new();
    for e in all {
        let m = e.message();
        assert!(!m.is_empty());
        assert!(!seen.contains(&m));
        seen.push(m);
    }
    assert_eq!(EngineError::UnsupportedFilterType.message(), "Unsupported filter type");
    assert_eq!(EngineError::UnsupportedFormat.message(), "Unsupported file format");
}
