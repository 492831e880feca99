//! File formats and the arguments of a run.

use vstd::prelude::*;
use vstd::string::*;
use crate::error::EngineError;
use crate::text::text_eq;

verus! {

/// The format of an input file, as its extension tells it.
#[derive(Clone, Copy, Debug, PartialEq, Eq, Structural)]
pub enum InputFormat {
    Csv,
    Json,
    Parquet,
    Txt,
    Unknown,
}

/// A file format that a run reads or writes.
#[derive(Clone, Copy, Debug, PartialEq, Eq, PartialOrd, Ord, Structural)]
pub enum FileFormat {
    Csv,
    Json,
    Parquet,
}

/// How a file of some input format is read.
#[derive(Clone, Copy, Debug, PartialEq, Eq, Structural)]
pub enum Reader {
    /// Delimited text with the given separator byte; the first line names
    /// the columns.
    Delimited { separator: u8 },
    /// A JSON document.
    Json,
    /// A Parquet file.
    Parquet,
}

/// Where the input is and in which format.
#[derive(Debug, PartialEq)]
pub struct InputArgs {
    pub file: String,
    pub format: FileFormat,
}

/// What is done to the table between reading and writing.
#[derive(Debug, PartialEq)]
pub struct TransformArgs {
    pub drop_nulls: bool,
    pub filter_col: Option<String>,
    pub filter_val: Option<String>,
}

/// Where the output goes and in which format.
#[derive(Debug, PartialEq)]
pub struct OutputArgs {
    pub output: Option<String>,
    pub out_format: FileFormat,
}

/// The arguments of one run.
#[derive(Debug, PartialEq)]
pub struct Cli {
    pub input: InputArgs,
    pub transform: TransformArgs,
    pub output: OutputArgs,
}

/// The text of an optional string.
pub open spec fn text_of(s: Option<String>) -> Option<Seq<char>> {
    match s {
        Some(x) => Some(x@),
        None => None,
    }
}

/// The text of an optional string slice.
pub open spec fn slice_text_of(s: Option<&str>) -> Option<Seq<char>> {
    match s {
        Some(x) => Some(x@),
        None => None,
    }
}

/// The input format that a file extension stands for. The extension is
/// compared as it is: `CSV` is unknown.
pub open spec fn format_of_extension(extension: Option<Seq<char>>) -> InputFormat {
    match extension {
        Some(e) => if e == "csv"@ {
            InputFormat::Csv
        } else if e == "json"@ {
            InputFormat::Json
        } else if e == "parquet"@ {
            InputFormat::Parquet
        } else if e == "txt"@ {
            InputFormat::Txt
        } else {
            InputFormat::Unknown
        },
        None => InputFormat::Unknown,
    }
}

/// The lower-case name of a file format.
pub open spec fn format_name(f: FileFormat) -> Seq<char> {
    match f {
        FileFormat::Csv => "csv"@,
        FileFormat::Json => "json"@,
        FileFormat::Parquet => "parquet"@,
    }
}

/// The file format of a lower-case name, if it names one.
pub open spec fn format_of_name(name: Seq<char>) -> Option<FileFormat> {
    if name == "csv"@ {
        Some(FileFormat::Csv)
    } else if name == "json"@ {
        Some(FileFormat::Json)
    } else if name == "parquet"@ {
        Some(FileFormat::Parquet)
    } else {
        None
    }
}

/// The file that a run writes to when none is given.
pub open spec fn default_output(f: FileFormat) -> Seq<char> {
    match f {
        FileFormat::Csv => "output.csv"@,
        FileFormat::Json => "output.json"@,
        FileFormat::Parquet => "output.parquet"@,
    }
}

/// Infers the input format from the extension of a file name, where
/// `extension` is what follows the last dot of the name, or `None` for a
/// name without one.
pub fn infer_format(extension: Option<&str>) -> (r: InputFormat)
    ensures
        r == format_of_extension(slice_text_of(extension)),
{
    match extension {
        Some(e) => if text_eq(e, "csv") {
            InputFormat::Csv
        } else if text_eq(e, "json") {
            InputFormat::Json
        } else if text_eq(e, "parquet") {
            InputFormat::Parquet
        } else if text_eq(e, "txt") {
            InputFormat::Txt
        } else {
            InputFormat::Unknown
        },
        None => InputFormat::Unknown,
    }
}

/// Chooses the reader of an input format: comma-separated and plain text
/// files are both read as delimited text with the given separator.
/// Fails with `UnsupportedFormat` exactly for the unknown format.
pub fn reader_for(format: InputFormat, delimiter: u8) -> (r: Result<Reader, EngineError>)
    ensures
        match format {
            InputFormat::Csv | InputFormat::Txt => r == Ok::<Reader, EngineError>(
                Reader::Delimited { separator: delimiter },
            ),
            InputFormat::Json => r == Ok::<Reader, EngineError>(Reader::Json),
            InputFormat::Parquet => r == Ok::<Reader, EngineError>(Reader::Parquet),
            InputFormat::Unknown => r == Err::<Reader, EngineError>(EngineError::UnsupportedFormat),
        },
{
    match format {
        InputFormat::Csv | InputFormat::Txt => Ok(Reader::Delimited { separator: delimiter }),
        InputFormat::Json => Ok(Reader::Json),
        InputFormat::Parquet => Ok(Reader::Parquet),
        InputFormat::Unknown => Err(EngineError::UnsupportedFormat),
    }
}

/// The format that a run loads when it is told the format by name: one of
/// `csv`, `json` and `parquet`. Any other name fails with
/// `UnsupportedFormat`.
pub fn load_format(name: &str) -> (r: Result<FileFormat, EngineError>)
    ensures
        match format_of_name(name@) {
            Some(f) => r == Ok::<FileFormat, EngineError>(f),
            None => r == Err::<FileFormat, EngineError>(EngineError::UnsupportedFormat),
        },
{
    match FileFormat::from_name(name) {
        Some(f) => Ok(f),
        None => Err(EngineError::UnsupportedFormat),
    }
}

/// The format that a run saves when it is told the format by name: `csv`
/// or `parquet`. Any other name, `json` too, fails with
/// `UnsupportedOutputFormat`.
pub fn save_format(name: &str) -> (r: Result<FileFormat, EngineError>)
    ensures
        match format_of_name(name@) {
            Some(FileFormat::Csv) => r == Ok::<FileFormat, EngineError>(FileFormat::Csv),
            Some(FileFormat::Parquet) => r == Ok::<FileFormat, EngineError>(FileFormat::Parquet),
            _ => r == Err::<FileFormat, EngineError>(EngineError::UnsupportedOutputFormat),
        },
{
    match FileFormat::from_name(name) {
        Some(FileFormat::Csv) => Ok(FileFormat::Csv),
        Some(FileFormat::Parquet) => Ok(FileFormat::Parquet),
        _ => Err(EngineError::UnsupportedOutputFormat),
    }
}

impl FileFormat {
    /// The lower-case name of the format.
    pub fn name(&self) -> (r: String)
        ensures
            r@ == format_name(*self),
    {
        match self {
            FileFormat::Csv => String::from_str("csv"),
            FileFormat::Json => String::from_str("json"),
            FileFormat::Parquet => String::from_str("parquet"),
        }
    }

    /// The format of a lower-case name.
    pub fn from_name(name: &str) -> (r: Option<FileFormat>)
        ensures
            r == format_of_name(name@),
    {
        if text_eq(name, "csv") {
            Some(FileFormat::Csv)
        } else if text_eq(name, "json") {
            Some(FileFormat::Json)
        } else if text_eq(name, "parquet") {
            Some(FileFormat::Parquet)
        } else {
            None
        }
    }
}

impl OutputArgs {
    /// The file that the run writes to: the one that was given, or
    /// `output.` and the name of the output format.
    pub fn target(&self) -> (r: String)
        ensures
            r@ == match self.output {
                Some(path) => path@,
                None => default_output(self.out_format),
            },
    {
        match &self.output {
            Some(path) => path.clone(),
            None => match self.out_format {
                FileFormat::Csv => String::from_str("output.csv"),
                FileFormat::Json => String::from_str("output.json"),
                FileFormat::Parquet => String::from_str("output.parquet"),
            },
        }
    }
}

/// Every format is found again by its name.
pub proof fn lemma_format_name_round_trip(f: FileFormat)
    ensures
        format_of_name(format_name(f)) == Some(f),
{
    reveal_strlit("csv");
    reveal_strlit("json");
    reveal_strlit("parquet");
    assert("csv"@.len() == 3);
    assert("json"@.len() == 4);
    assert("parquet"@.len() == 7);
}

} // verus!
