//! Columns and tables.

use vstd::prelude::*;
use crate::error::EngineError;
use crate::text::text_eq;
use crate::value::{Cell, CellValue, ColumnType, cells_of};

verus! {

/// A named, typed, ordered sequence of cells.
#[derive(Debug, PartialEq)]
pub struct Column {
    pub name: String,
    pub declared_type: ColumnType,
    pub values: Vec<CellValue>,
}

/// Mathematical model of a [`Column`].
pub struct ColumnView {
    pub name: Seq<char>,
    pub declared_type: ColumnType,
    pub cells: Seq<Cell>,
}

impl View for Column {
    type V = ColumnView;

    open spec fn view(&self) -> ColumnView {
        ColumnView {
            name: self.name@,
            declared_type: self.declared_type,
            cells: cells_of(self.values@),
        }
    }
}

/// An ordered sequence of columns. A table that the engine accepts is
/// rectangular: all its columns have the same length, its row count.
#[derive(Debug, PartialEq)]
pub struct Table {
    pub columns: Vec<Column>,
}

impl View for Table {
    type V = Seq<ColumnView>;

    open spec fn view(&self) -> Seq<ColumnView> {
        self.columns@.map_values(|c: Column| c@)
    }
}

/// Whether all columns have the same number of cells.
pub open spec fn is_rectangular(t: Seq<ColumnView>) -> bool {
    forall|i: int| 0 <= i < t.len() ==> (#[trigger] t[i]).cells.len() == t[0].cells.len()
}

/// The number of rows: the length of the first column, and 0 without columns.
pub open spec fn height(t: Seq<ColumnView>) -> nat {
    if t.len() == 0 {
        0
    } else {
        t[0].cells.len()
    }
}

/// Whether a cell may stand in a column of the given declared type: a null
/// anywhere, an integer in the integer-like types, a float or a text in
/// its own type, anything in an `Unknown` column.
pub open spec fn cell_fits(t: ColumnType, c: Cell) -> bool {
    match c {
        Cell::Null => true,
        Cell::Int(v) => match t {
            ColumnType::Int | ColumnType::Date | ColumnType::Datetime => true,
            ColumnType::Bool => v == 0 || v == 1,
            ColumnType::Unknown => true,
            _ => false,
        },
        Cell::Float(_) => t is Float || t is Unknown,
        Cell::Str(_) => t is Str || t is Unknown,
    }
}

/// Whether every cell of the column fits its declared type and the column
/// has a name.
pub open spec fn column_well_formed(c: ColumnView) -> bool {
    &&& c.name.len() > 0
    &&& forall|i: int| 0 <= i < c.cells.len() ==> cell_fits(c.declared_type, #[trigger] c.cells[i])
}

/// The full invariant of a table: rectangular, every column well formed,
/// and no two columns of the same name.
pub open spec fn table_well_formed(t: Seq<ColumnView>) -> bool {
    &&& is_rectangular(t)
    &&& forall|i: int| 0 <= i < t.len() ==> column_well_formed(#[trigger] t[i])
    &&& forall|i: int, j: int|
        0 <= i < j < t.len() ==> (#[trigger] t[i]).name != (#[trigger] t[j]).name
}

/// Copies a vector of cells.
pub fn clone_values(values: &Vec<CellValue>) -> (r: Vec<CellValue>)
    ensures
        cells_of(r@) == cells_of(values@),
{
    let mut out: Vec<CellValue> = Vec::new();
    let mut i: usize = 0;
    while i < values.len()
        invariant
            i <= values.len(),
            out.len() == i,
            forall|k: int| 0 <= k < i ==> out[k]@ == values[k]@,
        decreases values.len() - i,
    {
        out.push(values[i].clone());
        i += 1;
    }
    assert(cells_of(out@) =~= cells_of(values@));
    out
}

impl Column {
    /// A column of the given name and declared type over the given cells.
    pub fn new(name: String, declared_type: ColumnType, values: Vec<CellValue>) -> (r: Column)
        ensures
            r@.name == name@,
            r@.declared_type == declared_type,
            r@.cells == cells_of(values@),
    {
        Column { name, declared_type, values }
    }

    /// The number of cells.
    pub fn len(&self) -> (r: usize)
        ensures
            r == self@.cells.len(),
    {
        self.values.len()
    }
}

/// Tells whether a cell may stand in a column of the declared type.
pub fn fits(t: ColumnType, v: &CellValue) -> (r: bool)
    ensures
        r == cell_fits(t, v@),
{
    match v {
        CellValue::Null => true,
        CellValue::Int(x) => match t {
            ColumnType::Int | ColumnType::Date | ColumnType::Datetime | ColumnType::Unknown => true,
            ColumnType::Bool => *x == 0 || *x == 1,
            _ => false,
        },
        CellValue::Float(_) => match t {
            ColumnType::Float | ColumnType::Unknown => true,
            _ => false,
        },
        CellValue::Str(_) => match t {
            ColumnType::Str | ColumnType::Unknown => true,
            _ => false,
        },
    }
}

impl Column {
    /// Tells whether the column has a name and every cell fits the
    /// declared type.
    pub fn is_well_formed(&self) -> (r: bool)
        ensures
            r == column_well_formed(self@),
    {
        if self.name.as_str().unicode_len() == 0 {
            return false;
        }
        let mut i: usize = 0;
        while i < self.values.len()
            invariant
                i <= self.values.len(),
                forall|k: int|
                    0 <= k < i ==> cell_fits(self.declared_type, #[trigger] self@.cells[k]),
            decreases self.values.len() - i,
        {
            if !fits(self.declared_type, &self.values[i]) {
                assert(!cell_fits(self.declared_type, self@.cells[i as int]));
                return false;
            }
            i += 1;
        }
        true
    }
}

impl Clone for Column {
    fn clone(&self) -> (r: Column)
        ensures
            r@ == self@,
    {
        Column {
            name: self.name.clone(),
            declared_type: self.declared_type,
            values: clone_values(&self.values),
        }
    }
}

impl Table {
    /// A table over the given columns, in their order.
    pub fn new(columns: Vec<Column>) -> (r: Table)
        ensures
            r@ == columns@.map_values(|c: Column| c@),
    {
        Table { columns }
    }

    /// The number of columns.
    pub fn width(&self) -> (r: usize)
        ensures
            r == self@.len(),
    {
        self.columns.len()
    }

    /// The row count of a rectangular table; `MalformedTable` for any other.
    pub fn row_count(&self) -> (r: Result<usize, EngineError>)
        ensures
            match r {
                Ok(n) => is_rectangular(self@) && n == height(self@),
                Err(e) => e == EngineError::MalformedTable && !is_rectangular(self@),
            },
    {
        if self.columns.len() == 0 {
            return Ok(0);
        }
        let rows = self.columns[0].values.len();
        let mut i: usize = 1;
        while i < self.columns.len()
            invariant
                1 <= i <= self.columns.len(),
                rows == self@[0].cells.len(),
                forall|k: int| 0 <= k < i ==> (#[trigger] self@[k]).cells.len() == rows,
            decreases self.columns.len() - i,
        {
            if self.columns[i].values.len() != rows {
                assert(self@[i as int].cells.len() != self@[0].cells.len());
                return Err(EngineError::MalformedTable);
            }
            i += 1;
        }
        Ok(rows)
    }
}

impl Table {
    /// Tells whether the table meets its full invariant: it is
    /// rectangular, every column is well formed, and no name occurs twice.
    pub fn is_well_formed(&self) -> (r: bool)
        ensures
            r == table_well_formed(self@),
    {
        match self.row_count() {
            Ok(_) => {},
            Err(_) => {
                return false;
            },
        }
        let mut j: usize = 0;
        while j < self.columns.len()
            invariant
                j <= self.columns.len(),
                forall|k: int| 0 <= k < j ==> column_well_formed(#[trigger] self@[k]),
                forall|a: int, b: int|
                    0 <= a < b < j ==> (#[trigger] self@[a]).name != (#[trigger] self@[b]).name,
            decreases self.columns.len() - j,
        {
            if !self.columns[j].is_well_formed() {
                assert(!column_well_formed(self@[j as int]));
                return false;
            }
            let mut i: usize = 0;
            while i < j
                invariant
                    i <= j < self.columns.len(),
                    forall|a: int|
                        0 <= a < i ==> (#[trigger] self@[a]).name != self@[j as int].name,
                decreases j - i,
            {
                if text_eq(self.columns[i].name.as_str(), self.columns[j].name.as_str()) {
                    assert(self@[i as int].name == self@[j as int].name);
                    return false;
                }
                i += 1;
            }
            j += 1;
        }
        true
    }
}

impl Clone for Table {
    fn clone(&self) -> (r: Table)
        ensures
            r@ == self@,
    {
        let mut out: Vec<Column> = Vec::new();
        let mut i: usize = 0;
        while i < self.columns.len()
            invariant
                i <= self.columns.len(),
                out.len() == i,
                forall|k: int| 0 <= k < i ==> out[k]@ == self.columns[k]@,
            decreases self.columns.len() - i,
        {
            out.push(self.columns[i].clone());
            i += 1;
        }
        let r = Table { columns: out };
        assert(r@ =~= self@);
        r
    }
}

} // verus!
