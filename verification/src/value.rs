//! Cell values and the declared types of columns.

use vstd::prelude::*;

verus! {

/// Bit pattern of the sign bit of a binary64 float.
pub const SIGN_BIT: u64 = 0x8000_0000_0000_0000;

/// Bit pattern of positive infinity. A magnitude above it is a NaN.
pub const INFINITY_BITS: u64 = 0x7ff0_0000_0000_0000;

/// The type that a column declares for its cells.
///
/// `Bool`, `Date` and `Datetime` cells are stored as [`CellValue::Int`]: a
/// boolean as 0 or 1, a date or a datetime as its integer ticks.
#[derive(Clone, Copy, Debug, PartialEq, Eq, Structural)]
pub enum ColumnType {
    Int,
    Float,
    Str,
    Bool,
    Date,
    Datetime,
    Unknown,
}

/// One cell of a column.
///
/// `Float` holds the IEEE-754 binary64 bit pattern of the number.
/// `Null` is the absent value; it differs from zero and from the empty string.
#[derive(Debug, PartialEq)]
pub enum CellValue {
    Int(i64),
    Float(u64),
    Str(String),
    Null,
}

/// Mathematical model of a cell: a [`CellValue`] with its text as a sequence.
pub enum Cell {
    Int(i64),
    Float(u64),
    Str(Seq<char>),
    Null,
}

impl View for CellValue {
    type V = Cell;

    open spec fn view(&self) -> Cell {
        match self {
            CellValue::Int(v) => Cell::Int(*v),
            CellValue::Float(b) => Cell::Float(*b),
            CellValue::Str(s) => Cell::Str(s@),
            CellValue::Null => Cell::Null,
        }
    }
}

/// The cells that a vector of values stands for.
pub open spec fn cells_of(values: Seq<CellValue>) -> Seq<Cell> {
    values.map_values(|v: CellValue| v@)
}

/// The bit pattern without its sign bit.
pub open spec fn magnitude(bits: u64) -> int {
    if bits >= SIGN_BIT {
        bits - SIGN_BIT
    } else {
        bits as int
    }
}

/// Whether the bit pattern is a NaN: all exponent bits set and a non-zero
/// fraction, that is a magnitude above that of infinity.
pub open spec fn is_nan(bits: u64) -> bool {
    magnitude(bits) > INFINITY_BITS
}

/// Position of a bit pattern in the IEEE-754 total order: patterns with the
/// sign bit set come before all others, in reverse order of magnitude, so
/// that negative zero is directly below positive zero.
pub open spec fn total_key(bits: u64) -> int {
    if bits >= SIGN_BIT {
        -(bits - SIGN_BIT) - 1
    } else {
        bits as int
    }
}

/// IEEE-754 equality of two bit patterns: a NaN equals nothing, the two
/// zeros equal each other, and any other number equals only itself.
pub open spec fn ieee_eq(a: u64, b: u64) -> bool {
    &&& !is_nan(a)
    &&& !is_nan(b)
    &&& (a == b || (magnitude(a) == 0 && magnitude(b) == 0))
}

/// Whether two cells count as the same value when distinct values are
/// counted: equal integers, equal texts, two nulls, two NaNs of any
/// payload, or two floats that are IEEE-equal.
pub open spec fn same_value(a: Cell, b: Cell) -> bool {
    match (a, b) {
        (Cell::Int(x), Cell::Int(y)) => x == y,
        (Cell::Float(x), Cell::Float(y)) => (is_nan(x) && is_nan(y)) || ieee_eq(x, y),
        (Cell::Str(x), Cell::Str(y)) => x == y,
        (Cell::Null, Cell::Null) => true,
        _ => false,
    }
}

/// Tells whether a binary64 bit pattern is a NaN.
pub fn float_is_nan(bits: u64) -> (r: bool)
    ensures
        r == is_nan(bits),
{
    if bits >= SIGN_BIT {
        bits - SIGN_BIT > INFINITY_BITS
    } else {
        bits > INFINITY_BITS
    }
}

/// Tells whether `a` comes strictly before `b` in the IEEE-754 total order.
pub fn float_total_less(a: u64, b: u64) -> (r: bool)
    ensures
        r == (total_key(a) < total_key(b)),
{
    if a >= SIGN_BIT {
        if b >= SIGN_BIT {
            a > b
        } else {
            true
        }
    } else {
        if b >= SIGN_BIT {
            false
        } else {
            a < b
        }
    }
}

/// Compares two binary64 bit patterns as IEEE-754 `==` does.
pub fn float_ieee_eq(a: u64, b: u64) -> (r: bool)
    ensures
        r == ieee_eq(a, b),
{
    if float_is_nan(a) || float_is_nan(b) {
        false
    } else {
        a == b || ((a == 0 || a == SIGN_BIT) && (b == 0 || b == SIGN_BIT))
    }
}

impl CellValue {
    /// Whether the cell is absent.
    pub fn is_null(&self) -> (r: bool)
        ensures
            r == (self@ is Null),
    {
        match self {
            CellValue::Null => true,
            _ => false,
        }
    }

    /// Whether two cells count as the same value, as [`same_value`] defines it.
    pub fn same_as(&self, other: &CellValue) -> (r: bool)
        ensures
            r == same_value(self@, other@),
    {
        match self {
            CellValue::Int(x) => match other {
                CellValue::Int(y) => *x == *y,
                _ => false,
            },
            CellValue::Float(x) => match other {
                CellValue::Float(y) => {
                    let both_nan = float_is_nan(*x) && float_is_nan(*y);
                    both_nan || float_ieee_eq(*x, *y)
                },
                _ => false,
            },
            CellValue::Str(x) => match other {
                CellValue::Str(y) => *x == *y,
                _ => false,
            },
            CellValue::Null => other.is_null(),
        }
    }
}

impl Clone for CellValue {
    fn clone(&self) -> (r: CellValue)
        ensures
            r@ == self@,
    {
        match self {
            CellValue::Int(v) => CellValue::Int(*v),
            CellValue::Float(b) => CellValue::Float(*b),
            CellValue::Str(s) => CellValue::Str(s.clone()),
            CellValue::Null => CellValue::Null,
        }
    }
}

} // verus!
