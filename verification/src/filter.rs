//! Row masks for equality predicates, row selection by a mask, and the
//! removal of rows that hold a null.

use vstd::prelude::*;
use crate::error::EngineError;
use crate::seqs::lemma_take_step;
use crate::table::{
    Column, ColumnView, Table, cell_fits, column_well_formed, height, is_rectangular,
    table_well_formed,
};
use crate::text::{int_of_text, parse_int, text_eq};
use crate::value::{Cell, ColumnType, CellValue, cells_of, float_ieee_eq, ieee_eq};

verus! {

/// Whether a cell is the text `literal`, character for character.
pub open spec fn text_matches(c: Cell, literal: Seq<char>) -> bool {
    c == Cell::Str(literal)
}

/// Whether a cell is the integer `target`.
pub open spec fn int_matches(c: Cell, target: i64) -> bool {
    c == Cell::Int(target)
}

/// Whether a cell is a float that IEEE-754 equality holds equal to the
/// bit pattern `target`: no NaN matches, and the two zeros match each other.
pub open spec fn float_matches(c: Cell, target: u64) -> bool {
    match c {
        Cell::Float(b) => ieee_eq(b, target),
        _ => false,
    }
}

/// The integer that a filter literal stands for in an integer column: the
/// integer that the text writes, and 0 where it writes none.
pub open spec fn int_literal(literal: Seq<char>) -> i64 {
    match int_of_text(literal) {
        Some(v) => v,
        None => 0,
    }
}

/// The bit pattern that a filter literal stands for in a float column:
/// the float that the caller read from the text, and positive zero where
/// the text did not read as one.
pub open spec fn float_literal(literal_float: Option<u64>) -> u64 {
    match literal_float {
        Some(b) => b,
        None => 0,
    }
}

/// Whether equality predicates are defined on columns of this type.
pub open spec fn supports_equality(t: ColumnType) -> bool {
    t is Str || t is Int || t is Float
}

/// Whether the cell matches the literal in a column of declared type `t`.
/// A null cell matches nothing.
pub open spec fn cell_matches(
    t: ColumnType,
    c: Cell,
    literal: Seq<char>,
    literal_float: Option<u64>,
) -> bool {
    match t {
        ColumnType::Str => text_matches(c, literal),
        ColumnType::Int => int_matches(c, int_literal(literal)),
        ColumnType::Float => float_matches(c, float_literal(literal_float)),
        _ => false,
    }
}

/// The mask of an equality predicate: one entry for each row, true where
/// the cell matches.
pub open spec fn equality_mask(
    c: ColumnView,
    literal: Seq<char>,
    literal_float: Option<u64>,
) -> Seq<bool> {
    Seq::new(
        c.cells.len(),
        |i: int| cell_matches(c.declared_type, c.cells[i], literal, literal_float),
    )
}

/// The items of `s` at the positions where `mask` is true, in their order.
/// Empty where the two differ in length.
pub open spec fn keep<A>(s: Seq<A>, mask: Seq<bool>) -> Seq<A>
    decreases s.len(),
{
    if s.len() == 0 || mask.len() != s.len() {
        Seq::empty()
    } else {
        let before = keep(s.drop_last(), mask.drop_last());
        if mask.last() {
            before.push(s.last())
        } else {
            before
        }
    }
}

/// The column with only the rows that the mask keeps.
pub open spec fn keep_in_column(c: ColumnView, mask: Seq<bool>) -> ColumnView {
    ColumnView { name: c.name, declared_type: c.declared_type, cells: keep(c.cells, mask) }
}

/// The table with only the rows that the mask keeps: the same columns in
/// the same order, each with the kept cells in row order.
pub open spec fn keep_rows(t: Seq<ColumnView>, mask: Seq<bool>) -> Seq<ColumnView> {
    t.map_values(|c: ColumnView| keep_in_column(c, mask))
}

/// Whether no column holds a null in row `row`.
pub open spec fn row_is_complete(t: Seq<ColumnView>, row: int) -> bool {
    forall|c: int| 0 <= c < t.len() ==> !((#[trigger] t[c]).cells[row] is Null)
}

/// The mask that keeps the rows without a null.
pub open spec fn complete_rows(t: Seq<ColumnView>) -> Seq<bool> {
    Seq::new(height(t), |row: int| row_is_complete(t, row))
}

/// The position of the first column of that name.
pub open spec fn column_position(t: Seq<ColumnView>, name: Seq<char>) -> Option<int>
    decreases t.len(),
{
    if t.len() == 0 {
        None
    } else {
        match column_position(t.drop_last(), name) {
            Some(i) => Some(i),
            None => if t.last().name == name {
                Some(t.len() - 1)
            } else {
                None
            },
        }
    }
}

/// What is kept is no longer than what there was.
pub proof fn lemma_keep_is_shorter<A>(s: Seq<A>, mask: Seq<bool>)
    ensures
        keep(s, mask).len() <= s.len(),
    decreases s.len(),
{
    if s.len() > 0 && mask.len() == s.len() {
        lemma_keep_is_shorter(s.drop_last(), mask.drop_last());
    }
}

/// A mask keeps the same number of items of every sequence of its length.
pub proof fn lemma_keep_length<A, B>(a: Seq<A>, b: Seq<B>, mask: Seq<bool>)
    requires
        a.len() == mask.len(),
        b.len() == mask.len(),
    ensures
        keep(a, mask).len() == keep(b, mask).len(),
    decreases mask.len(),
{
    if mask.len() > 0 {
        lemma_keep_length(a.drop_last(), b.drop_last(), mask.drop_last());
    }
}

/// Every kept item satisfies `p` if `p` holds wherever the mask is true.
pub proof fn lemma_keep_only<A>(s: Seq<A>, mask: Seq<bool>, p: spec_fn(A) -> bool)
    requires
        s.len() == mask.len(),
        forall|i: int| 0 <= i < s.len() && mask[i] ==> p(#[trigger] s[i]),
    ensures
        forall|k: int| 0 <= k < keep(s, mask).len() ==> p(#[trigger] keep(s, mask)[k]),
    decreases s.len(),
{
    if s.len() > 0 {
        let s0 = s.drop_last();
        let m0 = mask.drop_last();
        assert forall|i: int| 0 <= i < s0.len() && m0[i] implies p(#[trigger] s0[i]) by {
            assert(s0[i] == s[i]);
            assert(m0[i] == mask[i]);
        }
        lemma_keep_only(s0, m0, p);
        let kept = keep(s, mask);
        assert forall|k: int| 0 <= k < kept.len() implies p(#[trigger] kept[k]) by {
            if k < keep(s0, m0).len() {
                assert(kept[k] == keep(s0, m0)[k]);
            } else {
                assert(mask[s.len() - 1]);
                assert(kept[k] == s[s.len() - 1]);
            }
        }
    }
}

/// A mask that is true everywhere keeps everything.
pub proof fn lemma_keep_all<A>(s: Seq<A>, mask: Seq<bool>)
    requires
        s.len() == mask.len(),
        forall|i: int| 0 <= i < mask.len() ==> mask[i],
    ensures
        keep(s, mask) == s,
    decreases s.len(),
{
    if s.len() > 0 {
        lemma_keep_all(s.drop_last(), mask.drop_last());
        assert(s.drop_last().push(s.last()) =~= s);
    } else {
        assert(keep(s, mask) =~= s);
    }
}

/// A null cell matches no literal, in a column of any type.
pub proof fn lemma_null_never_matches(
    t: ColumnType,
    literal: Seq<char>,
    literal_float: Option<u64>,
)
    ensures
        !cell_matches(t, Cell::Null, literal, literal_float),
{
}

/// A mask has one entry for each row of its column.
pub proof fn lemma_mask_covers_column(c: ColumnView, literal: Seq<char>, literal_float: Option<u64>)
    ensures
        equality_mask(c, literal, literal_float).len() == c.cells.len(),
{
}

/// Selecting rows of a rectangular table by a mask of its height gives a
/// rectangular table with the same columns.
pub proof fn lemma_keep_rows_is_rectangular(t: Seq<ColumnView>, mask: Seq<bool>)
    requires
        is_rectangular(t),
        t.len() > 0 ==> mask.len() == height(t),
    ensures
        is_rectangular(keep_rows(t, mask)),
        keep_rows(t, mask).len() == t.len(),
        height(keep_rows(t, mask)) <= height(t),
{
    let out = keep_rows(t, mask);
    assert forall|i: int| 0 <= i < out.len() implies (#[trigger] out[i]).cells.len()
        == out[0].cells.len() by {
        assert(t[i].cells.len() == t[0].cells.len());
        lemma_keep_length(t[i].cells, t[0].cells, mask);
    }
    if t.len() > 0 {
        lemma_keep_is_shorter(t[0].cells, mask);
    }
}

/// Selecting rows keeps the invariant of a table: the columns keep their
/// names and types, and every kept cell fitted its column before.
pub proof fn lemma_keep_rows_is_well_formed(t: Seq<ColumnView>, mask: Seq<bool>)
    requires
        table_well_formed(t),
        t.len() > 0 ==> mask.len() == height(t),
    ensures
        table_well_formed(keep_rows(t, mask)),
{
    let out = keep_rows(t, mask);
    lemma_keep_rows_is_rectangular(t, mask);
    assert forall|i: int| 0 <= i < out.len() implies column_well_formed(#[trigger] out[i]) by {
        let c = t[i];
        assert(column_well_formed(c));
        assert(c.cells.len() == t[0].cells.len());
        let fitting = |x: Cell| cell_fits(c.declared_type, x);
        assert forall|k: int| 0 <= k < c.cells.len() && mask[k] implies fitting(
            #[trigger] c.cells[k],
        ) by {
            assert(cell_fits(c.declared_type, c.cells[k]));
        }
        lemma_keep_only(c.cells, mask, fitting);
        assert forall|k: int| 0 <= k < out[i].cells.len() implies cell_fits(
            out[i].declared_type,
            #[trigger] out[i].cells[k],
        ) by {
            assert(fitting(keep(c.cells, mask)[k]));
        }
    }
    assert forall|i: int, j: int| 0 <= i < j < out.len() implies (#[trigger] out[i]).name != (
    #[trigger] out[j]).name by {
        assert(t[i].name != t[j].name);
    }
}

/// After the null removal no cell of the table is null.
pub proof fn lemma_dropped_table_holds_no_null(t: Seq<ColumnView>)
    requires
        is_rectangular(t),
    ensures
        forall|c: int, r: int|
            0 <= c < t.len() && 0 <= r < keep_rows(t, complete_rows(t))[c].cells.len() ==> !(
            #[trigger] keep_rows(t, complete_rows(t))[c].cells[r] is Null),
{
    let mask = complete_rows(t);
    let out = keep_rows(t, mask);
    let present = |x: Cell| !(x is Null);
    assert forall|c: int, r: int| 0 <= c < t.len() && 0 <= r < out[c].cells.len() implies !(
    #[trigger] out[c].cells[r] is Null) by {
        let s = t[c].cells;
        assert(s.len() == t[0].cells.len());
        assert forall|i: int| 0 <= i < s.len() && mask[i] implies present(#[trigger] s[i]) by {
            assert(row_is_complete(t, i));
            assert(!(t[c].cells[i] is Null));
        }
        lemma_keep_only(s, mask, present);
        assert(present(keep(s, mask)[r]));
    }
}

/// A table without a null loses no row to the null removal.
pub proof fn lemma_complete_table_is_kept(t: Seq<ColumnView>)
    requires
        is_rectangular(t),
        forall|c: int, r: int|
            0 <= c < t.len() && 0 <= r < height(t) ==> !(#[trigger] t[c].cells[r] is Null),
    ensures
        keep_rows(t, complete_rows(t)) == t,
{
    let mask = complete_rows(t);
    let out = keep_rows(t, mask);
    assert forall|i: int| 0 <= i < t.len() implies out[i] == t[i] by {
        assert(t[i].cells.len() == t[0].cells.len());
        assert forall|r: int| 0 <= r < mask.len() implies mask[r] by {
            assert forall|c: int| 0 <= c < t.len() implies !((#[trigger] t[c]).cells[r]
                is Null) by {
                assert(!(t[c].cells[r] is Null));
            }
        }
        lemma_keep_all(t[i].cells, mask);
    }
    assert(out =~= t);
}

/// Keeps the cells at the positions where the mask is true, and none
/// where the mask has not the length of the cells.
pub fn keep_values(values: &Vec<CellValue>, mask: &Vec<bool>) -> (r: Vec<CellValue>)
    ensures
        cells_of(r@) == keep(cells_of(values@), mask@),
{
    let ghost cells = cells_of(values@);
    let mut out: Vec<CellValue> = Vec::new();
    if values.len() != mask.len() {
        assert(cells_of(out@) =~= keep(cells, mask@));
        return out;
    }
    assert(cells_of(out@) =~= keep(cells.take(0), mask@.take(0)));
    let mut i: usize = 0;
    while i < values.len()
        invariant
            i <= values.len(),
            values.len() == mask.len(),
            cells == cells_of(values@),
            cells_of(out@) == keep(cells.take(i as int), mask@.take(i as int)),
        decreases values.len() - i,
    {
        proof {
            lemma_take_step(cells, i as int);
            lemma_take_step(mask@, i as int);
        }
        let ghost before = cells_of(out@);
        if mask[i] {
            out.push(values[i].clone());
            assert(cells_of(out@) =~= before.push(cells[i as int]));
        }
        i += 1;
    }
    assert(cells.take(i as int) =~= cells);
    assert(mask@.take(i as int) =~= mask@);
    out
}

/// Selects the rows of a table that a mask keeps.
///
/// The result has the columns of the table, in order, with their names
/// and declared types, and in each the cells of the kept rows in row
/// order. Fails with `MalformedTable` when the columns differ in length,
/// and with `MaskLength` when the table is rectangular and has columns
/// but the mask has not one entry for each row.
pub fn select_rows(table: &Table, mask: &Vec<bool>) -> (r: Result<Table, EngineError>)
    ensures
        match r {
            Ok(out) => {
                &&& is_rectangular(table@)
                &&& table@.len() > 0 ==> mask@.len() == height(table@)
                &&& out@ == keep_rows(table@, mask@)
            },
            Err(e) => if !is_rectangular(table@) {
                e == EngineError::MalformedTable
            } else {
                e == EngineError::MaskLength && table@.len() > 0 && mask@.len() != height(table@)
            },
        },
{
    let rows = match table.row_count() {
        Ok(n) => n,
        Err(e) => {
            return Err(e);
        },
    };
    if table.columns.len() > 0 && mask.len() != rows {
        return Err(EngineError::MaskLength);
    }
    let mut columns: Vec<Column> = Vec::new();
    let mut i: usize = 0;
    while i < table.columns.len()
        invariant
            i <= table.columns.len(),
            is_rectangular(table@),
            table@.len() > 0 ==> mask@.len() == height(table@),
            columns.len() == i,
            forall|k: int|
                0 <= k < i ==> (#[trigger] columns[k])@ == keep_in_column(table@[k], mask@),
        decreases table.columns.len() - i,
    {
        let column = &table.columns[i];
        assert(table@[i as int].cells.len() == table@[0].cells.len());
        columns.push(
            Column {
                name: column.name.clone(),
                declared_type: column.declared_type,
                values: keep_values(&column.values, mask),
            },
        );
        i += 1;
    }
    let out = Table { columns };
    assert(out@ =~= keep_rows(table@, mask@));
    Ok(out)
}

/// Computes the mask of an equality predicate on a column.
///
/// `literal` is the comparison value as text. `literal_float` is the same
/// text read as a 64-bit float, by its bit pattern, or `None` where it
/// does not read as one; it is consulted for float columns only.
///
/// - A text column matches the cells that are exactly the literal.
/// - An integer column matches the cells equal to the integer that the
///   literal writes. A literal that writes no integer stands for 0.
/// - A float column matches by IEEE-754 equality. A literal that reads as
///   no float stands for 0.
/// - Any other column fails with `UnsupportedFilterType`.
///
/// A null cell never matches.
pub fn evaluate_equality(column: &Column, literal: &str, literal_float: Option<u64>) -> (r: Result<
    Vec<bool>,
    EngineError,
>)
    ensures
        match r {
            Ok(mask) => supports_equality(column@.declared_type) && mask@ == equality_mask(
                column@,
                literal@,
                literal_float,
            ),
            Err(e) => e == EngineError::UnsupportedFilterType && !supports_equality(
                column@.declared_type,
            ),
        },
{
    match column.declared_type {
        ColumnType::Str => Ok(text_equality_mask(&column.values, literal)),
        ColumnType::Int => {
            let target = match parse_int(literal) {
                Some(v) => v,
                None => 0,
            };
            Ok(int_equality_mask(&column.values, target))
        },
        ColumnType::Float => {
            let target = match literal_float {
                Some(b) => b,
                None => 0,
            };
            Ok(float_equality_mask(&column.values, target))
        },
        _ => Err(EngineError::UnsupportedFilterType),
    }
}

/// The mask of the cells that are exactly the text `literal`.
pub fn text_equality_mask(values: &Vec<CellValue>, literal: &str) -> (r: Vec<bool>)
    ensures
        r@ == Seq::new(values@.len(), |i: int| text_matches(cells_of(values@)[i], literal@)),
{
    let mut mask: Vec<bool> = Vec::new();
    let mut i: usize = 0;
    while i < values.len()
        invariant
            i <= values.len(),
            mask.len() == i,
            forall|k: int| 0 <= k < i ==> mask[k] == text_matches(#[trigger] values[k]@, literal@),
        decreases values.len() - i,
    {
        let hit = match &values[i] {
            CellValue::Str(s) => text_eq(s.as_str(), literal),
            _ => false,
        };
        mask.push(hit);
        i += 1;
    }
    assert(mask@ =~= Seq::new(
        values@.len(),
        |i: int| text_matches(cells_of(values@)[i], literal@),
    ));
    mask
}

/// The mask of the cells that are the integer `target`.
pub fn int_equality_mask(values: &Vec<CellValue>, target: i64) -> (r: Vec<bool>)
    ensures
        r@ == Seq::new(values@.len(), |i: int| int_matches(cells_of(values@)[i], target)),
{
    let mut mask: Vec<bool> = Vec::new();
    let mut i: usize = 0;
    while i < values.len()
        invariant
            i <= values.len(),
            mask.len() == i,
            forall|k: int| 0 <= k < i ==> mask[k] == int_matches(#[trigger] values[k]@, target),
        decreases values.len() - i,
    {
        let hit = match &values[i] {
            CellValue::Int(v) => *v == target,
            _ => false,
        };
        mask.push(hit);
        i += 1;
    }
    assert(mask@ =~= Seq::new(
        values@.len(),
        |i: int| int_matches(cells_of(values@)[i], target),
    ));
    mask
}

/// The mask of the float cells that are IEEE-equal to the bit pattern
/// `target`.
pub fn float_equality_mask(values: &Vec<CellValue>, target: u64) -> (r: Vec<bool>)
    ensures
        r@ == Seq::new(values@.len(), |i: int| float_matches(cells_of(values@)[i], target)),
{
    let mut mask: Vec<bool> = Vec::new();
    let mut i: usize = 0;
    while i < values.len()
        invariant
            i <= values.len(),
            mask.len() == i,
            forall|k: int| 0 <= k < i ==> mask[k] == float_matches(#[trigger] values[k]@, target),
        decreases values.len() - i,
    {
        let hit = match &values[i] {
            CellValue::Float(b) => float_ieee_eq(*b, target),
            _ => false,
        };
        mask.push(hit);
        i += 1;
    }
    assert(mask@ =~= Seq::new(
        values@.len(),
        |i: int| float_matches(cells_of(values@)[i], target),
    ));
    mask
}

/// Computes the mask that keeps the rows without a null: an entry is true
/// where no column holds a null in that row. Fails with `MalformedTable`
/// exactly when the columns differ in length.
pub fn complete_row_mask(table: &Table) -> (r: Result<Vec<bool>, EngineError>)
    ensures
        match r {
            Ok(mask) => is_rectangular(table@) && mask@ == complete_rows(table@),
            Err(e) => e == EngineError::MalformedTable && !is_rectangular(table@),
        },
{
    let rows = match table.row_count() {
        Ok(n) => n,
        Err(e) => {
            return Err(e);
        },
    };
    let mut mask: Vec<bool> = Vec::new();
    let mut row: usize = 0;
    while row < rows
        invariant
            row <= rows,
            is_rectangular(table@),
            rows == height(table@),
            mask.len() == row,
            forall|k: int| 0 <= k < row ==> mask[k] == row_is_complete(table@, k),
        decreases rows - row,
    {
        let mut complete = true;
        let mut c: usize = 0;
        while c < table.columns.len() && complete
            invariant
                c <= table.columns.len(),
                row < rows,
                is_rectangular(table@),
                rows == height(table@),
                complete ==> forall|k: int|
                    0 <= k < c ==> !((#[trigger] table@[k]).cells[row as int] is Null),
                !complete ==> !row_is_complete(table@, row as int),
            decreases table.columns.len() - c,
        {
            assert(table@[c as int].cells.len() == table@[0].cells.len());
            if table.columns[c].values[row].is_null() {
                assert(table@[c as int].cells[row as int] is Null);
                complete = false;
            }
            c += 1;
        }
        mask.push(complete);
        row += 1;
    }
    assert(mask@ =~= complete_rows(table@));
    Ok(mask)
}

/// Removes every row in which some column holds a null.
///
/// The result holds exactly the rows without a null, in their order,
/// under the same columns. Fails with `MalformedTable` exactly when the
/// columns differ in length.
pub fn drop_null_rows(table: &Table) -> (r: Result<Table, EngineError>)
    ensures
        match r {
            Ok(out) => is_rectangular(table@) && out@ == keep_rows(table@, complete_rows(table@)),
            Err(e) => e == EngineError::MalformedTable && !is_rectangular(table@),
        },
{
    match complete_row_mask(table) {
        Ok(mask) => select_rows(table, &mask),
        Err(e) => Err(e),
    }
}

/// Finds the first column of the given name.
pub fn find_column(table: &Table, name: &str) -> (r: Option<usize>)
    ensures
        match r {
            Some(i) => column_position(table@, name@) == Some(i as int) && i < table@.len()
                && table@[i as int].name == name@,
            None => column_position(table@, name@) is None,
        },
{
    let mut i: usize = 0;
    while i < table.columns.len()
        invariant
            i <= table.columns.len(),
            column_position(table@.take(i as int), name@) is None,
        decreases table.columns.len() - i,
    {
        proof {
            lemma_take_step(table@, i as int);
        }
        if text_eq(table.columns[i].name.as_str(), name) {
            proof {
                lemma_position_of_prefix(table@, name@, i + 1);
            }
            return Some(i);
        }
        i += 1;
    }
    assert(table@.take(i as int) =~= table@);
    None
}

/// The position that is found is that of a column of the name, and no
/// column before it has the name.
pub proof fn lemma_column_position_is_first(t: Seq<ColumnView>, name: Seq<char>)
    ensures
        match column_position(t, name) {
            Some(i) => {
                &&& 0 <= i < t.len()
                &&& t[i].name == name
                &&& forall|k: int| 0 <= k < i ==> (#[trigger] t[k]).name != name
            },
            None => forall|k: int| 0 <= k < t.len() ==> (#[trigger] t[k]).name != name,
        },
    decreases t.len(),
{
    if t.len() > 0 {
        let p = t.drop_last();
        lemma_column_position_is_first(p, name);
        assert(forall|k: int| 0 <= k < p.len() ==> p[k] == t[k]);
        match column_position(t, name) {
            Some(i) => {
                assert forall|k: int| 0 <= k < i implies (#[trigger] t[k]).name != name by {
                    assert(p[k] == t[k]);
                }
            },
            None => {
                assert forall|k: int| 0 <= k < t.len() implies (#[trigger] t[k]).name != name by {
                    if k < p.len() {
                        assert(p[k] == t[k]);
                    }
                }
            },
        }
    }
}

/// A column found in a prefix of the table is the column found in the table.
proof fn lemma_position_of_prefix(t: Seq<ColumnView>, name: Seq<char>, i: int)
    requires
        0 <= i <= t.len(),
        column_position(t.take(i), name) is Some,
    ensures
        column_position(t, name) == column_position(t.take(i), name),
    decreases t.len() - i,
{
    if i == t.len() {
        assert(t.take(i) =~= t);
    } else {
        lemma_take_step(t, i);
        lemma_position_of_prefix(t, name, i + 1);
    }
}

} // verus!
