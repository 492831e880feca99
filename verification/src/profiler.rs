//! Per-column statistics: declared type, null count, number of distinct
//! values, least and greatest value, and the first few texts of a text
//! column.

use vstd::prelude::*;
use vstd::string::*;
use crate::error::EngineError;
use crate::seqs::lemma_take_step;
use crate::table::{Column, ColumnView, Table, height, is_rectangular};
use crate::value::{
    Cell, ColumnType, CellValue, cells_of, float_is_nan, float_total_less, is_nan, same_value,
    total_key,
};

verus! {

/// The most texts that a profile samples from a text column.
pub const SAMPLE_LIMIT: usize = 3;

/// The short profile of one column.
#[derive(Debug, PartialEq)]
pub struct Profile {
    pub column: String,
    pub dtype: String,
    pub nulls: usize,
}

/// Mathematical model of a [`Profile`].
pub struct ProfileView {
    pub column: Seq<char>,
    pub dtype: Seq<char>,
    pub nulls: nat,
}

impl View for Profile {
    type V = ProfileView;

    open spec fn view(&self) -> ProfileView {
        ProfileView { column: self.column@, dtype: self.dtype@, nulls: self.nulls as nat }
    }
}

/// The least or the greatest value of a column. `Float` holds the bit
/// pattern of the number; `Null` says that the column has no such value.
#[derive(Debug, PartialEq)]
pub enum MinMaxValue {
    Int(i64),
    Float(u64),
    Str(String),
    Null,
}

impl View for MinMaxValue {
    type V = Cell;

    open spec fn view(&self) -> Cell {
        match self {
            MinMaxValue::Int(v) => Cell::Int(*v),
            MinMaxValue::Float(b) => Cell::Float(*b),
            MinMaxValue::Str(s) => Cell::Str(s@),
            MinMaxValue::Null => Cell::Null,
        }
    }
}

/// The detailed profile of one column.
#[derive(Debug, PartialEq)]
pub struct ColumnProfileDetailed {
    pub column: String,
    pub dtype: String,
    pub nulls: usize,
    pub unique: Option<usize>,
    pub min: MinMaxValue,
    pub max: MinMaxValue,
    pub sample_values: Option<Vec<String>>,
}

/// Mathematical model of a [`ColumnProfileDetailed`].
pub struct DetailedProfileView {
    pub column: Seq<char>,
    pub dtype: Seq<char>,
    pub nulls: nat,
    pub unique: Option<nat>,
    pub min: Cell,
    pub max: Cell,
    pub sample_values: Option<Seq<Seq<char>>>,
}

/// The texts that a vector of strings stands for.
pub open spec fn texts_of(v: Seq<String>) -> Seq<Seq<char>> {
    v.map_values(|s: String| s@)
}

impl View for ColumnProfileDetailed {
    type V = DetailedProfileView;

    open spec fn view(&self) -> DetailedProfileView {
        DetailedProfileView {
            column: self.column@,
            dtype: self.dtype@,
            nulls: self.nulls as nat,
            unique: match self.unique {
                Some(n) => Some(n as nat),
                None => None,
            },
            min: self.min@,
            max: self.max@,
            sample_values: match self.sample_values {
                Some(v) => Some(texts_of(v@)),
                None => None,
            },
        }
    }
}

/// The name under which a declared type is reported.
pub open spec fn dtype_name(t: ColumnType) -> Seq<char> {
    match t {
        ColumnType::Int => "Int64"@,
        ColumnType::Float => "Float64"@,
        ColumnType::Str => "String"@,
        ColumnType::Bool => "Boolean"@,
        ColumnType::Date => "Date"@,
        ColumnType::Datetime => "Datetime"@,
        ColumnType::Unknown => "Unknown"@,
    }
}

/// The number of null cells.
pub open spec fn null_count(s: Seq<Cell>) -> nat
    decreases s.len(),
{
    if s.len() == 0 {
        0
    } else {
        null_count(s.drop_last()) + if s.last() is Null { 1nat } else { 0nat }
    }
}

/// The number of cells that are not null.
pub open spec fn present_count(s: Seq<Cell>) -> nat
    decreases s.len(),
{
    if s.len() == 0 {
        0
    } else {
        present_count(s.drop_last()) + if s.last() is Null { 0nat } else { 1nat }
    }
}

/// Whether no cell before position `i` counts as the same value as the
/// cell at `i`.
pub open spec fn is_first_occurrence(s: Seq<Cell>, i: int) -> bool {
    forall|j: int| 0 <= j < i ==> !same_value(#[trigger] s[j], s[i])
}

/// The number of distinct values: the number of cells that are the first
/// of their value. Null counts as a value of its own.
pub open spec fn distinct_count(s: Seq<Cell>) -> nat
    decreases s.len(),
{
    if s.len() == 0 {
        0
    } else {
        distinct_count(s.drop_last()) + if is_first_occurrence(s, s.len() - 1) {
            1nat
        } else {
            0nat
        }
    }
}

/// Whether the declared type stores its cells as integers.
pub open spec fn is_int_like(t: ColumnType) -> bool {
    t is Int || t is Bool || t is Date || t is Datetime
}

/// The key by which a cell takes part in the search for the least and the
/// greatest value of a column of declared type `t`, if it takes part:
/// an integer cell of an integer-like column by its value, a float cell of
/// a float column by its place in the IEEE-754 total order unless it is a
/// NaN. Nulls, NaNs, and all cells of text and unknown columns have no key.
pub open spec fn order_key(t: ColumnType, c: Cell) -> Option<int> {
    match c {
        Cell::Int(v) => if is_int_like(t) {
            Some(v as int)
        } else {
            None
        },
        Cell::Float(b) => if t is Float && !is_nan(b) {
            Some(total_key(b))
        } else {
            None
        },
        _ => None,
    }
}

/// Whether key `a` replaces key `b` in a search for the greatest key, or
/// for the least.
pub open spec fn beats(a: int, b: int, greatest: bool) -> bool {
    if greatest {
        a > b
    } else {
        a < b
    }
}

/// The position of the first cell among those with the least key (or the
/// greatest), and `None` where no cell has a key.
pub open spec fn extreme_index(t: ColumnType, s: Seq<Cell>, greatest: bool) -> Option<int>
    decreases s.len(),
{
    if s.len() == 0 {
        None
    } else {
        let before = extreme_index(t, s.drop_last(), greatest);
        match order_key(t, s.last()) {
            None => before,
            Some(k) => match before {
                None => Some(s.len() - 1),
                Some(b) => if beats(k, order_key(t, s[b]).unwrap(), greatest) {
                    Some(s.len() - 1)
                } else {
                    before
                },
            },
        }
    }
}

/// The least value of the column, as a cell; null where no cell has a key.
pub open spec fn column_min(t: ColumnType, s: Seq<Cell>) -> Cell {
    match extreme_index(t, s, false) {
        Some(i) => s[i],
        None => Cell::Null,
    }
}

/// The greatest value of the column, as a cell; null where no cell has a key.
pub open spec fn column_max(t: ColumnType, s: Seq<Cell>) -> Cell {
    match extreme_index(t, s, true) {
        Some(i) => s[i],
        None => Cell::Null,
    }
}

/// The texts of the text cells, in row order, repeats included.
pub open spec fn text_cells(s: Seq<Cell>) -> Seq<Seq<char>>
    decreases s.len(),
{
    if s.len() == 0 {
        Seq::empty()
    } else {
        let before = text_cells(s.drop_last());
        match s.last() {
            Cell::Str(x) => before.push(x),
            _ => before,
        }
    }
}

/// The first [`SAMPLE_LIMIT`] texts of the column, or all where it has fewer.
pub open spec fn samples_of(s: Seq<Cell>) -> Seq<Seq<char>> {
    let all = text_cells(s);
    if all.len() > SAMPLE_LIMIT {
        all.take(SAMPLE_LIMIT as int)
    } else {
        all
    }
}

/// The short profile of a column.
pub open spec fn short_profile(c: ColumnView) -> ProfileView {
    ProfileView {
        column: c.name,
        dtype: dtype_name(c.declared_type),
        nulls: null_count(c.cells),
    }
}

/// The detailed profile of a column. Samples are taken from text columns
/// only; least and greatest value are null for text and unknown columns.
pub open spec fn detailed_profile(c: ColumnView) -> DetailedProfileView {
    DetailedProfileView {
        column: c.name,
        dtype: dtype_name(c.declared_type),
        nulls: null_count(c.cells),
        unique: Some(distinct_count(c.cells)),
        min: column_min(c.declared_type, c.cells),
        max: column_max(c.declared_type, c.cells),
        sample_values: if c.declared_type is Str {
            Some(samples_of(c.cells))
        } else {
            None
        },
    }
}

/// A column has no more nulls, and no more distinct values, than cells.
pub proof fn lemma_counts_bounded(s: Seq<Cell>)
    ensures
        null_count(s) <= s.len(),
        distinct_count(s) <= s.len(),
        s.len() > 0 ==> distinct_count(s) >= 1,
    decreases s.len(),
{
    if s.len() > 0 {
        lemma_counts_bounded(s.drop_last());
        if s.len() == 1 {
            assert(is_first_occurrence(s, 0));
        }
    }
}

/// Every cell is either null or present: the two counts add up to the
/// length of the column.
pub proof fn lemma_nulls_and_present(s: Seq<Cell>)
    ensures
        null_count(s) + present_count(s) == s.len(),
    decreases s.len(),
{
    if s.len() > 0 {
        lemma_nulls_and_present(s.drop_last());
    }
}

/// Counting as the same value is an equivalence relation on cells.
pub proof fn lemma_same_value_equivalence(a: Cell, b: Cell, c: Cell)
    ensures
        same_value(a, a),
        same_value(a, b) == same_value(b, a),
        same_value(a, b) && same_value(b, c) ==> same_value(a, c),
{
}

/// The search settles on a cell that has a key which no key of the column
/// beats; it finds none exactly when no cell has a key.
pub proof fn lemma_extreme_is_bound(t: ColumnType, s: Seq<Cell>, greatest: bool)
    ensures
        match extreme_index(t, s, greatest) {
            Some(i) => {
                &&& 0 <= i < s.len()
                &&& order_key(t, s[i]) is Some
                &&& forall|j: int|
                    0 <= j < s.len() && order_key(t, #[trigger] s[j]) is Some ==> !beats(
                        order_key(t, s[j]).unwrap(),
                        order_key(t, s[i]).unwrap(),
                        greatest,
                    )
            },
            None => forall|j: int| 0 <= j < s.len() ==> order_key(t, #[trigger] s[j]) is None,
        },
    decreases s.len(),
{
    if s.len() > 0 {
        let p = s.drop_last();
        lemma_extreme_is_bound(t, p, greatest);
        assert(forall|j: int| 0 <= j < p.len() ==> p[j] == s[j]);
        match extreme_index(t, s, greatest) {
            Some(i) => {
                assert forall|j: int|
                    0 <= j < s.len() && order_key(t, #[trigger] s[j]) is Some implies !beats(
                    order_key(t, s[j]).unwrap(),
                    order_key(t, s[i]).unwrap(),
                    greatest,
                ) by {
                    if j < p.len() {
                        assert(p[j] == s[j]);
                    }
                }
            },
            None => {
                assert forall|j: int| 0 <= j < s.len() implies order_key(t, #[trigger] s[j])
                    is None by {
                    if j < p.len() {
                        assert(p[j] == s[j]);
                    }
                }
            },
        }
    }
}

/// A NaN is never the least or the greatest value, and a float column
/// that holds a number has both.
pub proof fn lemma_nan_is_never_an_extreme(s: Seq<Cell>, greatest: bool)
    ensures
        match extreme_index(ColumnType::Float, s, greatest) {
            Some(i) => 0 <= i < s.len() && s[i] is Float && !is_nan(s[i]->Float_0),
            None => forall|j: int|
                0 <= j < s.len() && #[trigger] s[j] is Float ==> is_nan(s[j]->Float_0),
        },
{
    lemma_extreme_is_bound(ColumnType::Float, s, greatest);
    match extreme_index(ColumnType::Float, s, greatest) {
        Some(i) => {},
        None => {
            assert forall|j: int| 0 <= j < s.len() && #[trigger] s[j] is Float implies is_nan(
                s[j]->Float_0,
            ) by {
                assert(order_key(ColumnType::Float, s[j]) is None);
            }
        },
    }
}

/// A text column, and a column of unknown type, has neither a least nor a
/// greatest value.
pub proof fn lemma_text_column_has_no_extremes(t: ColumnType, s: Seq<Cell>, greatest: bool)
    requires
        t is Str || t is Unknown,
    ensures
        extreme_index(t, s, greatest) is None,
        column_min(t, s) is Null,
        column_max(t, s) is Null,
    decreases s.len(),
{
    if s.len() > 0 {
        lemma_text_column_has_no_extremes(t, s.drop_last(), true);
        lemma_text_column_has_no_extremes(t, s.drop_last(), false);
    }
}

/// The profile of a text column reports neither a least nor a greatest
/// value, whatever the column holds.
pub proof fn lemma_text_profile_has_no_extremes(c: ColumnView)
    requires
        c.declared_type is Str,
    ensures
        detailed_profile(c).min is Null,
        detailed_profile(c).max is Null,
        detailed_profile(c).sample_values is Some,
{
    lemma_text_column_has_no_extremes(c.declared_type, c.cells, false);
}

/// In every profile the null count and the number of cells that are not
/// null add up to the length of the column.
pub proof fn lemma_profile_counts_every_cell(c: ColumnView)
    ensures
        detailed_profile(c).nulls + present_count(c.cells) == c.cells.len(),
        short_profile(c).nulls + present_count(c.cells) == c.cells.len(),
{
    lemma_nulls_and_present(c.cells);
}

/// The texts of a prefix of the column are a prefix of its texts.
pub proof fn lemma_text_cells_prefix(s: Seq<Cell>, i: int)
    requires
        0 <= i <= s.len(),
    ensures
        text_cells(s.take(i)).len() <= text_cells(s).len(),
        text_cells(s.take(i)) == text_cells(s).take(text_cells(s.take(i)).len() as int),
    decreases s.len() - i,
{
    if i == s.len() {
        assert(s.take(i) =~= s);
        assert(text_cells(s).take(text_cells(s).len() as int) =~= text_cells(s));
    } else {
        lemma_text_cells_prefix(s, i + 1);
        lemma_take_step(s, i);
        let shorter = text_cells(s.take(i));
        let longer = text_cells(s.take(i + 1));
        assert(shorter =~= longer.take(shorter.len() as int));
        assert(shorter =~= text_cells(s).take(shorter.len() as int));
    }
}

/// The reported name of a declared type.
pub fn dtype_label(t: ColumnType) -> (r: String)
    ensures
        r@ == dtype_name(t),
{
    match t {
        ColumnType::Int => String::from_str("Int64"),
        ColumnType::Float => String::from_str("Float64"),
        ColumnType::Str => String::from_str("String"),
        ColumnType::Bool => String::from_str("Boolean"),
        ColumnType::Date => String::from_str("Date"),
        ColumnType::Datetime => String::from_str("Datetime"),
        ColumnType::Unknown => String::from_str("Unknown"),
    }
}

/// Counts the null cells.
pub fn count_nulls(values: &Vec<CellValue>) -> (r: usize)
    ensures
        r == null_count(cells_of(values@)),
{
    let ghost cells = cells_of(values@);
    let mut n: usize = 0;
    let mut i: usize = 0;
    while i < values.len()
        invariant
            i <= values.len(),
            cells == cells_of(values@),
            n == null_count(cells.take(i as int)),
            n <= i,
        decreases values.len() - i,
    {
        proof {
            lemma_take_step(cells, i as int);
        }
        if values[i].is_null() {
            n += 1;
        }
        i += 1;
    }
    assert(cells.take(i as int) =~= cells);
    n
}

/// Tells whether an earlier cell counts as the same value as the cell at `i`.
fn seen_before(values: &Vec<CellValue>, i: usize) -> (r: bool)
    requires
        i < values.len(),
    ensures
        r == !is_first_occurrence(cells_of(values@), i as int),
{
    let ghost cells = cells_of(values@);
    let mut j: usize = 0;
    while j < i
        invariant
            j <= i < values.len(),
            cells == cells_of(values@),
            forall|k: int| 0 <= k < j ==> !same_value(#[trigger] cells[k], cells[i as int]),
        decreases i - j,
    {
        if values[j].same_as(&values[i]) {
            assert(same_value(cells[j as int], cells[i as int]));
            return true;
        }
        j += 1;
    }
    false
}

/// Counts the distinct values, null included as one of them. Every cell
/// is compared with the cells before it.
pub fn count_distinct(values: &Vec<CellValue>) -> (r: usize)
    ensures
        r == distinct_count(cells_of(values@)),
{
    let ghost cells = cells_of(values@);
    let mut n: usize = 0;
    let mut i: usize = 0;
    while i < values.len()
        invariant
            i <= values.len(),
            cells == cells_of(values@),
            n == distinct_count(cells.take(i as int)),
            n <= i,
        decreases values.len() - i,
    {
        proof {
            lemma_take_step(cells, i as int);
            let p = cells.take(i + 1);
            assert(forall|k: int| 0 <= k <= i ==> p[k] == cells[k]);
            assert(is_first_occurrence(p, i as int) == is_first_occurrence(cells, i as int)) by {
                if is_first_occurrence(cells, i as int) {
                    assert forall|k: int| 0 <= k < i implies !same_value(
                        #[trigger] p[k],
                        p[i as int],
                    ) by {
                        assert(!same_value(cells[k], cells[i as int]));
                    }
                }
                if is_first_occurrence(p, i as int) {
                    assert forall|k: int| 0 <= k < i implies !same_value(
                        #[trigger] cells[k],
                        cells[i as int],
                    ) by {
                        assert(!same_value(p[k], p[i as int]));
                    }
                }
            }
        }
        if !seen_before(values, i) {
            n += 1;
        }
        i += 1;
    }
    assert(cells.take(i as int) =~= cells);
    n
}

/// Tells whether a cell takes part in the search for least and greatest.
fn has_key(t: ColumnType, v: &CellValue) -> (r: bool)
    ensures
        r == (order_key(t, v@) is Some),
{
    match v {
        CellValue::Int(_) => match t {
            ColumnType::Int | ColumnType::Bool | ColumnType::Date | ColumnType::Datetime => true,
            _ => false,
        },
        CellValue::Float(b) => match t {
            ColumnType::Float => !float_is_nan(*b),
            _ => false,
        },
        _ => false,
    }
}

/// Tells whether the key of `a` replaces the key of `b` in the search.
fn key_beats(t: ColumnType, a: &CellValue, b: &CellValue, greatest: bool) -> (r: bool)
    requires
        order_key(t, a@) is Some,
        order_key(t, b@) is Some,
    ensures
        r == beats(order_key(t, a@).unwrap(), order_key(t, b@).unwrap(), greatest),
{
    match a {
        CellValue::Int(x) => match b {
            CellValue::Int(y) => if greatest {
                *x > *y
            } else {
                *x < *y
            },
            _ => false,
        },
        CellValue::Float(x) => match b {
            CellValue::Float(y) => if greatest {
                float_total_less(*y, *x)
            } else {
                float_total_less(*x, *y)
            },
            _ => false,
        },
        _ => false,
    }
}

/// Finds the position of the least value of the column, or of the
/// greatest, in one pass.
pub fn find_extreme(t: ColumnType, values: &Vec<CellValue>, greatest: bool) -> (r: Option<usize>)
    ensures
        match r {
            Some(i) => extreme_index(t, cells_of(values@), greatest) == Some(i as int) && i
                < values.len(),
            None => extreme_index(t, cells_of(values@), greatest) is None,
        },
{
    let ghost cells = cells_of(values@);
    let mut best: Option<usize> = None;
    let mut i: usize = 0;
    while i < values.len()
        invariant
            i <= values.len(),
            cells == cells_of(values@),
            match best {
                Some(b) => extreme_index(t, cells.take(i as int), greatest) == Some(b as int)
                    && b < i && order_key(t, cells[b as int]) is Some,
                None => extreme_index(t, cells.take(i as int), greatest) is None,
            },
        decreases values.len() - i,
    {
        proof {
            lemma_take_step(cells, i as int);
            let p = cells.take(i + 1);
            assert(forall|k: int| 0 <= k <= i ==> p[k] == cells[k]);
        }
        if has_key(t, &values[i]) {
            match best {
                None => {
                    best = Some(i);
                },
                Some(b) => {
                    if key_beats(t, &values[i], &values[b], greatest) {
                        best = Some(i);
                    }
                },
            }
        }
        i += 1;
    }
    assert(cells.take(i as int) =~= cells);
    best
}

/// The least value of the column, or the greatest.
pub fn column_extreme(t: ColumnType, values: &Vec<CellValue>, greatest: bool) -> (r: MinMaxValue)
    ensures
        r@ == if greatest {
            column_max(t, cells_of(values@))
        } else {
            column_min(t, cells_of(values@))
        },
{
    match find_extreme(t, values, greatest) {
        Some(i) => match &values[i] {
            CellValue::Int(v) => MinMaxValue::Int(*v),
            CellValue::Float(b) => MinMaxValue::Float(*b),
            CellValue::Str(s) => MinMaxValue::Str(s.clone()),
            CellValue::Null => MinMaxValue::Null,
        },
        None => MinMaxValue::Null,
    }
}

/// Collects the first [`SAMPLE_LIMIT`] texts of the column in row order.
/// A text that recurs is taken again.
pub fn collect_samples(values: &Vec<CellValue>) -> (r: Vec<String>)
    ensures
        texts_of(r@) == samples_of(cells_of(values@)),
{
    let ghost cells = cells_of(values@);
    let mut out: Vec<String> = Vec::new();
    let mut i: usize = 0;
    while i < values.len() && out.len() < SAMPLE_LIMIT
        invariant
            i <= values.len(),
            cells == cells_of(values@),
            out.len() <= SAMPLE_LIMIT,
            texts_of(out@) == text_cells(cells.take(i as int)),
        decreases values.len() - i,
    {
        proof {
            lemma_take_step(cells, i as int);
        }
        let ghost before = texts_of(out@);
        match &values[i] {
            CellValue::Str(s) => {
                out.push(s.clone());
                assert(texts_of(out@) =~= before.push(s@));
            },
            _ => {},
        }
        i += 1;
    }
    proof {
        lemma_text_cells_prefix(cells, i as int);
        if i == values.len() {
            assert(cells.take(i as int) =~= cells);
        }
    }
    out
}

/// Profiles one column in detail.
pub fn profile_column(column: &Column) -> (r: ColumnProfileDetailed)
    ensures
        r@ == detailed_profile(column@),
{
    let t = column.declared_type;
    let sample_values = match t {
        ColumnType::Str => Some(collect_samples(&column.values)),
        _ => None,
    };
    ColumnProfileDetailed {
        column: column.name.clone(),
        dtype: dtype_label(t),
        nulls: count_nulls(&column.values),
        unique: Some(count_distinct(&column.values)),
        min: column_extreme(t, &column.values, false),
        max: column_extreme(t, &column.values, true),
        sample_values,
    }
}

/// The detailed profiles of the columns of a table, in column order.
pub open spec fn detailed_profiles(t: Seq<ColumnView>) -> Seq<DetailedProfileView> {
    t.map_values(|c: ColumnView| detailed_profile(c))
}

/// The short profiles of the columns of a table, in column order.
pub open spec fn short_profiles(t: Seq<ColumnView>) -> Seq<ProfileView> {
    t.map_values(|c: ColumnView| short_profile(c))
}

/// The models of a vector of detailed profiles.
pub open spec fn detailed_views(v: Seq<ColumnProfileDetailed>) -> Seq<DetailedProfileView> {
    v.map_values(|p: ColumnProfileDetailed| p@)
}

/// The models of a vector of short profiles.
pub open spec fn short_views(v: Seq<Profile>) -> Seq<ProfileView> {
    v.map_values(|p: Profile| p@)
}

/// What [`profile_df_detailed`] owes for a table: the row count and the
/// profile of every column, in column order, for a rectangular table, and
/// `MalformedTable` for any other.
pub open spec fn is_detailed_outcome(
    t: Seq<ColumnView>,
    r: Result<(usize, Vec<ColumnProfileDetailed>), EngineError>,
) -> bool {
    match r {
        Ok((rows, profiles)) => {
            &&& is_rectangular(t)
            &&& rows == height(t)
            &&& profiles.len() == t.len()
            &&& detailed_views(profiles@) == detailed_profiles(t)
        },
        Err(e) => e == EngineError::MalformedTable && !is_rectangular(t),
    }
}

/// There is one profile for each column, and the profile at a position is
/// that of the column at that position.
pub proof fn lemma_profiles_follow_columns(
    t: Seq<ColumnView>,
    rows: usize,
    profiles: Vec<ColumnProfileDetailed>,
)
    requires
        is_detailed_outcome(t, Ok((rows, profiles))),
    ensures
        profiles.len() == t.len(),
        forall|i: int| 0 <= i < t.len() ==> (#[trigger] profiles[i])@ == detailed_profile(t[i]),
        forall|i: int| 0 <= i < t.len() ==> (#[trigger] profiles[i])@.column == t[i].name,
{
    assert forall|i: int| 0 <= i < t.len() implies (#[trigger] profiles[i])@ == detailed_profile(
        t[i],
    ) by {
        assert(detailed_views(profiles@)[i] == detailed_profiles(t)[i]);
    }
}

/// Profiling the same table twice gives the same outcome: the same row
/// count and, position by position, the same profiles, or the same error.
pub proof fn lemma_profiling_is_repeatable(
    t: Seq<ColumnView>,
    first: Result<(usize, Vec<ColumnProfileDetailed>), EngineError>,
    second: Result<(usize, Vec<ColumnProfileDetailed>), EngineError>,
)
    requires
        is_detailed_outcome(t, first),
        is_detailed_outcome(t, second),
    ensures
        match (first, second) {
            (Ok((rows1, profiles1)), Ok((rows2, profiles2))) => rows1 == rows2 && detailed_views(
                profiles1@,
            ) == detailed_views(profiles2@),
            (Err(e1), Err(e2)) => e1 == e2,
            _ => false,
        },
{
}

/// Profiles a table: its row count and, for each column in order, the
/// column's name, reported type and null count.
///
/// Fails with `MalformedTable`, before any column is profiled, exactly
/// when the columns differ in length.
pub fn profile_df(df: &Table) -> (r: Result<(usize, Vec<Profile>), EngineError>)
    ensures
        match r {
            Ok((rows, profiles)) => {
                &&& is_rectangular(df@)
                &&& rows == height(df@)
                &&& profiles.len() == df@.len()
                &&& short_views(profiles@) == short_profiles(df@)
            },
            Err(e) => e == EngineError::MalformedTable && !is_rectangular(df@),
        },
{
    let rows = match df.row_count() {
        Ok(n) => n,
        Err(e) => {
            return Err(e);
        },
    };
    let mut profiles: Vec<Profile> = Vec::new();
    let mut i: usize = 0;
    while i < df.columns.len()
        invariant
            i <= df.columns.len(),
            profiles.len() == i,
            forall|k: int| 0 <= k < i ==> (#[trigger] profiles[k])@ == short_profile(df@[k]),
        decreases df.columns.len() - i,
    {
        let column = &df.columns[i];
        profiles.push(
            Profile {
                column: column.name.clone(),
                dtype: dtype_label(column.declared_type),
                nulls: count_nulls(&column.values),
            },
        );
        i += 1;
    }
    assert(short_views(profiles@) =~= short_profiles(df@));
    Ok((rows, profiles))
}

/// Profiles a table in detail: its row count and one detailed profile for
/// each column, in column order.
///
/// Fails with `MalformedTable`, before any column is profiled, exactly
/// when the columns differ in length. A statistic that a column does not
/// have is reported as null in that column's profile and fails nothing.
pub fn profile_df_detailed(df: &Table) -> (r: Result<
    (usize, Vec<ColumnProfileDetailed>),
    EngineError,
>)
    ensures
        is_detailed_outcome(df@, r),
{
    let rows = match df.row_count() {
        Ok(n) => n,
        Err(e) => {
            return Err(e);
        },
    };
    let mut profiles: Vec<ColumnProfileDetailed> = Vec::new();
    let mut i: usize = 0;
    while i < df.columns.len()
        invariant
            i <= df.columns.len(),
            profiles.len() == i,
            forall|k: int| 0 <= k < i ==> (#[trigger] profiles[k])@ == detailed_profile(df@[k]),
        decreases df.columns.len() - i,
    {
        profiles.push(profile_column(&df.columns[i]));
        i += 1;
    }
    assert(detailed_views(profiles@) =~= detailed_profiles(df@));
    Ok((rows, profiles))
}

} // verus!
