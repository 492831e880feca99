//! The document that a profile report is written as, and its reading back.
//!
//! A report is a list of records, one for each profile in order. A record
//! is a list of keyed entries in a fixed order: `column`, `dtype`, `nulls`,
//! `unique`, `min`, `max`, `sample_values`. A least or greatest value is
//! written under the name of its kind (`Int`, `Float`, `Str`), and as the
//! text `None` where there is none. The document maps one to one to JSON:
//! a record to an object, a tagged value to an object with one key.

use vstd::prelude::*;
use vstd::string::*;
use crate::profiler::{
    ColumnProfileDetailed, DetailedProfileView, MinMaxValue, detailed_views, texts_of,
};
use crate::text::text_eq;
use crate::value::Cell;

verus! {

/// The number of entries of a record.
pub const RECORD_LEN: usize = 7;

/// The payload of a tagged value.
#[derive(Debug, PartialEq)]
pub enum Scalar {
    Int(i64),
    /// A 64-bit float by its bit pattern.
    Float(u64),
    Text(String),
}

/// A value of the document.
#[derive(Debug, PartialEq)]
pub enum Node {
    /// The absent value.
    Null,
    /// A count.
    Number(usize),
    /// A text.
    Text(String),
    /// A list of texts.
    List(Vec<String>),
    /// A payload under the name of its kind.
    Tagged(String, Scalar),
}

/// A keyed value of a record.
#[derive(Debug, PartialEq)]
pub struct Entry {
    pub key: String,
    pub value: Node,
}

/// The entries of one profile, in their order.
#[derive(Debug, PartialEq)]
pub struct Record {
    pub entries: Vec<Entry>,
}

/// Mathematical model of a [`Scalar`].
pub enum ScalarView {
    Int(i64),
    Float(u64),
    Text(Seq<char>),
}

/// Mathematical model of a [`Node`].
pub enum NodeView {
    Null,
    Number(nat),
    Text(Seq<char>),
    List(Seq<Seq<char>>),
    Tagged(Seq<char>, ScalarView),
}

/// Mathematical model of an [`Entry`].
pub struct EntryView {
    pub key: Seq<char>,
    pub value: NodeView,
}

impl View for Scalar {
    type V = ScalarView;

    open spec fn view(&self) -> ScalarView {
        match self {
            Scalar::Int(v) => ScalarView::Int(*v),
            Scalar::Float(b) => ScalarView::Float(*b),
            Scalar::Text(s) => ScalarView::Text(s@),
        }
    }
}

impl View for Node {
    type V = NodeView;

    open spec fn view(&self) -> NodeView {
        match self {
            Node::Null => NodeView::Null,
            Node::Number(n) => NodeView::Number(*n as nat),
            Node::Text(s) => NodeView::Text(s@),
            Node::List(v) => NodeView::List(texts_of(v@)),
            Node::Tagged(tag, payload) => NodeView::Tagged(tag@, payload@),
        }
    }
}

impl View for Entry {
    type V = EntryView;

    open spec fn view(&self) -> EntryView {
        EntryView { key: self.key@, value: self.value@ }
    }
}

impl View for Record {
    type V = Seq<EntryView>;

    open spec fn view(&self) -> Seq<EntryView> {
        self.entries@.map_values(|e: Entry| e@)
    }
}

/// The models of the records of a document.
pub open spec fn record_views(doc: Seq<Record>) -> Seq<Seq<EntryView>> {
    doc.map_values(|r: Record| r@)
}

/// The key of the entry at a position of a record.
pub open spec fn key_at(position: int) -> Seq<char> {
    if position == 0 {
        "column"@
    } else if position == 1 {
        "dtype"@
    } else if position == 2 {
        "nulls"@
    } else if position == 3 {
        "unique"@
    } else if position == 4 {
        "min"@
    } else if position == 5 {
        "max"@
    } else {
        "sample_values"@
    }
}

/// A least or greatest value as a value of the document.
pub open spec fn encode_value(c: Cell) -> NodeView {
    match c {
        Cell::Int(v) => NodeView::Tagged("Int"@, ScalarView::Int(v)),
        Cell::Float(b) => NodeView::Tagged("Float"@, ScalarView::Float(b)),
        Cell::Str(s) => NodeView::Tagged("Str"@, ScalarView::Text(s)),
        Cell::Null => NodeView::Text("None"@),
    }
}

/// The least or greatest value that a value of the document writes, if it
/// writes one.
pub open spec fn decode_value(n: NodeView) -> Option<Cell> {
    match n {
        NodeView::Text(t) => if t == "None"@ {
            Some(Cell::Null)
        } else {
            None
        },
        NodeView::Tagged(tag, payload) => match payload {
            ScalarView::Int(v) => if tag == "Int"@ {
                Some(Cell::Int(v))
            } else {
                None
            },
            ScalarView::Float(b) => if tag == "Float"@ {
                Some(Cell::Float(b))
            } else {
                None
            },
            ScalarView::Text(s) => if tag == "Str"@ {
                Some(Cell::Str(s))
            } else {
                None
            },
        },
        _ => None,
    }
}

/// An optional count as a value of the document.
pub open spec fn encode_count(n: Option<nat>) -> NodeView {
    match n {
        Some(v) => NodeView::Number(v),
        None => NodeView::Null,
    }
}

/// The optional count that a value of the document writes.
pub open spec fn decode_count(n: NodeView) -> Option<Option<nat>> {
    match n {
        NodeView::Number(v) => Some(Some(v)),
        NodeView::Null => Some(None),
        _ => None,
    }
}

/// An optional list of texts as a value of the document.
pub open spec fn encode_samples(s: Option<Seq<Seq<char>>>) -> NodeView {
    match s {
        Some(v) => NodeView::List(v),
        None => NodeView::Null,
    }
}

/// The optional list of texts that a value of the document writes.
pub open spec fn decode_samples(n: NodeView) -> Option<Option<Seq<Seq<char>>>> {
    match n {
        NodeView::List(v) => Some(Some(v)),
        NodeView::Null => Some(None),
        _ => None,
    }
}

/// The record of a profile.
pub open spec fn encode_profile(p: DetailedProfileView) -> Seq<EntryView> {
    seq![
        EntryView { key: key_at(0), value: NodeView::Text(p.column) },
        EntryView { key: key_at(1), value: NodeView::Text(p.dtype) },
        EntryView { key: key_at(2), value: NodeView::Number(p.nulls) },
        EntryView { key: key_at(3), value: encode_count(p.unique) },
        EntryView { key: key_at(4), value: encode_value(p.min) },
        EntryView { key: key_at(5), value: encode_value(p.max) },
        EntryView { key: key_at(6), value: encode_samples(p.sample_values) },
    ]
}

/// Whether the record has the seven keys in their order.
pub open spec fn has_record_keys(r: Seq<EntryView>) -> bool {
    &&& r.len() == RECORD_LEN
    &&& forall|i: int| 0 <= i < RECORD_LEN ==> (#[trigger] r[i]).key == key_at(i)
}

/// The profile that a record writes, if it writes one: it has the seven
/// keys in their order, and under each a value of the kind of that key.
pub open spec fn decode_profile(r: Seq<EntryView>) -> Option<DetailedProfileView> {
    if !has_record_keys(r) {
        None
    } else {
        match (
            r[0].value,
            r[1].value,
            r[2].value,
            decode_count(r[3].value),
            decode_value(r[4].value),
            decode_value(r[5].value),
            decode_samples(r[6].value),
        ) {
            (
                NodeView::Text(column),
                NodeView::Text(dtype),
                NodeView::Number(nulls),
                Some(unique),
                Some(min),
                Some(max),
                Some(sample_values),
            ) => Some(
                DetailedProfileView { column, dtype, nulls, unique, min, max, sample_values },
            ),
            _ => None,
        }
    }
}

/// The document of a sequence of profiles: their records in order.
pub open spec fn encode_report(profiles: Seq<DetailedProfileView>) -> Seq<Seq<EntryView>> {
    profiles.map_values(|p: DetailedProfileView| encode_profile(p))
}

/// The profiles that a document writes, if every record of it writes one.
pub open spec fn decode_report(doc: Seq<Seq<EntryView>>) -> Option<Seq<DetailedProfileView>> {
    if forall|i: int| 0 <= i < doc.len() ==> decode_profile(#[trigger] doc[i]) is Some {
        Some(doc.map_values(|r: Seq<EntryView>| decode_profile(r).unwrap()))
    } else {
        None
    }
}

/// A least or greatest value is read back from what it was written as.
pub proof fn lemma_value_round_trip(c: Cell)
    ensures
        decode_value(encode_value(c)) == Some(c),
{
}

/// A profile is read back from its record: the same column, type, null
/// count, number of distinct values, least and greatest value, and
/// samples, with an absent list of samples kept apart from an empty one.
pub proof fn lemma_profile_round_trip(p: DetailedProfileView)
    ensures
        decode_profile(encode_profile(p)) == Some(p),
{
    let r = encode_profile(p);
    lemma_value_round_trip(p.min);
    lemma_value_round_trip(p.max);
    assert(has_record_keys(r));
}

/// A sequence of profiles is read back from its document, in order.
pub proof fn lemma_report_round_trip(profiles: Seq<DetailedProfileView>)
    ensures
        decode_report(encode_report(profiles)) == Some(profiles),
{
    let doc = encode_report(profiles);
    assert forall|i: int| 0 <= i < doc.len() implies decode_profile(#[trigger] doc[i]) == Some(
        profiles[i],
    ) by {
        lemma_profile_round_trip(profiles[i]);
    }
    assert(doc.map_values(|r: Seq<EntryView>| decode_profile(r).unwrap()) =~= profiles);
}

/// Copies a list of texts.
fn clone_texts(v: &Vec<String>) -> (r: Vec<String>)
    ensures
        texts_of(r@) == texts_of(v@),
{
    let mut out: Vec<String> = Vec::new();
    let mut i: usize = 0;
    while i < v.len()
        invariant
            i <= v.len(),
            out.len() == i,
            forall|k: int| 0 <= k < i ==> out[k]@ == v[k]@,
        decreases v.len() - i,
    {
        out.push(v[i].clone());
        i += 1;
    }
    assert(texts_of(out@) =~= texts_of(v@));
    out
}

/// Writes a least or greatest value as a value of the document.
pub fn value_node(value: &MinMaxValue) -> (r: Node)
    ensures
        r@ == encode_value(value@),
{
    match value {
        MinMaxValue::Int(v) => Node::Tagged(String::from_str("Int"), Scalar::Int(*v)),
        MinMaxValue::Float(b) => Node::Tagged(String::from_str("Float"), Scalar::Float(*b)),
        MinMaxValue::Str(s) => Node::Tagged(String::from_str("Str"), Scalar::Text(s.clone())),
        MinMaxValue::Null => Node::Text(String::from_str("None")),
    }
}

/// Reads a least or greatest value from a value of the document.
pub fn node_value(node: &Node) -> (r: Option<MinMaxValue>)
    ensures
        match r {
            Some(v) => decode_value(node@) == Some(v@),
            None => decode_value(node@) is None,
        },
{
    match node {
        Node::Text(t) => if text_eq(t.as_str(), "None") {
            Some(MinMaxValue::Null)
        } else {
            None
        },
        Node::Tagged(tag, payload) => match payload {
            Scalar::Int(v) => if text_eq(tag.as_str(), "Int") {
                Some(MinMaxValue::Int(*v))
            } else {
                None
            },
            Scalar::Float(b) => if text_eq(tag.as_str(), "Float") {
                Some(MinMaxValue::Float(*b))
            } else {
                None
            },
            Scalar::Text(s) => if text_eq(tag.as_str(), "Str") {
                Some(MinMaxValue::Str(s.clone()))
            } else {
                None
            },
        },
        _ => None,
    }
}

/// Writes the record of a profile.
pub fn profile_record(profile: &ColumnProfileDetailed) -> (r: Record)
    ensures
        r@ == encode_profile(profile@),
{
    let unique = match profile.unique {
        Some(n) => Node::Number(n),
        None => Node::Null,
    };
    let samples = match &profile.sample_values {
        Some(v) => Node::List(clone_texts(v)),
        None => Node::Null,
    };
    let mut entries: Vec<Entry> = Vec::new();
    entries.push(
        Entry { key: String::from_str("column"), value: Node::Text(profile.column.clone()) },
    );
    entries.push(
        Entry { key: String::from_str("dtype"), value: Node::Text(profile.dtype.clone()) },
    );
    entries.push(Entry { key: String::from_str("nulls"), value: Node::Number(profile.nulls) });
    entries.push(Entry { key: String::from_str("unique"), value: unique });
    entries.push(Entry { key: String::from_str("min"), value: value_node(&profile.min) });
    entries.push(Entry { key: String::from_str("max"), value: value_node(&profile.max) });
    entries.push(Entry { key: String::from_str("sample_values"), value: samples });
    let r = Record { entries };
    assert(r@ =~= encode_profile(profile@));
    r
}

/// Writes the document of a sequence of profiles: one record for each, in
/// order. Every profile can be written.
pub fn export_profiles(profiles: &Vec<ColumnProfileDetailed>) -> (r: Vec<Record>)
    ensures
        record_views(r@) == encode_report(detailed_views(profiles@)),
{
    let mut doc: Vec<Record> = Vec::new();
    let mut i: usize = 0;
    while i < profiles.len()
        invariant
            i <= profiles.len(),
            doc.len() == i,
            forall|k: int| 0 <= k < i ==> (#[trigger] doc[k])@ == encode_profile(profiles[k]@),
        decreases profiles.len() - i,
    {
        doc.push(profile_record(&profiles[i]));
        i += 1;
    }
    assert(record_views(doc@) =~= encode_report(detailed_views(profiles@)));
    doc
}

/// Tells whether the record has the seven keys in their order.
fn check_keys(record: &Record) -> (r: bool)
    ensures
        r == has_record_keys(record@),
{
    if record.entries.len() != RECORD_LEN {
        return false;
    }
    let e = &record.entries;
    let k0 = text_eq(e[0].key.as_str(), "column");
    let k1 = text_eq(e[1].key.as_str(), "dtype");
    let k2 = text_eq(e[2].key.as_str(), "nulls");
    let k3 = text_eq(e[3].key.as_str(), "unique");
    let k4 = text_eq(e[4].key.as_str(), "min");
    let k5 = text_eq(e[5].key.as_str(), "max");
    let k6 = text_eq(e[6].key.as_str(), "sample_values");
    let ok = k0 && k1 && k2 && k3 && k4 && k5 && k6;
    proof {
        let r = record@;
        assert(forall|i: int|
            0 <= i < RECORD_LEN ==> (#[trigger] r[i]).key == record.entries[i].key@);
        assert(k0 == (r[0].key == key_at(0)));
        assert(k1 == (r[1].key == key_at(1)));
        assert(k2 == (r[2].key == key_at(2)));
        assert(k3 == (r[3].key == key_at(3)));
        assert(k4 == (r[4].key == key_at(4)));
        assert(k5 == (r[5].key == key_at(5)));
        assert(k6 == (r[6].key == key_at(6)));
    }
    ok
}

/// Reads a profile from a record.
///
/// Gives `None` for a record that writes no profile: one that has not the
/// seven keys in their order, or holds under a key a value of another kind.
pub fn read_record(record: &Record) -> (r: Option<ColumnProfileDetailed>)
    ensures
        match r {
            Some(p) => decode_profile(record@) == Some(p@),
            None => decode_profile(record@) is None,
        },
{
    if !check_keys(record) {
        return None;
    }
    let ghost view = record@;
    assert(forall|i: int| 0 <= i < RECORD_LEN ==> view[i].value == record.entries[i].value@);
    let column = match &record.entries[0].value {
        Node::Text(s) => s.clone(),
        _ => {
            return None;
        },
    };
    let dtype = match &record.entries[1].value {
        Node::Text(s) => s.clone(),
        _ => {
            return None;
        },
    };
    let nulls = match &record.entries[2].value {
        Node::Number(n) => *n,
        _ => {
            return None;
        },
    };
    let unique = match &record.entries[3].value {
        Node::Number(n) => Some(*n),
        Node::Null => None,
        _ => {
            return None;
        },
    };
    let min = match node_value(&record.entries[4].value) {
        Some(v) => v,
        None => {
            return None;
        },
    };
    let max = match node_value(&record.entries[5].value) {
        Some(v) => v,
        None => {
            return None;
        },
    };
    let sample_values = match &record.entries[6].value {
        Node::List(v) => Some(clone_texts(v)),
        Node::Null => None,
        _ => {
            return None;
        },
    };
    Some(ColumnProfileDetailed { column, dtype, nulls, unique, min, max, sample_values })
}

/// Reads the profiles back from a document: `None` where some record
/// writes no profile, and else the profile of every record in order.
pub fn read_profiles(doc: &Vec<Record>) -> (r: Option<Vec<ColumnProfileDetailed>>)
    ensures
        match r {
            Some(profiles) => decode_report(record_views(doc@)) == Some(detailed_views(profiles@)),
            None => decode_report(record_views(doc@)) is None,
        },
{
    let ghost views = record_views(doc@);
    let mut profiles: Vec<ColumnProfileDetailed> = Vec::new();
    let mut i: usize = 0;
    while i < doc.len()
        invariant
            i <= doc.len(),
            views == record_views(doc@),
            profiles.len() == i,
            forall|k: int| 0 <= k < i ==> decode_profile(#[trigger] views[k]) == Some(profiles[k]@),
        decreases doc.len() - i,
    {
        match read_record(&doc[i]) {
            Some(p) => {
                profiles.push(p);
            },
            None => {
                assert(decode_profile(views[i as int]) is None);
                return None;
            },
        }
        i += 1;
    }
    assert(views.map_values(|r: Seq<EntryView>| decode_profile(r).unwrap()) =~= detailed_views(
        profiles@,
    ));
    Some(profiles)
}

} // verus!
