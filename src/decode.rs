//! Column type classification and the decoding of single cells into leaves.
use vstd::prelude::*;
use vstd::string::*;
use crate::json::{json_tree_of, parse_json_text};

verus! {

/// How every cell of one column is decoded, chosen from its declared type label.
#[derive(Clone, Copy, Debug, PartialEq, Eq, Structural)]
pub enum Strategy {
    JsonText,
    PlainText,
    Integer,
    Real,
    Blob,
}

/// Why a column or a cell could not be decoded. `column` is the column's
/// position in the metadata.
#[derive(Clone, Copy, Debug, PartialEq, Eq, Structural)]
pub enum DecodeError {
    /// The column's declared type label is absent or not one of the five known ones.
    UnsupportedColumnType { column: usize },
    /// The cell's stored kind cannot be read as the column's type.
    InvalidColumnType { column: usize },
    /// The cell of a `JSON` column holds text that is not JSON.
    InvalidJson { column: usize },
}

/// Name and declared type label of one column of a result set.
#[derive(Clone, Debug)]
pub struct ColumnMeta {
    pub name: String,
    pub decl_type: Option<String>,
}

/// What a column's metadata says: its name and its label, if any.
pub struct ColumnView {
    pub name: Seq<char>,
    pub decl_type: Option<Seq<char>>,
}

impl View for ColumnMeta {
    type V = ColumnView;

    open spec fn view(&self) -> ColumnView {
        ColumnView {
            name: self.name@,
            decl_type: match self.decl_type {
                Some(l) => Some(l@),
                None => None,
            },
        }
    }
}

/// A 64-bit floating-point number: by its IEEE 754 bits, or the float nearest
/// to an integer that the storage engine handed out for a `REAL` column.
#[derive(Clone, Copy, Debug, PartialEq, Eq, Structural)]
pub enum Float {
    Bits(u64),
    OfInteger(i64),
}

/// One untyped cell of a raw row, as the storage engine stores it.
#[derive(Clone, Debug, PartialEq, Eq)]
pub enum Cell {
    Null,
    Integer(i64),
    /// A real, by its IEEE 754 bits.
    Real(u64),
    Text(String),
    Blob(Vec<u8>),
}

/// The stored content of a cell.
pub enum CellView {
    Null,
    Integer(i64),
    Real(u64),
    Text(Seq<char>),
    Blob(Seq<u8>),
}

impl View for Cell {
    type V = CellView;

    open spec fn view(&self) -> CellView {
        match self {
            Cell::Null => CellView::Null,
            Cell::Integer(i) => CellView::Integer(*i),
            Cell::Real(b) => CellView::Real(*b),
            Cell::Text(s) => CellView::Text(s@),
            Cell::Blob(b) => CellView::Blob(b@),
        }
    }
}

/// One decoded value of an assembled row.
#[derive(Clone, Debug, PartialEq)]
pub enum Leaf {
    /// The tree parsed from the text of a `JSON` column.
    Json(serde_json::Value),
    Text(String),
    Integer(i64),
    Real(Float),
    Bytes(Vec<u8>),
}

/// The content of a leaf; a parsed JSON tree is taken as it is.
pub enum LeafView {
    Json(serde_json::Value),
    Text(Seq<char>),
    Integer(i64),
    Real(Float),
    Bytes(Seq<u8>),
}

impl View for Leaf {
    type V = LeafView;

    open spec fn view(&self) -> LeafView {
        match self {
            Leaf::Json(t) => LeafView::Json(*t),
            Leaf::Text(s) => LeafView::Text(s@),
            Leaf::Integer(i) => LeafView::Integer(*i),
            Leaf::Real(f) => LeafView::Real(*f),
            Leaf::Bytes(b) => LeafView::Bytes(b@),
        }
    }
}

/// The strategy for a declared type label: exact, case-sensitive match on the
/// five known labels, `None` for any other label and for an absent one.
pub open spec fn strategy_of(label: Option<Seq<char>>) -> Option<Strategy> {
    match label {
        Some(l) => if l == "JSON"@ {
            Some(Strategy::JsonText)
        } else if l == "TEXT"@ {
            Some(Strategy::PlainText)
        } else if l == "INTEGER"@ {
            Some(Strategy::Integer)
        } else if l == "REAL"@ {
            Some(Strategy::Real)
        } else if l == "BLOB"@ {
            Some(Strategy::Blob)
        } else {
            None
        },
        None => None,
    }
}

/// The leaf that a cell decodes to under a strategy, or the error for the
/// cell of column `column`.
pub open spec fn leaf_of(strategy: Strategy, cell: CellView, column: usize) -> Result<LeafView, DecodeError> {
    match strategy {
        Strategy::JsonText => match cell {
            CellView::Text(s) => match json_tree_of(s) {
                Some(t) => Ok(LeafView::Json(t)),
                None => Err(DecodeError::InvalidJson { column }),
            },
            _ => Err(DecodeError::InvalidColumnType { column }),
        },
        Strategy::PlainText => match cell {
            CellView::Text(s) => Ok(LeafView::Text(s)),
            _ => Err(DecodeError::InvalidColumnType { column }),
        },
        Strategy::Integer => match cell {
            CellView::Integer(i) => Ok(LeafView::Integer(i)),
            _ => Err(DecodeError::InvalidColumnType { column }),
        },
        Strategy::Real => match cell {
            CellView::Real(b) => Ok(LeafView::Real(Float::Bits(b))),
            CellView::Integer(i) => Ok(LeafView::Real(Float::OfInteger(i))),
            _ => Err(DecodeError::InvalidColumnType { column }),
        },
        Strategy::Blob => match cell {
            CellView::Blob(b) => Ok(LeafView::Bytes(b)),
            _ => Err(DecodeError::InvalidColumnType { column }),
        },
    }
}

/// A decoding result with its leaf seen through the view.
pub open spec fn leaf_result_view(r: Result<Leaf, DecodeError>) -> Result<LeafView, DecodeError> {
    match r {
        Ok(l) => Ok(l@),
        Err(e) => Err(e),
    }
}

/// Chooses the decoding strategy for a declared type label.
pub fn classify(label: &Option<String>) -> (r: Option<Strategy>)
    ensures
        r == strategy_of(match label {
            Some(l) => Some(l@),
            None => None,
        }),
{
    match label {
        Some(l) => {
            if *l == String::from_str("JSON") {
                Some(Strategy::JsonText)
            } else if *l == String::from_str("TEXT") {
                Some(Strategy::PlainText)
            } else if *l == String::from_str("INTEGER") {
                Some(Strategy::Integer)
            } else if *l == String::from_str("REAL") {
                Some(Strategy::Real)
            } else if *l == String::from_str("BLOB") {
                Some(Strategy::Blob)
            } else {
                None
            }
        },
        None => None,
    }
}

/// Decodes cell `index` of a row as JSON text: the tree serde_json parses from it.
pub fn parse_json_column(row: &Vec<Cell>, index: usize) -> (r: Result<Leaf, DecodeError>)
    requires
        index < row@.len(),
    ensures
        leaf_result_view(r) == leaf_of(Strategy::JsonText, row@[index as int]@, index),
{
    match &row[index] {
        Cell::Text(s) => match parse_json_text(s.as_str()) {
            Ok(tree) => Ok(Leaf::Json(tree)),
            Err(_) => Err(DecodeError::InvalidJson { column: index }),
        },
        _ => Err(DecodeError::InvalidColumnType { column: index }),
    }
}

/// Decodes cell `index` of a row as plain text, kept verbatim.
pub fn parse_text_column(row: &Vec<Cell>, index: usize) -> (r: Result<Leaf, DecodeError>)
    requires
        index < row@.len(),
    ensures
        leaf_result_view(r) == leaf_of(Strategy::PlainText, row@[index as int]@, index),
{
    match &row[index] {
        Cell::Text(s) => Ok(Leaf::Text(s.clone())),
        _ => Err(DecodeError::InvalidColumnType { column: index }),
    }
}

/// Decodes cell `index` of a row as a 64-bit signed integer.
pub fn parse_integer_column(row: &Vec<Cell>, index: usize) -> (r: Result<Leaf, DecodeError>)
    requires
        index < row@.len(),
    ensures
        leaf_result_view(r) == leaf_of(Strategy::Integer, row@[index as int]@, index),
{
    match &row[index] {
        Cell::Integer(i) => Ok(Leaf::Integer(*i)),
        _ => Err(DecodeError::InvalidColumnType { column: index }),
    }
}

/// Decodes cell `index` of a row as a 64-bit float; an integer cell is taken
/// as the float nearest to it.
pub fn parse_real_column(row: &Vec<Cell>, index: usize) -> (r: Result<Leaf, DecodeError>)
    requires
        index < row@.len(),
    ensures
        leaf_result_view(r) == leaf_of(Strategy::Real, row@[index as int]@, index),
{
    match &row[index] {
        Cell::Real(b) => Ok(Leaf::Real(Float::Bits(*b))),
        Cell::Integer(i) => Ok(Leaf::Real(Float::OfInteger(*i))),
        _ => Err(DecodeError::InvalidColumnType { column: index }),
    }
}

/// Decodes cell `index` of a row as a byte sequence.
pub fn parse_blob_column(row: &Vec<Cell>, index: usize) -> (r: Result<Leaf, DecodeError>)
    requires
        index < row@.len(),
    ensures
        leaf_result_view(r) == leaf_of(Strategy::Blob, row@[index as int]@, index),
{
    match &row[index] {
        Cell::Blob(b) => {
            let mut out: Vec<u8> = Vec::new();
            let mut k: usize = 0;
            while k < b.len()
                invariant
                    k <= b@.len(),
                    out@ == b@.subrange(0, k as int),
                decreases b@.len() - k,
            {
                out.push(b[k]);
                k = k + 1;
            }
            assert(out@ == b@);
            Ok(Leaf::Bytes(out))
        },
        _ => Err(DecodeError::InvalidColumnType { column: index }),
    }
}

/// Decodes cell `index` of a row with a strategy chosen beforehand.
pub fn decode_cell(strategy: Strategy, row: &Vec<Cell>, index: usize) -> (r: Result<Leaf, DecodeError>)
    requires
        index < row@.len(),
    ensures
        leaf_result_view(r) == leaf_of(strategy, row@[index as int]@, index),
{
    match strategy {
        Strategy::JsonText => parse_json_column(row, index),
        Strategy::PlainText => parse_text_column(row, index),
        Strategy::Integer => parse_integer_column(row, index),
        Strategy::Real => parse_real_column(row, index),
        Strategy::Blob => parse_blob_column(row, index),
    }
}

/// Classifies `column` and decodes cell `index` of a row by its strategy; an
/// unsupported label is an error before the cell is looked at.
pub fn parse_column(row: &Vec<Cell>, column: &ColumnMeta, index: usize) -> (r: Result<Leaf, DecodeError>)
    requires
        index < row@.len(),
    ensures
        leaf_result_view(r) == match strategy_of(column@.decl_type) {
            Some(st) => leaf_of(st, row@[index as int]@, index),
            None => Err(DecodeError::UnsupportedColumnType { column: index }),
        },
{
    match classify(&column.decl_type) {
        Some(st) => decode_cell(st, row, index),
        None => Err(DecodeError::UnsupportedColumnType { column: index }),
    }
}

/// Each of the five known labels selects its strategy, and a cell of the kind
/// that strategy reads decodes to the matching kind of leaf.
pub proof fn lemma_recognized_labels(i: i64, s: Seq<char>, bits: u64, b: Seq<u8>, column: usize)
    ensures
        strategy_of(Some("INTEGER"@)) == Some(Strategy::Integer),
        leaf_of(Strategy::Integer, CellView::Integer(i), column) == Ok::<LeafView, DecodeError>(LeafView::Integer(i)),
        strategy_of(Some("TEXT"@)) == Some(Strategy::PlainText),
        leaf_of(Strategy::PlainText, CellView::Text(s), column) == Ok::<LeafView, DecodeError>(LeafView::Text(s)),
        strategy_of(Some("JSON"@)) == Some(Strategy::JsonText),
        json_tree_of(s) matches Some(t) ==> leaf_of(Strategy::JsonText, CellView::Text(s), column) == Ok::<LeafView, DecodeError>(LeafView::Json(t)),
        strategy_of(Some("REAL"@)) == Some(Strategy::Real),
        leaf_of(Strategy::Real, CellView::Real(bits), column) == Ok::<LeafView, DecodeError>(LeafView::Real(Float::Bits(bits))),
        strategy_of(Some("BLOB"@)) == Some(Strategy::Blob),
        leaf_of(Strategy::Blob, CellView::Blob(b), column) == Ok::<LeafView, DecodeError>(LeafView::Bytes(b)),
{
    reveal_strlit("JSON");
    reveal_strlit("TEXT");
    reveal_strlit("INTEGER");
    reveal_strlit("REAL");
    reveal_strlit("BLOB");
    assert("TEXT"@[0] != "JSON"@[0]);
    assert("INTEGER"@.len() != "JSON"@.len());
    assert("INTEGER"@.len() != "TEXT"@.len());
    assert("REAL"@[0] != "JSON"@[0]);
    assert("REAL"@[0] != "TEXT"@[0]);
    assert("REAL"@.len() != "INTEGER"@.len());
    assert("BLOB"@[0] != "JSON"@[0]);
    assert("BLOB"@[0] != "TEXT"@[0]);
    assert("BLOB"@.len() != "INTEGER"@.len());
    assert("BLOB"@[0] != "REAL"@[0]);
}

/// A `REAL` column always decodes to a float leaf, never to an integer one,
/// and a stored real keeps its exact bits.
pub proof fn lemma_real_stays_float(cell: CellView, column: usize)
    ensures
        leaf_of(Strategy::Real, cell, column) matches Ok(l) ==> l is Real,
        cell matches CellView::Real(bits) ==> leaf_of(Strategy::Real, cell, column) == Ok::<LeafView, DecodeError>(LeafView::Real(Float::Bits(bits))),
{
}

} // verus!
