//! Assembly of raw rows into records keyed by column name, and the collection
//! of a whole result set.
use vstd::prelude::*;
use crate::decode::{
    classify, decode_cell, leaf_of, strategy_of, Cell, CellView, ColumnMeta, ColumnView,
    DecodeError, Leaf, LeafView, Strategy,
};

verus! {

/// One assembled row: its entries in the order in which their names were
/// first inserted, each name at most once.
#[derive(Clone, Debug, PartialEq)]
pub struct Record {
    pub entries: Vec<(String, Leaf)>,
}

impl View for Record {
    type V = Seq<(Seq<char>, LeafView)>;

    open spec fn view(&self) -> Seq<(Seq<char>, LeafView)> {
        self.entries@.map_values(|e: (String, Leaf)| (e.0@, e.1@))
    }
}

/// The first position at or after `i` whose entry has the name `k`.
pub open spec fn index_from(e: Seq<(Seq<char>, LeafView)>, k: Seq<char>, i: nat) -> Option<nat>
    decreases e.len() - i,
{
    if i >= e.len() {
        None
    } else if e[i as int].0 == k {
        Some(i)
    } else {
        index_from(e, k, i + 1)
    }
}

/// The first position whose entry has the name `k`.
pub open spec fn index_of(e: Seq<(Seq<char>, LeafView)>, k: Seq<char>) -> Option<nat> {
    index_from(e, k, 0)
}

/// Entries after `k` is set to `v`: an existing entry of that name takes the
/// new value in place, otherwise the entry is appended.
pub open spec fn insert_entry(e: Seq<(Seq<char>, LeafView)>, k: Seq<char>, v: LeafView) -> Seq<(Seq<char>, LeafView)> {
    match index_of(e, k) {
        Some(i) => e.update(i as int, (k, v)),
        None => e.push((k, v)),
    }
}

/// The value that entries hold under the name `k`.
pub open spec fn lookup(e: Seq<(Seq<char>, LeafView)>, k: Seq<char>) -> Option<LeafView> {
    match index_of(e, k) {
        Some(i) => Some(e[i as int].1),
        None => None,
    }
}

/// The column metadata seen through the view, one per column.
pub open spec fn columns_view(columns: Seq<ColumnMeta>) -> Seq<ColumnView> {
    columns.map_values(|c: ColumnMeta| c@)
}

/// A raw row seen through the view, one per cell.
pub open spec fn row_view(row: Seq<Cell>) -> Seq<CellView> {
    row.map_values(|c: Cell| c@)
}

/// A result set's raw rows seen through the view.
pub open spec fn rows_view(rows: Seq<Vec<Cell>>) -> Seq<Seq<CellView>> {
    rows.map_values(|r: Vec<Cell>| row_view(r@))
}

/// Assembled rows seen through the view.
pub open spec fn records_view(records: Seq<Record>) -> Seq<Seq<(Seq<char>, LeafView)>> {
    records.map_values(|r: Record| r@)
}

/// The strategies of the first `n` columns, or the error for the first of them
/// whose label is not supported.
pub open spec fn strategies_of(cols: Seq<ColumnView>, n: nat) -> Result<Seq<Strategy>, DecodeError>
    decreases n,
{
    if n == 0 {
        Ok(Seq::empty())
    } else {
        match strategies_of(cols, (n - 1) as nat) {
            Err(e) => Err(e),
            Ok(s) => match strategy_of(cols[n - 1].decl_type) {
                Some(st) => Ok(s.push(st)),
                None => Err(DecodeError::UnsupportedColumnType { column: (n - 1) as usize }),
            },
        }
    }
}

/// The entries made of the first `n` cells of a row, each decoded by its
/// column's strategy and inserted under its column's name, or the first error.
pub open spec fn assemble(
    cols: Seq<ColumnView>,
    strategies: Seq<Strategy>,
    row: Seq<CellView>,
    n: nat,
) -> Result<Seq<(Seq<char>, LeafView)>, DecodeError>
    decreases n,
{
    if n == 0 {
        Ok(Seq::empty())
    } else {
        match assemble(cols, strategies, row, (n - 1) as nat) {
            Err(e) => Err(e),
            Ok(es) => match leaf_of(strategies[n - 1], row[n - 1], (n - 1) as usize) {
                Err(e) => Err(e),
                Ok(l) => Ok(insert_entry(es, cols[n - 1].name, l)),
            },
        }
    }
}

/// The records of the first `n` rows, in order, or the first error.
pub open spec fn collect(
    cols: Seq<ColumnView>,
    strategies: Seq<Strategy>,
    rows: Seq<Seq<CellView>>,
    n: nat,
) -> Result<Seq<Seq<(Seq<char>, LeafView)>>, DecodeError>
    decreases n,
{
    if n == 0 {
        Ok(Seq::empty())
    } else {
        match collect(cols, strategies, rows, (n - 1) as nat) {
            Err(e) => Err(e),
            Ok(rs) => match assemble(cols, strategies, rows[n - 1], cols.len()) {
                Err(e) => Err(e),
                Ok(r) => Ok(rs.push(r)),
            },
        }
    }
}

/// What decoding one row gives: every column classified first, then the row
/// assembled.
pub open spec fn row_result(cols: Seq<ColumnView>, row: Seq<CellView>) -> Result<Seq<(Seq<char>, LeafView)>, DecodeError> {
    match strategies_of(cols, cols.len()) {
        Err(e) => Err(e),
        Ok(st) => assemble(cols, st, row, cols.len()),
    }
}

/// What decoding a result set gives: every column classified before any row is
/// read, then each row assembled in order.
pub open spec fn rows_result(cols: Seq<ColumnView>, rows: Seq<Seq<CellView>>) -> Result<Seq<Seq<(Seq<char>, LeafView)>>, DecodeError> {
    match strategies_of(cols, cols.len()) {
        Err(e) => Err(e),
        Ok(st) => collect(cols, st, rows, rows.len()),
    }
}

proof fn lemma_strategies_len(cols: Seq<ColumnView>, n: nat)
    ensures
        strategies_of(cols, n) matches Ok(s) ==> s.len() == n,
    decreases n,
{
    if n > 0 {
        lemma_strategies_len(cols, (n - 1) as nat);
    }
}

proof fn lemma_strategies_err_stays(cols: Seq<ColumnView>, m: nat, n: nat)
    requires
        m <= n,
        strategies_of(cols, m) is Err,
    ensures
        strategies_of(cols, n) == strategies_of(cols, m),
    decreases n - m,
{
    if m < n {
        lemma_strategies_err_stays(cols, m, (n - 1) as nat);
    }
}

proof fn lemma_assemble_err_stays(cols: Seq<ColumnView>, st: Seq<Strategy>, row: Seq<CellView>, m: nat, n: nat)
    requires
        m <= n,
        assemble(cols, st, row, m) is Err,
    ensures
        assemble(cols, st, row, n) == assemble(cols, st, row, m),
    decreases n - m,
{
    if m < n {
        lemma_assemble_err_stays(cols, st, row, m, (n - 1) as nat);
    }
}

proof fn lemma_collect_err_stays(cols: Seq<ColumnView>, st: Seq<Strategy>, rows: Seq<Seq<CellView>>, m: nat, n: nat)
    requires
        m <= n,
        collect(cols, st, rows, m) is Err,
    ensures
        collect(cols, st, rows, n) == collect(cols, st, rows, m),
    decreases n - m,
{
    if m < n {
        lemma_collect_err_stays(cols, st, rows, m, (n - 1) as nat);
    }
}

impl Record {
    /// A record with no entries.
    pub fn new() -> (r: Record)
        ensures
            r@ == Seq::<(Seq<char>, LeafView)>::empty(),
    {
        Record { entries: Vec::new() }
    }

    /// Sets `key` to `leaf`: the entry of that name is overwritten in place,
    /// or a new entry is appended.
    pub fn insert(&mut self, key: String, leaf: Leaf)
        ensures
            final(self)@ == insert_entry(old(self)@, key@, leaf@),
    {
        let ghost e = self@;
        let mut i: usize = 0;
        while i < self.entries.len()
            invariant
                i <= self.entries@.len(),
                self@ == e,
                e == old(self)@,
                index_from(e, key@, 0) == index_from(e, key@, i as nat),
            decreases self.entries@.len() - i,
        {
            if self.entries[i].0 == key {
                assert(e[i as int].0 == key@);
                assert(index_from(e, key@, i as nat) == Some(i as nat));
                let ghost k = key@;
                let ghost v = leaf@;
                self.entries.set(i, (key, leaf));
                assert(self@ =~= e.update(i as int, (k, v)));
                return;
            }
            i = i + 1;
        }
        let ghost k = key@;
        let ghost v = leaf@;
        self.entries.push((key, leaf));
        assert(self@ =~= e.push((k, v)));
    }
}

/// Chooses the strategy of every column, failing on the first column whose
/// declared type label is not supported.
pub fn classify_columns(columns: &Vec<ColumnMeta>) -> (r: Result<Vec<Strategy>, DecodeError>)
    ensures
        match r {
            Ok(st) => strategies_of(columns_view(columns@), columns@.len()) == Ok::<Seq<Strategy>, DecodeError>(st@),
            Err(e) => strategies_of(columns_view(columns@), columns@.len()) == Err::<Seq<Strategy>, DecodeError>(e),
        },
{
    let ghost cols = columns_view(columns@);
    let mut out: Vec<Strategy> = Vec::new();
    let mut i: usize = 0;
    while i < columns.len()
        invariant
            i <= columns@.len(),
            cols == columns_view(columns@),
            strategies_of(cols, i as nat) == Ok::<Seq<Strategy>, DecodeError>(out@),
        decreases columns@.len() - i,
    {
        match classify(&columns[i].decl_type) {
            Some(st) => {
                out.push(st);
            },
            None => {
                proof {
                    lemma_strategies_err_stays(cols, (i + 1) as nat, columns@.len());
                }
                return Err(DecodeError::UnsupportedColumnType { column: i });
            },
        }
        i = i + 1;
    }
    Ok(out)
}

/// Decodes every cell of a row by the strategy chosen for its column and
/// inserts it under the column's name, in column order.
pub fn assemble_row(columns: &Vec<ColumnMeta>, strategies: &Vec<Strategy>, row: &Vec<Cell>) -> (r: Result<Record, DecodeError>)
    requires
        strategies@.len() == columns@.len(),
        row@.len() == columns@.len(),
    ensures
        match r {
            Ok(rec) => assemble(columns_view(columns@), strategies@, row_view(row@), columns@.len()) == Ok::<Seq<(Seq<char>, LeafView)>, DecodeError>(rec@),
            Err(e) => assemble(columns_view(columns@), strategies@, row_view(row@), columns@.len()) == Err::<Seq<(Seq<char>, LeafView)>, DecodeError>(e),
        },
{
    let ghost cols = columns_view(columns@);
    let ghost cells = row_view(row@);
    let mut rec = Record::new();
    let mut i: usize = 0;
    while i < columns.len()
        invariant
            i <= columns@.len(),
            strategies@.len() == columns@.len(),
            row@.len() == columns@.len(),
            cols == columns_view(columns@),
            cells == row_view(row@),
            assemble(cols, strategies@, cells, i as nat) == Ok::<Seq<(Seq<char>, LeafView)>, DecodeError>(rec@),
        decreases columns@.len() - i,
    {
        match decode_cell(strategies[i], row, i) {
            Ok(leaf) => {
                rec.insert(columns[i].name.clone(), leaf);
            },
            Err(e) => {
                proof {
                    lemma_assemble_err_stays(cols, strategies@, cells, (i + 1) as nat, columns@.len());
                }
                return Err(e);
            },
        }
        i = i + 1;
    }
    Ok(rec)
}

/// Decodes one row: every column is classified, then each cell is decoded and
/// inserted under its column's name; a later column of the same name wins.
pub fn parse_row(columns: &Vec<ColumnMeta>, row: &Vec<Cell>) -> (r: Result<Record, DecodeError>)
    requires
        row@.len() == columns@.len(),
    ensures
        match r {
            Ok(rec) => row_result(columns_view(columns@), row_view(row@)) == Ok::<Seq<(Seq<char>, LeafView)>, DecodeError>(rec@),
            Err(e) => row_result(columns_view(columns@), row_view(row@)) == Err::<Seq<(Seq<char>, LeafView)>, DecodeError>(e),
        },
{
    let strategies = classify_columns(columns)?;
    proof {
        lemma_strategies_len(columns_view(columns@), columns@.len());
    }
    assemble_row(columns, &strategies, row)
}

/// Decodes a whole result set: the columns are classified once, before any
/// row, then every row is assembled in the order given. The first error ends
/// the work and no partial list is returned.
pub fn parse_rows_dynamic(columns: &Vec<ColumnMeta>, rows: &Vec<Vec<Cell>>) -> (r: Result<Vec<Record>, DecodeError>)
    requires
        forall|j: int| 0 <= j < rows@.len() ==> #[trigger] rows@[j]@.len() == columns@.len(),
    ensures
        match r {
            Ok(recs) => rows_result(columns_view(columns@), rows_view(rows@)) == Ok::<Seq<Seq<(Seq<char>, LeafView)>>, DecodeError>(records_view(recs@)),
            Err(e) => rows_result(columns_view(columns@), rows_view(rows@)) == Err::<Seq<Seq<(Seq<char>, LeafView)>>, DecodeError>(e),
        },
{
    let ghost cols = columns_view(columns@);
    let ghost cells = rows_view(rows@);
    let strategies = classify_columns(columns)?;
    proof {
        lemma_strategies_len(cols, columns@.len());
    }
    let mut out: Vec<Record> = Vec::new();
    assert(records_view(out@) =~= Seq::<Seq<(Seq<char>, LeafView)>>::empty());
    assert(cols.len() == columns@.len());
    let mut i: usize = 0;
    while i < rows.len()
        invariant
            i <= rows@.len(),
            strategies@.len() == columns@.len(),
            forall|j: int| 0 <= j < rows@.len() ==> #[trigger] rows@[j]@.len() == columns@.len(),
            cols == columns_view(columns@),
            cells == rows_view(rows@),
            cols.len() == columns@.len(),
            strategies_of(cols, cols.len()) == Ok::<Seq<Strategy>, DecodeError>(strategies@),
            collect(cols, strategies@, cells, i as nat) == Ok::<Seq<Seq<(Seq<char>, LeafView)>>, DecodeError>(records_view(out@)),
        decreases rows@.len() - i,
    {
        assert(cells[i as int] == row_view(rows@[i as int]@));
        let rec = match assemble_row(columns, &strategies, &rows[i]) {
            Ok(rec) => rec,
            Err(e) => {
                proof {
                    lemma_collect_err_stays(cols, strategies@, cells, (i + 1) as nat, rows@.len());
                }
                return Err(e);
            },
        };
        let ghost before = records_view(out@);
        let ghost r = rec@;
        out.push(rec);
        assert(records_view(out@) =~= before.push(r));
        i = i + 1;
    }
    Ok(out)
}

proof fn lemma_index_bound(e: Seq<(Seq<char>, LeafView)>, k: Seq<char>, j: nat)
    ensures
        index_from(e, k, j) matches Some(i) ==> j <= i < e.len() && e[i as int].0 == k,
    decreases e.len() - j,
{
    if j < e.len() {
        lemma_index_bound(e, k, j + 1);
    }
}

proof fn lemma_index_after_update(e: Seq<(Seq<char>, LeafView)>, k: Seq<char>, v: LeafView, i: nat, j: nat)
    requires
        j <= i < e.len(),
        index_from(e, k, j) == Some(i),
    ensures
        index_from(e.update(i as int, (k, v)), k, j) == Some(i),
    decreases i - j,
{
    if j < i {
        lemma_index_after_update(e, k, v, i, j + 1);
    }
}

proof fn lemma_index_after_push(e: Seq<(Seq<char>, LeafView)>, k: Seq<char>, v: LeafView, j: nat)
    requires
        j <= e.len(),
        index_from(e, k, j) is None,
    ensures
        index_from(e.push((k, v)), k, j) == Some(e.len()),
    decreases e.len() - j,
{
    if j < e.len() {
        lemma_index_after_push(e, k, v, j + 1);
    }
}

/// After `k` is set to `v`, looking `k` up gives `v`.
pub proof fn lemma_lookup_after_insert(e: Seq<(Seq<char>, LeafView)>, k: Seq<char>, v: LeafView)
    ensures
        lookup(insert_entry(e, k, v), k) == Some(v),
{
    match index_of(e, k) {
        Some(i) => {
            lemma_index_bound(e, k, 0);
            lemma_index_after_update(e, k, v, i, 0);
        },
        None => {
            lemma_index_after_push(e, k, v, 0);
        },
    }
}

/// Two values set under one name, one after the other: the later one wins,
/// as with two columns of the same name in one row.
pub proof fn lemma_last_write_wins(e: Seq<(Seq<char>, LeafView)>, k: Seq<char>, first: LeafView, second: LeafView)
    ensures
        lookup(insert_entry(insert_entry(e, k, first), k, second), k) == Some(second),
{
    lemma_lookup_after_insert(insert_entry(e, k, first), k, second);
}

proof fn lemma_strategies_err_kind(cols: Seq<ColumnView>, n: nat)
    requires
        n <= usize::MAX,
    ensures
        strategies_of(cols, n) matches Err(e) ==> (e matches DecodeError::UnsupportedColumnType { column } && column < n),
    decreases n,
{
    if n > 0 {
        lemma_strategies_err_kind(cols, (n - 1) as nat);
    }
}

/// A column with an unsupported type label fails the whole result set with an
/// unsupported-type error for it or an earlier column, whatever rows are
/// given: the outcome is the one for no rows at all, so no row is decoded.
pub proof fn lemma_unsupported_label_fails_first(cols: Seq<ColumnView>, rows: Seq<Seq<CellView>>, i: int)
    requires
        cols.len() <= usize::MAX,
        0 <= i < cols.len(),
        strategy_of(cols[i].decl_type) is None,
    ensures
        rows_result(cols, rows) matches Err(DecodeError::UnsupportedColumnType { column }) && column <= i,
        rows_result(cols, rows) == rows_result(cols, Seq::empty()),
{
    lemma_strategies_err_kind(cols, i as nat);
    if strategies_of(cols, i as nat) is Err {
        lemma_strategies_err_stays(cols, i as nat, cols.len());
    } else {
        lemma_strategies_err_stays(cols, (i + 1) as nat, cols.len());
    }
}

/// A result set of no rows, over columns that all have a supported label,
/// gives an empty list and no error.
pub proof fn lemma_empty_result_set(cols: Seq<ColumnView>)
    requires
        strategies_of(cols, cols.len()) is Ok,
    ensures
        rows_result(cols, Seq::empty()) == Ok::<Seq<Seq<(Seq<char>, LeafView)>>, DecodeError>(Seq::empty()),
{
}

/// Decoding is a function of the metadata and the cells alone: the same row
/// decoded twice under the same metadata gives the same record, or the same
/// error.
pub proof fn lemma_decoding_is_repeatable(cols: Seq<ColumnView>, first: Seq<CellView>, second: Seq<CellView>)
    requires
        first == second,
    ensures
        row_result(cols, first) == row_result(cols, second),
{
}

proof fn lemma_index_absent(e: Seq<(Seq<char>, LeafView)>, k: Seq<char>, j: nat)
    requires
        forall|m: int| 0 <= m < e.len() ==> #[trigger] e[m].0 != k,
    ensures
        index_from(e, k, j) is None,
    decreases e.len() - j,
{
    if j < e.len() {
        lemma_index_absent(e, k, j + 1);
    }
}

/// Where no two columns share a name, an assembled row holds one entry per
/// decoded column, under that column's name and in column order; none is
/// dropped, whatever its value.
pub proof fn lemma_one_entry_per_column(cols: Seq<ColumnView>, strategies: Seq<Strategy>, row: Seq<CellView>, n: nat)
    requires
        n <= cols.len(),
        forall|a: int, b: int| 0 <= a < b < cols.len() ==> #[trigger] cols[a].name != #[trigger] cols[b].name,
    ensures
        assemble(cols, strategies, row, n) matches Ok(es) ==> es.len() == n && forall|m: int| 0 <= m < n ==> #[trigger] es[m].0 == cols[m].name,
    decreases n,
{
    if n > 0 {
        lemma_one_entry_per_column(cols, strategies, row, (n - 1) as nat);
        if let Ok(es) = assemble(cols, strategies, row, (n - 1) as nat) {
            let k = cols[n - 1].name;
            assert forall|m: int| 0 <= m < es.len() implies #[trigger] es[m].0 != k by {
                assert(es[m].0 == cols[m].name);
            }
            lemma_index_absent(es, k, 0);
        }
    }
}

} // verus!
