//! Tables of text cells, built with `tabled`.
use vstd::prelude::*;
use tabled::builder::Builder;
use tabled::Table;
use crate::text::views;

verus! {

#[verifier::external_type_specification]
#[verifier::external_body]
pub struct ExBuilder(Builder);

#[verifier::external_type_specification]
#[verifier::external_body]
pub struct ExTable(Table);

/// The rows that a `tabled` builder holds, each a sequence of cell texts.
pub uninterp spec fn builder_rows(b: Builder) -> Seq<Seq<Seq<char>>>;

/// The number of columns that a `tabled` builder pads its rows to.
pub uninterp spec fn builder_width(b: Builder) -> nat;

/// The rows of cells that a `tabled` table holds.
pub uninterp spec fn table_rows(t: Table) -> Seq<Seq<Seq<char>>>;

/// `n` empty cells.
pub open spec fn blanks(n: int) -> Seq<Seq<char>> {
    Seq::new(n as nat, |i: int| Seq::<char>::empty())
}

pub open spec fn max(a: int, b: int) -> int {
    if a >= b { a } else { b }
}

/// The rows and width after pushing `record` onto rows `rows` of width `width`:
/// every row is padded with empty cells to the widest of the old width and the record.
pub open spec fn pushed_rows(rows: Seq<Seq<Seq<char>>>, width: int, record: Seq<Seq<char>>) -> (Seq<Seq<Seq<char>>>, int) {
    let w = max(width, record.len() as int);
    (rows.map_values(|r: Seq<Seq<char>>| r + blanks(w - width)).push(record + blanks(w - record.len())), w)
}

/// The rows and width of a builder that starts empty and is given `records` in order.
pub open spec fn built_rows(records: Seq<Seq<Seq<char>>>) -> (Seq<Seq<Seq<char>>>, int)
    decreases records.len(),
{
    if records.len() == 0 {
        (Seq::empty(), 0)
    } else {
        let prev = built_rows(records.drop_last());
        pushed_rows(prev.0, prev.1, records.last())
    }
}

/// The number of cells of the longest record (0 when there is none).
pub open spec fn widest(records: Seq<Seq<Seq<char>>>) -> int
    decreases records.len(),
{
    if records.len() == 0 {
        0
    } else {
        max(widest(records.drop_last()), records.last().len() as int)
    }
}

/// Building a table from records pads every record with empty cells to the length
/// of the longest one, and keeps their order.
pub proof fn lemma_built_rows_pad_to_widest(records: Seq<Seq<Seq<char>>>)
    ensures
        built_rows(records).1 == widest(records),
        built_rows(records).0 == records.map_values(
            |r: Seq<Seq<char>>| r + blanks(widest(records) - r.len()),
        ),
    decreases records.len(),
{
    if records.len() > 0 {
        let prev = records.drop_last();
        lemma_built_rows_pad_to_widest(prev);
        lemma_widest_bounds(prev);
        let w0 = widest(prev);
        let w = widest(records);
        let p = built_rows(prev).0;
        let res = built_rows(records).0;
        let expect = records.map_values(|r: Seq<Seq<char>>| r + blanks(w - r.len()));
        assert(res.len() == expect.len());
        assert forall|i: int| 0 <= i < res.len() implies res[i] == expect[i] by {
            if i < prev.len() {
                assert(prev[i] == records[i]);
                assert(p[i] == prev[i] + blanks(w0 - prev[i].len()));
                assert(blanks(w0 - prev[i].len()) + blanks(w - w0) =~= blanks(w - prev[i].len()));
                assert(p[i] + blanks(w - w0) =~= prev[i] + blanks(w - prev[i].len()));
            }
        }
        assert(res =~= expect);
    }
}

/// Every record is no longer than the widest one.
pub proof fn lemma_widest_bounds(records: Seq<Seq<Seq<char>>>)
    ensures
        widest(records) >= 0,
        forall|i: int| 0 <= i < records.len() ==> records[i].len() <= widest(records),
    decreases records.len(),
{
    if records.len() > 0 {
        lemma_widest_bounds(records.drop_last());
        assert forall|i: int| 0 <= i < records.len() implies records[i].len() <= widest(records) by {
            if i < records.len() - 1 {
                assert(records.drop_last()[i] == records[i]);
            }
        }
    }
}

/// Calls `tabled::builder::Builder::default`: a builder with no rows and no columns.
#[verifier::external_body]
pub(crate) fn builder_default() -> (b: Builder)
    ensures
        builder_rows(b) == Seq::<Seq<Seq<char>>>::empty(),
        builder_width(b) == 0,
{
    Builder::default()
}

/// Calls `tabled::builder::Builder::with_capacity`: a builder with no rows whose
/// width is `columns`; the row capacity does not change what it holds.
#[verifier::external_body]
pub(crate) fn builder_with_capacity(rows: usize, columns: usize) -> (b: Builder)
    ensures
        builder_rows(b) == Seq::<Seq<Seq<char>>>::empty(),
        builder_width(b) == columns,
{
    Builder::with_capacity(rows, columns)
}

/// Calls `tabled::builder::Builder::push_record`: the record is padded with empty cells to
/// the builder's width; when it is wider, every earlier row is padded to its length.
#[verifier::external_body]
pub(crate) fn builder_push_record(b: &mut Builder, record: Vec<String>)
    ensures
        builder_rows(*final(b)) == pushed_rows(builder_rows(*old(b)), builder_width(*old(b)) as int, views(record@)).0,
        builder_width(*final(b)) == pushed_rows(builder_rows(*old(b)), builder_width(*old(b)) as int, views(record@)).1,
{
    b.push_record(record)
}

/// Calls `tabled::builder::Builder::build`: the table holds the builder's rows.
#[verifier::external_body]
pub(crate) fn builder_build(b: Builder) -> (t: Table)
    ensures
        table_rows(t) == builder_rows(b),
{
    b.build()
}

/// Calls `tabled::Table::default`: a table without rows.
#[verifier::external_body]
pub(crate) fn table_default() -> (t: Table)
    ensures
        table_rows(t) == Seq::<Seq<Seq<char>>>::empty(),
{
    Table::default()
}

} // verus!
