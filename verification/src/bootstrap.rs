//! The first load: the stored rows of each source, decoded into the triples
//! to merge before any query is served.

use crate::batch::{SourceBatch, SourceBatchView};
use crate::term::{parse_terms, parse_triple, triple_views, MalformedTerm, Triple, TripleView};
use vstd::prelude::*;

verus! {

/// A stored row as a mathematical value.
pub struct RowView {
    pub s: Seq<char>,
    pub p: Seq<char>,
    pub o: Seq<char>,
}

/// One stored row: the three terms of a triple in their textual encoding.
#[derive(Debug, PartialEq, Eq)]
pub struct Row {
    pub s: String,
    pub p: String,
    pub o: String,
}

impl View for Row {
    type V = RowView;

    open spec fn view(&self) -> RowView {
        RowView { s: self.s@, p: self.p@, o: self.o@ }
    }
}

/// The views of a run of rows, in order.
pub open spec fn row_views(rows: Seq<Row>) -> Seq<RowView> {
    rows.map_values(|r: Row| r@)
}

/// A row that was left out, by its place among the rows of its source, and
/// why.
#[derive(Debug, Clone, Copy, PartialEq, Eq, Structural)]
pub struct RejectedRow {
    pub index: usize,
    pub reason: MalformedTerm,
}

/// The triple that a row encodes.
pub open spec fn row_triple(row: RowView) -> Result<TripleView, MalformedTerm> {
    parse_terms(row.s, row.p, row.o)
}

/// The triples of the rows that decode, in the order of the rows.
pub open spec fn accepted_rows(rows: Seq<RowView>) -> Seq<TripleView> {
    rows.filter(|r: RowView| row_triple(r) is Ok).map_values(|r: RowView| row_triple(r)->Ok_0)
}

/// The rows that do not decode, each with its place and the reason, in the
/// order of the rows.
pub open spec fn rejected_rows(rows: Seq<RowView>) -> Seq<RejectedRow>
    decreases rows.len(),
{
    if rows.len() == 0 {
        Seq::empty()
    } else {
        let earlier = rejected_rows(rows.drop_last());
        match row_triple(rows.last()) {
            Ok(_) => earlier,
            Err(reason) => earlier.push(
                RejectedRow { index: (rows.len() - 1) as usize, reason },
            ),
        }
    }
}

/// Decoding goes through the rows one at a time.
pub proof fn lemma_accepted_push(rows: Seq<RowView>, row: RowView)
    ensures
        accepted_rows(rows.push(row)) == match row_triple(row) {
            Ok(triple) => accepted_rows(rows).push(triple),
            Err(_) => accepted_rows(rows),
        },
        rejected_rows(rows.push(row)) == match row_triple(row) {
            Ok(_) => rejected_rows(rows),
            Err(reason) => rejected_rows(rows).push(
                RejectedRow { index: rows.len() as usize, reason },
            ),
        },
{
    reveal(Seq::filter);
    let all = rows.push(row);
    assert(all.drop_last() == rows);
    let decodes = |r: RowView| row_triple(r) is Ok;
    let decoded = |r: RowView| row_triple(r)->Ok_0;
    if row_triple(row) is Ok {
        assert(all.filter(decodes) == rows.filter(decodes).push(row));
        assert(rows.filter(decodes).push(row).map_values(decoded) =~= rows.filter(
            decodes,
        ).map_values(decoded).push(decoded(row)));
    }
}

/// What became of the rows of one source.
#[derive(Debug, PartialEq, Eq)]
pub struct DecodedRows {
    /// The triples of the rows that decode.
    pub triples: Vec<Triple>,
    /// The rows that were left out.
    pub rejected: Vec<RejectedRow>,
}

/// Decodes the rows of one source. A row with a malformed term is left out
/// and reported; the rows around it are kept.
pub fn decode_rows(rows: &Vec<Row>) -> (decoded: DecodedRows)
    ensures
        triple_views(decoded.triples@) == accepted_rows(row_views(rows@)),
        decoded.rejected@ == rejected_rows(row_views(rows@)),
{
    let mut triples: Vec<Triple> = Vec::new();
    let mut rejected: Vec<RejectedRow> = Vec::new();
    let ghost all = row_views(rows@);
    let mut i: usize = 0;
    proof {
        reveal(Seq::filter);
        assert(all.take(0).len() == 0);
        assert(triple_views(triples@) =~= accepted_rows(all.take(0)));
    }
    while i < rows.len()
        invariant
            0 <= i <= rows.len(),
            all == row_views(rows@),
            triple_views(triples@) == accepted_rows(all.take(i as int)),
            rejected@ == rejected_rows(all.take(i as int)),
        decreases rows.len() - i,
    {
        let row = &rows[i];
        proof {
            assert(all.take(i + 1) == all.take(i as int).push(row@));
            lemma_accepted_push(all.take(i as int), row@);
        }
        let ghost before = triples@;
        match parse_triple(row.s.as_str(), row.p.as_str(), row.o.as_str()) {
            Ok(triple) => {
                triples.push(triple);
                proof {
                    assert(triple_views(triples@) =~= triple_views(before).push(triple@));
                }
            },
            Err(reason) => {
                rejected.push(RejectedRow { index: i, reason });
            },
        }
        i += 1;
    }
    proof {
        assert(all.take(rows.len() as int) == all);
    }
    DecodedRows { triples, rejected }
}

/// The fetched rows of one source as a mathematical value.
pub struct SourceRowsView {
    pub source: Seq<char>,
    pub rows: Seq<RowView>,
}

/// A source and the rows that were fetched for it.
#[derive(Debug, PartialEq, Eq)]
pub struct SourceRows {
    pub source: String,
    pub rows: Vec<Row>,
}

impl View for SourceRows {
    type V = SourceRowsView;

    open spec fn view(&self) -> SourceRowsView {
        SourceRowsView { source: self.source@, rows: row_views(self.rows@) }
    }
}

/// The first load of one source as a mathematical value.
pub struct SourceLoadView {
    pub batch: SourceBatchView,
    pub rejected: Seq<RejectedRow>,
}

/// The first load of one source: the triples to merge into its graph, and
/// the rows that were left out.
#[derive(Debug, PartialEq, Eq)]
pub struct SourceLoad {
    pub batch: SourceBatch,
    pub rejected: Vec<RejectedRow>,
}

impl View for SourceLoad {
    type V = SourceLoadView;

    open spec fn view(&self) -> SourceLoadView {
        SourceLoadView { batch: self.batch@, rejected: self.rejected@ }
    }
}

/// The views of a run of fetched sources, in order.
pub open spec fn fetched_views(fetched: Seq<SourceRows>) -> Seq<SourceRowsView> {
    fetched.map_values(|f: SourceRows| f@)
}

/// The views of a run of loads, in order.
pub open spec fn load_views(loads: Seq<SourceLoad>) -> Seq<SourceLoadView> {
    loads.map_values(|l: SourceLoad| l@)
}

/// The load of one source: under its name, the triples of its rows that
/// decode.
pub open spec fn load_of(fetched: SourceRowsView) -> SourceLoadView {
    SourceLoadView {
        batch: SourceBatchView { source: fetched.source, triples: accepted_rows(fetched.rows) },
        rejected: rejected_rows(fetched.rows),
    }
}

/// The loads of all sources, one for each and in their order.
pub open spec fn planned(fetched: Seq<SourceRowsView>) -> Seq<SourceLoadView> {
    fetched.map_values(|f: SourceRowsView| load_of(f))
}

/// Decodes what was fetched for one source.
pub fn decode_source(fetched: &SourceRows) -> (load: SourceLoad)
    ensures
        load@ == load_of(fetched@),
{
    let decoded = decode_rows(&fetched.rows);
    SourceLoad {
        batch: SourceBatch { source: fetched.source.clone(), triples: decoded.triples },
        rejected: decoded.rejected,
    }
}

/// Decodes what was fetched for every source: the merges to make, one for
/// each source and in the order of the sources.
pub fn plan_bootstrap(fetched: &Vec<SourceRows>) -> (loads: Vec<SourceLoad>)
    ensures
        load_views(loads@) == planned(fetched_views(fetched@)),
{
    let mut loads: Vec<SourceLoad> = Vec::new();
    let mut i: usize = 0;
    while i < fetched.len()
        invariant
            0 <= i <= fetched.len(),
            loads.len() == i,
            forall|k: int| 0 <= k < i ==> (#[trigger] loads[k])@ == load_of(fetched[k]@),
        decreases fetched.len() - i,
    {
        loads.push(decode_source(&fetched[i]));
        i += 1;
    }
    proof {
        assert(load_views(loads@) =~= planned(fetched_views(fetched@)));
    }
    loads
}

/// Every row is either decoded or reported.
pub proof fn lemma_rows_accounted(rows: Seq<RowView>)
    ensures
        accepted_rows(rows).len() + rejected_rows(rows).len() == rows.len(),
    decreases rows.len(),
{
    if rows.len() == 0 {
        reveal(Seq::filter);
    } else {
        lemma_rows_accounted(rows.drop_last());
        lemma_accepted_push(rows.drop_last(), rows.last());
        assert(rows.drop_last().push(rows.last()) == rows);
    }
}

/// Each reported row is a row that does not decode, with the reason of that
/// row, and the reports stand in the order of the rows.
pub proof fn lemma_rejected_rows_are_malformed(rows: Seq<RowView>)
    requires
        rows.len() <= usize::MAX,
    ensures
        forall|k: int|
            0 <= k < rejected_rows(rows).len() ==> {
                let report = #[trigger] rejected_rows(rows)[k];
                report.index < rows.len() && row_triple(rows[report.index as int]) == Err::<
                    TripleView,
                    MalformedTerm,
                >(report.reason)
            },
        forall|j: int, k: int|
            0 <= j < k < rejected_rows(rows).len() ==> (#[trigger] rejected_rows(rows)[j]).index
                < (#[trigger] rejected_rows(rows)[k]).index,
    decreases rows.len(),
{
    if rows.len() > 0 {
        let earlier = rows.drop_last();
        lemma_rejected_rows_are_malformed(earlier);
        assert forall|k: int| 0 <= k < rejected_rows(earlier).len() implies rows[(
        #[trigger] rejected_rows(earlier)[k]).index as int] == earlier[rejected_rows(
            earlier,
        )[k].index as int] by {}
    }
}

/// Where every row decodes, none is left out: there are as many triples as
/// rows, each the triple of the row at its place.
pub proof fn lemma_well_formed_rows_all_load(rows: Seq<RowView>)
    requires
        forall|i: int| 0 <= i < rows.len() ==> row_triple(#[trigger] rows[i]) is Ok,
    ensures
        rejected_rows(rows).len() == 0,
        accepted_rows(rows).len() == rows.len(),
        forall|i: int|
            0 <= i < rows.len() ==> Ok::<TripleView, MalformedTerm>(
                #[trigger] accepted_rows(rows)[i],
            ) == row_triple(rows[i]),
    decreases rows.len(),
{
    if rows.len() == 0 {
        reveal(Seq::filter);
    } else {
        let earlier = rows.drop_last();
        lemma_well_formed_rows_all_load(earlier);
        lemma_accepted_push(earlier, rows.last());
        assert(earlier.push(rows.last()) == rows);
    }
}

/// The number of rows over all sources.
pub open spec fn row_total(fetched: Seq<SourceRowsView>) -> nat
    decreases fetched.len(),
{
    if fetched.len() == 0 {
        0
    } else {
        row_total(fetched.drop_last()) + fetched.last().rows.len()
    }
}

/// The number of triples over all loads.
pub open spec fn triple_total(loads: Seq<SourceLoadView>) -> nat
    decreases loads.len(),
{
    if loads.len() == 0 {
        0
    } else {
        triple_total(loads.drop_last()) + loads.last().batch.triples.len()
    }
}

/// Whether every row of every source decodes.
pub open spec fn all_rows_decode(fetched: Seq<SourceRowsView>) -> bool {
    forall|i: int, j: int|
        0 <= i < fetched.len() && 0 <= j < fetched[i].rows.len() ==> row_triple(
            #[trigger] fetched[i].rows[j],
        ) is Ok
}

/// Where every stored row decodes, the first load merges under each source
/// as many triples as the source has rows, and over all sources as many as
/// there are rows.
pub proof fn lemma_bootstrap_keeps_every_row(fetched: Seq<SourceRowsView>)
    requires
        all_rows_decode(fetched),
    ensures
        planned(fetched).len() == fetched.len(),
        forall|i: int|
            0 <= i < fetched.len() ==> (#[trigger] planned(fetched)[i]).batch.source
                == fetched[i].source && planned(fetched)[i].batch.triples.len()
                == fetched[i].rows.len() && planned(fetched)[i].rejected.len() == 0,
        triple_total(planned(fetched)) == row_total(fetched),
    decreases fetched.len(),
{
    assert forall|i: int| 0 <= i < fetched.len() implies (#[trigger] planned(
        fetched,
    )[i]).batch.triples.len() == fetched[i].rows.len() && planned(fetched)[i].rejected.len()
        == 0 by {
        assert forall|j: int| 0 <= j < fetched[i].rows.len() implies row_triple(
            #[trigger] fetched[i].rows[j],
        ) is Ok by {}
        lemma_well_formed_rows_all_load(fetched[i].rows);
    }
    if fetched.len() > 0 {
        let earlier = fetched.drop_last();
        assert(all_rows_decode(earlier)) by {
            assert forall|i: int, j: int|
                0 <= i < earlier.len() && 0 <= j < earlier[i].rows.len() implies row_triple(
                #[trigger] earlier[i].rows[j],
            ) is Ok by {
                assert(earlier[i] == fetched[i]);
            }
        }
        lemma_bootstrap_keeps_every_row(earlier);
        assert(planned(fetched).drop_last() =~= planned(earlier));
    }
}

} // verus!
