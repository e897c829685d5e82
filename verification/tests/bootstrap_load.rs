use reasoner::batch::SourceBatch;
use reasoner::bootstrap::{
    decode_rows, decode_source, plan_bootstrap, RejectedRow, Row, SourceLoad, SourceRows,
};
use reasoner::term::{parse_triple, MalformedTerm, Triple};

fn row(s: &str, p: &str, o: &str) -> Row {
    Row { s: s.to_string(), p: p.to_string(), o: o.to_string() }
}

fn triple(s: &str, p: &str, o: &str) -> Triple {
    parse_triple(s, p, o).unwrap()
}

fn numbered_rows(source: &str, count: usize) -> SourceRows {
    SourceRows {
        source: source.to_string(),
        rows: (0..count).map(|i| row(&format!("<urn:{}:{}>", source, i), "<urn:p>", "\"v\"")).collect(),
    }
}

#[test]
fn rows_are_decoded_in_order() {
    let rows = vec![row("<s1>", "<p>", "\"1\""), row("_:b", "<p>", "<o>")];
    let decoded = decode_rows(&rows);
    assert_eq!(decoded.triples, vec![triple("<s1>", "<p>", "\"1\""), triple("_:b", "<p>", "<o>")]);
    assert_eq!(decoded.rejected, vec![]);
}

#[test]
fn no_rows_give_no_triples() {
    let decoded = decode_rows(&vec![]);
    assert_eq!(decoded.triples, vec![]);
    assert_eq!(decoded.rejected, vec![]);
}

#[test]
fn malformed_row_is_left_out_and_reported() {
    let rows = vec![
        row("<s1>", "<p>", "<o>"),
        row("s2", "<p>", "<o>"),
        row("<s3>", "<p>", "<o>"),
        row("<s4>", "<p>", ""),
        row("", "p", "o"),
        row("<s6>", "<p>", "<o>"),
    ];
    let decoded = decode_rows(&rows);
    assert_eq!(
        decoded.triples,
        vec![triple("<s1>", "<p>", "<o>"), triple("<s3>", "<p>", "<o>"), triple("<s6>", "<p>", "<o>")]
    );
    assert_eq!(
        decoded.rejected,
        vec![
            RejectedRow { index: 1, reason: MalformedTerm::UnknownLead },
            RejectedRow { index: 3, reason: MalformedTerm::Empty },
            RejectedRow { index: 4, reason: MalformedTerm::Empty },
        ]
    );
    assert_eq!(decoded.triples.len() + decoded.rejected.len(), rows.len());
}

#[test]
fn source_keeps_its_name() {
    let fetched = SourceRows {
        source: "bldg1".to_string(),
        rows: vec![row("<s>", "<p>", "<o>"), row("?", "<p>", "<o>")],
    };
    assert_eq!(
        decode_source(&fetched),
        SourceLoad {
            batch: SourceBatch {
                source: "bldg1".to_string(),
                triples: vec![triple("<s>", "<p>", "<o>")],
            },
            rejected: vec![RejectedRow { index: 1, reason: MalformedTerm::UnknownLead }],
        }
    );
}

#[test]
fn two_sources_load_two_and_three_triples() {
    let fetched = vec![numbered_rows("a", 2), numbered_rows("b", 3)];
    let loads = plan_bootstrap(&fetched);
    assert_eq!(loads.len(), 2);
    assert_eq!(loads[0].batch.source, "a");
    assert_eq!(loads[0].batch.triples.len(), 2);
    assert_eq!(loads[1].batch.source, "b");
    assert_eq!(loads[1].batch.triples.len(), 3);
    let total: usize = loads.iter().map(|l| l.batch.triples.len()).sum();
    assert_eq!(total, 5);
    assert!(loads.iter().all(|l| l.rejected.is_empty()));
    assert_eq!(loads[1].batch.triples[2], triple("<urn:b:2>", "<urn:p>", "\"v\""));
}

#[test]
fn every_source_gets_its_own_rows() {
    let counts = [0usize, 1, 4, 2];
    let fetched: Vec<SourceRows> =
        counts.iter().enumerate().map(|(i, k)| numbered_rows(&format!("s{}", i), *k)).collect();
    let loads = plan_bootstrap(&fetched);
    assert_eq!(loads.len(), counts.len());
    for (i, k) in counts.iter().enumerate() {
        assert_eq!(loads[i].batch.source, format!("s{}", i));
        assert_eq!(loads[i].batch.triples.len(), *k);
        for (j, t) in loads[i].batch.triples.iter().enumerate() {
            assert_eq!(*t, triple(&format!("<urn:s{}:{}>", i, j), "<urn:p>", "\"v\""));
        }
    }
    assert_eq!(plan_bootstrap(&vec![]), vec![]);
}
