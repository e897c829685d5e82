use reasoner::term::{parse_triple, parse_triple_term, remove_angles, MalformedTerm, Term, Triple};

fn iri(value: &str) -> Term {
    Term::Iri(value.to_string())
}

fn literal(value: &str) -> Term {
    Term::Literal { value: value.to_string(), datatype: None, language: None }
}

#[test]
fn iri_loses_its_angle_brackets() {
    assert_eq!(parse_triple_term("<http://x>"), Ok(iri("http://x")));
}

#[test]
fn iri_loses_angle_brackets_in_the_middle_too() {
    assert_eq!(parse_triple_term("<http://x<y>>z>"), Ok(iri("http://xyz")));
    assert_eq!(parse_triple_term("<>"), Ok(iri("")));
    assert_eq!(parse_triple_term("<"), Ok(iri("")));
    assert_eq!(parse_triple_term("<a"), Ok(iri("a")));
}

#[test]
fn stripping_twice_changes_nothing_more() {
    let once = remove_angles("<<urn:ex:1>> and <more>");
    assert_eq!(once, "urn:ex:1 and more");
    assert_eq!(remove_angles(&once), once);
    assert!(!once.contains('<') && !once.contains('>'));
}

#[test]
fn stripping_keeps_other_characters() {
    assert_eq!(remove_angles(""), "");
    assert_eq!(remove_angles("plain"), "plain");
    assert_eq!(remove_angles("<\u{e9}t\u{e9}>"), "\u{e9}t\u{e9}");
    assert_eq!(remove_angles("><><"), "");
}

#[test]
fn decoded_iri_decodes_again_to_itself() {
    let first = parse_triple_term("<urn:<ex>:1>").unwrap();
    let value = match &first {
        Term::Iri(value) => value.clone(),
        other => panic!("not an IRI: {:?}", other),
    };
    assert_eq!(value, "urn:ex:1");
    assert_eq!(parse_triple_term(&format!("<{}>", value)), Ok(first));
}

#[test]
fn blank_node_keeps_its_whole_identifier() {
    assert_eq!(parse_triple_term("_:b0"), Ok(Term::BlankNode("_:b0".to_string())));
    assert_eq!(parse_triple_term("_"), Ok(Term::BlankNode("_".to_string())));
    assert_eq!(parse_triple_term("_<x>"), Ok(Term::BlankNode("_<x>".to_string())));
}

#[test]
fn literal_keeps_its_whole_text() {
    assert_eq!(parse_triple_term("\"42\""), Ok(literal("\"42\"")));
    assert_eq!(parse_triple_term("\""), Ok(literal("\"")));
}

#[test]
fn literal_never_has_datatype_or_language() {
    let typed = "\"42\"^^<http://www.w3.org/2001/XMLSchema#integer>";
    assert_eq!(parse_triple_term(typed), Ok(literal(typed)));
    let tagged = "\"chat\"@fr";
    assert_eq!(parse_triple_term(tagged), Ok(literal(tagged)));
}

#[test]
fn empty_text_is_malformed() {
    assert_eq!(parse_triple_term(""), Err(MalformedTerm::Empty));
}

#[test]
fn other_first_characters_are_malformed() {
    for text in ["x", "http://x", " <http://x>", ">", "'a'", "42", "\u{e9}", "\u{1F600}<"] {
        assert_eq!(parse_triple_term(text), Err(MalformedTerm::UnknownLead), "{:?}", text);
    }
}

#[test]
fn first_character_decides_the_kind() {
    assert!(matches!(parse_triple_term("<_\""), Ok(Term::Iri(_))));
    assert!(matches!(parse_triple_term("_<\""), Ok(Term::BlankNode(_))));
    assert!(matches!(parse_triple_term("\"<_"), Ok(Term::Literal { .. })));
}

#[test]
fn triple_is_decoded_term_by_term() {
    let triple = parse_triple("<urn:ex:1>", "<urn:ex:has>", "\"42\"");
    assert_eq!(
        triple,
        Ok(Triple {
            subject: iri("urn:ex:1"),
            predicate: iri("urn:ex:has"),
            object: literal("\"42\""),
        })
    );
}

#[test]
fn first_malformed_term_of_a_triple_decides_the_error() {
    assert_eq!(parse_triple("", "x", "<o>"), Err(MalformedTerm::Empty));
    assert_eq!(parse_triple("x", "", "<o>"), Err(MalformedTerm::UnknownLead));
    assert_eq!(parse_triple("<s>", "", "x"), Err(MalformedTerm::Empty));
    assert_eq!(parse_triple("<s>", "<p>", "x"), Err(MalformedTerm::UnknownLead));
    assert_eq!(parse_triple("<s>", "<p>", ""), Err(MalformedTerm::Empty));
}

#[test]
fn copies_are_equal() {
    let triple = parse_triple("_:s", "<p>", "\"o\"").unwrap();
    assert_eq!(triple.clone(), triple);
    let with_all = Term::Literal {
        value: "v".to_string(),
        datatype: Some("d".to_string()),
        language: Some("en".to_string()),
    };
    assert_eq!(with_all.clone(), with_all);
}
