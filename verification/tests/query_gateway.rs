use reasoner::gateway::{
    accept_form, accept_raw, compose_query, decode_body, form_field, graph_iri, graphname_node,
    named_graph, plan_query, reject, resolve_scope, resolve_target, respond, BodyError,
    GraphTarget, QueryOutcome, QueryPlan, QueryScope, Response, ScopeError, MAX_BODY_BYTES,
    PROLOGUE,
};

fn field(name: &str, value: &str) -> (String, String) {
    (name.to_string(), value.to_string())
}

fn text_response(status: u16, body: &str) -> Response {
    Response { status, content_type: None, body: body.as_bytes().to_vec() }
}

#[test]
fn reserved_names_mean_the_union() {
    assert_eq!(resolve_scope("default"), QueryScope::Union);
    assert_eq!(resolve_scope("all"), QueryScope::Union);
}

#[test]
fn any_other_name_is_a_source() {
    for name in ["bldg1", "a", "", "All", "DEFAULT", "all ", "defaults", "al", "any", "a b"] {
        assert_eq!(resolve_scope(name), QueryScope::Named(name.to_string()), "{:?}", name);
    }
}

#[test]
fn prologue_declares_the_known_vocabularies() {
    let expected = "PREFIX brick: <https://brickschema.org/schema/Brick#>
    PREFIX tag: <https://brickschema.org/schema/BrickTag#>
    PREFIX rdf: <http://www.w3.org/1999/02/22-rdf-syntax-ns#>
    PREFIX rdfs: <http://www.w3.org/2000/01/rdf-schema#>
    PREFIX owl: <http://www.w3.org/2002/07/owl#>
    PREFIX qudt: <http://qudt.org/schema/qudt/>
    ";
    assert_eq!(PROLOGUE, expected);
}

#[test]
fn prologue_stands_before_the_query() {
    let query = "SELECT ?s WHERE { ?s a brick:Sensor }";
    assert_eq!(compose_query(query), format!("{}{}", PROLOGUE, query));
    assert_eq!(compose_query(""), PROLOGUE);
}

#[test]
fn body_is_read_as_text() {
    assert_eq!(decode_body(b"SELECT * WHERE { ?s ?p ?o }"), Ok("SELECT * WHERE { ?s ?p ?o }".to_string()));
    assert_eq!(decode_body("caf\u{e9} \u{1F600}".as_bytes()), Ok("caf\u{e9} \u{1F600}".to_string()));
    assert_eq!(decode_body(b""), Ok(String::new()));
}

#[test]
fn body_that_is_not_utf8_is_refused() {
    assert_eq!(decode_body(&[0xff, 0xfe, 0xfd]), Err(BodyError::NotUtf8));
    assert_eq!(decode_body(&[b'a', 0xc3]), Err(BodyError::NotUtf8));
    assert_eq!(decode_body(&[0xc0, 0xaf]), Err(BodyError::NotUtf8));
    assert_eq!(decode_body(&[0xed, 0xa0, 0x80]), Err(BodyError::NotUtf8));
}

#[test]
fn body_over_the_limit_is_refused() {
    assert_eq!(MAX_BODY_BYTES, 1024);
    assert_eq!(decode_body(&vec![b'a'; 1024]), Ok("a".repeat(1024)));
    assert_eq!(decode_body(&vec![b'a'; 1025]), Err(BodyError::TooLarge));
    assert_eq!(decode_body(&vec![0xff; 1025]), Err(BodyError::TooLarge));
    assert_eq!(decode_body(&vec![0xff; 1024]), Err(BodyError::NotUtf8));
}

#[test]
fn invalid_utf8_is_a_client_error() {
    let accepted = accept_raw("any", &[0x80, 0x81]);
    let response = accepted.unwrap_err();
    assert!(response.status >= 400 && response.status < 500);
    assert_eq!(response, reject(BodyError::NotUtf8));
    assert_eq!(response, text_response(400, "The request body is not valid UTF-8"));
}

#[test]
fn oversized_body_is_a_client_error() {
    let response = accept_raw("any", &vec![b' '; 2000]).unwrap_err();
    assert_eq!(response, text_response(413, "The request payload is too large"));
    assert_eq!(reject(BodyError::TooLarge), response);
}

#[test]
fn raw_body_becomes_the_query() {
    let accepted = accept_raw("bldg1", b"ASK { ?s ?p ?o }");
    assert_eq!(
        accepted,
        Ok(QueryPlan {
            scope: QueryScope::Named("bldg1".to_string()),
            text: format!("{}ASK {{ ?s ?p ?o }}", PROLOGUE),
        })
    );
    assert_eq!(accept_raw("all", b"q").unwrap().scope, QueryScope::Union);
    assert_eq!(accept_raw("default", b"q"), Ok(plan_query("default", "q")));
}

#[test]
fn form_without_query_is_a_bad_query() {
    let response = accept_form("bldg1", &vec![field("q", "SELECT"), field("Query", "x")]).unwrap_err();
    assert_eq!(response.status, 500);
    assert_eq!(response.body, b"Bad query".to_vec());
    assert_eq!(response.content_type, None);
    assert_eq!(accept_form("all", &vec![]), Err(text_response(500, "Bad query")));
}

#[test]
fn form_query_field_becomes_the_query() {
    let fields = vec![field("format", "json"), field("query", "SELECT ?x WHERE { ?x ?y ?z }")];
    assert_eq!(
        accept_form("all", &fields),
        Ok(QueryPlan {
            scope: QueryScope::Union,
            text: format!("{}SELECT ?x WHERE {{ ?x ?y ?z }}", PROLOGUE),
        })
    );
    assert_eq!(accept_form("b", &vec![field("query", "")]), Ok(plan_query("b", "")));
}

#[test]
fn last_occurrence_of_a_field_counts() {
    let fields = vec![field("query", "first"), field("other", "x"), field("query", "second")];
    assert_eq!(form_field(&fields, "query"), Some(&"second".to_string()));
    assert_eq!(form_field(&fields, "other"), Some(&"x".to_string()));
    assert_eq!(form_field(&fields, "missing"), None);
    assert_eq!(form_field(&fields, ""), None);
    assert_eq!(accept_form("g", &fields).unwrap().text, format!("{}second", PROLOGUE));
}

#[test]
fn solutions_go_out_as_json() {
    let json = b"{\"head\":{\"vars\":[\"s\"]},\"results\":{\"bindings\":[]}}".to_vec();
    assert_eq!(
        respond(QueryOutcome::Solutions(json.clone())),
        Response {
            status: 200,
            content_type: Some("application/json".to_string()),
            body: json,
        }
    );
}

#[test]
fn anything_but_solutions_is_a_server_error() {
    assert_eq!(respond(QueryOutcome::NonTabular), text_response(500, "No results"));
    assert_eq!(respond(QueryOutcome::Failed), text_response(500, "No results"));
}

#[test]
fn graph_of_a_source_is_named_by_an_urn() {
    assert_eq!(graph_iri("bldg1"), "urn:bldg1");
    assert_eq!(graph_iri(""), "urn:");
    assert_eq!(graphname_node("bldg1"), Ok("urn:bldg1".to_string()));
    assert_eq!(graphname_node("a/b:c"), Ok("urn:a/b:c".to_string()));
}

#[test]
fn graph_name_that_makes_no_iri_is_refused() {
    assert_eq!(graphname_node("a b"), Err(ScopeError::InvalidGraphName));
    assert_eq!(graphname_node("<x>"), Err(ScopeError::InvalidGraphName));
    assert_eq!(named_graph("bldg1", false), Err(ScopeError::InvalidGraphName));
    assert_eq!(named_graph("a b", true), Ok("urn:a b".to_string()));
}

#[test]
fn scope_resolves_to_the_graph_to_look_in() {
    assert_eq!(resolve_target(&QueryScope::Union), Ok(GraphTarget::Union));
    assert_eq!(
        resolve_target(&QueryScope::Named("bldg1".to_string())),
        Ok(GraphTarget::Graph("urn:bldg1".to_string()))
    );
    assert_eq!(
        resolve_target(&QueryScope::Named("no good".to_string())),
        Err(ScopeError::InvalidGraphName)
    );
    assert_eq!(resolve_target(&resolve_scope("all")), Ok(GraphTarget::Union));
}

#[test]
fn name_that_would_split_a_character_is_refused_unasked() {
    for name in [
        "//\u{e9}@[::1]",
        "//\u{e9}@[::1",
        "//\u{e9}@[",
        "//\u{e9}l\u{e8}ve:pw@[::1]:80/p?q#f",
        "//\u{1F600}@[::1]/x",
        "//\u{4e2d}%41b@[v1.x]",
    ] {
        assert_eq!(graphname_node(name), Err(ScopeError::InvalidGraphName), "{:?}", name);
        assert_eq!(
            resolve_target(&QueryScope::Named(name.to_string())),
            Err(ScopeError::InvalidGraphName),
            "{:?}",
            name
        );
    }
}

#[test]
fn names_next_to_the_refused_ones_are_left_to_the_engine() {
    assert_eq!(graphname_node("//[::1]"), Ok("urn://[::1]".to_string()));
    assert_eq!(graphname_node("//\u{e9}.example/x"), Ok("urn://\u{e9}.example/x".to_string()));
    assert_eq!(graphname_node("//\u{e9}@host"), Ok("urn://\u{e9}@host".to_string()));
    assert_eq!(graphname_node("//u\u{e9}@host/p"), Ok("urn://u\u{e9}@host/p".to_string()));
    assert_eq!(graphname_node("//e@[::1]"), Err(ScopeError::InvalidGraphName));
    assert_eq!(graphname_node("//@[::1]"), Err(ScopeError::InvalidGraphName));
    assert_eq!(graphname_node("//\u{e9}/@[::1]"), Err(ScopeError::InvalidGraphName));
    assert_eq!(graphname_node("//\u{e9}[@[::1]"), Err(ScopeError::InvalidGraphName));
    assert_eq!(graphname_node("/\u{e9}@[::1]"), Err(ScopeError::InvalidGraphName));
    assert_eq!(graphname_node("\u{e9}@[::1]"), Err(ScopeError::InvalidGraphName));
    assert_eq!(graphname_node("\u{e9}"), Ok("urn:\u{e9}".to_string()));
}

#[test]
fn refused_name_is_answered_as_a_failed_query() {
    let plan = accept_raw("//\u{e9}@[::1]", b"SELECT * WHERE { ?s ?p ?o }").unwrap();
    assert_eq!(plan.scope, QueryScope::Named("//\u{e9}@[::1]".to_string()));
    let outcome = match resolve_target(&plan.scope) {
        Ok(_) => panic!("the name was taken"),
        Err(_) => QueryOutcome::Failed,
    };
    assert_eq!(respond(outcome), text_response(500, "No results"));
}
