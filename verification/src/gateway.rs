//! The rules of the query gateway: which graph a request names, what query
//! text is run, and what is sent back.

use crate::trusted::{
    ends_user_search, iri_is_valid, scheme_ends_at, splits_a_character, user_part_ends_at, valid_iri,
};
use vstd::prelude::*;
use vstd::utf8::{decode_utf8, encode_utf8, encode_utf8_decode_utf8, valid_utf8};

verus! {

/// The namespace declarations that stand before every query.
pub const PROLOGUE: &'static str =
    "PREFIX brick: <https://brickschema.org/schema/Brick#>\n    PREFIX tag: <https://brickschema.org/schema/BrickTag#>\n    PREFIX rdf: <http://www.w3.org/1999/02/22-rdf-syntax-ns#>\n    PREFIX rdfs: <http://www.w3.org/2000/01/rdf-schema#>\n    PREFIX owl: <http://www.w3.org/2002/07/owl#>\n    PREFIX qudt: <http://qudt.org/schema/qudt/>\n    ";

/// The largest request body that is read, in bytes.
pub const MAX_BODY_BYTES: usize = 1024;

/// Where a query looks.
pub enum QueryScopeView {
    Union,
    Named(Seq<char>),
}

/// Where a query looks: over all sources, or in the graph of one.
#[derive(Debug, PartialEq, Eq)]
pub enum QueryScope {
    Union,
    Named(String),
}

impl View for QueryScope {
    type V = QueryScopeView;

    open spec fn view(&self) -> QueryScopeView {
        match *self {
            QueryScope::Union => QueryScopeView::Union,
            QueryScope::Named(source) => QueryScopeView::Named(source@),
        }
    }
}

/// The scope that a graph name stands for: `default` and `all` are reserved
/// for the union of all sources, any other name is that of one source.
pub open spec fn scope_of(graphname: Seq<char>) -> QueryScopeView {
    if graphname == "default"@ || graphname == "all"@ {
        QueryScopeView::Union
    } else {
        QueryScopeView::Named(graphname)
    }
}

/// Resolves the graph name of a request.
pub fn resolve_scope(graphname: &str) -> (scope: QueryScope)
    ensures
        scope@ == scope_of(graphname@),
{
    if graphname.eq("default") || graphname.eq("all") {
        QueryScope::Union
    } else {
        QueryScope::Named(graphname.to_owned())
    }
}

/// The query text that is run for a submitted query: the prologue, then
/// the query as it was submitted.
pub fn compose_query(query: &str) -> (text: String)
    ensures
        text@ == PROLOGUE@ + query@,
{
    let mut text = PROLOGUE.to_owned();
    text.append(query);
    text
}

/// Why a request body is not read as a query.
#[derive(Debug, Clone, Copy, PartialEq, Eq, Structural)]
pub enum BodyError {
    /// The body is longer than `MAX_BODY_BYTES`.
    TooLarge,
    /// The body is not valid UTF-8.
    NotUtf8,
}

/// The text of a request body, or why it has none: the length is looked at
/// first.
pub open spec fn body_text(body: Seq<u8>) -> Result<Seq<char>, BodyError> {
    if body.len() > MAX_BODY_BYTES {
        Err(BodyError::TooLarge)
    } else if !valid_utf8(body) {
        Err(BodyError::NotUtf8)
    } else {
        Ok(decode_utf8(body))
    }
}

/// Reads a raw request body as text.
pub fn decode_body(body: &[u8]) -> (decoded: Result<String, BodyError>)
    ensures
        match decoded {
            Ok(text) => body_text(body@) == Ok::<Seq<char>, BodyError>(text@),
            Err(reason) => body_text(body@) == Err::<Seq<char>, BodyError>(reason),
        },
{
    if body.len() > MAX_BODY_BYTES {
        return Err(BodyError::TooLarge);
    }
    match core::str::from_utf8(body) {
        Ok(text) => {
            proof {
                encode_utf8_decode_utf8(text@);
            }
            Ok(text.to_owned())
        },
        Err(_) => Err(BodyError::NotUtf8),
    }
}

/// The fields of a submitted form as mathematical values: each a name
/// and its value.
pub open spec fn field_views(fields: Seq<(String, String)>) -> Seq<(Seq<char>, Seq<char>)> {
    fields.map_values(|f: (String, String)| (f.0@, f.1@))
}

/// The value of the field `name` in a form: that of its last occurrence.
pub open spec fn form_value(fields: Seq<(Seq<char>, Seq<char>)>, name: Seq<char>) -> Option<
    Seq<char>,
>
    decreases fields.len(),
{
    if fields.len() == 0 {
        None
    } else if fields.last().0 == name {
        Some(fields.last().1)
    } else {
        form_value(fields.drop_last(), name)
    }
}

/// Looks a field up in a submitted form.
pub fn form_field<'a>(fields: &'a Vec<(String, String)>, name: &str) -> (value: Option<&'a String>)
    ensures
        match value {
            Some(text) => form_value(field_views(fields@), name@) == Some(text@),
            None => form_value(field_views(fields@), name@) is None,
        },
{
    let ghost all = field_views(fields@);
    let mut i: usize = fields.len();
    proof {
        assert(all.take(i as int) == all);
    }
    while i > 0
        invariant
            0 <= i <= fields.len(),
            all == field_views(fields@),
            form_value(all, name@) == form_value(all.take(i as int), name@),
        decreases i,
    {
        i -= 1;
        proof {
            let upto = all.take(i + 1);
            assert(upto.drop_last() == all.take(i as int));
            assert(upto.last() == all[i as int]);
        }
        if fields[i].0.as_str().eq(name) {
            return Some(&fields[i].1);
        }
    }
    None
}

/// A graph name that the engine cannot take.
#[derive(Debug, Clone, Copy, PartialEq, Eq, Structural)]
pub enum ScopeError {
    /// The IRI made of the graph name is not a valid IRI.
    InvalidGraphName,
}

/// The IRI under which the graph of a source is kept: `urn:` and the name.
pub open spec fn graph_iri_of(name: Seq<char>) -> Seq<char> {
    "urn:"@ + name
}

/// The IRI of the graph of the source `name`.
pub fn graph_iri(name: &str) -> (iri: String)
    ensures
        iri@ == graph_iri_of(name@),
{
    let mut iri = "urn:".to_owned();
    iri.append(name);
    iri
}

/// The graph of the source `name`, where `valid` says whether its IRI is one.
pub open spec fn named_graph_of(name: Seq<char>, valid: bool) -> Result<Seq<char>, ScopeError> {
    if valid {
        Ok(graph_iri_of(name))
    } else {
        Err(ScopeError::InvalidGraphName)
    }
}

/// The graph of the source `name`, given whether the engine takes its IRI.
pub fn named_graph(name: &str, valid: bool) -> (graph: Result<String, ScopeError>)
    ensures
        match graph {
            Ok(iri) => named_graph_of(name@, valid) == Ok::<Seq<char>, ScopeError>(iri@),
            Err(reason) => named_graph_of(name@, valid) == Err::<Seq<char>, ScopeError>(reason),
        },
{
    if valid {
        Ok(graph_iri(name))
    } else {
        Err(ScopeError::InvalidGraphName)
    }
}

/// Whether the engine takes `iri` as the IRI of a graph: it is a valid
/// IRI, and none of the texts that are never handed to the engine.
pub open spec fn engine_takes(iri: Seq<char>) -> bool {
    !splits_a_character(iri) && valid_iri(iri)
}

/// The characters of a text.
fn chars_of(text: &str) -> (chars: Vec<char>)
    ensures
        chars@ == text@,
{
    let mut chars: Vec<char> = Vec::new();
    for c in it: text.chars()
        invariant
            it.seq() == text@,
            chars@ == text@.take(it.index()),
    {
        chars.push(c);
        proof {
            assert(text@.take(it.index() + 1) == text@.take(it.index()).push(c));
        }
    }
    proof {
        assert(text@.take(text@.len() as int) == text@);
    }
    chars
}

/// Whether the text is one that is never handed to the engine.
fn is_hazardous(chars: &Vec<char>) -> (hazard: bool)
    ensures
        hazard == splits_a_character(chars@),
{
    let n = chars.len();
    let mut colon: usize = 0;
    while colon < n && chars[colon] != ':'
        invariant
            0 <= colon <= n,
            n == chars.len(),
            forall|k: int| 0 <= k < colon ==> #[trigger] chars@[k] != ':',
        decreases n - colon,
    {
        colon += 1;
    }
    if colon >= n || n - colon <= 3 {
        proof {
            assert forall|c: int, a: int| !(scheme_ends_at(chars@, c) && #[trigger] user_part_ends_at(
                chars@,
                c,
                a,
            )) by {
                if scheme_ends_at(chars@, c) {
                    if c < colon {
                        assert(chars@[c] != ':');
                    }
                }
            }
        }
        return false;
    }
    proof {
        assert forall|c: int| scheme_ends_at(chars@, c) implies c == colon by {
            if c < colon {
                assert(chars@[c] != ':');
            }
            if colon < c {
                assert(chars@[colon as int] == ':');
            }
        }
    }
    if chars[colon + 1] != '/' || chars[colon + 2] != '/' || (chars[colon + 3] as u32) < 0x80 {
        return false;
    }
    assert(scheme_ends_at(chars@, colon as int));
    let mut at: usize = colon + 3;
    while at < n && chars[at] != '@' && chars[at] != '[' && chars[at] != '/' && chars[at] != '?'
        && chars[at] != '#'
        invariant
            colon + 3 <= at <= n,
            n == chars.len(),
            forall|k: int|
                #![trigger chars@[k]]
                colon + 3 <= k < at ==> chars@[k] != '@' && !ends_user_search(chars@[k]),
        decreases n - at,
    {
        at += 1;
    }
    proof {
        assert forall|a: int| user_part_ends_at(chars@, colon as int, a) implies a == at by {
            if a < at {
                assert(chars@[a] != '@');
            }
            if at < a {
                assert(at < n);
                assert(chars@[at as int] == '@' || ends_user_search(chars@[at as int]));
            }
        }
    }
    if at < n && chars[at] == '@' && n - at > 1 && chars[at + 1] == '[' {
        assert(user_part_ends_at(chars@, colon as int, at as int));
        true
    } else {
        false
    }
}

/// The node of the graph of the source `name`: its IRI, where the engine
/// takes it as one. A name whose IRI would make the engine's parser cut a
/// character in two is turned down without asking the engine.
pub fn graphname_node(name: &str) -> (graph: Result<String, ScopeError>)
    ensures
        match graph {
            Ok(iri) => engine_takes(graph_iri_of(name@)) && iri@ == graph_iri_of(name@),
            Err(reason) => !engine_takes(graph_iri_of(name@)) && reason
                == ScopeError::InvalidGraphName,
        },
{
    let iri = graph_iri(name);
    let chars = chars_of(iri.as_str());
    if is_hazardous(&chars) {
        return named_graph(name, false);
    }
    let valid = iri_is_valid(iri.as_str());
    named_graph(name, valid)
}

/// The graph that the engine is asked to look in.
pub enum GraphTargetView {
    Union,
    Graph(Seq<char>),
}

/// The graph that the engine is asked to look in: the union of all graphs,
/// or the one graph with the given IRI.
#[derive(Debug, PartialEq, Eq)]
pub enum GraphTarget {
    Union,
    Graph(String),
}

impl View for GraphTarget {
    type V = GraphTargetView;

    open spec fn view(&self) -> GraphTargetView {
        match *self {
            GraphTarget::Union => GraphTargetView::Union,
            GraphTarget::Graph(iri) => GraphTargetView::Graph(iri@),
        }
    }
}

/// The graph for a scope: the union for the union, and for a source its
/// graph, where its IRI is one.
pub open spec fn target_of(scope: QueryScopeView) -> Result<GraphTargetView, ScopeError> {
    match scope {
        QueryScopeView::Union => Ok(GraphTargetView::Union),
        QueryScopeView::Named(source) => match named_graph_of(
            source,
            engine_takes(graph_iri_of(source)),
        ) {
            Ok(iri) => Ok(GraphTargetView::Graph(iri)),
            Err(reason) => Err(reason),
        },
    }
}

/// Resolves a scope to the graph that the engine is asked to look in.
pub fn resolve_target(scope: &QueryScope) -> (target: Result<GraphTarget, ScopeError>)
    ensures
        match target {
            Ok(graph) => target_of(scope@) == Ok::<GraphTargetView, ScopeError>(graph@),
            Err(reason) => target_of(scope@) == Err::<GraphTargetView, ScopeError>(reason),
        },
{
    match scope {
        QueryScope::Union => Ok(GraphTarget::Union),
        QueryScope::Named(source) => match graphname_node(source.as_str()) {
            Ok(iri) => Ok(GraphTarget::Graph(iri)),
            Err(reason) => Err(reason),
        },
    }
}

/// A query that is ready to run.
pub struct QueryPlanView {
    pub scope: QueryScopeView,
    pub text: Seq<char>,
}

/// A query that is ready to run: where it looks, and its full text.
#[derive(Debug, PartialEq, Eq)]
pub struct QueryPlan {
    pub scope: QueryScope,
    pub text: String,
}

impl View for QueryPlan {
    type V = QueryPlanView;

    open spec fn view(&self) -> QueryPlanView {
        QueryPlanView { scope: self.scope@, text: self.text@ }
    }
}

/// The plan for a query submitted under a graph name.
pub open spec fn plan_of(graphname: Seq<char>, query: Seq<char>) -> QueryPlanView {
    QueryPlanView { scope: scope_of(graphname), text: PROLOGUE@ + query }
}

/// Plans a query submitted under a graph name.
pub fn plan_query(graphname: &str, query: &str) -> (plan: QueryPlan)
    ensures
        plan@ == plan_of(graphname@, query@),
{
    QueryPlan { scope: resolve_scope(graphname), text: compose_query(query) }
}

/// What the engine made of a query.
pub enum QueryOutcomeView {
    Solutions(Seq<u8>),
    NonTabular,
    Failed,
}

/// What the engine made of a query.
#[derive(Debug, PartialEq, Eq)]
pub enum QueryOutcome {
    /// A table of solutions, already serialised as JSON.
    Solutions(Vec<u8>),
    /// A result of another shape, such as a boolean.
    NonTabular,
    /// The graph could not be resolved, or the query was refused or failed.
    Failed,
}

impl View for QueryOutcome {
    type V = QueryOutcomeView;

    open spec fn view(&self) -> QueryOutcomeView {
        match *self {
            QueryOutcome::Solutions(json) => QueryOutcomeView::Solutions(json@),
            QueryOutcome::NonTabular => QueryOutcomeView::NonTabular,
            QueryOutcome::Failed => QueryOutcomeView::Failed,
        }
    }
}

/// A response as a mathematical value.
pub struct ResponseView {
    pub status: u16,
    pub content_type: Option<Seq<char>>,
    pub body: Seq<u8>,
}

/// What is sent back: the status code, the content type where one is set,
/// and the body.
#[derive(Debug, PartialEq, Eq)]
pub struct Response {
    pub status: u16,
    pub content_type: Option<String>,
    pub body: Vec<u8>,
}

impl View for Response {
    type V = ResponseView;

    open spec fn view(&self) -> ResponseView {
        ResponseView {
            status: self.status,
            content_type: match self.content_type {
                Some(kind) => Some(kind@),
                None => None,
            },
            body: self.body@,
        }
    }
}

/// The status of a response that carries solutions.
pub const STATUS_OK: u16 = 200;

/// The status of a response to a body that is not valid UTF-8.
pub const STATUS_BAD_REQUEST: u16 = 400;

/// The status of a response to a body over the limit.
pub const STATUS_PAYLOAD_TOO_LARGE: u16 = 413;

/// The status of a response to a query that gave no solutions to send.
pub const STATUS_SERVER_ERROR: u16 = 500;

/// A response without a content type, whose body is `text`.
pub open spec fn plain_response(status: u16, text: Seq<char>) -> ResponseView {
    ResponseView { status, content_type: None, body: encode_utf8(text) }
}

/// The response to the outcome of a query: solutions go out as JSON, and
/// anything else is a server error.
pub open spec fn response_for(outcome: QueryOutcomeView) -> ResponseView {
    match outcome {
        QueryOutcomeView::Solutions(json) => ResponseView {
            status: STATUS_OK,
            content_type: Some("application/json"@),
            body: json,
        },
        QueryOutcomeView::NonTabular => plain_response(STATUS_SERVER_ERROR, "No results"@),
        QueryOutcomeView::Failed => plain_response(STATUS_SERVER_ERROR, "No results"@),
    }
}

/// The response to a body that was not read: a client error.
pub open spec fn rejection_of(reason: BodyError) -> ResponseView {
    match reason {
        BodyError::TooLarge => plain_response(
            STATUS_PAYLOAD_TOO_LARGE,
            "The request payload is too large"@,
        ),
        BodyError::NotUtf8 => plain_response(
            STATUS_BAD_REQUEST,
            "The request body is not valid UTF-8"@,
        ),
    }
}

/// The response to a form without a `query` field.
pub open spec fn bad_query() -> ResponseView {
    plain_response(STATUS_SERVER_ERROR, "Bad query"@)
}

/// A response without a content type, whose body is `text`.
fn plain(status: u16, text: &str) -> (response: Response)
    ensures
        response@ == plain_response(status, text@),
{
    Response { status, content_type: None, body: text.as_bytes_vec() }
}

/// Shapes the response to the outcome of a query.
pub fn respond(outcome: QueryOutcome) -> (response: Response)
    ensures
        response@ == response_for(outcome@),
{
    match outcome {
        QueryOutcome::Solutions(json) => Response {
            status: STATUS_OK,
            content_type: Some("application/json".to_owned()),
            body: json,
        },
        QueryOutcome::NonTabular => plain(STATUS_SERVER_ERROR, "No results"),
        QueryOutcome::Failed => plain(STATUS_SERVER_ERROR, "No results"),
    }
}

/// Shapes the response to a body that was not read.
pub fn reject(reason: BodyError) -> (response: Response)
    ensures
        response@ == rejection_of(reason),
        400 <= response.status < 500,
{
    match reason {
        BodyError::TooLarge => plain(STATUS_PAYLOAD_TOO_LARGE, "The request payload is too large"),
        BodyError::NotUtf8 => plain(STATUS_BAD_REQUEST, "The request body is not valid UTF-8"),
    }
}

/// What a raw body submitted under a graph name leads to.
pub open spec fn raw_request(graphname: Seq<char>, body: Seq<u8>) -> Result<
    QueryPlanView,
    ResponseView,
> {
    match body_text(body) {
        Ok(query) => Ok(plan_of(graphname, query)),
        Err(reason) => Err(rejection_of(reason)),
    }
}

/// Takes a request whose body is the query itself: the plan to run, or the
/// response that turns the request down.
pub fn accept_raw(graphname: &str, body: &[u8]) -> (accepted: Result<QueryPlan, Response>)
    ensures
        match accepted {
            Ok(plan) => raw_request(graphname@, body@) == Ok::<QueryPlanView, ResponseView>(
                plan@,
            ),
            Err(response) => raw_request(graphname@, body@) == Err::<
                QueryPlanView,
                ResponseView,
            >(response@),
        },
{
    match decode_body(body) {
        Ok(query) => Ok(plan_query(graphname, query.as_str())),
        Err(reason) => Err(reject(reason)),
    }
}

/// What a form submitted under a graph name leads to.
pub open spec fn form_request(graphname: Seq<char>, fields: Seq<(Seq<char>, Seq<char>)>) -> Result<
    QueryPlanView,
    ResponseView,
> {
    match form_value(fields, "query"@) {
        Some(query) => Ok(plan_of(graphname, query)),
        None => Err(bad_query()),
    }
}

/// Takes a request whose body is a form with the query in its field
/// `query`: the plan to run, or the response that turns the request down.
pub fn accept_form(graphname: &str, fields: &Vec<(String, String)>) -> (accepted: Result<
    QueryPlan,
    Response,
>)
    ensures
        match accepted {
            Ok(plan) => form_request(graphname@, field_views(fields@)) == Ok::<
                QueryPlanView,
                ResponseView,
            >(plan@),
            Err(response) => form_request(graphname@, field_views(fields@)) == Err::<
                QueryPlanView,
                ResponseView,
            >(response@),
        },
{
    match form_field(fields, "query") {
        Some(query) => Ok(plan_query(graphname, query.as_str())),
        None => Err(plain(STATUS_SERVER_ERROR, "Bad query")),
    }
}

} // verus!
