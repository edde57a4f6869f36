//! Client for the RLM (Recursive Language Model) service.
//!
//! The RLM service provides context-aware research: compact working sets,
//! evidence packets, and long-transcript exploration.

use crate::dispatch::result_view;
use crate::json::{holds, Json, JsonView};
use crate::pipeline_types::Score;
use crate::registry::text_view;
use crate::text::plus;
use vstd::prelude::*;
use vstd::string::*;

verus! {

/// Client for the RLM research service.
#[derive(Debug, Clone)]
pub struct RlmClient {
    pub base_url: String,
}

/// A research query sent to the RLM service.
#[derive(Debug)]
pub struct QueryRequest {
    pub question: String,
    pub context: Option<String>,
    pub max_results: Option<u32>,
}

/// A query as JSON: what it leaves open is left out.
pub open spec fn query_json(
    question: Seq<char>,
    context: Option<Seq<char>>,
    max_results: Option<u32>,
) -> JsonView {
    let asked = map!["question"@ => JsonView::Text(question)];
    let placed = match context {
        Some(c) => asked.insert("context"@, JsonView::Text(c)),
        None => asked,
    };
    match max_results {
        Some(n) => JsonView::Object(placed.insert("max_results"@, JsonView::Unsigned(n as u64))),
        None => JsonView::Object(placed),
    }
}

impl QueryRequest {
    /// The query as JSON: what it leaves open is left out.
    pub fn body(&self) -> (r: Json)
        ensures
            r@ == query_json(self.question@, text_view(self.context), self.max_results),
    {
        let asked = Json::object().with("question", Json::text(self.question.as_str()));
        let placed = match &self.context {
            Some(c) => asked.with("context", Json::text(c.as_str())),
            None => asked,
        };
        match self.max_results {
            Some(n) => placed.with("max_results", Json::number(n)),
            None => placed,
        }
    }
}

/// A single evidence item from the RLM response.
#[derive(Debug, Clone)]
pub struct Evidence {
    pub source: String,
    pub snippet: String,
    pub relevance_score: Score,
}

/// What an [`Evidence`] says.
pub struct EvidenceView {
    pub source: Seq<char>,
    pub snippet: Seq<char>,
    pub relevance_score: Score,
}

impl View for Evidence {
    type V = EvidenceView;

    open spec fn view(&self) -> EvidenceView {
        EvidenceView {
            source: self.source@,
            snippet: self.snippet@,
            relevance_score: self.relevance_score,
        }
    }
}

/// Response from the RLM service.
#[derive(Debug)]
pub struct QueryResponse {
    pub answer: String,
    pub evidence: Vec<Evidence>,
}

/// What a [`QueryResponse`] says.
pub struct ResponseView {
    pub answer: Seq<char>,
    pub evidence: Seq<EvidenceView>,
}

impl View for QueryResponse {
    type V = ResponseView;

    open spec fn view(&self) -> ResponseView {
        ResponseView { answer: self.answer@, evidence: evidence_views(self.evidence@) }
    }
}

pub open spec fn evidence_views(evidence: Seq<Evidence>) -> Seq<EvidenceView> {
    evidence.map_values(|e: Evidence| e@)
}

/// What came back from the RLM service.
#[derive(Debug)]
pub enum RlmReply {
    /// There was no response.
    Unreachable,
    /// A response with that status code and, where it can be read, that body.
    Response { status: u16, body: Option<QueryResponse> },
}

/// The response that stands in for one of the service.
pub open spec fn stub(question: Seq<char>) -> ResponseView {
    ResponseView {
        answer: "Stub: no RLM service available to answer '"@ + question + "'"@,
        evidence: Seq::empty(),
    }
}

/// The response to a query. A stub stands in where the service is unreachable
/// or answers with an error; a response that cannot be read is an error.
pub open spec fn response_to(question: Seq<char>, reply: RlmReply) -> Result<
    ResponseView,
    Seq<char>,
> {
    match reply {
        RlmReply::Unreachable => Ok(stub(question)),
        RlmReply::Response { status, body } => if 200 <= status <= 299 {
            match body {
                Some(response) => Ok(response@),
                None => Err("failed to parse RLM response"@),
            }
        } else {
            Ok(stub(question))
        },
    }
}

/// Where the queries to a service go.
pub open spec fn query_endpoint(base_url: Seq<char>) -> Seq<char> {
    base_url + "/query"@
}

impl RlmClient {
    /// Create a new client pointing at the given RLM base URL.
    pub fn new(base_url: String) -> (r: RlmClient)
        ensures
            r.base_url == base_url,
    {
        RlmClient { base_url }
    }

    /// Where queries go.
    pub fn query_url(&self) -> (r: String)
        ensures
            r@ == query_endpoint(self.base_url@),
    {
        plus(self.base_url.clone(), "/query")
    }

    /// Take what came back for a query. Falls back to a stub response if the
    /// service is unreachable (local development without RLM).
    pub fn query(&self, request: &QueryRequest, reply: RlmReply) -> (r: Result<
        QueryResponse,
        String,
    >)
        ensures
            result_view(r) == response_to(request.question@, reply),
    {
        match reply {
            RlmReply::Unreachable => Ok(RlmClient::stub_response(request.question.as_str())),
            RlmReply::Response { status, body } => {
                if status >= 200 && status <= 299 {
                    match body {
                        Some(response) => Ok(response),
                        None => Err("failed to parse RLM response".to_string()),
                    }
                } else {
                    Ok(RlmClient::stub_response(request.question.as_str()))
                }
            },
        }
    }

    /// The query for a simple question with no context.
    pub fn simple_query(question: &str) -> (r: QueryRequest)
        ensures
            r.question@ == question@,
            r.context is None,
            r.max_results is None,
    {
        QueryRequest { question: question.to_string(), context: None, max_results: None }
    }

    /// Take what came back for a simple question with no context.
    pub fn ask(&self, question: &str, reply: RlmReply) -> (r: Result<QueryResponse, String>)
        ensures
            result_view(r) == response_to(question@, reply),
    {
        let request = RlmClient::simple_query(question);
        self.query(&request, reply)
    }

    /// The response that stands in for one of the service.
    fn stub_response(question: &str) -> (r: QueryResponse)
        ensures
            r@ == stub(question@),
    {
        let r = QueryResponse {
            answer: plus(
                plus("Stub: no RLM service available to answer '".to_string(), question),
                "'",
            ),
            evidence: Vec::new(),
        };
        assert(r@.evidence =~= Seq::empty());
        r
    }

    /// Return the configured base URL.
    pub fn base_url(&self) -> (r: &str)
        ensures
            r@ == self.base_url@,
    {
        self.base_url.as_str()
    }
}

/// What counts of an [`Evidence`] is what it holds, field by field.
pub proof fn law_evidence_are_what_they_hold(evidence: Evidence)
    ensures
        evidence@.source == evidence.source@,
        evidence@.snippet == evidence.snippet@,
        evidence@.relevance_score == evidence.relevance_score,
{
}

/// What counts of a [`QueryResponse`] is what it holds, field by field.
pub proof fn law_responses_are_what_they_hold(response: QueryResponse, i: int)
    ensures
        response@.answer == response.answer@,
        response@.evidence.len() == response.evidence@.len(),
        0 <= i < response.evidence@.len() ==> response@.evidence[i] == response.evidence@[i]@,
{
}

/// A query is written with its question and, where they are given, its context
/// and its limit; what is not given is left out.
pub proof fn law_queries_are_written_whole(
    question: Seq<char>,
    context: Option<Seq<char>>,
    max_results: Option<u32>,
)
    ensures
        ({
            let v = query_json(question, context, max_results);
            &&& holds(v, "question"@, JsonView::Text(question))
            &&& context matches Some(c) ==> holds(v, "context"@, JsonView::Text(c))
            &&& context is None ==> !v->Object_0.contains_key("context"@)
            &&& max_results matches Some(n) ==> holds(
                v,
                "max_results"@,
                JsonView::Unsigned(n as u64),
            )
            &&& max_results is None ==> !v->Object_0.contains_key("max_results"@)
        }),
{
    reveal_strlit("question");
    reveal_strlit("context");
    reveal_strlit("max_results");
    assert("question"@.len() == 8 && "context"@.len() == 7 && "max_results"@.len() == 11);
}

/// A response that can be read is taken as it is where its code is from 200 to
/// 299; any other code and no response at all lead to a response that names the
/// question and has no evidence.
pub proof fn law_responses(question: Seq<char>, status: u16, response: QueryResponse)
    ensures
        ({
            let read = response_to(
                question,
                RlmReply::Response { status, body: Some(response) },
            );
            let unread = response_to(question, RlmReply::Response { status, body: None });
            let missing = response_to(question, RlmReply::Unreachable);
            &&& missing is Ok
            &&& missing->Ok_0.answer == "Stub: no RLM service available to answer '"@ + question
                + "'"@
            &&& missing->Ok_0.evidence.len() == 0
            &&& 200 <= status < 300 ==> read is Ok && read->Ok_0 == response@
            &&& 200 <= status < 300 ==> unread is Err && unread->Err_0
                == "failed to parse RLM response"@
            &&& !(200 <= status < 300) ==> read == missing && unread == missing
        }),
{
}

/// Queries go to `/query` below the base URL of the service.
pub proof fn law_queries_go_below_the_base(base_url: Seq<char>)
    ensures
        query_endpoint(base_url).take(base_url.len() as int) == base_url,
        query_endpoint(base_url).skip(base_url.len() as int) == "/query"@,
{
    assert(query_endpoint(base_url).take(base_url.len() as int) =~= base_url);
    assert(query_endpoint(base_url).skip(base_url.len() as int) =~= "/query"@);
}

} // verus!
