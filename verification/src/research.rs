//! Research: gathers facts for a script from the RLM service.

use crate::pipeline_types::{ResearchFact, ResearchPacket, Score};
use crate::rlm_client::{EvidenceView, QueryResponse, ResponseView};
use vstd::prelude::*;
use vstd::string::*;

verus! {

/// What a fact says.
pub struct FactView {
    pub claim: Seq<char>,
    pub source: Seq<char>,
    pub confidence: Score,
}

pub open spec fn fact_view(f: ResearchFact) -> FactView {
    FactView { claim: f.claim@, source: f.source@, confidence: f.confidence }
}

/// What a packet says.
pub struct PacketView {
    pub job_id: Seq<char>,
    pub query: Seq<char>,
    pub facts: Seq<FactView>,
    pub summary: Seq<char>,
}

pub open spec fn packet_view(p: ResearchPacket) -> PacketView {
    PacketView {
        job_id: p.job_id@,
        query: p.query@,
        facts: p.facts@.map_values(|f: ResearchFact| fact_view(f)),
        summary: p.summary@,
    }
}

/// The fact that a piece of evidence supports.
pub open spec fn fact_from(e: EvidenceView) -> FactView {
    FactView { claim: e.snippet, source: e.source, confidence: e.relevance_score }
}

/// What a response says on a query: a fact for each piece of evidence, and the
/// answer as a summary.
pub open spec fn packet_from(job_id: Seq<char>, query: Seq<char>, response: ResponseView) -> PacketView {
    PacketView {
        job_id,
        query,
        facts: response.evidence.map_values(|e: EvidenceView| fact_from(e)),
        summary: response.answer,
    }
}

/// Make a packet of a response.
pub fn make_packet(job_id: &str, query: &str, response: &QueryResponse) -> (r: ResearchPacket)
    ensures
        packet_view(r) == packet_from(job_id@, query@, response@),
{
    let mut facts: Vec<ResearchFact> = Vec::new();
    let mut i: usize = 0;
    while i < response.evidence.len()
        invariant
            i <= response.evidence@.len(),
            facts@.len() == i,
            forall|j: int|
                0 <= j < i ==> fact_view(#[trigger] facts@[j]) == fact_from(
                    response.evidence@[j]@,
                ),
        decreases response.evidence.len() - i,
    {
        let e = &response.evidence[i];
        facts.push(
            ResearchFact {
                claim: e.snippet.clone(),
                source: e.source.clone(),
                confidence: e.relevance_score,
            },
        );
        i += 1;
    }
    let r = ResearchPacket {
        job_id: job_id.to_string(),
        query: query.to_string(),
        facts,
        summary: response.answer.clone(),
    };
    assert(packet_view(r).facts =~= packet_from(job_id@, query@, response@).facts);
    r
}

/// Where the first query stands that got no response; their number, if all did.
pub open spec fn first_unanswered(answers: Seq<Result<QueryResponse, String>>, i: int) -> int
    decreases answers.len() - i,
{
    if i < 0 || i >= answers.len() {
        answers.len() as int
    } else if answers[i] is Err {
        i
    } else {
        first_unanswered(answers, i + 1)
    }
}

/// The query to be made next, by what came of those before: none behind one that
/// failed, and none behind the last.
pub open spec fn next_of(queries: nat, answers: Seq<Result<QueryResponse, String>>) -> Option<nat> {
    if first_unanswered(answers, 0) < answers.len() || answers.len() >= queries {
        None
    } else {
        Some(answers.len())
    }
}

/// Decide which query is to be made next, by what came of those before. Nothing
/// is asked behind a query that failed.
pub fn next_query(queries: &Vec<String>, answers: &Vec<Result<QueryResponse, String>>) -> (r: Option<
    usize,
>)
    ensures
        match r {
            Some(n) => next_of(queries@.len(), answers@) == Some(n as nat),
            None => next_of(queries@.len(), answers@) is None,
        },
{
    let mut i: usize = 0;
    while i < answers.len()
        invariant
            i <= answers@.len(),
            first_unanswered(answers@, 0) == first_unanswered(answers@, i as int),
        decreases answers.len() - i,
    {
        if answers[i].is_err() {
            return None;
        }
        i += 1;
    }
    if answers.len() >= queries.len() {
        None
    } else {
        Some(answers.len())
    }
}

/// Answer for some queries by what came of those that [`next_query`] asks for,
/// until it asks for no more. A query that failed is answered with 502.
pub fn do_research(
    job_id: &str,
    queries: &Vec<String>,
    answers: &Vec<Result<QueryResponse, String>>,
) -> (r: Result<Vec<ResearchPacket>, u16>)
    requires
        answers@.len() <= queries@.len(),
        next_of(queries@.len(), answers@) is None,
    ensures
        if first_unanswered(answers@, 0) < answers@.len() {
            r == Err::<Vec<ResearchPacket>, u16>(502)
        } else {
            r matches Ok(packets) && packets@.len() == queries@.len() && forall|i: int|
                0 <= i < packets@.len() ==> packet_view(#[trigger] packets@[i]) == packet_from(
                    job_id@,
                    queries@[i]@,
                    answers@[i]->Ok_0@,
                )
        },
{
    let mut packets: Vec<ResearchPacket> = Vec::new();
    let mut i: usize = 0;
    while i < answers.len()
        invariant
            i <= answers@.len(),
            answers@.len() <= queries@.len(),
            first_unanswered(answers@, 0) == first_unanswered(answers@, i as int),
            packets@.len() == i,
            forall|j: int|
                0 <= j < i ==> packet_view(#[trigger] packets@[j]) == packet_from(
                    job_id@,
                    queries@[j]@,
                    answers@[j]->Ok_0@,
                ),
        decreases answers.len() - i,
    {
        match &answers[i] {
            Ok(response) => {
                packets.push(make_packet(job_id, queries[i].as_str(), response));
            },
            Err(_) => {
                return Err(502);
            },
        }
        i += 1;
    }
    Ok(packets)
}

/// Nothing is asked behind a query that failed, and a query is asked for only
/// where all before it were answered.
pub proof fn law_no_query_follows_a_failed_one(
    queries: nat,
    answers: Seq<Result<QueryResponse, String>>,
    i: int,
)
    requires
        0 <= i < answers.len(),
    ensures
        answers[i] is Err ==> next_of(queries, answers) is None,
        next_of(queries, answers) matches Some(n) ==> n == answers.len() && answers[i] is Ok,
{
    lemma_first_unanswered(answers, 0);
}

proof fn lemma_first_unanswered(answers: Seq<Result<QueryResponse, String>>, i: int)
    requires
        0 <= i <= answers.len(),
    ensures
        i <= first_unanswered(answers, i) <= answers.len(),
        first_unanswered(answers, i) < answers.len() ==> answers[first_unanswered(answers, i)]
            is Err,
        forall|j: int|
            i <= j < first_unanswered(answers, i) ==> (#[trigger] answers[j]) is Ok,
    decreases answers.len() - i,
{
    if i < answers.len() && answers[i] is Ok {
        lemma_first_unanswered(answers, i + 1);
    }
}

/// A packet has a fact for each piece of evidence, in order: its claim is the
/// snippet, its source the source, and its confidence the relevance. The summary
/// is the answer, and the packet is for the query that was asked.
pub proof fn law_every_piece_of_evidence_is_a_fact(
    job_id: Seq<char>,
    query: Seq<char>,
    response: ResponseView,
)
    ensures
        packet_from(job_id, query, response).facts.len() == response.evidence.len(),
        forall|i: int|
            0 <= i < response.evidence.len() ==> {
                let fact = #[trigger] packet_from(job_id, query, response).facts[i];
                &&& fact.claim == response.evidence[i].snippet
                &&& fact.source == response.evidence[i].source
                &&& fact.confidence == response.evidence[i].relevance_score
            },
        packet_from(job_id, query, response).summary == response.answer,
        packet_from(job_id, query, response).query == query,
        packet_from(job_id, query, response).job_id == job_id,
{
}

/// What a packet of the library says is all that it holds.
pub proof fn law_packets_are_seen_whole(p: ResearchPacket)
    ensures
        packet_view(p).job_id == p.job_id@,
        packet_view(p).query == p.query@,
        packet_view(p).summary == p.summary@,
        packet_view(p).facts.len() == p.facts@.len(),
        forall|i: int|
            0 <= i < p.facts@.len() ==> {
                let fact = #[trigger] packet_view(p).facts[i];
                &&& fact.claim == p.facts@[i].claim@
                &&& fact.source == p.facts@[i].source@
                &&& fact.confidence == p.facts@[i].confidence
            },
{
}

/// The first query without a response is found, and none is where all have one;
/// then the next query is asked, as long as there is one.
pub proof fn law_the_first_failed_query_is_found(
    queries: nat,
    answers: Seq<Result<QueryResponse, String>>,
    i: int,
)
    ensures
        0 <= i < answers.len() && answers[i] is Err && (forall|j: int|
            0 <= j < i ==> (#[trigger] answers[j]) is Ok) ==> first_unanswered(answers, 0) == i,
        (forall|j: int| 0 <= j < answers.len() ==> (#[trigger] answers[j]) is Ok)
            ==> first_unanswered(answers, 0) == answers.len() && next_of(queries, answers) == if
            answers.len() < queries {
            Some(answers.len())
        } else {
            None
        },
{
    lemma_first_unanswered(answers, 0);
}

} // verus!
