//! Planner: transforms a job request into a project plan with the help of a
//! language model.

use crate::json::{
    decode_texts, decode_u32, decoded_texts, decoded_u32, items_view, json_view, parse_json, parsed_text,
    Json, JsonView,
};
use crate::pipeline_types::{
    PipelineJobRequest, PlannedSegment, PlannedSegmentView, ProjectPlan, ProjectPlanView,
    RequestView,
};
use crate::provider_router::ProviderRouter;
use crate::text::{contains, lemma_found, occurs_at,
    characters, decimal, decimal_text, find, first_characters, found, join, joined, plus, prefix,
    trim, trimmed,
};
use vstd::prelude::*;
use vstd::string::*;

verus! {

/// A job request together with the name of the job.
#[derive(Debug)]
pub struct PlanRequest {
    pub job_id: String,
    pub request: PipelineJobRequest,
}

/// What a [`PlanRequest`] says.
pub struct PlanRequestView {
    pub job_id: Seq<char>,
    pub request: RequestView,
}

impl View for PlanRequest {
    type V = PlanRequestView;

    open spec fn view(&self) -> PlanRequestView {
        PlanRequestView { job_id: self.job_id@, request: self.request@ }
    }
}

/// What the model is asked for.
pub open spec fn user_prompt(req: RequestView) -> Seq<char> {
    "Create a project plan for this video:\n\nTitle: "@ + req.title + "\nIdea: "@ + req.idea
        + "\nAudience: "@ + req.audience + "\nTarget Duration: "@ + decimal(
        req.target_duration_seconds as nat,
    ) + "s\nTone: "@ + req.tone + "\nMust Include: "@ + joined(req.must_include, ", "@)
        + "\nMust Avoid: "@ + joined(req.must_avoid, ", "@)
        + "\n\nRespond with a JSON object containing:\n- \"synopsis\": brief overview (1-2 sentences)\n- \"segments\": array of { \"segment_number\", \"title\", \"duration_seconds\", \"description\", \"visual_style\" }\n- \"research_queries\": array of search queries to gather facts\n- \"narration_tone\": guidance for the narrator"@
}

/// Write what the model is asked for.
pub fn build_user_prompt(req: &PlanRequest) -> (r: String)
    ensures
        r@ == user_prompt(req@.request),
{
    let r = "Create a project plan for this video:\n\nTitle: ".to_string();
    let r = plus(plus(r, req.request.title.as_str()), "\nIdea: ");
    let r = plus(plus(r, req.request.idea.as_str()), "\nAudience: ");
    let r = plus(plus(r, req.request.audience.as_str()), "\nTarget Duration: ");
    let duration = decimal_text(req.request.target_duration_seconds as u64);
    let r = plus(plus(r, duration.as_str()), "s\nTone: ");
    let r = plus(plus(r, req.request.tone.as_str()), "\nMust Include: ");
    let r = plus(plus(r, join(&req.request.must_include, ", ").as_str()), "\nMust Avoid: ");
    let r = plus(r, join(&req.request.must_avoid, ", ").as_str());
    plus(
        r,
        "\n\nRespond with a JSON object containing:\n- \"synopsis\": brief overview (1-2 sentences)\n- \"segments\": array of { \"segment_number\", \"title\", \"duration_seconds\", \"description\", \"visual_style\" }\n- \"research_queries\": array of search queries to gather facts\n- \"narration_tone\": guidance for the narrator",
    )
}

/// What stands from `start` to the next fence, where there is one.
pub open spec fn up_to_fence(s: Seq<char>, start: int) -> Option<Seq<char>> {
    match found(s, "```"@, start) {
        Some(end) => Some(trimmed(s.subrange(start, end))),
        None => None,
    }
}

/// What stands in a fence that is marked as JSON, where there is one.
pub open spec fn json_fence(s: Seq<char>) -> Option<Seq<char>> {
    match found(s, "```json"@, 0) {
        Some(start) => up_to_fence(s, start + 7),
        None => None,
    }
}

/// What stands in a fence, where there is one. The rest of the line on which
/// the fence opens is skipped.
pub open spec fn any_fence(s: Seq<char>) -> Option<Seq<char>> {
    match found(s, "```"@, 0) {
        Some(start) => match found(s, "\n"@, start + 3) {
            Some(n) => up_to_fence(s, n + 1),
            None => up_to_fence(s, start + 3),
        },
        None => None,
    }
}

/// The part of a text that should be JSON: what stands in a fence that is
/// marked so, or in any fence, or the whole.
pub open spec fn json_block(s: Seq<char>) -> Seq<char> {
    match (json_fence(s), any_fence(s)) {
        (Some(t), _) => t,
        (None, Some(t)) => t,
        (None, None) => trimmed(s),
    }
}

/// Extract JSON from a string that may be wrapped in fences.
pub fn extract_json_block<'a>(s: &'a str) -> (r: &'a str)
    ensures
        r@ == json_block(s@),
{
    proof {
        reveal_strlit("```json");
        reveal_strlit("```");
        reveal_strlit("\n");
    }
    let chars = characters(s);
    let end: usize = chars.len();
    match find(&chars, "```json", 0) {
        Some(start) => {
            assert(start + 7 <= end);
            let from: usize = start + 7;
            match find(&chars, "```", from) {
                Some(end) => {
                    return trim(s.substring_char(from, end));
                },
                None => {},
            }
        },
        None => {},
    }
    match find(&chars, "```", 0) {
        Some(start) => {
            assert(start + 3 <= end);
            let from: usize = match find(&chars, "\n", start + 3) {
                Some(n) => {
                    assert(n + 1 <= end);
                    n + 1
                },
                None => start + 3,
            };
            match find(&chars, "```", from) {
                Some(end) => {
                    return trim(s.substring_char(from, end));
                },
                None => {},
            }
        },
        None => {},
    }
    trim(s)
}

/// A segment read from JSON: an object with all five members, or an array of
/// the five values.
pub open spec fn decoded_segment(v: JsonView) -> Option<PlannedSegmentView> {
    match v {
        JsonView::Object(_) => segment_of(
            v.at("segment_number"@),
            v.at("title"@),
            v.at("duration_seconds"@),
            v.at("description"@),
            v.at("visual_style"@),
        ),
        JsonView::Array(items) => if items.len() == 5 {
            segment_of(items[0], items[1], items[2], items[3], items[4])
        } else {
            None
        },
        _ => None,
    }
}

pub open spec fn segment_of(
    segment_number: JsonView,
    title: JsonView,
    duration_seconds: JsonView,
    description: JsonView,
    visual_style: JsonView,
) -> Option<PlannedSegmentView> {
    match (
        decoded_u32(segment_number),
        title,
        decoded_u32(duration_seconds),
        description,
        visual_style,
    ) {
        (
            Some(segment_number),
            JsonView::Text(title),
            Some(duration_seconds),
            JsonView::Text(description),
            JsonView::Text(visual_style),
        ) => Some(
            PlannedSegmentView {
                segment_number,
                title,
                duration_seconds,
                description,
                visual_style,
            },
        ),
        _ => None,
    }
}

fn make_segment(
    segment_number: &Json,
    title: &Json,
    duration_seconds: &Json,
    description: &Json,
    visual_style: &Json,
) -> (r: Option<PlannedSegment>)
    ensures
        match r {
            Some(s) => segment_of(
                segment_number@,
                title@,
                duration_seconds@,
                description@,
                visual_style@,
            ) == Some(s@),
            None => segment_of(
                segment_number@,
                title@,
                duration_seconds@,
                description@,
                visual_style@,
            ) is None,
        },
{
    match (
        decode_u32(segment_number),
        title,
        decode_u32(duration_seconds),
        description,
        visual_style,
    ) {
        (
            Some(segment_number),
            Json::Text(title),
            Some(duration_seconds),
            Json::Text(description),
            Json::Text(visual_style),
        ) => Some(
            PlannedSegment {
                segment_number,
                title: title.clone(),
                duration_seconds,
                description: description.clone(),
                visual_style: visual_style.clone(),
            },
        ),
        _ => None,
    }
}

fn decode_segment(v: &Json) -> (r: Option<PlannedSegment>)
    ensures
        match r {
            Some(s) => decoded_segment(v@) == Some(s@),
            None => decoded_segment(v@) is None,
        },
{
    match v {
        Json::Object(_) => match (
            v.get("segment_number"),
            v.get("title"),
            v.get("duration_seconds"),
            v.get("description"),
            v.get("visual_style"),
        ) {
            (Some(a), Some(b), Some(c), Some(d), Some(e)) => make_segment(a, b, c, d, e),
            _ => None,
        },
        Json::Array(items) => {
            assert(items_view(items@).len() == items@.len());
            if items.len() == 5 {
                make_segment(&items[0], &items[1], &items[2], &items[3], &items[4])
            } else {
                None
            }
        },
        _ => None,
    }
}

/// Whether every item can be read as a segment.
pub open spec fn all_segments(items: Seq<JsonView>) -> bool {
    forall|i: int| 0 <= i < items.len() ==> decoded_segment(#[trigger] items[i]) is Some
}

/// The segments read from JSON; none, where one of them cannot be read.
pub open spec fn decoded_segments(v: Option<JsonView>) -> Seq<PlannedSegmentView> {
    match v {
        Some(JsonView::Array(items)) => if all_segments(items) {
            Seq::new(items.len(), |i: int| decoded_segment(items[i])->0)
        } else {
            Seq::empty()
        },
        _ => Seq::empty(),
    }
}

pub open spec fn segment_views(segments: Seq<PlannedSegment>) -> Seq<PlannedSegmentView> {
    segments.map_values(|s: PlannedSegment| s@)
}

fn decode_segments(v: &Json) -> (r: Vec<PlannedSegment>)
    ensures
        segment_views(r@) == decoded_segments(Some(v@)),
{
    let mut r: Vec<PlannedSegment> = Vec::new();
    match v {
        Json::Array(items) => {
            let ghost all = items_view(items@);
            let mut i: usize = 0;
            while i < items.len()
                invariant
                    i <= items@.len(),
                    v@ == JsonView::Array(all),
                    all == items_view(items@),
                    r@.len() == i,
                    forall|j: int|
                        0 <= j < i ==> decoded_segment(#[trigger] all[j]) == Some(r@[j]@),
                decreases items.len() - i,
            {
                assert(all[i as int] == items@[i as int]@);
                match decode_segment(&items[i]) {
                    Some(s) => {
                        r.push(s);
                    },
                    None => {
                        assert(!all_segments(all));
                        let none: Vec<PlannedSegment> = Vec::new();
                        assert(segment_views(none@) =~= Seq::empty());
                        return none;
                    },
                }
                i += 1;
            }
            assert(segment_views(r@) =~= Seq::new(
                all.len(),
                |j: int| decoded_segment(all[j])->0,
            ));
        },
        _ => {
            assert(segment_views(r@) =~= Seq::empty());
        },
    }
    r
}

/// How long the segments are together.
pub open spec fn total_duration(segments: Seq<PlannedSegmentView>) -> nat
    decreases segments.len(),
{
    if segments.len() == 0 {
        0
    } else {
        total_duration(segments.drop_last()) + segments.last().duration_seconds as nat
    }
}

/// How long the segments are together, where 32 bits hold the number.
fn sum_durations(segments: &Vec<PlannedSegment>) -> (r: Option<u32>)
    ensures
        match r {
            Some(n) => n as nat == total_duration(segment_views(segments@)),
            None => total_duration(segment_views(segments@)) > u32::MAX,
        },
{
    let ghost all = segment_views(segments@);
    let mut sum: u32 = 0;
    let mut i: usize = 0;
    while i < segments.len()
        invariant
            i <= segments@.len(),
            all == segment_views(segments@),
            sum as nat == total_duration(all.take(i as int)),
        decreases segments.len() - i,
    {
        assert(all.take(i as int + 1).drop_last() =~= all.take(i as int));
        let n: u32 = segments[i].duration_seconds;
        if n > u32::MAX - sum {
            proof {
                lemma_total_grows(all, i as int + 1);
            }
            return None;
        }
        sum += n;
        i += 1;
    }
    assert(all.take(i as int) =~= all);
    Some(sum)
}

proof fn lemma_total_grows(segments: Seq<PlannedSegmentView>, i: int)
    requires
        0 <= i <= segments.len(),
    ensures
        total_duration(segments.take(i)) <= total_duration(segments),
    decreases segments.len(),
{
    if i < segments.len() {
        lemma_total_grows(segments.drop_last(), i);
        assert(segments.drop_last().take(i) =~= segments.take(i));
    } else {
        assert(segments.take(i) =~= segments);
    }
}

/// The plan that a JSON value describes.
pub open spec fn described_plan(req: PlanRequestView, v: JsonView) -> ProjectPlanView {
    let segments = decoded_segments(v.get("segments"@));
    ProjectPlanView {
        job_id: req.job_id,
        title: req.request.title,
        synopsis: v.at("synopsis"@).text_or(""@),
        total_duration_seconds: total_duration(segments) as u32,
        segments,
        research_queries: match v.get("research_queries"@) {
            Some(r) => match decoded_texts(r) {
                Some(texts) => texts,
                None => Seq::empty(),
            },
            None => Seq::empty(),
        },
        narration_tone: v.at("narration_tone"@).text_or(req.request.tone),
    }
}

/// A plan of a single segment, with the raw content as its description.
pub open spec fn fallback_plan(req: PlanRequestView, content: Seq<char>) -> ProjectPlanView {
    ProjectPlanView {
        job_id: req.job_id,
        title: req.request.title,
        synopsis: prefix(content, 200),
        total_duration_seconds: req.request.target_duration_seconds,
        segments: seq![
            PlannedSegmentView {
                segment_number: 1,
                title: req.request.title,
                duration_seconds: req.request.target_duration_seconds,
                description: content,
                visual_style: "default"@,
            },
        ],
        research_queries: Seq::empty(),
        narration_tone: req.request.tone,
    }
}

/// The plan for what a model has answered, where its JSON, if it holds any, is
/// the given value.
pub open spec fn planned(
    req: PlanRequestView,
    content: Seq<char>,
    parsed: Option<JsonView>,
) -> ProjectPlanView {
    match parsed {
        Some(v) => described_plan(req, v),
        None => fallback_plan(req, content),
    }
}

/// Whether 32 bits hold the duration of the plan that a value describes.
pub open spec fn duration_fits(parsed: Option<JsonView>) -> bool {
    parsed matches Some(v) ==> total_duration(decoded_segments(v.get("segments"@))) <= u32::MAX
}

/// Make the plan for what a model has answered, given its JSON if it holds any.
/// Says `None` exactly where 32 bits do not hold the duration.
pub fn plan_from_json(req: &PlanRequest, content: &str, parsed: &Option<Json>) -> (r: Option<
    ProjectPlan,
>)
    ensures
        match r {
            Some(plan) => duration_fits(json_view(*parsed)) && plan@ == planned(
                req@,
                content@,
                json_view(*parsed),
            ),
            None => !duration_fits(json_view(*parsed)),
        },
{
    match parsed {
        Some(v) => {
            let segments = match v.get("segments") {
                Some(s) => decode_segments(s),
                None => Vec::new(),
            };
            assert(segment_views(segments@) =~= decoded_segments(v@.get("segments"@)));
            let research_queries = match v.get("research_queries") {
                Some(r) => match decode_texts(r) {
                    Some(texts) => texts,
                    None => Vec::new(),
                },
                None => Vec::new(),
            };
            let total_duration_seconds: u32 = match sum_durations(&segments) {
                Some(n) => n,
                None => {
                    return None;
                },
            };
            let plan = ProjectPlan {
                job_id: req.job_id.clone(),
                title: req.request.title.clone(),
                synopsis: v.text_at("synopsis", "").to_string(),
                total_duration_seconds,
                segments,
                research_queries,
                narration_tone: v.text_at(
                    "narration_tone",
                    req.request.tone.as_str(),
                ).to_string(),
            };
            assert(plan@.research_queries =~= described_plan(req@, v@).research_queries);
            assert(plan@.segments =~= described_plan(req@, v@).segments);
            Some(plan)
        },
        None => {
            let mut segments: Vec<PlannedSegment> = Vec::new();
            segments.push(
                PlannedSegment {
                    segment_number: 1,
                    title: req.request.title.clone(),
                    duration_seconds: req.request.target_duration_seconds,
                    description: content.to_string(),
                    visual_style: "default".to_string(),
                },
            );
            let plan = ProjectPlan {
                job_id: req.job_id.clone(),
                title: req.request.title.clone(),
                synopsis: first_characters(content, 200),
                total_duration_seconds: req.request.target_duration_seconds,
                segments,
                research_queries: Vec::new(),
                narration_tone: req.request.tone.clone(),
            };
            assert(plan@.segments =~= fallback_plan(req@, content@).segments);
            assert(plan@.research_queries =~= Seq::empty());
            Some(plan)
        },
    }
}

/// Best-effort JSON extraction from what a model has answered. Falls back to a
/// single-segment plan if that is no JSON.
///
/// Says `None` exactly where 32 bits do not hold the duration of the plan.
pub fn parse_plan_response(req: &PlanRequest, content: &str) -> (r: Option<ProjectPlan>)
    ensures
        match r {
            Some(plan) => duration_fits(parsed_text(json_block(content@))) && plan@ == planned(
                req@,
                content@,
                parsed_text(json_block(content@)),
            ),
            None => !duration_fits(parsed_text(json_block(content@))),
        },
{
    let parsed = parse_json(extract_json_block(content));
    plan_from_json(req, content, &parsed)
}

/// A line of a conversation with a model.
#[derive(Debug)]
pub struct ChatMessage {
    pub role: String,
    pub content: String,
}

/// What is sent to a model.
#[derive(Debug)]
pub struct ChatRequest {
    pub model: String,
    pub messages: Vec<ChatMessage>,
}

/// What came back from a model.
#[derive(Debug)]
pub enum ChatReply {
    /// There was no response.
    Unreachable,
    /// A response with that status code and, where the body can be read, the
    /// content of each choice.
    Response { status: u16, choices: Option<Vec<String>> },
}

/// The messages that ask for a plan.
pub open spec fn plan_messages(system_prompt: Seq<char>, req: RequestView) -> Seq<
    (Seq<char>, Seq<char>),
> {
    seq![("system"@, system_prompt), ("user"@, user_prompt(req))]
}

pub open spec fn message_views(messages: Seq<ChatMessage>) -> Seq<(Seq<char>, Seq<char>)> {
    messages.map_values(|m: ChatMessage| (m.role@, m.content@))
}

/// The request that asks a model for a plan. Without a key for the model the
/// planner answers 500.
pub fn plan_call(
    router: &ProviderRouter,
    system_prompt: &str,
    req: &PlanRequest,
    has_key: bool,
) -> (r: Result<ChatRequest, u16>)
    ensures
        if has_key {
            r matches Ok(call) && call.model@ == router@.route("planning"@).model && message_views(
                call.messages@,
            ) == plan_messages(system_prompt@, req@.request)
        } else {
            r == Err::<ChatRequest, u16>(500)
        },
{
    let route = match router.route_for("planning") {
        Ok(route) => route,
        Err(_) => {
            return Err(500);
        },
    };
    if !has_key {
        return Err(500);
    }
    let user = build_user_prompt(req);
    let mut messages: Vec<ChatMessage> = Vec::new();
    messages.push(
        ChatMessage { role: "system".to_string(), content: system_prompt.to_string() },
    );
    messages.push(ChatMessage { role: "user".to_string(), content: user });
    assert(message_views(messages@) =~= plan_messages(system_prompt@, req@.request));
    Ok(ChatRequest { model: route.model, messages })
}

/// The content of the first choice, where there is one.
pub open spec fn first_choice(choices: Seq<String>) -> Seq<char> {
    if choices.len() > 0 {
        choices[0]@
    } else {
        ""@
    }
}

/// Whether a reply of a model has a content that can be read.
pub open spec fn usable(reply: ChatReply) -> bool {
    reply matches ChatReply::Response { status, choices } && 200 <= status <= 299 && choices is Some
}

/// Make the plan from the reply of a model. Any reply without content that can
/// be read is answered with 502. The plan is `None` exactly where 32 bits do
/// not hold its duration.
pub fn create_plan(req: &PlanRequest, reply: &ChatReply) -> (r: Result<Option<ProjectPlan>, u16>)
    ensures
        if usable(*reply) {
            let content = first_choice(reply->choices->0@);
            let parsed = parsed_text(json_block(content));
            &&& r is Ok
            &&& r->Ok_0 is Some <==> duration_fits(parsed)
            &&& r->Ok_0 matches Some(plan) ==> plan@ == planned(req@, content, parsed)
        } else {
            r == Err::<Option<ProjectPlan>, u16>(502)
        },
{
    match reply {
        ChatReply::Unreachable => Err(502),
        ChatReply::Response { status, choices } => {
            if *status < 200 || *status > 299 {
                return Err(502);
            }
            match choices {
                Some(choices) => {
                    let content = if choices.len() > 0 {
                        choices[0].as_str()
                    } else {
                        ""
                    };
                    Ok(parse_plan_response(req, content))
                },
                None => Err(502),
            }
        },
    }
}

// ---------------------------------------------------------------------------
// Laws
// ---------------------------------------------------------------------------

/// A plan is as long as its segments together, and is always for the job and
/// the title of the request.
pub proof fn law_plans_add_up(req: PlanRequestView, content: Seq<char>, parsed: Option<JsonView>)
    requires
        duration_fits(parsed),
    ensures
        planned(req, content, parsed).total_duration_seconds as nat == total_duration(
            planned(req, content, parsed).segments,
        ),
        planned(req, content, parsed).job_id == req.job_id,
        planned(req, content, parsed).title == req.request.title,
{
    let segments = fallback_plan(req, content).segments;
    reveal_with_fuel(total_duration, 2);
    assert(segments.drop_last().len() == 0);
}

/// No fence opens inside a part of a text that holds none and is followed by
/// one.
proof fn lemma_no_fence_inside(s: Seq<char>, lo: int, hi: int, j: int)
    requires
        0 <= lo <= j < hi,
        hi + 2 <= s.len(),
        s[hi] == '`',
        s[hi + 1] == '`',
        !contains(s.subrange(lo, hi) + "``"@, "```"@),
    ensures
        !(j + 3 <= s.len() && s[j] == '`' && s[j + 1] == '`' && s[j + 2] == '`'),
{
    reveal_strlit("```");
    reveal_strlit("``");
    let t = s.subrange(lo, hi) + "``"@;
    assert(t =~= s.subrange(lo, hi + 2));
    if j + 3 <= s.len() && s[j] == '`' && s[j + 1] == '`' && s[j + 2] == '`' {
        assert(t.subrange(j - lo, j - lo + 3) =~= "```"@);
        assert(occurs_at(t, "```"@, j - lo));
    }
}

proof fn lemma_found_at(s: Seq<char>, pattern: Seq<char>, from: int, n: int)
    requires
        0 <= from <= n,
        occurs_at(s, pattern, n),
        forall|j: int| from <= j < n ==> !#[trigger] occurs_at(s, pattern, j),
    ensures
        found(s, pattern, from) == Some(n),
{
    lemma_found(s, pattern, from);
}

/// JSON between fences that are marked as such is found, whatever stands before
/// and behind, as long as no fence stands before it or inside.
pub proof fn law_fenced_json_is_found(before: Seq<char>, body: Seq<char>, behind: Seq<char>)
    requires
        !contains(before + "``"@, "```"@),
        !contains(body + "``"@, "```"@),
    ensures
        json_block(before + "```json"@ + body + "```"@ + behind) == trimmed(body),
{
    reveal_strlit("```json");
    reveal_strlit("```");
    let s = before + "```json"@ + body + "```"@ + behind;
    let n = before.len() as int;
    let m = n + 7 + body.len() as int;
    assert(s.subrange(0, n) =~= before);
    assert(s.subrange(n, n + 7) =~= "```json"@);
    assert(s.subrange(n + 7, m) =~= body);
    assert(s.subrange(m, m + 3) =~= "```"@);
    assert(s[n] == '`' && s[n + 1] == '`');
    assert(s[m] == '`' && s[m + 1] == '`');
    assert forall|j: int| 0 <= j < n implies !#[trigger] occurs_at(s, "```json"@, j) by {
        lemma_no_fence_inside(s, 0, n, j);
        if occurs_at(s, "```json"@, j) {
            let piece = s.subrange(j, j + 7);
            assert(piece[0] == s[j] && piece[1] == s[j + 1] && piece[2] == s[j + 2]);
        }
    }
    lemma_found_at(s, "```json"@, 0, n);
    assert forall|j: int| n + 7 <= j < m implies !#[trigger] occurs_at(s, "```"@, j) by {
        lemma_no_fence_inside(s, n + 7, m, j);
        if occurs_at(s, "```"@, j) {
            let piece = s.subrange(j, j + 3);
            assert(piece[0] == s[j] && piece[1] == s[j + 1] && piece[2] == s[j + 2]);
        }
    }
    lemma_found_at(s, "```"@, n + 7, m);
}

proof fn lemma_segment_names_differ()
    ensures
        "segment_number"@ != "title"@,
        "segment_number"@ != "duration_seconds"@,
        "segment_number"@ != "description"@,
        "segment_number"@ != "visual_style"@,
        "title"@ != "duration_seconds"@,
        "title"@ != "description"@,
        "title"@ != "visual_style"@,
        "duration_seconds"@ != "description"@,
        "duration_seconds"@ != "visual_style"@,
        "description"@ != "visual_style"@,
{
    reveal_strlit("segment_number");
    reveal_strlit("title");
    reveal_strlit("duration_seconds");
    reveal_strlit("description");
    reveal_strlit("visual_style");
    assert("segment_number"@.len() == 14);
    assert("title"@.len() == 5);
    assert("duration_seconds"@.len() == 16);
    assert("description"@.len() == 11);
    assert("visual_style"@.len() == 12);
}

/// A segment that is written as an object, with each field under its own name,
/// is read back as it was, whatever else the object holds; so is one that is
/// written as an array of the fields in order.
pub proof fn law_segments_are_read_back(
    segment: PlannedSegmentView,
    others: Map<Seq<char>, JsonView>,
)
    ensures
        decoded_segment(
            JsonView::Object(
                others.insert(
                    "segment_number"@,
                    JsonView::Unsigned(segment.segment_number as u64),
                ).insert("title"@, JsonView::Text(segment.title)).insert(
                    "duration_seconds"@,
                    JsonView::Unsigned(segment.duration_seconds as u64),
                ).insert("description"@, JsonView::Text(segment.description)).insert(
                    "visual_style"@,
                    JsonView::Text(segment.visual_style),
                ),
            ),
        ) == Some(segment),
        decoded_segment(
            JsonView::Array(
                seq![
                    JsonView::Unsigned(segment.segment_number as u64),
                    JsonView::Text(segment.title),
                    JsonView::Unsigned(segment.duration_seconds as u64),
                    JsonView::Text(segment.description),
                    JsonView::Text(segment.visual_style),
                ],
            ),
        ) == Some(segment),
{
    lemma_segment_names_differ();
}

/// A segment that is read from an object has in each field what stands under
/// the name of that field, and nothing is read where one is missing or of
/// another kind.
pub proof fn law_segments_have_what_stands_under_their_names(members: Map<Seq<char>, JsonView>)
    ensures
        decoded_segment(JsonView::Object(members)) matches Some(s) ==> {
            &&& members.contains_key("segment_number"@) && members["segment_number"@]
                == JsonView::Unsigned(s.segment_number as u64)
            &&& members.contains_key("title"@) && members["title"@] == JsonView::Text(s.title)
            &&& members.contains_key("duration_seconds"@) && members["duration_seconds"@]
                == JsonView::Unsigned(s.duration_seconds as u64)
            &&& members.contains_key("description"@) && members["description"@] == JsonView::Text(
                s.description,
            )
            &&& members.contains_key("visual_style"@) && members["visual_style"@]
                == JsonView::Text(s.visual_style)
        },
        decoded_segment(JsonView::Object(members)) is None ==> {
            ||| !members.contains_key("segment_number"@)
            ||| !members.contains_key("title"@)
            ||| !members.contains_key("duration_seconds"@)
            ||| !members.contains_key("description"@)
            ||| !members.contains_key("visual_style"@)
            ||| !(members["title"@] is Text)
            ||| !(members["description"@] is Text)
            ||| !(members["visual_style"@] is Text)
            ||| !(members["segment_number"@] matches JsonView::Unsigned(n) && n <= 0xffff_ffff)
            ||| !(members["duration_seconds"@] matches JsonView::Unsigned(n) && n <= 0xffff_ffff)
        },
{
}

/// The segments of a plan are those of the answer, all of them and in order,
/// where each can be read; otherwise, and where there is no list, there are
/// none.
pub proof fn law_plans_have_the_segments_of_the_answer(
    req: PlanRequestView,
    content: Seq<char>,
    members: Map<Seq<char>, JsonView>,
)
    ensures
        ({
            let segments = planned(req, content, Some(JsonView::Object(members))).segments;
            let listed = members.contains_key("segments"@) && members["segments"@] is Array;
            let items = members["segments"@]->Array_0;
            &&& listed && (forall|i: int|
                0 <= i < items.len() ==> decoded_segment(#[trigger] items[i]) is Some) ==> {
                &&& segments.len() == items.len()
                &&& forall|i: int|
                    0 <= i < items.len() ==> Some(#[trigger] segments[i]) == decoded_segment(
                        items[i],
                    )
            }
            &&& listed && (exists|i: int|
                0 <= i < items.len() && decoded_segment(#[trigger] items[i]) is None)
                ==> segments.len() == 0
            &&& !listed ==> segments.len() == 0
        }),
{
}

/// The other parts of a plan are what stands under their names in the answer:
/// the synopsis and the tone where they are texts, and the queries where they
/// are a list of texts. Without them the synopsis is empty, the tone is that of
/// the request, and there are no queries.
pub proof fn law_plans_have_what_the_answer_says(
    req: PlanRequestView,
    content: Seq<char>,
    members: Map<Seq<char>, JsonView>,
    text: Seq<char>,
    queries: Seq<Seq<char>>,
)
    ensures
        ({
            let plan = planned(req, content, Some(JsonView::Object(members)));
            &&& members.contains_key("synopsis"@) && members["synopsis"@] == JsonView::Text(text)
                ==> plan.synopsis == text
            &&& !(members.contains_key("synopsis"@) && members["synopsis"@] is Text)
                ==> plan.synopsis == ""@
            &&& members.contains_key("narration_tone"@) && members["narration_tone"@]
                == JsonView::Text(text) ==> plan.narration_tone == text
            &&& !(members.contains_key("narration_tone"@) && members["narration_tone"@] is Text)
                ==> plan.narration_tone == req.request.tone
            &&& members.contains_key("research_queries"@) && members["research_queries"@]
                == JsonView::Array(queries.map_values(|q: Seq<char>| JsonView::Text(q)))
                ==> plan.research_queries == queries
            &&& !members.contains_key("research_queries"@) ==> plan.research_queries.len() == 0
            &&& plan.job_id == req.job_id
            &&& plan.title == req.request.title
        }),
{
    let v = JsonView::Object(members);
    if members.contains_key("research_queries"@) && members["research_queries"@]
        == JsonView::Array(queries.map_values(|q: Seq<char>| JsonView::Text(q))) {
        let items = queries.map_values(|q: Seq<char>| JsonView::Text(q));
        assert(forall|i: int| 0 <= i < items.len() ==> (#[trigger] items[i]) is Text);
        assert(decoded_texts(members["research_queries"@]) is Some);
        assert(decoded_texts(members["research_queries"@])->0 =~= queries);
    }
}

/// An answer without JSON makes a plan of one segment that lasts as long as the
/// whole, has the answer in full as its description, and the first two hundred
/// characters of it as its synopsis.
pub proof fn law_answers_without_json_are_kept_whole(req: PlanRequestView, content: Seq<char>)
    ensures
        ({
            let plan = planned(req, content, None);
            &&& plan.segments.len() == 1
            &&& plan.segments[0].segment_number == 1
            &&& plan.segments[0].title == req.request.title
            &&& plan.segments[0].duration_seconds == req.request.target_duration_seconds
            &&& plan.segments[0].description == content
            &&& plan.segments[0].visual_style == "default"@
            &&& plan.total_duration_seconds == req.request.target_duration_seconds
            &&& content.len() <= 200 ==> plan.synopsis == content
            &&& content.len() > 200 ==> plan.synopsis == content.take(200)
            &&& plan.research_queries.len() == 0
            &&& plan.narration_tone == req.request.tone
            &&& plan.job_id == req.job_id
            &&& plan.title == req.request.title
        }),
{
}

/// Durations add up over all segments.
pub proof fn law_durations_add_up(segments: Seq<PlannedSegmentView>, last: PlannedSegmentView)
    ensures
        total_duration(Seq::empty()) == 0,
        total_duration(segments.push(last)) == total_duration(segments) + last.duration_seconds,
{
    assert(segments.push(last).drop_last() =~= segments);
}

/// An answer without any fence is taken whole, but for the white space around
/// it.
pub proof fn law_unfenced_answers_are_taken_whole(s: Seq<char>)
    requires
        forall|i: int| 0 <= i && i + 2 < s.len() ==> !(#[trigger] s[i] == '`' && s[i + 1] == '`' && s[i
            + 2] == '`'),
    ensures
        json_block(s) == trimmed(s),
{
    reveal_strlit("```json");
    reveal_strlit("```");
    lemma_found(s, "```json"@, 0);
    lemma_found(s, "```"@, 0);
    assert forall|j: int| 0 <= j implies !#[trigger] occurs_at(s, "```"@, j) by {
        if occurs_at(s, "```"@, j) {
            let piece = s.subrange(j, j + 3);
            assert(piece[0] == s[j] && piece[1] == s[j + 1] && piece[2] == s[j + 2]);
        }
    }
    assert forall|j: int| 0 <= j implies !#[trigger] occurs_at(s, "```json"@, j) by {
        if occurs_at(s, "```json"@, j) {
            let piece = s.subrange(j, j + 7);
            assert(piece[0] == s[j] && piece[1] == s[j + 1] && piece[2] == s[j + 2]);
        }
    }
}

/// What the model is asked for holds all that was asked for: title, idea,
/// audience, duration, tone, and what is wanted and unwanted, each behind its
/// label.
pub proof fn law_prompts_hold_the_whole_request(req: RequestView)
    ensures
        ({
            let p = user_prompt(req);
            &&& contains(p, "\n\nTitle: "@ + req.title + "\nIdea: "@)
            &&& contains(p, "\nIdea: "@ + req.idea + "\nAudience: "@)
            &&& contains(p, "\nAudience: "@ + req.audience + "\nTarget Duration: "@)
            &&& contains(
                p,
                "\nTarget Duration: "@ + decimal(req.target_duration_seconds as nat)
                    + "s\nTone: "@,
            )
            &&& contains(p, "s\nTone: "@ + req.tone + "\nMust Include: "@)
            &&& contains(
                p,
                "\nMust Include: "@ + joined(req.must_include, ", "@) + "\nMust Avoid: "@,
            )
            &&& contains(
                p,
                "\nMust Avoid: "@ + joined(req.must_avoid, ", "@)
                    + "\n\nRespond with a JSON object containing:"@,
            )
        }),
{
    let p = user_prompt(req);
    let a0 = "Create a project plan for this video:\n\nTitle: "@;
    let a1 = a0 + req.title;
    let a2 = a1 + "\nIdea: "@;
    let a3 = a2 + req.idea;
    let a4 = a3 + "\nAudience: "@;
    let a5 = a4 + req.audience;
    let a6 = a5 + "\nTarget Duration: "@;
    let a7 = a6 + decimal(req.target_duration_seconds as nat);
    let a8 = a7 + "s\nTone: "@;
    let a9 = a8 + req.tone;
    let b0 = a9 + "\nMust Include: "@;
    let b1 = b0 + joined(req.must_include, ", "@);
    let b2 = b1 + "\nMust Avoid: "@;
    let b3 = b2 + joined(req.must_avoid, ", "@);
    let tail = "\n\nRespond with a JSON object containing:\n- \"synopsis\": brief overview (1-2 sentences)\n- \"segments\": array of { \"segment_number\", \"title\", \"duration_seconds\", \"description\", \"visual_style\" }\n- \"research_queries\": array of search queries to gather facts\n- \"narration_tone\": guidance for the narrator"@;
    assert(p == b3 + tail);
    reveal_strlit("Create a project plan for this video:\n\nTitle: ");
    reveal_strlit("\n\nTitle: ");
    let head = a0.take(a0.len() - 9);
    assert(a0 =~= head + "\n\nTitle: "@);
    lemma_piece(p, head, "\n\nTitle: "@ + req.title + "\nIdea: "@, a2);
    lemma_piece(p, a1, "\nIdea: "@ + req.idea + "\nAudience: "@, a4);
    lemma_piece(p, a3, "\nAudience: "@ + req.audience + "\nTarget Duration: "@, a6);
    lemma_piece(
        p,
        a5,
        "\nTarget Duration: "@ + decimal(req.target_duration_seconds as nat) + "s\nTone: "@,
        a8,
    );
    lemma_piece(p, a7, "s\nTone: "@ + req.tone + "\nMust Include: "@, b0);
    lemma_piece(
        p,
        a9,
        "\nMust Include: "@ + joined(req.must_include, ", "@) + "\nMust Avoid: "@,
        b2,
    );
    let start = "\n\nRespond with a JSON object containing:"@;
    reveal_strlit("\n\nRespond with a JSON object containing:");
    reveal_strlit("\n\nRespond with a JSON object containing:\n- \"synopsis\": brief overview (1-2 sentences)\n- \"segments\": array of { \"segment_number\", \"title\", \"duration_seconds\", \"description\", \"visual_style\" }\n- \"research_queries\": array of search queries to gather facts\n- \"narration_tone\": guidance for the narrator");
    assert(tail.take(start.len() as int) =~= start);
    let b4 = b3 + start;
    assert(b4 =~= p.take(b4.len() as int));
    lemma_piece(p, b1, "\nMust Avoid: "@ + joined(req.must_avoid, ", "@) + start, b4);
}

/// A text that starts with another, which ends in a piece, holds that piece.
proof fn lemma_piece(p: Seq<char>, before: Seq<char>, piece: Seq<char>, upto: Seq<char>)
    requires
        upto =~= before + piece,
        upto.len() <= p.len(),
        upto =~= p.take(upto.len() as int),
    ensures
        contains(p, piece),
{
    let n = before.len() as int;
    assert(p.subrange(n, n + piece.len()) =~= piece) by {
        assert forall|i: int| 0 <= i < piece.len() implies p.subrange(n, n + piece.len())[i]
            == piece[i] by {
            assert(upto[n + i] == piece[i]);
            assert(p.take(upto.len() as int)[n + i] == p[n + i]);
        }
    }
    assert(occurs_at(p, piece, n));
}

/// The messages that ask for a plan are the instructions and then the prompt, in
/// their roles.
pub proof fn law_messages(system_prompt: Seq<char>, req: RequestView)
    ensures
        plan_messages(system_prompt, req).len() == 2,
        plan_messages(system_prompt, req)[0] == ("system"@, system_prompt),
        plan_messages(system_prompt, req)[1] == ("user"@, user_prompt(req)),
{
}

/// What counts of a [`PlanRequest`] is what it holds, field by field.
pub proof fn law_plan_requests_are_what_they_hold(request: PlanRequest)
    ensures
        request@.job_id == request.job_id@,
        request@.request == request.request@,
{
}

/// What stands in any fence is found, whatever stands on the line on which the
/// fence opens, where no fence is marked as JSON and none stands before it or
/// inside.
pub proof fn law_fenced_answers_are_found(
    before: Seq<char>,
    info: Seq<char>,
    body: Seq<char>,
    behind: Seq<char>,
)
    requires
        !contains(before + "``"@, "```"@),
        !contains(body + "``"@, "```"@),
        forall|i: int| 0 <= i < info.len() ==> (#[trigger] info[i]) != '\n',
        !contains(before + "```"@ + info + "\n"@ + body + "```"@ + behind, "```json"@),
    ensures
        json_block(before + "```"@ + info + "\n"@ + body + "```"@ + behind) == trimmed(body),
{
    reveal_strlit("```json");
    reveal_strlit("```");
    reveal_strlit("\n");
    assert("\n"@ =~= seq!['\n']);
    let s = before + "```"@ + info + "\n"@ + body + "```"@ + behind;
    let n = before.len() as int;
    let k = n + 3 + info.len() as int;
    let m = k + 1 + body.len() as int;
    assert(s.subrange(0, n) =~= before);
    assert(s.subrange(n, n + 3) =~= "```"@);
    assert(s.subrange(k, k + 1) =~= "\n"@);
    assert(s.subrange(k + 1, m) =~= body);
    assert(s.subrange(m, m + 3) =~= "```"@);
    assert(s[n] == '`' && s[n + 1] == '`');
    assert(s[m] == '`' && s[m + 1] == '`');
    lemma_found(s, "```json"@, 0);
    if found(s, "```json"@, 0) is Some {
        assert(occurs_at(s, "```json"@, found(s, "```json"@, 0)->0));
    }
    assert forall|j: int| 0 <= j < n implies !#[trigger] occurs_at(s, "```"@, j) by {
        lemma_no_fence_inside(s, 0, n, j);
        if occurs_at(s, "```"@, j) {
            let piece = s.subrange(j, j + 3);
            assert(piece[0] == s[j] && piece[1] == s[j + 1] && piece[2] == s[j + 2]);
        }
    }
    lemma_found_at(s, "```"@, 0, n);
    assert forall|j: int| n + 3 <= j < k implies !#[trigger] occurs_at(s, "\n"@, j) by {
        assert(s[j] == info[j - n - 3]);
        if occurs_at(s, "\n"@, j) {
            assert(s.subrange(j, j + 1)[0] == s[j]);
        }
    }
    lemma_found_at(s, "\n"@, n + 3, k);
    assert forall|j: int| k + 1 <= j < m implies !#[trigger] occurs_at(s, "```"@, j) by {
        lemma_no_fence_inside(s, k + 1, m, j);
        if occurs_at(s, "```"@, j) {
            let piece = s.subrange(j, j + 3);
            assert(piece[0] == s[j] && piece[1] == s[j + 1] && piece[2] == s[j + 2]);
        }
    }
    lemma_found_at(s, "```"@, k + 1, m);
}

/// A plan is refused exactly where its segments together are longer than 32 bits
/// can tell.
pub proof fn law_durations_that_fit(req: PlanRequestView, content: Seq<char>, v: JsonView)
    ensures
        duration_fits(None),
        duration_fits(Some(v)) <==> total_duration(planned(req, content, Some(v)).segments)
            <= 0xffff_ffff,
{
}

/// The first choice of a model is what it has answered, and an answer can be
/// used exactly where its code is from 200 to 299 and it can be read.
pub proof fn law_the_first_choice_counts(
    choices: Vec<String>,
    status: u16,
    read: Option<Vec<String>>,
)
    ensures
        choices@.len() > 0 ==> first_choice(choices@) == choices@[0]@,
        choices@.len() == 0 ==> first_choice(choices@).len() == 0,
        !usable(ChatReply::Unreachable),
        usable(ChatReply::Response { status, choices: read }) <==> 200 <= status < 300 && read
            is Some,
{
    reveal_strlit("");
}

/// What counts of messages is their roles and their contents, one for one.
pub proof fn law_messages_are_what_they_hold(messages: Seq<ChatMessage>, i: int)
    ensures
        message_views(messages).len() == messages.len(),
        0 <= i < messages.len() ==> message_views(messages)[i] == (
            messages[i].role@,
            messages[i].content@,
        ),
{
}

/// What the model is asked for begins with the task and ends with the form of
/// the answer: each part that a plan has.
pub proof fn law_prompts_ask_for_the_whole_plan(req: RequestView)
    ensures
        ({
            let p = user_prompt(req);
            let task = "Create a project plan for this video:\n\nTitle: "@;
            let form =
                "\n\nRespond with a JSON object containing:\n- \"synopsis\": brief overview (1-2 sentences)\n- \"segments\": array of { \"segment_number\", \"title\", \"duration_seconds\", \"description\", \"visual_style\" }\n- \"research_queries\": array of search queries to gather facts\n- \"narration_tone\": guidance for the narrator"@;
            &&& p.len() == task.len() + req.title.len() + "\nIdea: "@.len() + req.idea.len()
                + "\nAudience: "@.len() + req.audience.len() + "\nTarget Duration: "@.len()
                + decimal(req.target_duration_seconds as nat).len() + "s\nTone: "@.len()
                + req.tone.len() + "\nMust Include: "@.len() + joined(
                req.must_include,
                ", "@,
            ).len() + "\nMust Avoid: "@.len() + joined(req.must_avoid, ", "@).len() + form.len()
            &&& p.take(task.len() as int) == task
            &&& p.skip(p.len() - form.len()) == form
        }),
{
    let p = user_prompt(req);
    let task = "Create a project plan for this video:\n\nTitle: "@;
    let form =
        "\n\nRespond with a JSON object containing:\n- \"synopsis\": brief overview (1-2 sentences)\n- \"segments\": array of { \"segment_number\", \"title\", \"duration_seconds\", \"description\", \"visual_style\" }\n- \"research_queries\": array of search queries to gather facts\n- \"narration_tone\": guidance for the narrator"@;
    assert(p.take(task.len() as int) =~= task);
    assert(p.skip(p.len() - form.len()) =~= form);
}

} // verus!
