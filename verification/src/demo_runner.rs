//! Demo runner: the demo job, what is read of the gateway's replies, and what
//! is shown of outputs and events.

use crate::json::{
    ascending_names, compact_json, compact_text, distinct_names, holds, items_view, json_from_value,
    layer_members, layer_of, lemma_layer_member, lemma_no_layer_member, value_of, Json, JsonView, Layer,
};
use crate::operator_cli::{can_truncate, level_tag, line, tag, truncatable, truncate, truncated};
use crate::pipeline_types::{law_stage_names_are_distinct, mvp_stages};
use crate::registry::{mvp_names, stage_names, text_view};
use crate::settings::{
    law_defaults_stand_in, number_setting, number_with_default, setting_of,
};
use crate::stage_request::texts_view;
use crate::text::{
    characters, decimal, decimal_text, find, found, lemma_found, occurs_at, plus, same_text,
    sorts_before, strings, text_of, views,
};
use vstd::prelude::*;
use vstd::string::*;

verus! {

// ---------------------------------------------------------------------------
// The demo job
// ---------------------------------------------------------------------------

/// The demo job: a 30-second micro-explainer.
pub open spec fn demo_request() -> JsonView {
    JsonView::Object(
        map![
            "title"@ => JsonView::Text("Rust Memory Safety in 30 Seconds"@),
            "idea"@ => JsonView::Text("Explain how Rust prevents memory bugs using ownership and borrowing, with a simple example comparing C and Rust"@),
            "audience"@ => JsonView::Text("developers new to Rust"@),
            "target_duration_seconds"@ => JsonView::Unsigned(30),
            "tone"@ => JsonView::Text("friendly and approachable"@),
            "must_include"@ => JsonView::Array(
                texts_view(seq!["ownership"@, "borrowing"@, "no garbage collector"@]),
            ),
            "must_avoid"@ => JsonView::Array(texts_view(seq!["unsafe code details"@])),
        ],
    )
}

fn text_array(list: Vec<&str>) -> (r: Json)
    ensures
        r@ == JsonView::Array(texts_view(list@.map_values(|s: &str| s@))),
{
    let texts = strings(list);
    let r = Json::texts(&texts);
    assert forall|i: int| 0 <= i < texts@.len() implies (#[trigger] texts@[i])@ == list@[i]@ by {
        assert(views(texts@)[i] == texts@[i]@);
    }
    assert(r@->Array_0 =~= texts_view(list@.map_values(|s: &str| s@)));
    r
}

/// Demo job template: a 30-second micro-explainer.
pub fn demo_job() -> (r: Json)
    ensures
        r@ == demo_request(),
{
    let wanted = vec!["ownership", "borrowing", "no garbage collector"];
    let unwanted = vec!["unsafe code details"];
    assert(wanted@.map_values(|s: &str| s@) =~= seq![
        "ownership"@,
        "borrowing"@,
        "no garbage collector"@,
    ]);
    assert(unwanted@.map_values(|s: &str| s@) =~= seq!["unsafe code details"@]);
    Json::object().with("title", Json::text("Rust Memory Safety in 30 Seconds")).with(
        "idea",
        Json::text(
            "Explain how Rust prevents memory bugs using ownership and borrowing, with a simple example comparing C and Rust",
        ),
    ).with("audience", Json::text("developers new to Rust")).with(
        "target_duration_seconds",
        Json::Unsigned(30),
    ).with("tone", Json::text("friendly and approachable")).with(
        "must_include",
        text_array(wanted),
    ).with("must_avoid", text_array(unwanted))
}

/// The port on which the mock services listen.
pub open spec fn mock_port_in(vars: Seq<(String, String)>) -> nat {
    number_setting(vars, "MOCK_PORT"@, u16::MAX as nat, 3200)
}

/// The port on which the mock services listen.
pub fn mock_port(vars: &Vec<(String, String)>) -> (r: u16)
    ensures
        r as nat == mock_port_in(vars@),
{
    let port: u64 = number_with_default(vars, "MOCK_PORT", u16::MAX as u64, 3200);
    port as u16
}

// ---------------------------------------------------------------------------
// Summaries of stage outputs
// ---------------------------------------------------------------------------

/// How many items the array under that name has; none, where there is no array.
pub open spec fn count_at(v: JsonView, name: Seq<char>) -> nat {
    v.at(name).items().len()
}

fn count(v: &Json, name: &str) -> (r: usize)
    ensures
        r as nat == count_at(v@, name@),
{
    match v.array_at(name) {
        Some(items) => {
            assert(items_view(items@).len() == items@.len());
            items.len()
        },
        None => 0,
    }
}

/// Whether the summary of an output is a part of its text.
pub open spec fn summarized_by_text(stage: Seq<char>) -> bool {
    !mvp_names().contains(stage)
}

/// What is shown of the answer of a stage, which is written as that text.
pub open spec fn output_summary(stage: Seq<char>, output: JsonView, text: Seq<char>) -> Seq<char> {
    if stage == "Planning"@ {
        decimal(count_at(output, "segments"@)) + " segments, "@ + decimal(
            count_at(output, "research_queries"@),
        ) + " research queries"@
    } else if stage == "Research"@ {
        decimal(
            match output {
                JsonView::Array(items) => items.len(),
                _ => 1,
            },
        ) + " research packet(s)"@
    } else if stage == "Script"@ {
        decimal(count_at(output, "segments"@)) + " narration segments"@
    } else if stage == "Tts"@ {
        decimal(count_at(output, "segment_files"@)) + " audio file(s)"@
    } else if stage == "AsrValidation"@ {
        if output.at("passed"@).bool_or(false) {
            "PASSED"@
        } else {
            "FAILED"@
        }
    } else if stage == "Captions"@ {
        decimal(output.at("cue_count"@).u64_or(0) as nat) + " caption cue(s)"@
    } else if stage == "RenderFinal"@ {
        output.at("format"@).text_or("?"@) + " → "@ + output.at("output_path"@).text_or("?"@)
    } else if stage == "QaFinal"@ {
        if output.at("passed"@).bool_or(false) {
            "PASSED (0 issues)"@
        } else {
            "FAILED ("@ + decimal(count_at(output, "issues"@)) + " issue(s))"@
        }
    } else {
        truncated(text, 80)
    }
}

/// Summarize the answer of a stage, which is written as that text.
pub fn summarize_json(stage: &str, output: &Json, text: &str) -> (r: String)
    requires
        summarized_by_text(stage@) ==> truncatable(text@, 80),
    ensures
        r@ == output_summary(stage@, output@, text@),
{
    proof {
        lemma_minimal_names(stage@);
    }
    if same_text(stage, "Planning") {
        let segments = decimal_text(count(output, "segments") as u64);
        let queries = decimal_text(count(output, "research_queries") as u64);
        plus(plus(plus(segments, " segments, "), queries.as_str()), " research queries")
    } else if same_text(stage, "Research") {
        let packets: usize = match output {
            Json::Array(items) => {
                assert(items_view(items@).len() == items@.len());
                items.len()
            },
            _ => 1,
        };
        plus(decimal_text(packets as u64), " research packet(s)")
    } else if same_text(stage, "Script") {
        plus(decimal_text(count(output, "segments") as u64), " narration segments")
    } else if same_text(stage, "Tts") {
        plus(decimal_text(count(output, "segment_files") as u64), " audio file(s)")
    } else if same_text(stage, "AsrValidation") {
        if output.bool_at("passed", false) {
            "PASSED".to_string()
        } else {
            "FAILED".to_string()
        }
    } else if same_text(stage, "Captions") {
        plus(decimal_text(output.u64_at("cue_count", 0)), " caption cue(s)")
    } else if same_text(stage, "RenderFinal") {
        plus(
            plus(output.text_at("format", "?").to_string(), " → "),
            output.text_at("output_path", "?"),
        )
    } else if same_text(stage, "QaFinal") {
        if output.bool_at("passed", false) {
            "PASSED (0 issues)".to_string()
        } else {
            let issues = decimal_text(count(output, "issues") as u64);
            plus(plus("FAILED (".to_string(), issues.as_str()), " issue(s))")
        }
    } else {
        truncate(text, 80)
    }
}

proof fn lemma_minimal_names(stage: Seq<char>)
    ensures
        mvp_names().contains(stage) ==> (stage == "Planning"@ || stage == "Research"@ || stage
            == "Script"@ || stage == "Tts"@ || stage == "AsrValidation"@ || stage == "Captions"@
            || stage == "RenderFinal"@ || stage == "QaFinal"@),
{
}

/// Summarize the answer of a stage. `None` exactly where the summary would be
/// cut inside a character.
pub fn summarize_output(stage: &str, output: serde_json::Value) -> (r: Option<String>)
    ensures
        ({
            let v = value_of(output);
            match r {
                Some(s) => (summarized_by_text(stage@) ==> truncatable(compact_json(v), 80)) && s@
                    == output_summary(stage@, v, compact_json(v)),
                None => summarized_by_text(stage@) && !truncatable(compact_json(v), 80),
            }
        }),
{
    let text = compact_text(&output);
    let json = json_from_value(output);
    let minimal = is_minimal(stage);
    if minimal || can_truncate(text.as_str(), 80) {
        Some(summarize_json(stage, &json, text.as_str()))
    } else {
        None
    }
}

fn is_minimal(stage: &str) -> (r: bool)
    ensures
        r == mvp_names().contains(stage@),
{
    match position(stage) {
        Some(_) => true,
        None => false,
    }
}

/// Where a stage stands in the minimal pipeline.
pub open spec fn stage_position(stage: Seq<char>, i: int) -> Option<int>
    decreases mvp_names().len() - i,
{
    if i < 0 || i >= mvp_names().len() {
        None
    } else if mvp_names()[i] == stage {
        Some(i)
    } else {
        stage_position(stage, i + 1)
    }
}

fn position(stage: &str) -> (r: Option<usize>)
    ensures
        match r {
            Some(i) => i < 8 && stage_position(stage@, 0) == Some(i as int)
                && mvp_names().contains(stage@),
            None => stage_position(stage@, 0) is None && !mvp_names().contains(stage@),
        },
{
    let names = stage_names();
    let mut i: usize = 0;
    while i < names.len()
        invariant
            i <= names@.len(),
            names@.len() == mvp_names().len(),
            forall|j: int| 0 <= j < names@.len() ==> (#[trigger] names@[j])@ == mvp_names()[j],
            stage_position(stage@, 0) == stage_position(stage@, i as int),
            forall|j: int| 0 <= j < i ==> #[trigger] mvp_names()[j] != stage@,
        decreases names.len() - i,
    {
        assert(names@[i as int]@ == mvp_names()[i as int]);
        if same_text(names[i], stage) {
            return Some(i);
        }
        i += 1;
    }
    None
}

/// How far along the pipeline a stage is.
pub open spec fn progress(stage: Seq<char>) -> Seq<char> {
    match stage_position(stage, 0) {
        Some(i) => "["@ + decimal((i + 1) as nat) + "/8]"@,
        None => "[---]"@,
    }
}

/// How far along the pipeline a stage is.
pub fn progress_label(stage: &str) -> (r: String)
    ensures
        r@ == progress(stage@),
{
    match position(stage) {
        Some(i) => {
            let n = decimal_text(i as u64 + 1);
            plus(plus("[".to_string(), n.as_str()), "/8]")
        },
        None => "[---]".to_string(),
    }
}

// ---------------------------------------------------------------------------
// Replies of the API gateway
// ---------------------------------------------------------------------------

/// What the gateway says of a job that it has created.
#[derive(Debug)]
pub struct Created {
    pub job_id: Option<String>,
    /// The status, written as JSON.
    pub status: String,
}

/// The name of the job that was created, where the reply gives one.
pub open spec fn created_id(v: JsonView) -> Option<Seq<char>> {
    v.at("job_id"@).as_text()
}

/// The status of the job that was created, written as JSON.
pub open spec fn created_status(v: JsonView) -> Seq<char> {
    match v.get("status"@) {
        Some(status) => compact_json(status),
        None => "null"@,
    }
}

/// Read what the gateway says of a job that it has created.
pub fn read_created(reply: serde_json::Value) -> (r: Created)
    ensures
        text_view(r.job_id) == created_id(value_of(reply)),
        r.status@ == created_status(value_of(reply)),
{
    let mut job_id: Option<String> = None;
    let mut status = "null".to_string();
    match layer_of(reply) {
        Layer::Object(members) => {
            let ghost all = members@;
            proof {
                reveal_strlit("job_id");
                reveal_strlit("status");
                assert("job_id"@[0] != "status"@[0]);
            }
            for pair in it: members.into_iter()
                invariant
                    it.seq() == all,
                    distinct_names(all),
                    "job_id"@ != "status"@,
                    value_of(reply) == JsonView::Object(layer_members(all)),
                    (exists|i: int| 0 <= i < it.index() && (#[trigger] all[i]).0@ == "job_id"@)
                        ==> text_view(job_id) == created_id(value_of(reply)),
                    (forall|i: int| 0 <= i < it.index() ==> (#[trigger] all[i]).0@ != "job_id"@)
                        ==> job_id is None,
                    (exists|i: int| 0 <= i < it.index() && (#[trigger] all[i]).0@ == "status"@)
                        ==> status@ == created_status(value_of(reply)),
                    (forall|i: int| 0 <= i < it.index() ==> (#[trigger] all[i]).0@ != "status"@)
                        ==> status@ == "null"@,
            {
                let (name, v) = pair;
                proof {
                    lemma_layer_member(all, it.index() as int);
                    assert(all[it.index() as int].0@ == name@);
                }
                if same_text(name.as_str(), "job_id") {
                    job_id = match json_from_value(v) {
                        Json::Text(s) => Some(s),
                        _ => None,
                    };
                } else if same_text(name.as_str(), "status") {
                    status = compact_text(&v);
                }
            }
            proof {
                if forall|i: int| 0 <= i < all.len() ==> (#[trigger] all[i]).0@ != "job_id"@ {
                    lemma_no_layer_member(all, "job_id"@);
                }
                if forall|i: int| 0 <= i < all.len() ==> (#[trigger] all[i]).0@ != "status"@ {
                    lemma_no_layer_member(all, "status"@);
                }
            }
        },
        _ => {},
    }
    Created { job_id, status }
}

/// What the gateway says of a job in detail.
#[derive(Debug)]
pub struct Detail {
    /// How many stages have answered.
    pub completed: usize,
    /// A summary of each answer, with the stage.
    pub outputs: Option<Vec<(String, String)>>,
}

/// The summaries, with the stages.
pub open spec fn pair_views(pairs: Seq<(String, String)>) -> Seq<(Seq<char>, Seq<char>)> {
    pairs.map_values(|p: (String, String)| (p.0@, p.1@))
}

/// Whether the summary of an answer would be cut inside a character.
pub open spec fn uncuttable(stage: Seq<char>, output: JsonView) -> bool {
    summarized_by_text(stage) && !truncatable(compact_json(output), 80)
}

/// Whether the pairs are the stages that have answered, each once and in the
/// order of their names, with a summary of the answer.
pub open spec fn summaries_of(
    pairs: Seq<(Seq<char>, Seq<char>)>,
    outputs: Map<Seq<char>, JsonView>,
) -> bool {
    &&& forall|i: int|
        0 <= i < pairs.len() ==> outputs.contains_key((#[trigger] pairs[i]).0) && pairs[i].1
            == output_summary(pairs[i].0, outputs[pairs[i].0], compact_json(outputs[pairs[i].0]))
    &&& forall|i: int, j: int|
        0 <= i < j < pairs.len() ==> (#[trigger] pairs[i]).0 != (#[trigger] pairs[j]).0
            && sorts_before(pairs[i].0, pairs[j].0)
    &&& forall|stage: Seq<char>| #[trigger]
        outputs.contains_key(stage) ==> exists|i: int|
            0 <= i < pairs.len() && (#[trigger] pairs[i]).0 == stage
}

/// Whether one of the summaries would be cut inside a character.
pub open spec fn some_uncuttable(outputs: Map<Seq<char>, JsonView>) -> bool {
    exists|stage: Seq<char>| #[trigger]
        outputs.contains_key(stage) && uncuttable(stage, outputs[stage])
}

/// Summarize the answers of all stages. `None` exactly where one of the
/// summaries would be cut inside a character.
#[verifier::spinoff_prover]
pub fn summarize_outputs(outputs: serde_json::Value) -> (r: Option<Option<Vec<(String, String)>>>)
    ensures
        match value_of(outputs) {
            JsonView::Object(members) => match r {
                Some(Some(pairs)) => !some_uncuttable(members) && summaries_of(
                    pair_views(pairs@),
                    members,
                ),
                Some(None) => false,
                None => some_uncuttable(members),
            },
            _ => r == Some(None::<Vec<(String, String)>>),
        },
{
    match layer_of(outputs) {
        Layer::Object(members) => {
            let ghost all = members@;
            let ghost goal = layer_members(all);
            let mut pairs: Vec<(String, String)> = Vec::new();
            for pair in it: members.into_iter()
                invariant
                    it.seq() == all,
                    distinct_names(all),
                    ascending_names(all),
                    goal == layer_members(all),
                    value_of(outputs) == JsonView::Object(goal),
                    pairs@.len() == it.index(),
                    forall|i: int|
                        0 <= i < it.index() ==> (#[trigger] pairs@[i]).0@ == all[i].0@
                            && goal.contains_key(all[i].0@) && !uncuttable(
                            all[i].0@,
                            goal[all[i].0@],
                        ) && pairs@[i].1@ == output_summary(
                            all[i].0@,
                            goal[all[i].0@],
                            compact_json(goal[all[i].0@]),
                        ),
            {
                let (stage, output) = pair;
                proof {
                    lemma_layer_member(all, it.index() as int);
                    assert(all[it.index() as int].0@ == stage@);
                }
                match summarize_output(stage.as_str(), output) {
                    Some(summary) => {
                        pairs.push((stage, summary));
                    },
                    None => {
                        assert(goal.contains_key(stage@) && uncuttable(stage@, goal[stage@]));
                        assert(some_uncuttable(goal));
                        return None;
                    },
                }
            }
            proof {
                let views = pair_views(pairs@);
                assert forall|i: int, j: int| 0 <= i < j < views.len() implies (
                #[trigger] views[i]).0 != (#[trigger] views[j]).0 && sorts_before(
                    views[i].0,
                    views[j].0,
                ) by {
                    assert(views[i].0 == pairs@[i].0@ && views[j].0 == pairs@[j].0@);
                    assert(all[i].0@ != all[j].0@);
                    assert(sorts_before(all[i].0@, all[j].0@));
                }
                assert forall|i: int| 0 <= i < views.len() implies goal.contains_key(
                    (#[trigger] views[i]).0,
                ) && views[i].1 == output_summary(
                    views[i].0,
                    goal[views[i].0],
                    compact_json(goal[views[i].0]),
                ) by {
                    assert(views[i] == (pairs@[i].0@, pairs@[i].1@));
                }
                assert forall|stage: Seq<char>| #[trigger] goal.contains_key(stage) implies exists|
                    i: int,
                |
                    0 <= i < views.len() && (#[trigger] views[i]).0 == stage && !uncuttable(
                        stage,
                        goal[stage],
                    ) by {
                    if forall|i: int| 0 <= i < all.len() ==> (#[trigger] all[i]).0@ != stage {
                        lemma_no_layer_member(all, stage);
                    }
                    let k = choose|k: int| 0 <= k < all.len() && (#[trigger] all[k]).0@ == stage;
                    assert(views[k].0 == pairs@[k].0@);
                }
            }
            Some(Some(pairs))
        },
        _ => Some(None),
    }
}

/// Read what the gateway says of a job in detail. `None` exactly where a
/// summary would be cut inside a character.
pub fn read_detail(reply: serde_json::Value) -> (r: Option<Detail>)
    ensures
        ({
            let v = value_of(reply);
            match v.at("stage_outputs"@) {
                JsonView::Object(outputs) => match r {
                    Some(d) => !some_uncuttable(outputs) && d.completed as nat == count_at(
                        v,
                        "completed_stages"@,
                    ) && d.outputs is Some && summaries_of(
                        pair_views(d.outputs->0@),
                        outputs,
                    ),
                    None => some_uncuttable(outputs),
                },
                _ => r matches Some(d) && d.completed as nat == count_at(v, "completed_stages"@)
                    && d.outputs is None,
            }
        }),
{
    let mut completed: usize = 0;
    let mut outputs: Option<Vec<(String, String)>> = None;
    let ghost view = value_of(reply);
    match layer_of(reply) {
        Layer::Object(members) => {
            let ghost all = members@;
            proof {
                reveal_strlit("completed_stages");
                reveal_strlit("stage_outputs");
                assert("completed_stages"@[0] != "stage_outputs"@[0]);
            }
            for pair in it: members.into_iter()
                invariant
                    it.seq() == all,
                    distinct_names(all),
                    "completed_stages"@ != "stage_outputs"@,
                    view == value_of(reply),
                    view == JsonView::Object(layer_members(all)),
                    named_within(all, "completed_stages"@, it.index() as int) ==> completed as nat
                        == count_at(view, "completed_stages"@),
                    !named_within(all, "completed_stages"@, it.index() as int) ==> completed == 0,
                    named_within(all, "stage_outputs"@, it.index() as int) ==> match view.at(
                        "stage_outputs"@,
                    ) {
                        JsonView::Object(m) => outputs is Some && !some_uncuttable(m)
                            && summaries_of(pair_views(outputs->0@), m),
                        _ => outputs is None,
                    },
                    !named_within(all, "stage_outputs"@, it.index() as int) ==> outputs is None,
            {
                let (name, v) = pair;
                proof {
                    lemma_layer_member(all, it.index() as int);
                    assert(all[it.index() as int].0@ == name@);
                    lemma_named_within(all, "completed_stages"@, it.index() as int);
                    lemma_named_within(all, "stage_outputs"@, it.index() as int);
                }
                if same_text(name.as_str(), "completed_stages") {
                    completed = match json_from_value(v) {
                        Json::Array(items) => {
                            assert(items_view(items@).len() == items@.len());
                            items.len()
                        },
                        _ => 0,
                    };
                } else if same_text(name.as_str(), "stage_outputs") {
                    match summarize_outputs(v) {
                        Some(pairs) => {
                            outputs = pairs;
                        },
                        None => {
                            return None;
                        },
                    }
                }
            }
            proof {
                if !named_within(all, "completed_stages"@, all.len() as int) {
                    lemma_no_layer_member(all, "completed_stages"@);
                }
                if !named_within(all, "stage_outputs"@, all.len() as int) {
                    lemma_no_layer_member(all, "stage_outputs"@);
                }
            }
        },
        _ => {},
    }
    Some(Detail { completed, outputs })
}

/// Whether one of the first `n` members has that name.
spec fn named_within(
    members: Seq<(String, serde_json::Value)>,
    name: Seq<char>,
    n: int,
) -> bool {
    exists|i: int| 0 <= i < n && (#[trigger] members[i]).0@ == name
}

proof fn lemma_named_within(members: Seq<(String, serde_json::Value)>, name: Seq<char>, n: int)
    requires
        0 <= n < members.len(),
    ensures
        named_within(members, name, n + 1) <==> named_within(members, name, n) || members[n].0@
            == name,
{
    if named_within(members, name, n) {
        let i = choose|i: int| 0 <= i < n && (#[trigger] members[i]).0@ == name;
        assert(members[i].0@ == name);
    }
}

// ---------------------------------------------------------------------------
// Events
// ---------------------------------------------------------------------------

/// The text without any `Z` behind it.
pub open spec fn without_zone(s: Seq<char>) -> Seq<char>
    decreases s.len(),
{
    if s.len() > 0 && s.last() == 'Z' {
        without_zone(s.drop_last())
    } else {
        s
    }
}

/// The time portion of a timestamp: what stands between the first `T` and the
/// next, or the whole where there is none.
pub open spec fn time_portion(ts: Seq<char>) -> Seq<char> {
    match found(ts, "T"@, 0) {
        Some(i) => match found(ts, "T"@, i + 1) {
            Some(j) => without_zone(ts.subrange(i + 1, j)),
            None => without_zone(ts.subrange(i + 1, ts.len() as int)),
        },
        None => without_zone(ts),
    }
}

/// The time portion of a timestamp.
pub fn time_of(ts: &str) -> (r: String)
    ensures
        r@ == time_portion(ts@),
{
    proof {
        reveal_strlit("T");
    }
    let chars = characters(ts);
    let len: usize = chars.len();
    let mut from: usize = 0;
    let mut to: usize = len;
    match find(&chars, "T", 0) {
        Some(i) => {
            assert(i + 1 <= len);
            from = i + 1;
            match find(&chars, "T", i + 1) {
                Some(j) => {
                    to = j;
                },
                None => {},
            }
        },
        None => {
            assert(ts@.subrange(0, len as int) =~= ts@);
        },
    }
    let ghost part = ts@.subrange(from as int, to as int);
    assert(part.take(to - from) =~= part);
    let ghost all = to;
    while to > from && chars[to - 1] == 'Z'
        invariant
            from <= to <= all <= chars@.len(),
            chars@ == ts@,
            part == ts@.subrange(from as int, all as int),
            without_zone(part) == without_zone(part.take(to - from)),
        decreases to,
    {
        assert(part.take(to - from).drop_last() =~= part.take(to - from - 1));
        assert(part.take(to - from).last() == chars@[to - 1]);
        to -= 1;
    }
    assert(to > from ==> part.take(to - from).last() == chars@[to - 1]);
    assert(part.take(to - from) =~= ts@.subrange(from as int, to as int));
    text_of(&chars, from, to)
}

/// What is shown of an event in the timeline.
pub open spec fn timeline_line(event: JsonView) -> Seq<char> {
    "   "@ + time_portion(event.at("timestamp"@).text_or("?"@)) + "  ["@ + tag(
        event.at("level"@).text_or("?"@),
    ) + "]  "@ + event.at("message"@).text_or("?"@)
}

/// What is shown of an event after a failure.
pub open spec fn failure_line(event: JsonView) -> Seq<char> {
    "   ["@ + event.at("level"@).text_or("?"@) + "] "@ + event.at("message"@).text_or("?"@)
}

/// What is shown of all events.
pub open spec fn timeline(events: Seq<JsonView>) -> Seq<Seq<char>> {
    events.map_values(|e: JsonView| timeline_line(e)).push(
        "   "@ + decimal(events.len()) + " event(s) total"@,
    )
}

/// The last five of a sequence, or all of it.
pub open spec fn last_five(events: Seq<JsonView>) -> Seq<JsonView> {
    if events.len() > 5 {
        events.skip(events.len() - 5)
    } else {
        events
    }
}

/// What is shown of the events after a failure: the last five.
pub open spec fn failure_log(events: Seq<JsonView>) -> Seq<Seq<char>> {
    seq!["   Event log:"@] + last_five(events).map_values(|e: JsonView| failure_line(e))
}

/// Show all events.
pub fn timeline_lines(events: &Vec<Json>) -> (r: Vec<String>)
    ensures
        views(r@) == timeline(items_view(events@)),
{
    let ghost all = items_view(events@);
    assert(all.len() == events@.len());
    let mut lines: Vec<String> = Vec::new();
    let mut i: usize = 0;
    while i < events.len()
        invariant
            i <= events@.len(),
            all == items_view(events@),
            views(lines@) =~= all.take(i as int).map_values(|e: JsonView| timeline_line(e)),
        decreases events.len() - i,
    {
        let event = &events[i];
        assert(all[i as int] == event@);
        let text = plus("   ".to_string(), time_of(event.text_at("timestamp", "?")).as_str());
        let text = plus(plus(text, "  ["), level_tag(event.text_at("level", "?")));
        line(&mut lines, plus(plus(text, "]  "), event.text_at("message", "?")));
        assert(all.take(i as int + 1).map_values(|e: JsonView| timeline_line(e)) =~= all.take(
            i as int,
        ).map_values(|e: JsonView| timeline_line(e)).push(timeline_line(all[i as int])));
        i += 1;
    }
    assert(all.take(i as int) =~= all);
    let n = decimal_text(events.len() as u64);
    line(&mut lines, plus(plus("   ".to_string(), n.as_str()), " event(s) total"));
    lines
}

/// Show the last five events after a failure.
pub fn failure_lines(events: &Vec<Json>) -> (r: Vec<String>)
    ensures
        views(r@) == failure_log(items_view(events@)),
{
    let ghost all = items_view(events@);
    assert(all.len() == events@.len());
    let ghost shown = last_five(all).map_values(|e: JsonView| failure_line(e));
    let mut lines: Vec<String> = Vec::new();
    assert(views(lines@) =~= Seq::empty());
    line(&mut lines, "   Event log:".to_string());
    let first: usize = if events.len() > 5 {
        events.len() - 5
    } else {
        0
    };
    let mut i: usize = first;
    while i < events.len()
        invariant
            first <= i <= events@.len(),
            all == items_view(events@),
            first as int == (if all.len() > 5 {
                all.len() - 5
            } else {
                0
            }),
            all.len() == events@.len(),
            shown == last_five(all).map_values(|e: JsonView| failure_line(e)),
            views(lines@) =~= seq!["   Event log:"@] + shown.take(i - first),
        decreases events.len() - i,
    {
        let event = &events[i];
        assert(all[i as int] == event@);
        assert(shown[i - first] == failure_line(event@));
        let text = plus(plus("   [".to_string(), event.text_at("level", "?")), "] ");
        line(&mut lines, plus(text, event.text_at("message", "?")));
        assert(shown.take(i - first + 1) =~= shown.take(i - first).push(shown[i - first]));
        i += 1;
    }
    assert(shown.take(i - first) =~= shown);
    lines
}

/// The summary of an answer says how many items stand under its names, or
/// whether it has passed.
pub proof fn law_summaries(
    output: JsonView,
    text: Seq<char>,
    items: Seq<JsonView>,
    more: Seq<JsonView>,
    n: u64,
    passed: bool,
    format: Seq<char>,
    path: Seq<char>,
)
    ensures
        holds(output, "segments"@, JsonView::Array(items)) && holds(
            output,
            "research_queries"@,
            JsonView::Array(more),
        ) ==> output_summary("Planning"@, output, text) == decimal(items.len()) + " segments, "@
            + decimal(more.len()) + " research queries"@,
        output_summary("Research"@, JsonView::Array(items), text) == decimal(items.len())
            + " research packet(s)"@,
        output is Object ==> output_summary("Research"@, output, text) == decimal(1)
            + " research packet(s)"@,
        holds(output, "segments"@, JsonView::Array(items)) ==> output_summary(
            "Script"@,
            output,
            text,
        ) == decimal(items.len()) + " narration segments"@,
        holds(output, "segment_files"@, JsonView::Array(items)) ==> output_summary(
            "Tts"@,
            output,
            text,
        ) == decimal(items.len()) + " audio file(s)"@,
        holds(output, "passed"@, JsonView::Bool(passed)) ==> output_summary(
            "AsrValidation"@,
            output,
            text,
        ) == if passed {
            "PASSED"@
        } else {
            "FAILED"@
        },
        holds(output, "cue_count"@, JsonView::Unsigned(n)) ==> output_summary(
            "Captions"@,
            output,
            text,
        ) == decimal(n as nat) + " caption cue(s)"@,
        holds(output, "format"@, JsonView::Text(format)) && holds(
            output,
            "output_path"@,
            JsonView::Text(path),
        ) ==> output_summary("RenderFinal"@, output, text) == format + " → "@ + path,
        holds(output, "passed"@, JsonView::Bool(true)) ==> output_summary("QaFinal"@, output, text)
            == "PASSED (0 issues)"@,
        holds(output, "passed"@, JsonView::Bool(false)) && holds(
            output,
            "issues"@,
            JsonView::Array(items),
        ) ==> output_summary("QaFinal"@, output, text) == "FAILED ("@ + decimal(items.len())
            + " issue(s))"@,
{
    lemma_stages_of_the_pipeline();
}

/// The summary of any other answer is a part of its text.
pub proof fn law_summaries_by_text(stage: Seq<char>, output: JsonView, text: Seq<char>)
    ensures
        stage != "Planning"@ && stage != "Research"@ && stage != "Script"@ && stage != "Tts"@
            && stage != "AsrValidation"@ && stage != "Captions"@ && stage != "RenderFinal"@ && stage
            != "QaFinal"@ ==> output_summary(stage, output, text) == truncated(text, 80)
            && summarized_by_text(stage),
        summarized_by_text(stage) ==> output_summary(stage, output, text) == truncated(text, 80),
{
    lemma_minimal_names(stage);
    lemma_stages_of_the_pipeline();
    let names = mvp_names();
    assert(names[0] == "Planning"@ && names[1] == "Research"@ && names[2] == "Script"@ && names[3]
        == "Tts"@ && names[4] == "AsrValidation"@ && names[5] == "Captions"@ && names[6]
        == "RenderFinal"@ && names[7] == "QaFinal"@);
}

proof fn lemma_stages_of_the_pipeline()
    ensures
        forall|i: int, j: int|
            0 <= i < j < 8 ==> (#[trigger] mvp_names()[i]) != (#[trigger] mvp_names()[j]),
        mvp_names()[0] == "Planning"@,
        mvp_names()[1] == "Research"@,
        mvp_names()[2] == "Script"@,
        mvp_names()[3] == "Tts"@,
        mvp_names()[4] == "AsrValidation"@,
        mvp_names()[5] == "Captions"@,
        mvp_names()[6] == "RenderFinal"@,
        mvp_names()[7] == "QaFinal"@,
{
    let stages = mvp_stages();
    assert forall|i: int, j: int| 0 <= i < j < 8 implies (#[trigger] mvp_names()[i]) != (
    #[trigger] mvp_names()[j]) by {
        assert(mvp_names()[i] == stages[i].name());
        assert(mvp_names()[j] == stages[j].name());
        law_stage_names_are_distinct(stages[i], stages[j]);
    }
}

/// The progress of a job is the place of its stage in the pipeline, counted from
/// one; a stage outside of it has no place.
pub proof fn law_progress(i: int, stage: Seq<char>)
    ensures
        0 <= i < 8 ==> progress(mvp_names()[i]) == "["@ + decimal((i + 1) as nat) + "/8]"@,
        !mvp_names().contains(stage) ==> progress(stage) == "[---]"@,
{
    lemma_stages_of_the_pipeline();
    if 0 <= i < 8 {
        lemma_place(mvp_names()[i], 0);
        let k = stage_position(mvp_names()[i], 0)->0;
        if k < i {
            assert(mvp_names()[k] != mvp_names()[i]);
        } else if k > i {
            assert(mvp_names()[i] != mvp_names()[k]);
        }
    }
    lemma_place(stage, 0);
}

proof fn lemma_place(stage: Seq<char>, i: int)
    requires
        0 <= i <= 8,
    ensures
        match stage_position(stage, i) {
            Some(k) => i <= k < 8 && mvp_names()[k] == stage,
            None => forall|j: int| i <= j < 8 ==> #[trigger] mvp_names()[j] != stage,
        },
    decreases 8 - i,
{
    if i < 8 && mvp_names()[i] != stage {
        lemma_place(stage, i + 1);
    }
}

/// The demo asks for a video of thirty seconds for people who are new to Rust.
pub proof fn law_the_demo_job()
    ensures
        ({
            let v = demo_request();
            let wanted = v->Object_0["must_include"@]->Array_0;
            let unwanted = v->Object_0["must_avoid"@]->Array_0;
            &&& holds(v, "title"@, JsonView::Text("Rust Memory Safety in 30 Seconds"@))
            &&& holds(v, "idea"@, JsonView::Text("Explain how Rust prevents memory bugs using ownership and borrowing, with a simple example comparing C and Rust"@))
            &&& holds(v, "audience"@, JsonView::Text("developers new to Rust"@))
            &&& holds(v, "target_duration_seconds"@, JsonView::Unsigned(30))
            &&& holds(v, "tone"@, JsonView::Text("friendly and approachable"@))
            &&& wanted.len() == 3
            &&& wanted[0] == JsonView::Text("ownership"@)
            &&& wanted[1] == JsonView::Text("borrowing"@)
            &&& wanted[2] == JsonView::Text("no garbage collector"@)
            &&& unwanted.len() == 1
            &&& unwanted[0] == JsonView::Text("unsafe code details"@)
        }),
{
    reveal_strlit("title");
    reveal_strlit("idea");
    reveal_strlit("audience");
    reveal_strlit("target_duration_seconds");
    reveal_strlit("tone");
    reveal_strlit("must_include");
    reveal_strlit("must_avoid");
    assert("title"@.len() == 5 && "idea"@.len() == 4 && "audience"@.len() == 8
        && "target_duration_seconds"@.len() == 23 && "tone"@.len() == 4 && "must_include"@.len()
        == 12 && "must_avoid"@.len() == 10);
    assert("idea"@[0] != "tone"@[0]);
}

/// What is read of a job that was created is its name and its status.
pub proof fn law_created_jobs_are_read(v: JsonView, id: Seq<char>, status: JsonView)
    ensures
        holds(v, "job_id"@, JsonView::Text(id)) ==> created_id(v) == Some(id),
        v is Object && !v->Object_0.contains_key("job_id"@) ==> created_id(v) is None,
        holds(v, "status"@, status) ==> created_status(v) == compact_json(status),
        v is Object && !v->Object_0.contains_key("status"@) ==> created_status(v) == "null"@,
{
}

/// The time portion of a timestamp is what stands behind the `T` between its day
/// and its time, without the `Z` at its end.
pub proof fn law_time_portions(day: Seq<char>, time: Seq<char>)
    requires
        forall|i: int| 0 <= i < day.len() ==> (#[trigger] day[i]) != 'T',
        forall|i: int| 0 <= i < time.len() ==> (#[trigger] time[i]) != 'T' && time[i] != 'Z',
    ensures
        time_portion(day.push('T') + time) == time,
        time_portion(day.push('T') + time.push('Z')) == time,
        time_portion(time) == time,
        time_portion(time.push('Z')) == time,
{
    reveal_with_fuel(without_zone, 2);
    assert(time.push('Z').drop_last() =~= time);
    lemma_split_at_t(day, time);
    lemma_split_at_t(day, time.push('Z'));
    lemma_no_t(time);
    lemma_no_t(time.push('Z'));
}

proof fn lemma_split_at_t(day: Seq<char>, time: Seq<char>)
    requires
        forall|i: int| 0 <= i < day.len() ==> (#[trigger] day[i]) != 'T',
        forall|i: int| 0 <= i < time.len() ==> (#[trigger] time[i]) != 'T',
    ensures
        time_portion(day.push('T') + time) == without_zone(time),
{
    let ts = day.push('T') + time;
    let k = day.len() as int;
    reveal_strlit("T");
    assert("T"@ =~= seq!['T']);
    lemma_found(ts, "T"@, 0);
    assert(ts.subrange(k, k + 1) =~= "T"@);
    assert(occurs_at(ts, "T"@, k));
    assert forall|j: int| 0 <= j < ts.len() && j != k implies !#[trigger] occurs_at(
        ts,
        "T"@,
        j,
    ) by {
        assert(ts.subrange(j, j + 1)[0] == ts[j]);
        if j < k {
            assert(ts[j] == day[j]);
        } else {
            assert(ts[j] == time[j - k - 1]);
        }
    }
    let i = found(ts, "T"@, 0)->0;
    assert(occurs_at(ts, "T"@, i));
    assert(i == k);
    lemma_found(ts, "T"@, k + 1);
    assert(ts.subrange(k + 1, ts.len() as int) =~= time);
}

proof fn lemma_no_t(time: Seq<char>)
    requires
        forall|i: int| 0 <= i < time.len() ==> (#[trigger] time[i]) != 'T',
    ensures
        time_portion(time) == without_zone(time),
{
    reveal_strlit("T");
    assert("T"@ =~= seq!['T']);
    lemma_found(time, "T"@, 0);
    assert forall|j: int| 0 <= j < time.len() implies !#[trigger] occurs_at(time, "T"@, j) by {
        assert(time.subrange(j, j + 1)[0] == time[j]);
    }
}

/// The timeline shows all events in their order, with the time, the tag and the
/// message of each, and then their number.
pub proof fn law_every_event_is_on_the_timeline(
    events: Seq<JsonView>,
    i: int,
    time: Seq<char>,
    level: Seq<char>,
    message: Seq<char>,
)
    ensures
        timeline(events).len() == events.len() + 1,
        timeline(events)[events.len() as int] == "   "@ + decimal(events.len())
            + " event(s) total"@,
        0 <= i < events.len() && holds(events[i], "timestamp"@, JsonView::Text(time)) && holds(
            events[i],
            "level"@,
            JsonView::Text(level),
        ) && holds(events[i], "message"@, JsonView::Text(message)) ==> timeline(events)[i] == "   "@
            + time_portion(time) + "  ["@ + tag(level) + "]  "@ + message,
{
}

/// After a failure the last five events are shown, or all where there are fewer,
/// in their order and with their levels.
pub proof fn law_the_last_events_are_shown(
    events: Seq<JsonView>,
    i: int,
    level: Seq<char>,
    message: Seq<char>,
)
    ensures
        ({
            let n = events.len() as int;
            let first = if n > 5 {
                n - 5
            } else {
                0
            };
            let log = failure_log(events);
            &&& log.len() == n - first + 1
            &&& log[0] == "   Event log:"@
            &&& first <= i < n && holds(events[i], "level"@, JsonView::Text(level)) && holds(
                events[i],
                "message"@,
                JsonView::Text(message),
            ) ==> log[i - first + 1] == "   ["@ + level + "] "@ + message
        }),
{
}

/// The summaries are those of all answers, each once and under its own stage, in
/// the order of the names; a summary is missing exactly where a character would
/// lie across a cut.
pub proof fn law_every_answer_is_summarized(
    pairs: Seq<(Seq<char>, Seq<char>)>,
    outputs: Map<Seq<char>, JsonView>,
    i: int,
    j: int,
    stage: Seq<char>,
)
    requires
        summaries_of(pairs, outputs),
    ensures
        0 <= i < pairs.len() ==> outputs.contains_key(pairs[i].0) && pairs[i].1 == output_summary(
            pairs[i].0,
            outputs[pairs[i].0],
            compact_json(outputs[pairs[i].0]),
        ),
        0 <= i < j < pairs.len() ==> pairs[i].0 != pairs[j].0 && sorts_before(
            pairs[i].0,
            pairs[j].0,
        ),
        outputs.contains_key(stage) ==> exists|k: int|
            0 <= k < pairs.len() && (#[trigger] pairs[k]).0 == stage,
{
}

/// A summary is refused exactly where it is cut from the text of an answer and a
/// character would lie across the cut.
pub proof fn law_refused_summaries(
    stage: Seq<char>,
    outputs: Map<Seq<char>, JsonView>,
    output: JsonView,
)
    ensures
        mvp_names().contains(stage) ==> !uncuttable(stage, output),
        !mvp_names().contains(stage) ==> (uncuttable(stage, output) <==> !truncatable(
            compact_json(output),
            80,
        )),
        outputs.contains_key(stage) && uncuttable(stage, outputs[stage]) ==> some_uncuttable(
            outputs,
        ),
        (forall|s: Seq<char>| #[trigger]
            outputs.contains_key(s) ==> !uncuttable(s, outputs[s])) ==> !some_uncuttable(outputs),
{
}

/// What counts of pairs is their characters, one for one.
pub proof fn law_pairs_are_what_they_hold(pairs: Seq<(String, String)>, i: int)
    ensures
        pair_views(pairs).len() == pairs.len(),
        0 <= i < pairs.len() ==> pair_views(pairs)[i] == (pairs[i].0@, pairs[i].1@),
{
}

/// The mock services listen on the port that is set, and on 3200 where none is.
pub proof fn law_the_mock_port(vars: Seq<(String, String)>, port: u16)
    ensures
        setting_of(vars, "MOCK_PORT"@) == Some(decimal(port as nat)) ==> mock_port_in(vars) == port,
        setting_of(vars, "MOCK_PORT"@) is None ==> mock_port_in(vars) == 3200,
{
    law_defaults_stand_in(vars, "MOCK_PORT"@, Seq::empty(), u16::MAX as nat, 3200, port as nat);
}

/// Where an answer lacks what its summary tells, the summary tells of none, or
/// of a failure.
pub proof fn law_summaries_of_less(output: Map<Seq<char>, JsonView>, text: Seq<char>)
    ensures
        ({
            let v = JsonView::Object(output);
            &&& !output.contains_key("segments"@) ==> output_summary("Script"@, v, text) == decimal(
                0,
            ) + " narration segments"@
            &&& !output.contains_key("segments"@) && !output.contains_key("research_queries"@)
                ==> output_summary("Planning"@, v, text) == decimal(0) + " segments, "@ + decimal(0)
                + " research queries"@
            &&& !output.contains_key("segment_files"@) ==> output_summary("Tts"@, v, text)
                == decimal(0) + " audio file(s)"@
            &&& !output.contains_key("passed"@) ==> output_summary("AsrValidation"@, v, text)
                == "FAILED"@
            &&& !output.contains_key("cue_count"@) ==> output_summary("Captions"@, v, text)
                == decimal(0) + " caption cue(s)"@
            &&& !output.contains_key("format"@) && !output.contains_key("output_path"@)
                ==> output_summary("RenderFinal"@, v, text) == "?"@ + " → "@ + "?"@
            &&& !output.contains_key("passed"@) && !output.contains_key("issues"@)
                ==> output_summary("QaFinal"@, v, text) == "FAILED ("@ + decimal(0) + " issue(s))"@
        }),
{
    lemma_stages_of_the_pipeline();
}

/// What an event does not say is shown as a question mark.
pub proof fn law_events_that_say_nothing(events: Seq<JsonView>, i: int)
    requires
        0 <= i < events.len(),
        events[i] == JsonView::Object(Map::empty()),
    ensures
        timeline(events)[i] == "   "@ + time_portion("?"@) + "  ["@ + tag("?"@) + "]  "@ + "?"@,
        events.len() <= 5 ==> failure_log(events)[i + 1] == "   ["@ + "?"@ + "] "@ + "?"@,
{
}

} // verus!
