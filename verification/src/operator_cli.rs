//! What the operator's command line shows of the answers of the API gateway and
//! the orchestrator.

use crate::dispatch::{success, HttpStatus, HttpStatusView};
use crate::json::{
    ascending_names, compact_json, compact_text, distinct_names, items_view, layer_members, layer_of,
    holds, lemma_layer_member, lemma_no_layer_member, parse_json, parsed_text, value_of, Json,
    JsonView, Layer,
};
use crate::pipeline_types::{JobView, PipelineJob, Timestamp};
use crate::text::{
    byte_len, can_cut, cut, decimal, decimal_text, law_a_cut_behind_a_beginning, law_cutting, left_aligned, left_aligned_text,
    lemma_byte_len_adds, plus, repeat, repeated, same_text, sorts_before, views,
};
use vstd::prelude::*;
use vstd::string::*;
use vstd::utf8::*;

verus! {

/// Add a line.
pub fn line(lines: &mut Vec<String>, text: String)
    ensures
        views(final(lines)@) == views(old(lines)@).push(text@),
{
    let ghost before = lines@;
    lines.push(text);
    assert(views(lines@) =~= views(before).push(text@));
}

/// Add a line of two parts.
fn line2(lines: &mut Vec<String>, label: &str, text: &str)
    ensures
        views(final(lines)@) == views(old(lines)@).push(label@ + text@),
{
    line(lines, plus(label.to_string(), text));
}

// ---------------------------------------------------------------------------
// Truncation
// ---------------------------------------------------------------------------

/// How many bytes of a text that is too long are kept.
pub open spec fn kept_bytes(max: nat) -> nat {
    if max >= 3 {
        (max - 3) as nat
    } else {
        0
    }
}

/// Whether a text can be shortened: no character lies across the cut.
pub open spec fn truncatable(s: Seq<char>, max: nat) -> bool {
    byte_len(s) <= max || can_cut(s, kept_bytes(max))
}

/// A text of at most `max` bytes as it is; a longer one cut, with dots in place
/// of the rest.
pub open spec fn truncated(s: Seq<char>, max: nat) -> Seq<char> {
    if byte_len(s) <= max {
        s
    } else {
        cut(s, kept_bytes(max)) + "..."@
    }
}

/// Whether a text can be shortened.
pub fn can_truncate(s: &str, max: usize) -> (r: bool)
    ensures
        r == truncatable(s@, max as nat),
{
    let keep: usize = if max >= 3 {
        max - 3
    } else {
        0
    };
    s.as_bytes().len() <= max || s.is_char_boundary(keep)
}

/// Shorten a text to `max` bytes. No character may lie across the cut.
pub fn truncate(s: &str, max: usize) -> (r: String)
    requires
        truncatable(s@, max as nat),
    ensures
        r@ == truncated(s@, max as nat),
{
    if s.as_bytes().len() <= max {
        return s.to_string();
    }
    let keep: usize = if max >= 3 {
        max - 3
    } else {
        0
    };
    let (head, _) = s.split_at(keep);
    proof {
        encode_utf8_decode_utf8(head@);
    }
    plus(head.to_string(), "...")
}

/// A shortened text takes up no more bytes than allowed, where the dots fit.
pub proof fn law_truncated_texts_fit(s: Seq<char>, max: nat)
    requires
        truncatable(s, max),
        max >= 3,
    ensures
        byte_len(truncated(s, max)) <= max,
{
    if byte_len(s) > max {
        let bytes = encode_utf8(s);
        let n = kept_bytes(max) as int;
        encode_utf8_valid_utf8(s);
        valid_utf8_split(bytes, n);
        decode_utf8_encode_utf8(bytes.subrange(0, n));
        lemma_byte_len_adds(cut(s, kept_bytes(max)), "..."@);
        reveal_strlit("...");
        is_ascii_chars_encode_utf8("..."@);
    }
}

// ---------------------------------------------------------------------------
// Single jobs
// ---------------------------------------------------------------------------

/// A time as `chrono::DateTime<Utc>` displays it, where there is such a time.
pub uninterp spec fn displayed_time(seconds: i64, nanos: u32) -> Option<Seq<char>>;

/// Writes a time: `chrono::DateTime::from_timestamp` and its `to_string`.
///
/// Claimed: whether there is such a time, and the text, depend on the two
/// numbers alone.
#[verifier::external_body]
fn display_time(seconds: i64, nanos: u32) -> (r: Option<String>)
    ensures
        match r {
            Some(s) => displayed_time(seconds, nanos) == Some(s@),
            None => displayed_time(seconds, nanos) is None,
        },
{
    chrono::DateTime::from_timestamp(seconds, nanos).map(|time| time.to_string())
}

/// Why a response of a service is an error, if it is.
pub open spec fn api_fault(service: Seq<char>, status: HttpStatusView) -> Option<Seq<char>> {
    if success(status.code) {
        None
    } else {
        Some(service + " returned "@ + status.text)
    }
}

/// Why a response of a service is an error, if it is.
pub fn api_error(service: &str, status: &HttpStatus) -> (r: Option<String>)
    ensures
        match r {
            Some(e) => api_fault(service@, status@) == Some(e@),
            None => api_fault(service@, status@) is None,
        },
{
    if status.code >= 200 && status.code <= 299 {
        None
    } else {
        Some(plus(plus(service.to_string(), " returned "), status.text.as_str()))
    }
}

/// The error for a job that is not there.
pub open spec fn job_missing(job_id: Seq<char>) -> Seq<char> {
    "Job '"@ + job_id + "' not found"@
}

fn missing(job_id: &str) -> (r: String)
    ensures
        r@ == job_missing(job_id@),
{
    plus(plus("Job '".to_string(), job_id), "' not found")
}

/// Read the job in a file of which that is the content. Refused where it is no
/// JSON.
pub fn submission_body(file: &str, content: &str) -> (r: Result<Json, String>)
    ensures
        match r {
            Ok(v) => parsed_text(content@) == Some(v@),
            Err(e) => parsed_text(content@) is None && e@ == "invalid JSON in "@ + file@,
        },
{
    match parse_json(content) {
        Some(v) => Ok(v),
        None => Err(plus("invalid JSON in ".to_string(), file)),
    }
}

pub open spec fn submitted_lines(job: JobView) -> Seq<Seq<char>> {
    seq![
        "Job created: "@ + job.job_id,
        "  Title:  "@ + job.request.title,
        "  Status: "@ + job.status.name(),
        "  Stage:  "@ + job.current_stage.name(),
    ]
}

/// What is said of a submission, by the status line and the text of the response
/// and the job in it, where it can be read.
pub open spec fn submit_reply(
    status: HttpStatusView,
    text: Seq<char>,
    job: Option<JobView>,
) -> Result<Seq<Seq<char>>, Seq<char>> {
    if success(status.code) {
        match job {
            Some(job) => Ok(submitted_lines(job)),
            None => Err("failed to parse response"@),
        }
    } else {
        Err("API"@ + " returned "@ + status.text + ": "@ + text)
    }
}

/// What is shown after a job was submitted. `text` is the body of a response
/// that is an error, and `job` the one in a response that is none, where it
/// can be read.
pub fn submit_job(status: &HttpStatus, text: &str, job: &Option<PipelineJob>) -> (r: Result<
    Vec<String>,
    String,
>)
    ensures
        ({
            let reply = submit_reply(
                status@,
                text@,
                match *job {
                    Some(job) => Some(job@),
                    None => None,
                },
            );
            match r {
                Ok(lines) => reply == Ok::<Seq<Seq<char>>, Seq<char>>(views(lines@)),
                Err(e) => reply == Err::<Seq<Seq<char>>, Seq<char>>(e@),
            }
        }),
{
    match api_error("API", status) {
        Some(e) => {
            return Err(plus(plus(e, ": "), text));
        },
        None => {},
    }
    match job {
        Some(job) => {
            let mut lines: Vec<String> = Vec::new();
            assert(views(lines@) =~= Seq::empty());
            line2(&mut lines, "Job created: ", job.job_id.as_str());
            line2(&mut lines, "  Title:  ", job.request.title.as_str());
            line2(&mut lines, "  Status: ", job.status.to_string().as_str());
            line2(&mut lines, "  Stage:  ", job.current_stage.to_string().as_str());
            assert(views(lines@) =~= submitted_lines(job@));
            Ok(lines)
        },
        None => Err("failed to parse response".to_string()),
    }
}

/// The time at which a job was submitted, in words.
pub open spec fn submitted_text(time: Timestamp) -> Seq<char> {
    match displayed_time(time.seconds, time.nanos) {
        Some(s) => s,
        None => "?"@,
    }
}

pub open spec fn status_lines(job: JobView, submitted: Seq<char>) -> Seq<Seq<char>> {
    seq![
        "Job:    "@ + job.job_id,
        "Title:  "@ + job.request.title,
        "Status: "@ + job.status.name(),
        "Stage:  "@ + job.current_stage.name(),
        "Submitted: "@ + submitted,
    ]
}

/// Why the job that was asked for is not shown, if it is not.
pub open spec fn job_fault(job_id: Seq<char>, status: HttpStatusView) -> Option<Seq<char>> {
    if status.code == 404 {
        Some(job_missing(job_id))
    } else {
        api_fault("API"@, status)
    }
}

/// Why the job that was asked for is not shown, if it is not.
pub fn job_error(job_id: &str, status: &HttpStatus) -> (r: Option<String>)
    ensures
        match r {
            Some(e) => job_fault(job_id@, status@) == Some(e@),
            None => job_fault(job_id@, status@) is None,
        },
{
    if status.code == 404 {
        Some(missing(job_id))
    } else {
        api_error("API", status)
    }
}

/// What is shown of a job.
pub fn get_status(job_id: &str, status: &HttpStatus, job: &Option<PipelineJob>) -> (r: Result<
    Vec<String>,
    String,
>)
    ensures
        match job_fault(job_id@, status@) {
            Some(fault) => r matches Err(e) && e@ == fault,
            None => match *job {
                Some(job) => r matches Ok(lines) && views(lines@) == status_lines(
                    job@,
                    submitted_text(job.submitted_at),
                ),
                None => r matches Err(e) && e@ == "failed to parse response"@,
            },
        },
{
    match job_error(job_id, status) {
        Some(e) => {
            return Err(e);
        },
        None => {},
    }
    match job {
        Some(job) => {
            let submitted = match display_time(job.submitted_at.seconds, job.submitted_at.nanos) {
                Some(s) => s,
                None => "?".to_string(),
            };
            Ok(show_status(job, submitted.as_str()))
        },
        None => Err("failed to parse response".to_string()),
    }
}

/// The lines on a job, with the time at which it was submitted in words.
pub fn show_status(job: &PipelineJob, submitted: &str) -> (r: Vec<String>)
    ensures
        views(r@) == status_lines(job@, submitted@),
{
    let mut lines: Vec<String> = Vec::new();
    assert(views(lines@) =~= Seq::empty());
    line2(&mut lines, "Job:    ", job.job_id.as_str());
    line2(&mut lines, "Title:  ", job.request.title.as_str());
    line2(&mut lines, "Status: ", job.status.to_string().as_str());
    line2(&mut lines, "Stage:  ", job.current_stage.to_string().as_str());
    line2(&mut lines, "Submitted: ", submitted);
    lines
}

/// The names of the stages that have answered, each on a line.
pub open spec fn stage_lines(stages: Seq<JsonView>) -> Seq<Seq<char>>
    decreases stages.len(),
{
    if stages.len() == 0 {
        Seq::empty()
    } else {
        let rest = stage_lines(stages.drop_last());
        match stages.last() {
            JsonView::Text(name) => rest.push("  - "@ + name),
            _ => rest,
        }
    }
}

/// What is shown of a job in detail, but for its outputs.
pub open spec fn detail_lines(detail: JsonView) -> Seq<Seq<char>> {
    let head = seq![
        "Job:       "@ + detail.at("job_id"@).text_or("?"@),
        "Title:     "@ + detail.at("request"@).at("title"@).text_or("?"@),
        "Status:    "@ + detail.at("status"@).text_or("?"@),
        "Stage:     "@ + detail.at("current_stage"@).text_or("?"@),
        "Submitted: "@ + detail.at("submitted_at"@).text_or("?"@),
    ];
    match detail.at("completed_stages"@) {
        JsonView::Array(stages) => if stages.len() == 0 {
            head.push("\nNo completed stages yet."@)
        } else {
            head.push("\nCompleted stages:"@) + stage_lines(stages)
        },
        _ => head,
    }
}

/// Show a job in detail, but for its outputs.
pub fn show_detail(detail: &Json) -> (r: Vec<String>)
    ensures
        views(r@) == detail_lines(detail@),
{
    let nothing = Json::Null;
    let request = match detail.get("request") {
        Some(request) => request,
        None => &nothing,
    };
    let mut lines: Vec<String> = Vec::new();
    assert(views(lines@) =~= Seq::empty());
    line2(&mut lines, "Job:       ", detail.text_at("job_id", "?"));
    line2(&mut lines, "Title:     ", request.text_at("title", "?"));
    line2(&mut lines, "Status:    ", detail.text_at("status", "?"));
    line2(&mut lines, "Stage:     ", detail.text_at("current_stage", "?"));
    line2(&mut lines, "Submitted: ", detail.text_at("submitted_at", "?"));
    let ghost head = views(lines@);
    match detail.array_at("completed_stages") {
        Some(stages) => {
            let ghost all = items_view(stages@);
            assert(all.len() == stages@.len());
            if stages.len() == 0 {
                line(&mut lines, "\nNo completed stages yet.".to_string());
            } else {
                line(&mut lines, "\nCompleted stages:".to_string());
                let ghost start = views(lines@);
                let mut i: usize = 0;
                assert(start + stage_lines(all.take(0)) =~= start);
                while i < stages.len()
                    invariant
                        i <= stages@.len(),
                        all == items_view(stages@),
                        views(lines@) == start + stage_lines(all.take(i as int)),
                    decreases stages.len() - i,
                {
                    assert(all.take(i as int + 1).drop_last() =~= all.take(i as int));
                    assert(all[i as int] == stages@[i as int]@);
                    match &stages[i] {
                        Json::Text(name) => {
                            line2(&mut lines, "  - ", name.as_str());
                            assert(views(lines@) =~= start + stage_lines(
                                all.take(i as int + 1),
                            ));
                        },
                        _ => {},
                    }
                    i += 1;
                }
                assert(all.take(i as int) =~= all);
            }
        },
        None => {},
    }
    lines
}

/// What is shown of the answer of a stage.
pub open spec fn output_line(stage: Seq<char>, text: Seq<char>) -> Seq<char> {
    "  "@ + stage + ": "@ + truncated(text, 120)
}

/// The line for the answer of a stage, which is that text.
pub fn show_output_text(stage: &str, text: &str) -> (r: String)
    requires
        truncatable(text@, 120),
    ensures
        r@ == output_line(stage@, text@),
{
    plus(plus(plus("  ".to_string(), stage), ": "), truncate(text, 120).as_str())
}

/// The line for the answer of a stage. `None` exactly where a character lies
/// across the cut.
pub fn show_output(stage: &str, output: &serde_json::Value) -> (r: Option<String>)
    ensures
        ({
            let text = compact_json(value_of(*output));
            match r {
                Some(l) => truncatable(text, 120) && l@ == output_line(stage@, text),
                None => !truncatable(text, 120),
            }
        }),
{
    let text = compact_text(output);
    if can_truncate(text.as_str(), 120) {
        Some(show_output_text(stage, text.as_str()))
    } else {
        None
    }
}

/// Whether the stages are those that have answered, each once, in the order of
/// their names.
pub open spec fn lists_stages(
    stages: Seq<Seq<char>>,
    outputs: Map<Seq<char>, JsonView>,
) -> bool {
    &&& stages.no_duplicates()
    &&& forall|i: int, j: int|
        0 <= i < j < stages.len() ==> sorts_before(#[trigger] stages[i], #[trigger] stages[j])
    &&& forall|stage: Seq<char>| #[trigger]
        outputs.contains_key(stage) <==> stages.contains(stage)
}

/// What is shown of the answers of those stages.
pub open spec fn section_lines(
    stages: Seq<Seq<char>>,
    outputs: Map<Seq<char>, JsonView>,
) -> Seq<Seq<char>> {
    if stages.len() == 0 {
        Seq::empty()
    } else {
        seq!["\nStage outputs:"@] + stages.map_values(
            |s: Seq<char>| output_line(s, compact_json(outputs[s])),
        )
    }
}

/// Whether a line would be cut inside a character.
pub open spec fn some_line_uncuttable(outputs: Map<Seq<char>, JsonView>) -> bool {
    exists|stage: Seq<char>| #[trigger]
        outputs.contains_key(stage) && !truncatable(compact_json(outputs[stage]), 120)
}

/// The lines for the answers of all stages: none, where there are none. `None`
/// exactly where a line would be cut inside a character.
pub fn show_outputs(outputs: serde_json::Value) -> (r: Option<Vec<String>>)
    ensures
        match value_of(outputs) {
            JsonView::Object(members) => match r {
                Some(lines) => !some_line_uncuttable(members) && exists|stages: Seq<Seq<char>>|
                    #[trigger] lists_stages(stages, members) && views(lines@) == section_lines(
                        stages,
                        members,
                    ),
                None => some_line_uncuttable(members),
            },
            _ => r matches Some(lines) && lines@.len() == 0,
        },
{
    let mut lines: Vec<String> = Vec::new();
    match layer_of(outputs) {
        Layer::Object(members) => {
            let ghost all = members@;
            let ghost goal = layer_members(all);
            let ghost stages = all.map_values(|p: (String, serde_json::Value)| p.0@);
            let ghost shown = stages.map_values(
                |s: Seq<char>| output_line(s, compact_json(goal[s])),
            );
            assert(views(lines@) =~= Seq::empty());
            if members.len() > 0 {
                line(&mut lines, "\nStage outputs:".to_string());
            }
            let ghost head = views(lines@);
            for pair in it: members.into_iter()
                invariant
                    it.seq() == all,
                    distinct_names(all),
                    ascending_names(all),
                    goal == layer_members(all),
                    value_of(outputs) == JsonView::Object(goal),
                    stages == all.map_values(|p: (String, serde_json::Value)| p.0@),
                    shown == stages.map_values(
                        |s: Seq<char>| output_line(s, compact_json(goal[s])),
                    ),
                    views(lines@) == head + shown.take(it.index() as int),
                    forall|i: int|
                        0 <= i < it.index() ==> truncatable(
                            compact_json(goal[#[trigger] stages[i]]),
                            120,
                        ),
            {
                let (stage, output) = pair;
                let ghost n = it.index() as int;
                proof {
                    lemma_layer_member(all, n);
                    assert(stages[n] == stage@);
                }
                match show_output(stage.as_str(), &output) {
                    Some(text) => {
                        line(&mut lines, text);
                        assert(shown[n] == text@);
                        assert(views(lines@) =~= head + shown.take(n + 1));
                    },
                    None => {
                        assert(goal.contains_key(stage@));
                        assert(some_line_uncuttable(goal));
                        return None;
                    },
                }
            }
            proof {
                lemma_stages_listed(all);
                assert(lists_stages(stages, goal));
                assert(shown.take(all.len() as int) =~= shown);
                assert(views(lines@) =~= section_lines(stages, goal));
                assert forall|stage: Seq<char>| #[trigger]
                    goal.contains_key(stage) implies truncatable(
                    compact_json(goal[stage]),
                    120,
                ) by {
                    let i = choose|i: int| 0 <= i < stages.len() && stages[i] == stage;
                    assert(stages.contains(stage));
                    assert(truncatable(compact_json(goal[stages[i]]), 120));
                }
            }
        },
        _ => {},
    }
    Some(lines)
}

proof fn lemma_stages_listed(members: Seq<(String, serde_json::Value)>)
    requires
        distinct_names(members),
        ascending_names(members),
    ensures
        lists_stages(
            members.map_values(|p: (String, serde_json::Value)| p.0@),
            layer_members(members),
        ),
{
    let stages = members.map_values(|p: (String, serde_json::Value)| p.0@);
    let outputs = layer_members(members);
    assert forall|i: int, j: int|
        0 <= i < stages.len() && 0 <= j < stages.len() && i != j implies stages[i]
        != stages[j] by {
        assert(stages[i] == members[i].0@ && stages[j] == members[j].0@);
        if i < j {
            assert(members[i].0@ != members[j].0@);
        } else {
            assert(members[j].0@ != members[i].0@);
        }
    }
    assert forall|i: int, j: int| 0 <= i < j < stages.len() implies sorts_before(
        #[trigger] stages[i],
        #[trigger] stages[j],
    ) by {
        assert(sorts_before(members[i].0@, members[j].0@));
    }
    assert forall|stage: Seq<char>| #[trigger] outputs.contains_key(stage) <==> stages.contains(
        stage,
    ) by {
        if stages.contains(stage) {
            let i = choose|i: int| 0 <= i < stages.len() && stages[i] == stage;
            lemma_layer_member(members, i);
        } else {
            assert forall|i: int| 0 <= i < members.len() implies (#[trigger] members[i]).0@
                != stage by {
                assert(stages[i] == members[i].0@);
            }
            lemma_no_layer_member(members, stage);
        }
    }
}

/// What is said of a retry, by its status code.
pub open spec fn retry_reply(job_id: Seq<char>, code: u16) -> Result<Seq<char>, Seq<char>> {
    if code == 200 {
        Ok("Job '"@ + job_id + "' re-enqueued for retry."@)
    } else if code == 404 {
        Err(job_missing(job_id))
    } else if code == 409 {
        Err("Job '"@ + job_id + "' is not in Failed state — only failed jobs can be retried"@)
    } else {
        Err("API returned "@ + decimal(code as nat))
    }
}

/// The answer to a retry, by its status code.
pub fn retry_job(job_id: &str, code: u16) -> (r: Result<String, String>)
    ensures
        match r {
            Ok(l) => retry_reply(job_id@, code) == Ok::<Seq<char>, Seq<char>>(l@),
            Err(e) => retry_reply(job_id@, code) == Err::<Seq<char>, Seq<char>>(e@),
        },
{
    if code == 200 {
        Ok(plus(plus("Job '".to_string(), job_id), "' re-enqueued for retry."))
    } else if code == 404 {
        Err(missing(job_id))
    } else if code == 409 {
        Err(
            plus(
                plus("Job '".to_string(), job_id),
                "' is not in Failed state — only failed jobs can be retried",
            ),
        )
    } else {
        Err(plus("API returned ".to_string(), decimal_text(code as u64).as_str()))
    }
}

/// What is said of a deletion, by its status code.
pub open spec fn delete_reply(job_id: Seq<char>, code: u16) -> Result<Seq<char>, Seq<char>> {
    if code == 200 {
        Ok("Job '"@ + job_id + "' deleted."@)
    } else if code == 404 {
        Err(job_missing(job_id))
    } else {
        Err("API returned "@ + decimal(code as nat))
    }
}

/// The answer to a deletion, by its status code.
pub fn delete_job(job_id: &str, code: u16) -> (r: Result<String, String>)
    ensures
        match r {
            Ok(l) => delete_reply(job_id@, code) == Ok::<Seq<char>, Seq<char>>(l@),
            Err(e) => delete_reply(job_id@, code) == Err::<Seq<char>, Seq<char>>(e@),
        },
{
    if code == 200 {
        Ok(plus(plus("Job '".to_string(), job_id), "' deleted."))
    } else if code == 404 {
        Err(missing(job_id))
    } else {
        Err(plus("API returned ".to_string(), decimal_text(code as u64).as_str()))
    }
}

// ---------------------------------------------------------------------------
// Events
// ---------------------------------------------------------------------------

/// The tag of a level.
pub open spec fn tag(level: Seq<char>) -> Seq<char> {
    if level == "error"@ {
        "ERR "@
    } else if level == "warn"@ {
        "WARN"@
    } else {
        "INFO"@
    }
}

/// The tag of a level.
pub fn level_tag(level: &str) -> (r: &'static str)
    ensures
        r@ == tag(level@),
{
    if same_text(level, "error") {
        "ERR "
    } else if same_text(level, "warn") {
        "WARN"
    } else {
        "INFO"
    }
}

/// What is shown of an event.
pub open spec fn event_line(event: JsonView) -> Seq<char> {
    event.at("timestamp"@).text_or("?"@) + "  ["@ + tag(event.at("level"@).text_or("?"@)) + "]  "@
        + event.at("message"@).text_or("?"@)
}

/// What is shown of the event log of a job.
pub open spec fn log_lines(job_id: Seq<char>, events: Seq<JsonView>) -> Seq<Seq<char>> {
    if events.len() == 0 {
        seq!["No events recorded for job '"@ + job_id + "'."@]
    } else {
        events.map_values(|e: JsonView| event_line(e)).push(
            "\n"@ + decimal(events.len()) + " event(s)"@,
        )
    }
}

/// Show the event log of a job.
pub fn get_logs(job_id: &str, events: &Vec<Json>) -> (r: Vec<String>)
    ensures
        views(r@) == log_lines(job_id@, items_view(events@)),
{
    let ghost all = items_view(events@);
    assert(all.len() == events@.len());
    let mut lines: Vec<String> = Vec::new();
    assert(views(lines@) =~= Seq::empty());
    if events.len() == 0 {
        line(
            &mut lines,
            plus(plus("No events recorded for job '".to_string(), job_id), "'."),
        );
        return lines;
    }
    let mut i: usize = 0;
    while i < events.len()
        invariant
            i <= events@.len(),
            all == items_view(events@),
            views(lines@) =~= all.take(i as int).map_values(|e: JsonView| event_line(e)),
        decreases events.len() - i,
    {
        let event = &events[i];
        assert(all[i as int] == event@);
        let level = level_tag(event.text_at("level", "?"));
        let text = plus(event.text_at("timestamp", "?").to_string(), "  [");
        let text = plus(plus(plus(text, level), "]  "), event.text_at("message", "?"));
        let ghost before = views(lines@);
        line(&mut lines, text);
        assert(all.take(i as int + 1).map_values(|e: JsonView| event_line(e)) =~= all.take(
            i as int,
        ).map_values(|e: JsonView| event_line(e)).push(event_line(all[i as int])));
        i += 1;
    }
    assert(all.take(i as int) =~= all);
    let count = decimal_text(events.len() as u64);
    line(&mut lines, plus(plus("\n".to_string(), count.as_str()), " event(s)"));
    lines
}

// ---------------------------------------------------------------------------
// Health
// ---------------------------------------------------------------------------

/// What is shown of a service: one line, and one more where there is an error.
pub open spec fn service_lines(svc: JsonView) -> Seq<Seq<char>> {
    let state = if svc.at("healthy"@).bool_or(false) {
        "UP"@
    } else {
        "DOWN"@
    };
    let first = left_aligned(svc.at("name"@).text_or("?"@), 16) + " "@ + left_aligned(state, 8)
        + " "@ + svc.at("url"@).text_or("?"@);
    match svc.at("error"@) {
        JsonView::Text(e) => seq![first, left_aligned(""@, 16) + " "@ + e],
        _ => seq![first],
    }
}

pub open spec fn all_service_lines(services: Seq<JsonView>) -> Seq<Seq<char>>
    decreases services.len(),
{
    if services.len() == 0 {
        Seq::empty()
    } else {
        all_service_lines(services.drop_last()) + service_lines(services.last())
    }
}

/// What is shown of the orchestrator's report.
pub open spec fn health_lines(status: JsonView) -> Seq<Seq<char>> {
    let head = seq![
        "Orchestrator: "@ + (if status.at("running"@).bool_or(false) {
            "running"@
        } else {
            "stopped"@
        }) + " | Pending jobs: "@ + decimal(status.at("pending_jobs"@).u64_or(0) as nat),
    ];
    match status.at("services"@) {
        JsonView::Array(services) => head.push(
            "\n"@ + left_aligned("SERVICE"@, 16) + " "@ + left_aligned("STATUS"@, 8) + " URL"@,
        ).push(repeated('-', 70)) + all_service_lines(services),
        _ => head,
    }
}

fn show_service(lines: &mut Vec<String>, svc: &Json)
    ensures
        views(final(lines)@) == views(old(lines)@) + service_lines(svc@),
{
    let ghost before = views(lines@);
    let state = if svc.bool_at("healthy", false) {
        "UP"
    } else {
        "DOWN"
    };
    let text = plus(left_aligned_text(svc.text_at("name", "?"), 16), " ");
    let text = plus(plus(text, left_aligned_text(state, 8).as_str()), " ");
    line(lines, plus(text, svc.text_at("url", "?")));
    match svc.get("error") {
        Some(Json::Text(e)) => {
            line(lines, plus(plus(left_aligned_text("", 16), " "), e.as_str()));
        },
        _ => {},
    }
    assert(views(lines@) =~= before + service_lines(svc@));
}

/// Show the orchestrator's report.
pub fn show_health(status: &Json) -> (r: Vec<String>)
    ensures
        views(r@) == health_lines(status@),
{
    let mut lines: Vec<String> = Vec::new();
    assert(views(lines@) =~= Seq::empty());
    let state = if status.bool_at("running", false) {
        "running"
    } else {
        "stopped"
    };
    let pending = decimal_text(status.u64_at("pending_jobs", 0));
    line(
        &mut lines,
        plus(
            plus(plus("Orchestrator: ".to_string(), state), " | Pending jobs: "),
            pending.as_str(),
        ),
    );
    match status.array_at("services") {
        Some(services) => {
            let ghost all = items_view(services@);
            let text = plus(
                plus("\n".to_string(), left_aligned_text("SERVICE", 16).as_str()),
                " ",
            );
            line(
                &mut lines,
                plus(plus(text, left_aligned_text("STATUS", 8).as_str()), " URL"),
            );
            line(&mut lines, repeat('-', 70));
            let ghost head = views(lines@);
            let mut i: usize = 0;
            assert(head + all_service_lines(all.take(0)) =~= head);
            while i < services.len()
                invariant
                    i <= services@.len(),
                    all == items_view(services@),
                    views(lines@) == head + all_service_lines(all.take(i as int)),
                decreases services.len() - i,
            {
                assert(all.take(i as int + 1).drop_last() =~= all.take(i as int));
                assert(all[i as int] == services@[i as int]@);
                show_service(&mut lines, &services[i]);
                assert(views(lines@) =~= head + all_service_lines(all.take(i as int + 1)));
                i += 1;
            }
            assert(all.take(i as int) =~= all);
        },
        None => {},
    }
    lines
}

// ---------------------------------------------------------------------------
// The list of jobs
// ---------------------------------------------------------------------------

/// What is shown of a job in the list. The status is not filled up to its column.
pub open spec fn job_line(job: JobView) -> Seq<char> {
    left_aligned(job.job_id, 38) + " "@ + left_aligned(truncated(job.request.title, 28), 30) + " "@
        + job.status.name() + " "@ + job.current_stage.name()
}

/// What is shown of all jobs.
pub open spec fn list_lines(jobs: Seq<JobView>) -> Seq<Seq<char>> {
    if jobs.len() == 0 {
        seq!["No jobs found."@]
    } else {
        seq![
            left_aligned("JOB ID"@, 38) + " "@ + left_aligned("TITLE"@, 30) + " "@ + left_aligned(
                "STATUS"@,
                12,
            ) + " STAGE"@,
            repeated('-', 95),
        ] + jobs.map_values(|j: JobView| job_line(j)) + seq![
            "\n"@ + decimal(jobs.len()) + " job(s) total"@,
        ]
    }
}

/// Whether all titles can be shortened for the list.
pub open spec fn listable(jobs: Seq<PipelineJob>) -> bool {
    forall|i: int| 0 <= i < jobs.len() ==> truncatable((#[trigger] jobs[i]).request.title@, 28)
}

/// Whether all titles can be shortened for the list.
pub fn can_list(jobs: &Vec<PipelineJob>) -> (r: bool)
    ensures
        r == listable(jobs@),
{
    let mut i: usize = 0;
    while i < jobs.len()
        invariant
            i <= jobs@.len(),
            forall|j: int| 0 <= j < i ==> truncatable((#[trigger] jobs@[j]).request.title@, 28),
        decreases jobs.len() - i,
    {
        if !can_truncate(jobs[i].request.title.as_str(), 28) {
            return false;
        }
        i += 1;
    }
    true
}

/// Show all jobs.
pub fn list_jobs(jobs: &Vec<PipelineJob>) -> (r: Vec<String>)
    requires
        listable(jobs@),
    ensures
        views(r@) == list_lines(jobs@.map_values(|j: PipelineJob| j@)),
{
    let ghost all = jobs@.map_values(|j: PipelineJob| j@);
    let mut lines: Vec<String> = Vec::new();
    assert(views(lines@) =~= Seq::empty());
    if jobs.len() == 0 {
        line(&mut lines, "No jobs found.".to_string());
        return lines;
    }
    let text = plus(plus(left_aligned_text("JOB ID", 38), " "), left_aligned_text("TITLE", 30).as_str());
    line(
        &mut lines,
        plus(plus(plus(text, " "), left_aligned_text("STATUS", 12).as_str()), " STAGE"),
    );
    line(&mut lines, repeat('-', 95));
    let ghost head = views(lines@);
    let mut i: usize = 0;
    while i < jobs.len()
        invariant
            i <= jobs@.len(),
            listable(jobs@),
            all == jobs@.map_values(|j: PipelineJob| j@),
            views(lines@) =~= head + all.take(i as int).map_values(|j: JobView| job_line(j)),
        decreases jobs.len() - i,
    {
        let job = &jobs[i];
        assert(all[i as int] == job@);
        let title = truncate(job.request.title.as_str(), 28);
        let text = plus(left_aligned_text(job.job_id.as_str(), 38), " ");
        let text = plus(plus(text, left_aligned_text(title.as_str(), 30).as_str()), " ");
        let text = plus(plus(text, job.status.to_string().as_str()), " ");
        line(&mut lines, plus(text, job.current_stage.to_string().as_str()));
        assert(all.take(i as int + 1).map_values(|j: JobView| job_line(j)) =~= all.take(
            i as int,
        ).map_values(|j: JobView| job_line(j)).push(job_line(all[i as int])));
        i += 1;
    }
    assert(all.take(i as int) =~= all);
    let count = decimal_text(jobs.len() as u64);
    line(&mut lines, plus(plus("\n".to_string(), count.as_str()), " job(s) total"));
    assert(views(lines@) =~= list_lines(all));
    lines
}

/// A text that fits is shown as it is; of a longer one the beginning that leaves
/// room for three dots is shown, and then the dots.
pub proof fn law_long_texts_lose_their_end(start: Seq<char>, rest: Seq<char>, max: nat)
    ensures
        encode_utf8(start).len() <= max ==> truncated(start, max) == start,
        encode_utf8(start + rest).len() > max && encode_utf8(start).len() + 3 == max ==> truncated(
            start + rest,
            max,
        ) == start + "..."@,
{
    law_cutting(start, rest);
}

/// Every response is an error but for those with a code from 200 to 299; a job
/// that is not found is named.
pub proof fn law_errors_of_responses(
    service: Seq<char>,
    job_id: Seq<char>,
    status: HttpStatusView,
)
    ensures
        200 <= status.code < 300 ==> api_fault(service, status) is None && job_fault(
            job_id,
            status,
        ) is None,
        !(200 <= status.code < 300) ==> api_fault(service, status) == Some(
            service + " returned "@ + status.text,
        ),
        status.code == 404 ==> job_fault(job_id, status) == Some(
            "Job '"@ + job_id + "' not found"@,
        ),
        !(200 <= status.code < 300) && status.code != 404 ==> job_fault(job_id, status) == Some(
            "API"@ + " returned "@ + status.text,
        ),
{
}

/// A job is shown with each of its parts under its own label.
pub proof fn law_jobs_are_shown_by_their_parts(job: JobView, submitted: Seq<char>)
    ensures
        submitted_lines(job).len() == 4,
        submitted_lines(job)[0] == "Job created: "@ + job.job_id,
        submitted_lines(job)[1] == "  Title:  "@ + job.request.title,
        submitted_lines(job)[2] == "  Status: "@ + job.status.name(),
        submitted_lines(job)[3] == "  Stage:  "@ + job.current_stage.name(),
        status_lines(job, submitted).len() == 5,
        status_lines(job, submitted)[0] == "Job:    "@ + job.job_id,
        status_lines(job, submitted)[1] == "Title:  "@ + job.request.title,
        status_lines(job, submitted)[2] == "Status: "@ + job.status.name(),
        status_lines(job, submitted)[3] == "Stage:  "@ + job.current_stage.name(),
        status_lines(job, submitted)[4] == "Submitted: "@ + submitted,
{
}

/// A job in detail is shown with what stands under each name, and with the
/// stages that have answered, each on a line and in order.
pub proof fn law_details_are_shown_by_their_parts(
    detail: JsonView,
    request: JsonView,
    id: Seq<char>,
    title: Seq<char>,
    status: Seq<char>,
    stage: Seq<char>,
    submitted: Seq<char>,
    stages: Seq<JsonView>,
)
    requires
        holds(detail, "job_id"@, JsonView::Text(id)),
        holds(detail, "request"@, request),
        holds(request, "title"@, JsonView::Text(title)),
        holds(detail, "status"@, JsonView::Text(status)),
        holds(detail, "current_stage"@, JsonView::Text(stage)),
        holds(detail, "submitted_at"@, JsonView::Text(submitted)),
    ensures
        ({
            let lines = detail_lines(detail);
            &&& lines.len() >= 5
            &&& lines[0] == "Job:       "@ + id
            &&& lines[1] == "Title:     "@ + title
            &&& lines[2] == "Status:    "@ + status
            &&& lines[3] == "Stage:     "@ + stage
            &&& lines[4] == "Submitted: "@ + submitted
            &&& holds(detail, "completed_stages"@, JsonView::Array(stages)) && stages.len() == 0
                ==> lines.len() == 6 && lines[5] == "\nNo completed stages yet."@
            &&& holds(detail, "completed_stages"@, JsonView::Array(stages)) && stages.len() > 0
                ==> lines[5] == "\nCompleted stages:"@ && lines.skip(6) == stage_lines(stages)
            &&& !detail->Object_0.contains_key("completed_stages"@) ==> lines.len() == 5
        }),
{
    if holds(detail, "completed_stages"@, JsonView::Array(stages)) && stages.len() > 0 {
        assert(detail_lines(detail).skip(6) =~= stage_lines(stages));
    }
}

/// Each stage that has answered is one more line, with its name.
pub proof fn law_every_stage_is_a_line(stages: Seq<JsonView>, stage: JsonView, i: int)
    ensures
        stage_lines(Seq::empty()).len() == 0,
        stage_lines(stages.push(stage)) == if stage is Text {
            stage_lines(stages).push("  - "@ + stage->Text_0)
        } else {
            stage_lines(stages)
        },
        (forall|k: int| 0 <= k < stages.len() ==> (#[trigger] stages[k]) is Text) ==> {
            &&& stage_lines(stages).len() == stages.len()
            &&& 0 <= i < stages.len() ==> stage_lines(stages)[i] == "  - "@ + stages[i]->Text_0
        },
    decreases stages.len(),
{
    assert(stages.push(stage).drop_last() =~= stages);
    if (forall|k: int| 0 <= k < stages.len() ==> (#[trigger] stages[k]) is Text) && stages.len()
        > 0 {
        let rest = stages.drop_last();
        assert forall|k: int| 0 <= k < rest.len() implies (#[trigger] rest[k]) is Text by {
            assert(rest[k] == stages[k]);
        }
        law_every_stage_is_a_line(rest, stage, i);
        assert(stages[stages.len() - 1] is Text);
    }
}

/// The answers are shown below a heading, one line for each stage in the order
/// in which the stages are given, and nothing where there are none.
pub proof fn law_every_answer_is_a_line(
    stages: Seq<Seq<char>>,
    outputs: Map<Seq<char>, JsonView>,
    i: int,
)
    ensures
        stages.len() == 0 ==> section_lines(stages, outputs).len() == 0,
        stages.len() > 0 ==> section_lines(stages, outputs).len() == stages.len() + 1
            && section_lines(stages, outputs)[0] == "\nStage outputs:"@,
        0 <= i < stages.len() ==> section_lines(stages, outputs)[i + 1] == "  "@ + stages[i]
            + ": "@ + truncated(compact_json(outputs[stages[i]]), 120),
{
}

/// Errors and warnings are tagged as such, and anything else as information.
pub proof fn law_tags(level: Seq<char>)
    ensures
        tag("error"@) == "ERR "@,
        tag("warn"@) == "WARN"@,
        level != "error"@ && level != "warn"@ ==> tag(level) == "INFO"@,
{
    reveal_strlit("error");
    reveal_strlit("warn");
    assert("error"@.len() != "warn"@.len());
}

/// The event log is shown line by line in its order, with the time, the tag and
/// the message of each event, and then the number of events.
pub proof fn law_every_event_is_a_line(
    job_id: Seq<char>,
    events: Seq<JsonView>,
    i: int,
    time: Seq<char>,
    level: Seq<char>,
    message: Seq<char>,
)
    ensures
        ({
            let lines = log_lines(job_id, events);
            let n = events.len() as int;
            &&& n == 0 ==> lines.len() == 1 && lines[0] == "No events recorded for job '"@ + job_id
                + "'."@
            &&& n > 0 ==> lines.len() == n + 1 && lines[n] == "\n"@ + decimal(events.len())
                + " event(s)"@
            &&& 0 <= i < n && holds(events[i], "timestamp"@, JsonView::Text(time)) && holds(
                events[i],
                "level"@,
                JsonView::Text(level),
            ) && holds(events[i], "message"@, JsonView::Text(message)) ==> lines[i] == time
                + "  ["@ + tag(level) + "]  "@ + message
        }),
{
}

/// A service is shown with its name, whether it is up and its URL, and where
/// there is an error with that on a line of its own.
pub proof fn law_services_are_shown_by_their_parts(
    svc: JsonView,
    name: Seq<char>,
    healthy: bool,
    url: Seq<char>,
    error: Seq<char>,
)
    requires
        holds(svc, "name"@, JsonView::Text(name)),
        holds(svc, "healthy"@, JsonView::Bool(healthy)),
        holds(svc, "url"@, JsonView::Text(url)),
    ensures
        ({
            let lines = service_lines(svc);
            &&& lines[0] == left_aligned(name, 16) + " "@ + left_aligned(
                if healthy {
                    "UP"@
                } else {
                    "DOWN"@
                },
                8,
            ) + " "@ + url
            &&& !svc->Object_0.contains_key("error"@) ==> lines.len() == 1
            &&& holds(svc, "error"@, JsonView::Text(error)) ==> lines.len() == 2 && lines[1]
                == repeated(' ', 16) + " "@ + error
        }),
{
    reveal_strlit("");
    assert(left_aligned(""@, 16) =~= repeated(' ', 16));
}

/// The lines of a service follow those of all services before it.
pub proof fn law_every_service_is_shown(services: Seq<JsonView>, svc: JsonView)
    ensures
        all_service_lines(Seq::empty()).len() == 0,
        all_service_lines(services.push(svc)) == all_service_lines(services) + service_lines(svc),
{
    assert(services.push(svc).drop_last() =~= services);
}

/// The report of the orchestrator is shown with its state and the number of
/// waiting jobs, and then service by service.
pub proof fn law_reports_are_shown_by_their_parts(
    status: JsonView,
    running: bool,
    pending: u64,
    services: Seq<JsonView>,
)
    requires
        holds(status, "running"@, JsonView::Bool(running)),
        holds(status, "pending_jobs"@, JsonView::Unsigned(pending)),
    ensures
        ({
            let lines = health_lines(status);
            &&& running ==> lines[0] == "Orchestrator: "@ + "running"@ + " | Pending jobs: "@
                + decimal(pending as nat)
            &&& !running ==> lines[0] == "Orchestrator: "@ + "stopped"@ + " | Pending jobs: "@
                + decimal(pending as nat)
            &&& !status->Object_0.contains_key("services"@) ==> lines.len() == 1
            &&& holds(status, "services"@, JsonView::Array(services)) ==> {
                &&& lines[1] == "\n"@ + left_aligned("SERVICE"@, 16) + " "@ + left_aligned(
                    "STATUS"@,
                    8,
                ) + " URL"@
                &&& lines[2] == repeated('-', 70)
                &&& lines.skip(3) == all_service_lines(services)
            }
        }),
{
    if holds(status, "services"@, JsonView::Array(services)) {
        assert(health_lines(status).skip(3) =~= all_service_lines(services));
    }
}

/// The list of jobs has a heading, a line for each job in the order of the list,
/// and the number of jobs.
pub proof fn law_every_job_is_a_line(jobs: Seq<JobView>, i: int)
    ensures
        ({
            let lines = list_lines(jobs);
            let n = jobs.len() as int;
            &&& n == 0 ==> lines.len() == 1 && lines[0] == "No jobs found."@
            &&& n > 0 ==> {
                &&& lines.len() == n + 3
                &&& lines[0] == left_aligned("JOB ID"@, 38) + " "@ + left_aligned("TITLE"@, 30)
                    + " "@ + left_aligned("STATUS"@, 12) + " STAGE"@
                &&& lines[1] == repeated('-', 95)
                &&& lines[n + 2] == "\n"@ + decimal(jobs.len()) + " job(s) total"@
            }
            &&& 0 <= i < n ==> lines[i + 2] == left_aligned(jobs[i].job_id, 38) + " "@
                + left_aligned(truncated(jobs[i].request.title, 28), 30) + " "@
                + jobs[i].status.name() + " "@ + jobs[i].current_stage.name()
        }),
{
}

/// A text can be shortened where it fits, or where a beginning of it takes up
/// all the room but for the dots.
pub proof fn law_texts_that_can_be_shortened(start: Seq<char>, rest: Seq<char>, max: nat)
    ensures
        encode_utf8(start).len() <= max ==> truncatable(start, max),
        encode_utf8(start).len() + 3 == max ==> truncatable(start + rest, max),
{
    if encode_utf8(start).len() + 3 == max {
        lemma_byte_len_adds(start, rest);
        law_a_cut_behind_a_beginning(start, rest);
    }
}

/// The stages that are listed are those that have answered, each once and in the
/// order of their names.
pub proof fn law_every_stage_is_listed(
    stages: Seq<Seq<char>>,
    outputs: Map<Seq<char>, JsonView>,
    i: int,
    j: int,
    stage: Seq<char>,
)
    requires
        lists_stages(stages, outputs),
    ensures
        0 <= i < j < stages.len() ==> stages[i] != stages[j] && sorts_before(stages[i], stages[j]),
        outputs.contains_key(stage) <==> exists|k: int| 0 <= k < stages.len() && stages[k] == stage,
{
    if outputs.contains_key(stage) {
        let k = choose|k: int| 0 <= k < stages.len() && stages[k] == stage;
        assert(stages[k] == stage);
    }
}

/// The outputs cannot be shown exactly where a character of one lies across its
/// cut, and neither can jobs where one of a title does.
pub proof fn law_what_cannot_be_shown(
    outputs: Map<Seq<char>, JsonView>,
    stage: Seq<char>,
    jobs: Seq<PipelineJob>,
    i: int,
)
    ensures
        outputs.contains_key(stage) && !truncatable(compact_json(outputs[stage]), 120)
            ==> some_line_uncuttable(outputs),
        (forall|s: Seq<char>| #[trigger]
            outputs.contains_key(s) ==> truncatable(compact_json(outputs[s]), 120))
            ==> !some_line_uncuttable(outputs),
        0 <= i < jobs.len() && !truncatable(jobs[i].request.title@, 28) ==> !listable(jobs),
        (forall|k: int|
            0 <= k < jobs.len() ==> truncatable((#[trigger] jobs[k]).request.title@, 28))
            ==> listable(jobs),
{
}

/// The time at which a job was submitted is shown as it is written, where it is
/// a time.
pub proof fn law_submission_times(time: Timestamp)
    ensures
        displayed_time(time.seconds, time.nanos) matches Some(s) ==> submitted_text(time) == s,
        displayed_time(time.seconds, time.nanos) is None ==> submitted_text(time) == "?"@,
{
}

/// A retry and a deletion succeed with code 200 and no other; what is said of
/// them names the job, or else the code.
pub proof fn law_replies_name_the_job(job_id: Seq<char>, code: u16)
    ensures
        retry_reply(job_id, code) is Ok <==> code == 200,
        delete_reply(job_id, code) is Ok <==> code == 200,
        code == 200 ==> retry_reply(job_id, code)->Ok_0 == "Job '"@ + job_id
            + "' re-enqueued for retry."@ && delete_reply(job_id, code)->Ok_0 == "Job '"@ + job_id
            + "' deleted."@,
        code == 404 ==> retry_reply(job_id, code)->Err_0 == "Job '"@ + job_id + "' not found"@
            && delete_reply(job_id, code)->Err_0 == "Job '"@ + job_id + "' not found"@,
        code == 409 ==> retry_reply(job_id, code)->Err_0 == "Job '"@ + job_id
            + "' is not in Failed state — only failed jobs can be retried"@,
        code != 200 && code != 404 ==> delete_reply(job_id, code)->Err_0 == "API returned "@
            + decimal(code as nat),
        code != 200 && code != 404 && code != 409 ==> retry_reply(job_id, code)->Err_0
            == "API returned "@ + decimal(code as nat),
{
}

/// A submission that was accepted shows the job, and any other says what went
/// wrong.
pub proof fn law_submissions(status: HttpStatusView, text: Seq<char>, job: JobView)
    ensures
        200 <= status.code < 300 ==> submit_reply(status, text, Some(job)) is Ok && submit_reply(
            status,
            text,
            Some(job),
        )->Ok_0 == submitted_lines(job),
        200 <= status.code < 300 ==> submit_reply(status, text, None) is Err && submit_reply(
            status,
            text,
            None,
        )->Err_0 == "failed to parse response"@,
        !(200 <= status.code < 300) ==> submit_reply(status, text, Some(job)) is Err
            && submit_reply(status, text, None) is Err && submit_reply(status, text, None)->Err_0
            == "API"@ + " returned "@ + status.text + ": "@ + text && submit_reply(
            status,
            text,
            Some(job),
        )->Err_0 == "API"@ + " returned "@ + status.text + ": "@ + text,
{
}

/// What a response does not say is shown as a question mark, and a service or an
/// orchestrator that does not say that it is up counts as down.
pub proof fn law_responses_that_say_nothing(
    v: Map<Seq<char>, JsonView>,
    job_id: Seq<char>,
    events: Seq<JsonView>,
    i: int,
)
    ensures
        ({
            let r = JsonView::Object(v);
            &&& !v.contains_key("job_id"@) ==> detail_lines(r)[0] == "Job:       "@ + "?"@
            &&& !v.contains_key("request"@) ==> detail_lines(r)[1] == "Title:     "@ + "?"@
            &&& !v.contains_key("status"@) ==> detail_lines(r)[2] == "Status:    "@ + "?"@
            &&& !v.contains_key("current_stage"@) ==> detail_lines(r)[3] == "Stage:     "@ + "?"@
            &&& !v.contains_key("submitted_at"@) ==> detail_lines(r)[4] == "Submitted: "@ + "?"@
            &&& !v.contains_key("name"@) && !v.contains_key("url"@) && !v.contains_key("healthy"@)
                ==> service_lines(r)[0] == left_aligned("?"@, 16) + " "@ + left_aligned("DOWN"@, 8)
                + " "@ + "?"@
            &&& !v.contains_key("running"@) && !v.contains_key("pending_jobs"@) ==> health_lines(
                r,
            )[0] == "Orchestrator: "@ + "stopped"@ + " | Pending jobs: "@ + decimal(0)
        }),
        0 <= i < events.len() && events[i] == JsonView::Object(Map::empty()) ==> log_lines(
            job_id,
            events,
        )[i] == "?"@ + "  ["@ + tag("?"@) + "]  "@ + "?"@,
{
}

} // verus!
