//! The request body that each stage's service is called with.
//!
//! A body is built from the job and from the outputs that earlier stages have
//! left; where an output is missing, from the job alone.

use crate::json::{copy_items, items_view, member, members_view, Json, JsonView};
use crate::pipeline_types::{law_stage_names_are_distinct, JobView, PipelineJob, Stage};
use crate::text::{plus, same_text, views};
use vstd::prelude::*;
use vstd::string::*;

verus! {

/// The output of an earlier stage, where there is one.
pub open spec fn prior_output(prior: Map<Seq<char>, JsonView>, stage: Seq<char>) -> Option<
    JsonView,
> {
    if prior.contains_key(stage) {
        Some(prior[stage])
    } else {
        None
    }
}

/// The body for the planner: the whole request.
pub open spec fn planning_body(job: JobView) -> JsonView {
    JsonView::Object(
        map![
            "job_id"@ => JsonView::Text(job.job_id),
            "title"@ => JsonView::Text(job.request.title),
            "idea"@ => JsonView::Text(job.request.idea),
            "audience"@ => JsonView::Text(job.request.audience),
            "target_duration_seconds"@ => JsonView::Unsigned(job.request.target_duration_seconds as u64),
            "tone"@ => JsonView::Text(job.request.tone),
            "must_include"@ => JsonView::Array(texts_view(job.request.must_include)),
            "must_avoid"@ => JsonView::Array(texts_view(job.request.must_avoid)),
        ],
    )
}

pub open spec fn texts_view(texts: Seq<Seq<char>>) -> Seq<JsonView> {
    texts.map_values(|s: Seq<char>| JsonView::Text(s))
}

/// The queries to research: those of the plan or, without a plan, two that the
/// request suggests.
pub open spec fn research_queries(job: JobView, plan: Option<JsonView>) -> Seq<JsonView> {
    match plan {
        Some(p) => p.at("research_queries"@).items(),
        None => seq![
            JsonView::Text(job.request.title + " overview"@),
            JsonView::Text(job.request.idea + " for "@ + job.request.audience),
        ],
    }
}

pub open spec fn research_body(job: JobView, plan: Option<JsonView>) -> JsonView {
    JsonView::Object(
        map![
            "job_id"@ => JsonView::Text(job.job_id),
            "queries"@ => JsonView::Array(research_queries(job, plan)),
        ],
    )
}

/// A plan of one segment, for a job that has none.
pub open spec fn default_plan(job: JobView) -> JsonView {
    JsonView::Object(
        map![
            "job_id"@ => JsonView::Text(job.job_id),
            "title"@ => JsonView::Text(job.request.title),
            "synopsis"@ => JsonView::Text(job.request.idea),
            "total_duration_seconds"@ => JsonView::Unsigned(job.request.target_duration_seconds as u64),
            "segments"@ => JsonView::Array(seq![
                JsonView::Object(map![
                    "segment_number"@ => JsonView::Unsigned(1),
                    "title"@ => JsonView::Text(job.request.title),
                    "duration_seconds"@ => JsonView::Unsigned(job.request.target_duration_seconds as u64),
                    "description"@ => JsonView::Text(job.request.idea),
                    "visual_style"@ => JsonView::Text("default"@),
                ]),
            ]),
            "research_queries"@ => JsonView::Array(Seq::empty()),
            "narration_tone"@ => JsonView::Text(job.request.tone),
        ],
    )
}

/// The packets of the research output: those it lists or, where it lists none,
/// the output itself.
pub open spec fn research_packets(research: Option<JsonView>) -> Seq<JsonView> {
    match research {
        Some(r) => match r.at("packets"@).as_array() {
            Some(packets) => packets,
            None => seq![r],
        },
        None => Seq::empty(),
    }
}

pub open spec fn script_body(
    job: JobView,
    plan: Option<JsonView>,
    research: Option<JsonView>,
) -> JsonView {
    JsonView::Object(
        map![
            "plan"@ => (match plan {
                Some(p) => p,
                None => default_plan(job),
            }),
            "research"@ => JsonView::Array(research_packets(research)),
        ],
    )
}

/// A script of one segment, for a job that has none.
pub open spec fn default_script(job: JobView) -> JsonView {
    JsonView::Object(
        map![
            "job_id"@ => JsonView::Text(job.job_id),
            "title"@ => JsonView::Text(job.request.title),
            "total_duration_seconds"@ => JsonView::Unsigned(job.request.target_duration_seconds as u64),
            "segments"@ => JsonView::Array(seq![
                JsonView::Object(map![
                    "segment_number"@ => JsonView::Unsigned(1),
                    "title"@ => JsonView::Text(job.request.title),
                    "narration_text"@ => JsonView::Text(job.request.idea),
                    "estimated_duration_seconds"@ => JsonView::Unsigned(job.request.target_duration_seconds as u64),
                    "visual_notes"@ => JsonView::Text("default"@),
                ]),
            ]),
        ],
    )
}

/// The script as the speech and caption services take it.
pub open spec fn script_or_default(job: JobView, script: Option<JsonView>) -> JsonView {
    match script {
        Some(s) => s,
        None => default_script(job),
    }
}

/// The segment number of an item, in 32 bits; 0 where it has none.
pub open spec fn segment_number(item: JsonView) -> u32 {
    (item.at("segment_number"@).u64_or(0) % 0x1_0000_0000) as u32
}

/// The narration of the first script segment with that number.
pub open spec fn expected_text(segments: Seq<JsonView>, number: u32) -> Seq<char>
    decreases segments.len(),
{
    if segments.len() == 0 {
        Seq::empty()
    } else if segment_number(segments[0]) == number {
        segments[0].at("narration_text"@).text_or(Seq::empty())
    } else {
        expected_text(segments.drop_first(), number)
    }
}

/// The items under a name in an optional output.
pub open spec fn items_of(output: Option<JsonView>, name: Seq<char>) -> Seq<JsonView> {
    match output {
        Some(o) => o.at(name).items(),
        None => Seq::empty(),
    }
}

/// One spoken segment: where its audio is, and what it should say.
pub open spec fn asr_segment(file: JsonView, script_segments: Seq<JsonView>) -> JsonView {
    JsonView::Object(
        map![
            "segment_number"@ => JsonView::Unsigned(segment_number(file) as u64),
            "audio_path"@ => JsonView::Text(file.at("file_path"@).text_or(Seq::empty())),
            "expected_text"@ => JsonView::Text(expected_text(script_segments, segment_number(file))),
        ],
    )
}

pub open spec fn asr_body(
    job: JobView,
    tts: Option<JsonView>,
    script: Option<JsonView>,
) -> JsonView {
    JsonView::Object(
        map![
            "job_id"@ => JsonView::Text(job.job_id),
            "segments"@ => JsonView::Array(
                items_of(tts, "segment_files"@).map_values(
                    |file: JsonView| asr_segment(file, items_of(script, "segments"@)),
                ),
            ),
        ],
    )
}

/// The paths of the audio files that are listed with one.
pub open spec fn audio_paths(files: Seq<JsonView>) -> Seq<JsonView>
    decreases files.len(),
{
    if files.len() == 0 {
        Seq::empty()
    } else {
        match files.last().at("file_path"@) {
            JsonView::Text(path) => audio_paths(files.drop_last()).push(JsonView::Text(path)),
            _ => audio_paths(files.drop_last()),
        }
    }
}

pub open spec fn render_body(job: JobView, tts: Option<JsonView>) -> JsonView {
    JsonView::Object(
        map![
            "job_id"@ => JsonView::Text(job.job_id),
            "audio_files"@ => JsonView::Array(audio_paths(items_of(tts, "segment_files"@))),
        ],
    )
}

/// Where the rendered file is: where the render stage says or, where it does
/// not, the usual place.
pub open spec fn rendered_path(job: JobView, render: Option<JsonView>) -> Seq<char> {
    let usual = "./data/renders/"@ + job.job_id + ".mp4"@;
    match render {
        Some(r) => r.at("output_path"@).text_or(usual),
        None => usual,
    }
}

pub open spec fn qa_body(job: JobView, render: Option<JsonView>) -> JsonView {
    JsonView::Object(
        map![
            "job_id"@ => JsonView::Text(job.job_id),
            "output_path"@ => JsonView::Text(rendered_path(job, render)),
            "expected_duration_seconds"@ => JsonView::Unsigned(job.request.target_duration_seconds as u64),
        ],
    )
}

/// The body that a stage's service is called with; `None` for a stage that has
/// no service.
pub open spec fn stage_body(
    stage: Seq<char>,
    job: JobView,
    prior: Map<Seq<char>, JsonView>,
) -> Option<JsonView> {
    let plan = prior_output(prior, "Planning"@);
    let research = prior_output(prior, "Research"@);
    let script = prior_output(prior, "Script"@);
    let tts = prior_output(prior, "Tts"@);
    let render = prior_output(prior, "RenderFinal"@);
    if stage == "Planning"@ {
        Some(planning_body(job))
    } else if stage == "Research"@ {
        Some(research_body(job, plan))
    } else if stage == "Script"@ {
        Some(script_body(job, plan, research))
    } else if stage == "Tts"@ {
        Some(script_or_default(job, script))
    } else if stage == "AsrValidation"@ {
        Some(asr_body(job, tts, script))
    } else if stage == "Captions"@ {
        Some(script_or_default(job, script))
    } else if stage == "RenderFinal"@ {
        Some(render_body(job, tts))
    } else if stage == "QaFinal"@ {
        Some(qa_body(job, render))
    } else {
        None
    }
}

fn text_array(texts: &Vec<String>) -> (r: Json)
    ensures
        r@ == JsonView::Array(texts_view(views(texts@))),
{
    let r = Json::texts(texts);
    assert(r@->Array_0 =~= texts_view(views(texts@)));
    r
}

fn build_planning(job: &PipelineJob) -> (r: Json)
    ensures
        r@ == planning_body(job@),
{
    Json::object()
        .with("job_id", Json::text(job.job_id.as_str()))
        .with("title", Json::text(job.request.title.as_str()))
        .with("idea", Json::text(job.request.idea.as_str()))
        .with("audience", Json::text(job.request.audience.as_str()))
        .with("target_duration_seconds", Json::number(job.request.target_duration_seconds))
        .with("tone", Json::text(job.request.tone.as_str()))
        .with("must_include", text_array(&job.request.must_include))
        .with("must_avoid", text_array(&job.request.must_avoid))
}

fn build_research(job: &PipelineJob, plan: Option<&Json>) -> (r: Json)
    ensures
        r@ == research_body(job@, view_of(plan)),
{
    let queries: Vec<Json> = match plan {
        Some(p) => match p.array_at("research_queries") {
            Some(items) => copy_items(items),
            None => Vec::new(),
        },
        None => {
            let overview = plus(job.request.title.clone(), " overview");
            let aimed = plus(
                plus(job.request.idea.clone(), " for "),
                job.request.audience.as_str(),
            );
            let mut list: Vec<Json> = Vec::new();
            list.push(Json::Text(overview));
            list.push(Json::Text(aimed));
            list
        },
    };
    assert(items_view(queries@) =~= research_queries(job@, view_of(plan)));
    Json::object().with("job_id", Json::text(job.job_id.as_str())).with(
        "queries",
        Json::array(queries),
    )
}

/// The meaning of an optional value.
pub open spec fn view_of(value: Option<&Json>) -> Option<JsonView> {
    match value {
        Some(v) => Some(v@),
        None => None,
    }
}

fn one(item: Json) -> (r: Json)
    ensures
        r@ == JsonView::Array(seq![item@]),
{
    let mut list: Vec<Json> = Vec::new();
    list.push(item);
    assert(items_view(list@) =~= seq![item@]);
    Json::array(list)
}

fn none_at_all() -> (r: Json)
    ensures
        r@ == JsonView::Array(Seq::empty()),
{
    let list: Vec<Json> = Vec::new();
    assert(items_view(list@) =~= Seq::empty());
    Json::array(list)
}

fn build_default_plan(job: &PipelineJob) -> (r: Json)
    ensures
        r@ == default_plan(job@),
{
    let segment = Json::object()
        .with("segment_number", Json::number(1))
        .with("title", Json::text(job.request.title.as_str()))
        .with("duration_seconds", Json::number(job.request.target_duration_seconds))
        .with("description", Json::text(job.request.idea.as_str()))
        .with("visual_style", Json::text("default"));
    Json::object()
        .with("job_id", Json::text(job.job_id.as_str()))
        .with("title", Json::text(job.request.title.as_str()))
        .with("synopsis", Json::text(job.request.idea.as_str()))
        .with("total_duration_seconds", Json::number(job.request.target_duration_seconds))
        .with("segments", one(segment))
        .with("research_queries", none_at_all())
        .with("narration_tone", Json::text(job.request.tone.as_str()))
}

fn build_script(job: &PipelineJob, plan: Option<&Json>, research: Option<&Json>) -> (r: Json)
    ensures
        r@ == script_body(job@, view_of(plan), view_of(research)),
{
    let plan_body = match plan {
        Some(p) => p.copy(),
        None => build_default_plan(job),
    };
    let packets = match research {
        Some(r) => match r.array_at("packets") {
            Some(items) => Json::array(copy_items(items)),
            None => one(r.copy()),
        },
        None => none_at_all(),
    };
    Json::object().with("plan", plan_body).with("research", packets)
}

fn build_script_or_default(job: &PipelineJob, script: Option<&Json>) -> (r: Json)
    ensures
        r@ == script_or_default(job@, view_of(script)),
{
    match script {
        Some(s) => s.copy(),
        None => {
            let segment = Json::object()
                .with("segment_number", Json::number(1))
                .with("title", Json::text(job.request.title.as_str()))
                .with("narration_text", Json::text(job.request.idea.as_str()))
                .with(
                    "estimated_duration_seconds",
                    Json::number(job.request.target_duration_seconds),
                )
                .with("visual_notes", Json::text("default"));
            Json::object()
                .with("job_id", Json::text(job.job_id.as_str()))
                .with("title", Json::text(job.request.title.as_str()))
                .with("total_duration_seconds", Json::number(job.request.target_duration_seconds))
                .with("segments", one(segment))
        },
    }
}

fn read_segment_number(item: &Json) -> (r: u32)
    ensures
        r == segment_number(item@),
{
    (item.u64_at("segment_number", 0) % 0x1_0000_0000) as u32
}

fn read_expected_text<'a>(segments: &'a Vec<Json>, number: u32) -> (r: &'a str)
    ensures
        r@ == expected_text(items_view(segments@), number),
{
    let mut i: usize = 0;
    let ghost all = items_view(segments@);
    assert(all.skip(0) =~= all);
    while i < segments.len()
        invariant
            i <= segments@.len(),
            all == items_view(segments@),
            expected_text(all, number) == expected_text(all.skip(i as int), number),
        decreases segments.len() - i,
    {
        assert(all.skip(i as int)[0] == segments@[i as int]@);
        if read_segment_number(&segments[i]) == number {
            proof {
                reveal_strlit("");
                assert(""@ =~= Seq::empty());
            }
            return segments[i].text_at("narration_text", "");
        }
        assert(all.skip(i as int).drop_first() =~= all.skip(i as int + 1));
        i += 1;
    }
    proof {
        reveal_strlit("");
        assert(""@ =~= Seq::empty());
    }
    ""
}

/// The items under a name in an optional output; `None` where there is no such
/// array.
fn array_of<'a>(output: Option<&'a Json>, name: &str) -> (r: Option<&'a Vec<Json>>)
    ensures
        match r {
            Some(items) => items_of(view_of(output), name@) == items_view(items@),
            None => items_of(view_of(output), name@) == Seq::<JsonView>::empty(),
        },
{
    match output {
        Some(o) => o.array_at(name),
        None => None,
    }
}

fn build_asr(job: &PipelineJob, tts: Option<&Json>, script: Option<&Json>) -> (r: Json)
    ensures
        r@ == asr_body(job@, view_of(tts), view_of(script)),
{
    let nothing: Vec<Json> = Vec::new();
    assert(items_view(nothing@) =~= Seq::empty());
    let script_segments: &Vec<Json> = match array_of(script, "segments") {
        Some(items) => items,
        None => &nothing,
    };
    let files: &Vec<Json> = match array_of(tts, "segment_files") {
        Some(items) => items,
        None => &nothing,
    };
    let ghost spoken = |file: JsonView| asr_segment(file, items_view(script_segments@));
    let mut out: Vec<Json> = Vec::new();
    let mut i: usize = 0;
    while i < files.len()
        invariant
            i <= files@.len(),
            out@.len() == i,
            forall|j: int|
                0 <= j < i ==> (#[trigger] out@[j])@ == asr_segment(
                    files@[j]@,
                    items_view(script_segments@),
                ),
        decreases files.len() - i,
    {
        let number = read_segment_number(&files[i]);
        proof {
            reveal_strlit("");
            assert(""@ =~= Seq::empty());
        }
        let segment = Json::object()
            .with("segment_number", Json::number(number))
            .with("audio_path", Json::text(files[i].text_at("file_path", "")))
            .with("expected_text", Json::text(read_expected_text(script_segments, number)));
        out.push(segment);
        i += 1;
    }
    assert(items_view(out@) =~= items_of(view_of(tts), "segment_files"@).map_values(
        |file: JsonView| asr_segment(file, items_of(view_of(script), "segments"@)),
    ));
    Json::object().with("job_id", Json::text(job.job_id.as_str())).with(
        "segments",
        Json::array(out),
    )
}

fn build_render(job: &PipelineJob, tts: Option<&Json>) -> (r: Json)
    ensures
        r@ == render_body(job@, view_of(tts)),
{
    let nothing: Vec<Json> = Vec::new();
    assert(items_view(nothing@) =~= Seq::empty());
    let files: &Vec<Json> = match array_of(tts, "segment_files") {
        Some(items) => items,
        None => &nothing,
    };
    let ghost all = items_view(files@);
    let mut out: Vec<Json> = Vec::new();
    let mut i: usize = 0;
    assert(items_view(out@) =~= Seq::empty());
    while i < files.len()
        invariant
            i <= files@.len(),
            all == items_view(files@),
            items_view(out@) == audio_paths(all.take(i as int)),
        decreases files.len() - i,
    {
        assert(all.take(i as int + 1).drop_last() =~= all.take(i as int));
        let ghost before = out@;
        if let Some(entry) = files[i].get("file_path") {
            if let Some(path) = entry.as_text() {
                out.push(Json::text(path));
                assert(items_view(out@) =~= items_view(before).push(JsonView::Text(path@)));
            }
        }
        i += 1;
    }
    assert(all.take(files@.len() as int) =~= all);
    Json::object().with("job_id", Json::text(job.job_id.as_str())).with(
        "audio_files",
        Json::array(out),
    )
}

fn build_qa(job: &PipelineJob, render: Option<&Json>) -> (r: Json)
    ensures
        r@ == qa_body(job@, view_of(render)),
{
    let usual = plus(plus("./data/renders/".to_string(), job.job_id.as_str()), ".mp4");
    let path = match render {
        Some(r) => r.text_at("output_path", usual.as_str()),
        None => usual.as_str(),
    };
    Json::object()
        .with("job_id", Json::text(job.job_id.as_str()))
        .with("output_path", Json::text(path))
        .with("expected_duration_seconds", Json::number(job.request.target_duration_seconds))
}

/// Builds the body for a stage's service call.
///
/// `prior` holds what earlier stages of the job have left, by stage name. A
/// stage without a service is refused.
pub fn build_stage_request(
    stage: &str,
    job: &PipelineJob,
    prior: &Vec<(String, Json)>,
) -> (r: Result<Json, String>)
    ensures
        match r {
            Ok(body) => stage_body(stage@, job@, members_view(prior@)) == Some(body@),
            Err(reason) => stage_body(stage@, job@, members_view(prior@)) is None && reason@
                == "unsupported stage: "@ + stage@,
        },
{
    let plan = member(prior, "Planning");
    let research = member(prior, "Research");
    let script = member(prior, "Script");
    let tts = member(prior, "Tts");
    let render = member(prior, "RenderFinal");
    if same_text(stage, "Planning") {
        Ok(build_planning(job))
    } else if same_text(stage, "Research") {
        Ok(build_research(job, plan))
    } else if same_text(stage, "Script") {
        Ok(build_script(job, plan, research))
    } else if same_text(stage, "Tts") {
        Ok(build_script_or_default(job, script))
    } else if same_text(stage, "AsrValidation") {
        Ok(build_asr(job, tts, script))
    } else if same_text(stage, "Captions") {
        Ok(build_script_or_default(job, script))
    } else if same_text(stage, "RenderFinal") {
        Ok(build_render(job, tts))
    } else if same_text(stage, "QaFinal") {
        Ok(build_qa(job, render))
    } else {
        Err(plus("unsupported stage: ".to_string(), stage))
    }
}

/// What earlier stages have answered is used where it is there, and the request
/// stands in for it where it is not.
pub proof fn law_prior_outputs_are_used(job: JobView, prior: Map<Seq<char>, JsonView>)
    ensures
        stage_body("Tts"@, job, prior) == Some(
            match prior_output(prior, "Script"@) {
                Some(script) => script,
                None => default_script(job),
            },
        ),
        stage_body("Captions"@, job, prior) == stage_body("Tts"@, job, prior),
        stage_body("Script"@, job, prior) == Some(
            script_body(
                job,
                prior_output(prior, "Planning"@),
                prior_output(prior, "Research"@),
            ),
        ),
        stage_body("QaFinal"@, job, prior) == Some(
            qa_body(job, prior_output(prior, "RenderFinal"@)),
        ),
{
    assert(Stage::Tts.name() == "Tts"@ && Stage::Captions.name() == "Captions"@
        && Stage::Script.name() == "Script"@ && Stage::QaFinal.name() == "QaFinal"@);
    lemma_distinct_from_all(Stage::Tts);
    lemma_distinct_from_all(Stage::Captions);
    lemma_distinct_from_all(Stage::Script);
    lemma_distinct_from_all(Stage::QaFinal);
}

proof fn lemma_distinct_from_all(stage: Stage)
    ensures
        stage != Stage::Planning ==> stage.name() != "Planning"@,
        stage != Stage::Research ==> stage.name() != "Research"@,
        stage != Stage::Script ==> stage.name() != "Script"@,
        stage != Stage::Tts ==> stage.name() != "Tts"@,
        stage != Stage::AsrValidation ==> stage.name() != "AsrValidation"@,
        stage != Stage::Captions ==> stage.name() != "Captions"@,
        stage != Stage::RenderFinal ==> stage.name() != "RenderFinal"@,
{
    law_stage_names_are_distinct(stage, Stage::Planning);
    law_stage_names_are_distinct(stage, Stage::Research);
    law_stage_names_are_distinct(stage, Stage::Script);
    law_stage_names_are_distinct(stage, Stage::Tts);
    law_stage_names_are_distinct(stage, Stage::AsrValidation);
    law_stage_names_are_distinct(stage, Stage::Captions);
    law_stage_names_are_distinct(stage, Stage::RenderFinal);
}

/// What the render stage is asked to join is the audio of the speech stage, in
/// the order of the segment files: where each of them has a path, the i-th path
/// that is listed is that of the i-th file.
pub proof fn law_audio_is_joined_in_order(
    job: JobView,
    prior: Map<Seq<char>, JsonView>,
    tts: Map<Seq<char>, JsonView>,
    files: Seq<JsonView>,
)
    requires
        prior.contains_key("Tts"@),
        prior["Tts"@] == JsonView::Object(tts),
        tts.contains_key("segment_files"@),
        tts["segment_files"@] == JsonView::Array(files),
    ensures
        ({
            let body = stage_body("RenderFinal"@, job, prior)->0;
            let audio = body->Object_0["audio_files"@]->Array_0;
            &&& stage_body("RenderFinal"@, job, prior) is Some
            &&& body is Object
            &&& body->Object_0.contains_key("audio_files"@)
            &&& body->Object_0["audio_files"@] is Array
            &&& body->Object_0.contains_key("job_id"@)
            &&& body->Object_0["job_id"@] == JsonView::Text(job.job_id)
            &&& (forall|i: int| 0 <= i < files.len() ==> has_path(#[trigger] files[i])) ==> {
                &&& audio.len() == files.len()
                &&& forall|i: int|
                    0 <= i < files.len() ==> (#[trigger] audio[i])
                        == files[i]->Object_0["file_path"@]
            }
        }),
        exists|places: Seq<int>| #[trigger]
            picks_paths(
                places,
                files,
                stage_body("RenderFinal"@, job, prior)->0->Object_0["audio_files"@]->Array_0,
            ),
{
    lemma_distinct_from_all(Stage::RenderFinal);
    assert(Stage::RenderFinal.name() == "RenderFinal"@);
    reveal_strlit("job_id");
    reveal_strlit("audio_files");
    assert("job_id"@.len() != "audio_files"@.len());
    assert(items_of(prior_output(prior, "Tts"@), "segment_files"@) == files);
    let body = stage_body("RenderFinal"@, job, prior)->0;
    assert(body == render_body(job, prior_output(prior, "Tts"@)));
    assert(body->Object_0["audio_files"@] == JsonView::Array(audio_paths(files)));
    lemma_paths_are_picked(files);
    let places = choose|places: Seq<int>| #[trigger] picks_paths(places, files, audio_paths(files));
    assert(picks_paths(places, files, body->Object_0["audio_files"@]->Array_0));
    if forall|i: int| 0 <= i < files.len() ==> has_path(#[trigger] files[i]) {
        lemma_all_paths(files);
    }
}

/// Whether an item has a path.
pub open spec fn has_path(file: JsonView) -> bool {
    file is Object && file->Object_0.contains_key("file_path"@) && file->Object_0["file_path"@] is Text
}

/// Whether those are the places of the items that have a path, in order and all
/// of them, and the audio is their paths.
pub open spec fn picks_paths(places: Seq<int>, files: Seq<JsonView>, audio: Seq<JsonView>) -> bool {
    &&& places.len() == audio.len()
    &&& forall|k: int|
        0 <= k < places.len() ==> 0 <= #[trigger] places[k] < files.len() && has_path(
            files[places[k]],
        ) && audio[k] == files[places[k]]->Object_0["file_path"@]
    &&& forall|k: int, l: int|
        0 <= k < l < places.len() ==> #[trigger] places[k] < #[trigger] places[l]
    &&& forall|i: int|
        0 <= i < files.len() && has_path(#[trigger] files[i]) ==> places.contains(i)
}

proof fn lemma_all_paths(files: Seq<JsonView>)
    requires
        forall|i: int| 0 <= i < files.len() ==> has_path(#[trigger] files[i]),
    ensures
        audio_paths(files).len() == files.len(),
        forall|i: int|
            0 <= i < files.len() ==> (#[trigger] audio_paths(files)[i])
                == files[i]->Object_0["file_path"@],
    decreases files.len(),
{
    if files.len() > 0 {
        let rest = files.drop_last();
        assert forall|i: int| 0 <= i < rest.len() implies has_path(#[trigger] rest[i]) by {
            assert(rest[i] == files[i]);
        }
        lemma_all_paths(rest);
        assert(has_path(files[files.len() - 1]));
    }
}

proof fn lemma_paths_are_picked(files: Seq<JsonView>)
    ensures
        exists|places: Seq<int>| #[trigger] picks_paths(places, files, audio_paths(files)),
    decreases files.len(),
{
    if files.len() == 0 {
        assert(picks_paths(Seq::<int>::empty(), files, audio_paths(files)));
    } else {
        let rest = files.drop_last();
        let n = rest.len() as int;
        lemma_paths_are_picked(rest);
        let old = choose|places: Seq<int>| #[trigger]
            picks_paths(places, rest, audio_paths(rest));
        assert(files[n] == files.last());
        let new = if has_path(files.last()) {
            old.push(n)
        } else {
            old
        };
        assert forall|i: int| 0 <= i < files.len() && has_path(
            #[trigger] files[i],
        ) implies new.contains(i) by {
            if i < n {
                assert(rest[i] == files[i]);
                let k = choose|k: int| 0 <= k < old.len() && old[k] == i;
                assert(new[k] == i);
            } else {
                assert(new[old.len() as int] == n);
            }
        }
        assert forall|k: int| 0 <= k < new.len() implies 0 <= #[trigger] new[k] < files.len()
            && has_path(files[new[k]]) && audio_paths(files)[k]
            == files[new[k]]->Object_0["file_path"@] by {
            if k < old.len() {
                assert(old[k] == new[k]);
                assert(rest[old[k]] == files[old[k]]);
                assert(audio_paths(files)[k] == audio_paths(rest)[k]);
            }
        }
        assert forall|k: int, l: int| 0 <= k < l < new.len() implies #[trigger] new[k]
            < #[trigger] new[l] by {
            assert(old[k] == new[k]);
            if l < old.len() {
                assert(old[l] == new[l]);
            }
        }
        assert(picks_paths(new, files, audio_paths(files)));
    }
}

/// The speech validation is asked about every audio file, in order, and expects
/// of each what the first script segment with its number says.
pub proof fn law_audio_is_checked_against_its_own_segment(
    job: JobView,
    prior: Map<Seq<char>, JsonView>,
    tts: Map<Seq<char>, JsonView>,
    files: Seq<JsonView>,
    script: Map<Seq<char>, JsonView>,
    segments: Seq<JsonView>,
    i: int,
    k: int,
    number: u64,
    path: Seq<char>,
    narration: Seq<char>,
)
    requires
        prior.contains_key("Tts"@),
        prior["Tts"@] == JsonView::Object(tts),
        tts.contains_key("segment_files"@),
        tts["segment_files"@] == JsonView::Array(files),
        prior.contains_key("Script"@),
        prior["Script"@] == JsonView::Object(script),
        script.contains_key("segments"@),
        script["segments"@] == JsonView::Array(segments),
        0 <= i < files.len(),
        0 <= k < segments.len(),
        number <= u32::MAX,
        numbered(files[i], number),
        files[i]->Object_0.contains_key("file_path"@),
        files[i]->Object_0["file_path"@] == JsonView::Text(path),
        numbered(segments[k], number),
        segments[k]->Object_0.contains_key("narration_text"@),
        segments[k]->Object_0["narration_text"@] == JsonView::Text(narration),
        forall|j: int| 0 <= j < k ==> #[trigger] numbered_otherwise(segments[j], number),
    ensures
        ({
            let body = stage_body("AsrValidation"@, job, prior)->0;
            let asked = body->Object_0["segments"@]->Array_0;
            &&& stage_body("AsrValidation"@, job, prior) is Some
            &&& body->Object_0["job_id"@] == JsonView::Text(job.job_id)
            &&& asked.len() == files.len()
            &&& asked[i]->Object_0["segment_number"@] == JsonView::Unsigned(number)
            &&& asked[i]->Object_0["audio_path"@] == JsonView::Text(path)
            &&& asked[i]->Object_0["expected_text"@] == JsonView::Text(narration)
        }),
{
    lemma_distinct_from_all(Stage::AsrValidation);
    assert(Stage::AsrValidation.name() == "AsrValidation"@);
    reveal_strlit("job_id");
    reveal_strlit("segments");
    reveal_strlit("segment_number");
    reveal_strlit("audio_path");
    reveal_strlit("expected_text");
    assert("job_id"@.len() == 6 && "segments"@.len() == 8 && "segment_number"@.len() == 14
        && "audio_path"@.len() == 10 && "expected_text"@.len() == 13);
    lemma_first_with_number(segments, k, number as u32);
}

/// Whether an item has that segment number.
pub open spec fn numbered(item: JsonView, number: u64) -> bool {
    item is Object && item->Object_0.contains_key("segment_number"@)
        && item->Object_0["segment_number"@] == JsonView::Unsigned(number)
}

/// Whether an item has another segment number than that.
pub open spec fn numbered_otherwise(item: JsonView, number: u64) -> bool {
    &&& item is Object
    &&& item->Object_0.contains_key("segment_number"@)
    &&& item->Object_0["segment_number"@] is Unsigned
    &&& item->Object_0["segment_number"@]->Unsigned_0 <= u32::MAX
    &&& item->Object_0["segment_number"@]->Unsigned_0 != number
}

proof fn lemma_first_with_number(segments: Seq<JsonView>, k: int, number: u32)
    requires
        0 <= k < segments.len(),
        numbered(segments[k], number as u64),
        forall|j: int| 0 <= j < k ==> #[trigger] numbered_otherwise(segments[j], number as u64),
    ensures
        expected_text(segments, number) == segments[k].at("narration_text"@).text_or(Seq::empty()),
    decreases k,
{
    if k > 0 {
        assert(numbered_otherwise(segments[0], number as u64));
        assert(segment_number(segments[0]) != number);
        let rest = segments.drop_first();
        assert forall|j: int| 0 <= j < k - 1 implies #[trigger] numbered_otherwise(
            rest[j],
            number as u64,
        ) by {
            assert(rest[j] == segments[j + 1]);
            assert(numbered_otherwise(segments[j + 1], number as u64));
        }
        assert(rest[k - 1] == segments[k]);
        lemma_first_with_number(rest, k - 1, number);
    }
}

/// The planner is sent the whole request, each part under its own name.
pub proof fn law_the_planner_gets_the_whole_request(
    job: JobView,
    prior: Map<Seq<char>, JsonView>,
    i: int,
)
    ensures
        ({
            let m = stage_body("Planning"@, job, prior)->0->Object_0;
            let wanted = m["must_include"@]->Array_0;
            let unwanted = m["must_avoid"@]->Array_0;
            &&& stage_body("Planning"@, job, prior) is Some
            &&& m["job_id"@] == JsonView::Text(job.job_id)
            &&& m["title"@] == JsonView::Text(job.request.title)
            &&& m["idea"@] == JsonView::Text(job.request.idea)
            &&& m["audience"@] == JsonView::Text(job.request.audience)
            &&& m["target_duration_seconds"@] == JsonView::Unsigned(
                job.request.target_duration_seconds as u64,
            )
            &&& m["tone"@] == JsonView::Text(job.request.tone)
            &&& wanted.len() == job.request.must_include.len()
            &&& 0 <= i < wanted.len() ==> wanted[i] == JsonView::Text(job.request.must_include[i])
            &&& unwanted.len() == job.request.must_avoid.len()
            &&& 0 <= i < unwanted.len() ==> unwanted[i] == JsonView::Text(job.request.must_avoid[i])
        }),
{
    reveal_strlit("job_id");
    reveal_strlit("title");
    reveal_strlit("idea");
    reveal_strlit("audience");
    reveal_strlit("target_duration_seconds");
    reveal_strlit("tone");
    reveal_strlit("must_include");
    reveal_strlit("must_avoid");
    assert("job_id"@.len() == 6 && "title"@.len() == 5 && "idea"@.len() == 4 && "audience"@.len()
        == 8 && "target_duration_seconds"@.len() == 23 && "tone"@.len() == 4 && "must_include"@.len()
        == 12 && "must_avoid"@.len() == 10);
    assert("idea"@[0] != "tone"@[0]);
}

/// The queries of a plan are researched as they stand, and without a plan the
/// title and the idea are.
pub proof fn law_the_queries_of_the_plan_are_researched(
    job: JobView,
    prior: Map<Seq<char>, JsonView>,
    plan: Map<Seq<char>, JsonView>,
    queries: Seq<JsonView>,
)
    ensures
        ({
            let m = stage_body("Research"@, job, prior)->0->Object_0;
            &&& stage_body("Research"@, job, prior) is Some
            &&& m["job_id"@] == JsonView::Text(job.job_id)
            &&& prior.contains_key("Planning"@) && prior["Planning"@] == JsonView::Object(plan)
                && plan.contains_key("research_queries"@) && plan["research_queries"@]
                == JsonView::Array(queries) ==> m["queries"@] == JsonView::Array(queries)
            &&& !prior.contains_key("Planning"@) ==> m["queries"@] == JsonView::Array(
                seq![
                    JsonView::Text(job.request.title + " overview"@),
                    JsonView::Text(job.request.idea + " for "@ + job.request.audience),
                ],
            )
        }),
{
    lemma_distinct_from_all(Stage::Research);
    assert(Stage::Research.name() == "Research"@);
    reveal_strlit("job_id");
    reveal_strlit("queries");
    assert("job_id"@.len() == 6 && "queries"@.len() == 7);
}

/// The script service is sent the plan as it was answered, and the packets of
/// the research: those that are listed, or the one that the answer is.
pub proof fn law_the_script_is_written_from_plan_and_research(
    job: JobView,
    prior: Map<Seq<char>, JsonView>,
    packets: Seq<JsonView>,
)
    ensures
        ({
            let m = stage_body("Script"@, job, prior)->0->Object_0;
            let research = prior["Research"@];
            let lists = research is Object && research->Object_0.contains_key("packets"@);
            &&& stage_body("Script"@, job, prior) is Some
            &&& prior.contains_key("Planning"@) ==> m["plan"@] == prior["Planning"@]
            &&& !prior.contains_key("Research"@) ==> m["research"@] == JsonView::Array(Seq::empty())
            &&& prior.contains_key("Research"@) && lists && research->Object_0["packets"@]
                == JsonView::Array(packets) ==> m["research"@] == JsonView::Array(packets)
            &&& prior.contains_key("Research"@) && !lists ==> m["research"@] == JsonView::Array(
                seq![research],
            )
        }),
{
    lemma_distinct_from_all(Stage::Script);
    assert(Stage::Script.name() == "Script"@);
    reveal_strlit("plan");
    reveal_strlit("research");
    assert("plan"@.len() == 4 && "research"@.len() == 8);
}

/// Without a plan the script is written from the request, and without a script
/// its idea is spoken and captioned: each time as one segment that lasts as long
/// as the whole.
pub proof fn law_the_request_stands_in_for_plan_and_script(
    job: JobView,
    prior: Map<Seq<char>, JsonView>,
)
    requires
        !prior.contains_key("Planning"@),
        !prior.contains_key("Script"@),
    ensures
        ({
            let plan = stage_body("Script"@, job, prior)->0->Object_0["plan"@]->Object_0;
            let planned = plan["segments"@]->Array_0;
            let script = stage_body("Tts"@, job, prior)->0->Object_0;
            let spoken = script["segments"@]->Array_0;
            let seconds = JsonView::Unsigned(job.request.target_duration_seconds as u64);
            &&& plan["job_id"@] == JsonView::Text(job.job_id)
            &&& plan["title"@] == JsonView::Text(job.request.title)
            &&& plan["synopsis"@] == JsonView::Text(job.request.idea)
            &&& plan["total_duration_seconds"@] == seconds
            &&& plan["narration_tone"@] == JsonView::Text(job.request.tone)
            &&& plan["research_queries"@] == JsonView::Array(Seq::empty())
            &&& planned.len() == 1
            &&& planned[0]->Object_0["segment_number"@] == JsonView::Unsigned(1)
            &&& planned[0]->Object_0["title"@] == JsonView::Text(job.request.title)
            &&& planned[0]->Object_0["duration_seconds"@] == seconds
            &&& planned[0]->Object_0["description"@] == JsonView::Text(job.request.idea)
            &&& planned[0]->Object_0["visual_style"@] == JsonView::Text("default"@)
            &&& script["job_id"@] == JsonView::Text(job.job_id)
            &&& script["title"@] == JsonView::Text(job.request.title)
            &&& script["total_duration_seconds"@] == seconds
            &&& spoken.len() == 1
            &&& spoken[0]->Object_0["segment_number"@] == JsonView::Unsigned(1)
            &&& spoken[0]->Object_0["title"@] == JsonView::Text(job.request.title)
            &&& spoken[0]->Object_0["narration_text"@] == JsonView::Text(job.request.idea)
            &&& spoken[0]->Object_0["estimated_duration_seconds"@] == seconds
            &&& spoken[0]->Object_0["visual_notes"@] == JsonView::Text("default"@)
            &&& stage_body("Captions"@, job, prior) == stage_body("Tts"@, job, prior)
        }),
{
    law_prior_outputs_are_used(job, prior);
    reveal_strlit("plan");
    reveal_strlit("research");
    reveal_strlit("job_id");
    reveal_strlit("title");
    reveal_strlit("synopsis");
    reveal_strlit("total_duration_seconds");
    reveal_strlit("segments");
    reveal_strlit("research_queries");
    reveal_strlit("narration_tone");
    reveal_strlit("segment_number");
    reveal_strlit("duration_seconds");
    reveal_strlit("description");
    reveal_strlit("visual_style");
    reveal_strlit("narration_text");
    reveal_strlit("estimated_duration_seconds");
    reveal_strlit("visual_notes");
    assert("plan"@.len() == 4 && "research"@.len() == 8);
    assert("job_id"@.len() == 6 && "title"@.len() == 5 && "synopsis"@.len() == 8
        && "total_duration_seconds"@.len() == 22 && "segments"@.len() == 8
        && "research_queries"@.len() == 16 && "narration_tone"@.len() == 14);
    assert("synopsis"@[1] != "segments"@[1]);
    assert("segment_number"@.len() == 14 && "duration_seconds"@.len() == 16 && "description"@.len()
        == 11 && "visual_style"@.len() == 12 && "narration_text"@.len() == 14
        && "estimated_duration_seconds"@.len() == 26 && "visual_notes"@.len() == 12);
    assert("segment_number"@[0] != "narration_text"@[0]);
}

/// QA checks the file that the render stage says it has written, and without a
/// word of it the one in the usual place, for the duration that was asked for.
pub proof fn law_the_rendered_file_is_checked(
    job: JobView,
    prior: Map<Seq<char>, JsonView>,
    render: Map<Seq<char>, JsonView>,
    path: Seq<char>,
)
    ensures
        ({
            let m = stage_body("QaFinal"@, job, prior)->0->Object_0;
            &&& stage_body("QaFinal"@, job, prior) is Some
            &&& m["job_id"@] == JsonView::Text(job.job_id)
            &&& m["expected_duration_seconds"@] == JsonView::Unsigned(
                job.request.target_duration_seconds as u64,
            )
            &&& prior.contains_key("RenderFinal"@) && prior["RenderFinal"@] == JsonView::Object(
                render,
            ) && render.contains_key("output_path"@) && render["output_path"@] == JsonView::Text(
                path,
            ) ==> m["output_path"@] == JsonView::Text(path)
            &&& !prior.contains_key("RenderFinal"@) ==> m["output_path"@] == JsonView::Text(
                "./data/renders/"@ + job.job_id + ".mp4"@,
            )
        }),
{
    lemma_distinct_from_all(Stage::QaFinal);
    assert(Stage::QaFinal.name() == "QaFinal"@);
    reveal_strlit("job_id");
    reveal_strlit("output_path");
    reveal_strlit("expected_duration_seconds");
    assert("job_id"@.len() == 6 && "output_path"@.len() == 11 && "expected_duration_seconds"@.len()
        == 25);
}

/// There is a request for the stages of the minimal pipeline and for no other.
pub proof fn law_other_stages_have_no_request(
    stage: Seq<char>,
    job: JobView,
    prior: Map<Seq<char>, JsonView>,
)
    ensures
        stage_body(stage, job, prior) is None <==> stage != "Planning"@ && stage != "Research"@
            && stage != "Script"@ && stage != "Tts"@ && stage != "AsrValidation"@ && stage
            != "Captions"@ && stage != "RenderFinal"@ && stage != "QaFinal"@,
{
}

/// What counts of an optional value is its meaning.
pub proof fn law_optional_outputs(v: &Json)
    ensures
        view_of(Some(v)) == Some(v@),
        view_of(None) is None,
{
}

/// What lists no audio asks for none to be joined and none to be checked.
pub proof fn law_without_audio_nothing_is_asked(job: JobView, prior: Map<Seq<char>, JsonView>)
    requires
        !prior.contains_key("Tts"@),
    ensures
        stage_body("RenderFinal"@, job, prior)->0->Object_0["audio_files"@]->Array_0.len() == 0,
        stage_body("AsrValidation"@, job, prior)->0->Object_0["segments"@]->Array_0.len() == 0,
{
    lemma_distinct_from_all(Stage::RenderFinal);
    lemma_distinct_from_all(Stage::AsrValidation);
    assert(Stage::RenderFinal.name() == "RenderFinal"@);
    assert(Stage::AsrValidation.name() == "AsrValidation"@);
    reveal_strlit("job_id");
    reveal_strlit("audio_files");
    reveal_strlit("segments");
    assert("job_id"@.len() == 6 && "audio_files"@.len() == 11 && "segments"@.len() == 8);
    assert(render_body(job, None)->Object_0["audio_files"@] == JsonView::Array(
        audio_paths(items_of(None, "segment_files"@)),
    ));
    assert(asr_body(job, None, prior_output(prior, "Script"@))->Object_0["segments"@]->Array_0
        =~= Seq::empty());
}

/// An audio file that says nothing is checked as segment 0 without a path, and
/// where no script segment has its number nothing is expected of it.
pub proof fn law_audio_that_says_nothing(
    job: JobView,
    prior: Map<Seq<char>, JsonView>,
    tts: Map<Seq<char>, JsonView>,
    files: Seq<JsonView>,
    i: int,
)
    requires
        prior.contains_key("Tts"@),
        prior["Tts"@] == JsonView::Object(tts),
        tts.contains_key("segment_files"@),
        tts["segment_files"@] == JsonView::Array(files),
        !prior.contains_key("Script"@),
        0 <= i < files.len(),
        files[i] == JsonView::Object(Map::empty()),
    ensures
        ({
            let body = stage_body("AsrValidation"@, job, prior)->0;
            let asked = body->Object_0["segments"@]->Array_0;
            &&& asked.len() == files.len()
            &&& asked[i]->Object_0["segment_number"@] == JsonView::Unsigned(0)
            &&& asked[i]->Object_0["audio_path"@] == JsonView::Text(Seq::empty())
            &&& asked[i]->Object_0["expected_text"@] == JsonView::Text(Seq::empty())
        }),
{
    lemma_distinct_from_all(Stage::AsrValidation);
    assert(Stage::AsrValidation.name() == "AsrValidation"@);
    reveal_strlit("job_id");
    reveal_strlit("segments");
    reveal_strlit("segment_number");
    reveal_strlit("audio_path");
    reveal_strlit("expected_text");
    assert("job_id"@.len() == 6 && "segments"@.len() == 8 && "segment_number"@.len() == 14
        && "audio_path"@.len() == 10 && "expected_text"@.len() == 13);
    let body = asr_body(job, prior_output(prior, "Tts"@), prior_output(prior, "Script"@));
    assert(items_of(prior_output(prior, "Tts"@), "segment_files"@) == files);
    assert(body->Object_0["segments"@]->Array_0[i] == asr_segment(files[i], Seq::empty()));
}

} // verus!
