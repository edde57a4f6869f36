//! Mock implementations of all 8 pipeline stage services.
//!
//! Each one produces realistic output that chains correctly to downstream
//! stages. No language model and no speech engine is required.

use crate::captions::{
    append_cue, cues, lemma_spoken_time_grows, spoken_time, srt_file, srt_time, srt_timecode, Spoken,
};
use crate::json::{holds, items_view, Json, JsonView};
use crate::text::{
    decimal, decimal_text, join, joined, law_numbers_are_read_back, plus, strings, views,
    zero_padded, zero_padded_text,
};
use vstd::prelude::*;
use vstd::string::*;

verus! {

// ---------------------------------------------------------------------------
// Planning
// ---------------------------------------------------------------------------

/// How long the video of a plan is to be.
pub open spec fn planned_duration(body: JsonView) -> u64 {
    body.at("target_duration_seconds"@).u64_or(30)
}

/// How long the introduction is: two fifths, but at least five seconds.
pub open spec fn intro_duration(duration: u64) -> u64 {
    if duration * 2 / 5 > 5 {
        (duration * 2 / 5) as u64
    } else {
        5
    }
}

pub open spec fn planned_segment(
    number: u64,
    title: Seq<char>,
    duration: u64,
    description: Seq<char>,
    visual_style: Seq<char>,
) -> JsonView {
    JsonView::Object(
        map![
            "segment_number"@ => JsonView::Unsigned(number),
            "title"@ => JsonView::Text(title),
            "duration_seconds"@ => JsonView::Unsigned(duration),
            "description"@ => JsonView::Text(description),
            "visual_style"@ => JsonView::Text(visual_style),
        ],
    )
}

fn segment_json(
    number: u64,
    title: &str,
    duration: u64,
    description: String,
    visual_style: &str,
) -> (r: Json)
    ensures
        r@ == planned_segment(number, title@, duration, description@, visual_style@),
{
    Json::object().with("segment_number", Json::Unsigned(number)).with(
        "title",
        Json::text(title),
    ).with("duration_seconds", Json::Unsigned(duration)).with(
        "description",
        Json::Text(description),
    ).with("visual_style", Json::text(visual_style))
}

/// An introduction and the main content.
pub open spec fn mock_segments(idea: Seq<char>, duration: u64) -> Seq<JsonView> {
    seq![
        planned_segment(
            1,
            "Introduction"@,
            intro_duration(duration),
            "Introduce the topic: "@ + idea,
            "title-card"@,
        ),
        planned_segment(
            2,
            "Main Content"@,
            (duration - intro_duration(duration)) as u64,
            "Explore the core ideas of: "@ + idea,
            "talking-head"@,
        ),
    ]
}

pub open spec fn mock_queries(title: Seq<char>, idea: Seq<char>) -> Seq<JsonView> {
    seq![JsonView::Text(title + " overview"@), JsonView::Text(idea + " key facts"@)]
}

/// A plan of two segments: an introduction and the main content.
pub open spec fn mock_plan(body: JsonView) -> JsonView {
    let job_id = body.at("job_id"@).text_or("demo"@);
    let title = body.at("title"@).text_or("Demo Video"@);
    let idea = body.at("idea"@).text_or("A demo idea"@);
    let tone = body.at("tone"@).text_or("informative"@);
    let duration = planned_duration(body);
    JsonView::Object(
        map![
            "job_id"@ => JsonView::Text(job_id),
            "title"@ => JsonView::Text(title),
            "synopsis"@ => JsonView::Text("A short video about: "@ + idea),
            "total_duration_seconds"@ => JsonView::Unsigned(duration),
            "segments"@ => JsonView::Array(mock_segments(idea, duration)),
            "research_queries"@ => JsonView::Array(mock_queries(title, idea)),
            "narration_tone"@ => JsonView::Text(tone),
        ],
    )
}

/// Make a plan of two segments: an introduction and the main content. A video
/// is at least as long as the shortest introduction.
pub fn plan(body: &Json) -> (r: Json)
    requires
        5 <= planned_duration(body@) <= u64::MAX / 2,
    ensures
        r@ == mock_plan(body@),
{
    let job_id = body.text_at("job_id", "demo");
    let title = body.text_at("title", "Demo Video");
    let idea = body.text_at("idea", "A demo idea");
    let tone = body.text_at("tone", "informative");
    let duration: u64 = body.u64_at("target_duration_seconds", 30);
    let share: u64 = duration * 2 / 5;
    let intro: u64 = if share > 5 {
        share
    } else {
        5
    };
    let mut segments: Vec<Json> = Vec::new();
    segments.push(
        segment_json(
            1,
            "Introduction",
            intro,
            plus("Introduce the topic: ".to_string(), idea),
            "title-card",
        ),
    );
    segments.push(
        segment_json(
            2,
            "Main Content",
            duration - intro,
            plus("Explore the core ideas of: ".to_string(), idea),
            "talking-head",
        ),
    );
    let mut queries: Vec<Json> = Vec::new();
    queries.push(Json::Text(plus(title.to_string(), " overview")));
    queries.push(Json::Text(plus(idea.to_string(), " key facts")));
    assert(items_view(segments@) =~= mock_segments(idea@, duration));
    assert(items_view(queries@) =~= mock_queries(title@, idea@));
    Json::object().with("job_id", Json::text(job_id)).with("title", Json::text(title)).with(
        "synopsis",
        Json::Text(plus("A short video about: ".to_string(), idea)),
    ).with("total_duration_seconds", Json::Unsigned(duration)).with(
        "segments",
        Json::array(segments),
    ).with("research_queries", Json::array(queries)).with("narration_tone", Json::text(tone))
}

// ---------------------------------------------------------------------------
// Research
// ---------------------------------------------------------------------------

pub open spec fn mock_fact(claim: Seq<char>, confidence: Seq<char>) -> JsonView {
    JsonView::Object(
        map![
            "claim"@ => JsonView::Text(claim),
            "source"@ => JsonView::Text("demo-knowledge-base"@),
            "confidence"@ => JsonView::Fraction(confidence),
        ],
    )
}

fn fact_json(claim: String, confidence: &str) -> (r: Json)
    ensures
        r@ == mock_fact(claim@, confidence@),
{
    Json::object().with("claim", Json::Text(claim)).with(
        "source",
        Json::text("demo-knowledge-base"),
    ).with("confidence", Json::Fraction(confidence.to_string()))
}

/// What is known of a query.
pub open spec fn mock_packet(job_id: Seq<char>, query: Seq<char>) -> JsonView {
    JsonView::Object(
        map![
            "job_id"@ => JsonView::Text(job_id),
            "query"@ => JsonView::Text(query),
            "facts"@ => JsonView::Array(mock_facts(query)),
            "summary"@ => JsonView::Text("Research summary for: "@ + query),
        ],
    )
}

pub open spec fn mock_facts(query: Seq<char>) -> Seq<JsonView> {
    seq![
        mock_fact(query + " is an important topic in modern technology."@, "0.92"@),
        mock_fact(
            "Understanding "@ + query + " helps developers build better systems."@,
            "0.88"@,
        ),
    ]
}

fn packet_json(job_id: &str, query: &str) -> (r: Json)
    ensures
        r@ == mock_packet(job_id@, query@),
{
    let mut facts: Vec<Json> = Vec::new();
    facts.push(
        fact_json(
            plus(query.to_string(), " is an important topic in modern technology."),
            "0.92",
        ),
    );
    facts.push(
        fact_json(
            plus(
                plus("Understanding ".to_string(), query),
                " helps developers build better systems.",
            ),
            "0.88",
        ),
    );
    assert(items_view(facts@) =~= mock_facts(query@));
    Json::object().with("job_id", Json::text(job_id)).with("query", Json::text(query)).with(
        "facts",
        Json::array(facts),
    ).with("summary", Json::Text(plus("Research summary for: ".to_string(), query)))
}

/// A packet for each query.
pub open spec fn mock_research(body: JsonView) -> JsonView {
    let job_id = body.at("job_id"@).text_or("demo"@);
    JsonView::Array(
        body.at("queries"@).items().map_values(
            |q: JsonView| mock_packet(job_id, q.text_or("unknown query"@)),
        ),
    )
}

/// Find facts for each query.
pub fn research(body: &Json) -> (r: Json)
    ensures
        r@ == mock_research(body@),
{
    let job_id = body.text_at("job_id", "demo");
    let mut packets: Vec<Json> = Vec::new();
    let ghost goal = mock_research(body@)->Array_0;
    match body.array_at("queries") {
        Some(queries) => {
            let ghost all = items_view(queries@);
            let mut i: usize = 0;
            while i < queries.len()
                invariant
                    i <= queries@.len(),
                    all == items_view(queries@),
                    goal == all.map_values(
                        |q: JsonView| mock_packet(job_id@, q.text_or("unknown query"@)),
                    ),
                    packets@.len() == i,
                    forall|j: int| 0 <= j < i ==> (#[trigger] packets@[j])@ == goal[j],
                decreases queries.len() - i,
            {
                assert(all[i as int] == queries@[i as int]@);
                let query = match queries[i].as_text() {
                    Some(q) => q,
                    None => "unknown query",
                };
                packets.push(packet_json(job_id, query));
                i += 1;
            }
        },
        None => {},
    }
    assert(items_view(packets@) =~= goal);
    Json::array(packets)
}

// ---------------------------------------------------------------------------
// Script
// ---------------------------------------------------------------------------

/// The first item of an array, `Null` where there is none.
pub open spec fn first_item(v: JsonView) -> JsonView {
    match v {
        JsonView::Array(items) => if items.len() > 0 {
            items[0]
        } else {
            JsonView::Null
        },
        _ => JsonView::Null,
    }
}

/// The first claim of a packet, where it makes one.
pub open spec fn first_claim(packet: JsonView) -> Option<Seq<char>> {
    first_item(packet.at("facts"@)).at("claim"@).as_text()
}

/// The first claims of the packets that make one.
pub open spec fn first_claims(packets: Seq<JsonView>) -> Seq<Seq<char>>
    decreases packets.len(),
{
    if packets.len() == 0 {
        Seq::empty()
    } else {
        let rest = first_claims(packets.drop_last());
        match first_claim(packets.last()) {
            Some(claim) => rest.push(claim),
            None => rest,
        }
    }
}

/// The facts to weave into the narration.
pub open spec fn facts_summary(body: JsonView) -> Seq<char> {
    joined(first_claims(body.at("research"@).items()), " Additionally, "@)
}

fn read_claim<'a>(packet: &'a Json) -> (r: Option<&'a str>)
    ensures
        match r {
            Some(claim) => first_claim(packet@) == Some(claim@),
            None => first_claim(packet@) is None,
        },
{
    match packet.array_at("facts") {
        Some(facts) => {
            assert(items_view(facts@).len() == facts@.len());
            if facts.len() > 0 {
                match facts[0].get("claim") {
                    Some(claim) => claim.as_text(),
                    None => None,
                }
            } else {
                None
            }
        },
        None => None,
    }
}

fn summarize_facts(body: &Json) -> (r: String)
    ensures
        r@ == facts_summary(body@),
{
    let mut claims: Vec<String> = Vec::new();
    let ghost all = body@.at("research"@).items();
    match body.array_at("research") {
        Some(packets) => {
            let mut i: usize = 0;
            assert(views(claims@) =~= first_claims(all.take(0)));
            while i < packets.len()
                invariant
                    i <= packets@.len(),
                    all == items_view(packets@),
                    views(claims@) == first_claims(all.take(i as int)),
                decreases packets.len() - i,
            {
                let ghost before = claims@;
                assert(all.take(i as int + 1).drop_last() =~= all.take(i as int));
                assert(all[i as int] == packets@[i as int]@);
                match read_claim(&packets[i]) {
                    Some(claim) => {
                        claims.push(claim.to_string());
                        assert(views(claims@) =~= views(before).push(claim@));
                    },
                    None => {},
                }
                i += 1;
            }
            assert(all.take(i as int) =~= all);
        },
        None => {
            assert(views(claims@) =~= Seq::empty());
        },
    }
    join(&claims, " Additionally, ")
}

/// The narration of a segment. The first one welcomes and tells the facts.
pub open spec fn narration(title: Seq<char>, facts: Seq<char>, seg: JsonView) -> Seq<char> {
    let desc = seg.at("description"@).text_or(""@);
    if seg.at("segment_number"@).u64_or(1) == 1 {
        "Welcome to "@ + title + ". Today we explore "@ + desc + ". "@ + facts
    } else {
        "Now let's dive deeper into "@ + seg.at("title"@).text_or("Segment"@) + ". "@ + desc
            + ". This is what makes the topic so compelling."@
    }
}

pub open spec fn script_segment(
    number: u64,
    title: Seq<char>,
    narration: Seq<char>,
    duration: u64,
    visual_notes: Seq<char>,
) -> JsonView {
    JsonView::Object(
        map![
            "segment_number"@ => JsonView::Unsigned(number),
            "title"@ => JsonView::Text(title),
            "narration_text"@ => JsonView::Text(narration),
            "estimated_duration_seconds"@ => JsonView::Unsigned(duration),
            "visual_notes"@ => JsonView::Text(visual_notes),
        ],
    )
}

fn script_segment_json(
    number: u64,
    title: &str,
    narration: String,
    duration: u64,
    visual_notes: String,
) -> (r: Json)
    ensures
        r@ == script_segment(number, title@, narration@, duration, visual_notes@),
{
    Json::object().with("segment_number", Json::Unsigned(number)).with(
        "title",
        Json::text(title),
    ).with("narration_text", Json::Text(narration)).with(
        "estimated_duration_seconds",
        Json::Unsigned(duration),
    ).with("visual_notes", Json::Text(visual_notes))
}

/// A planned segment, put into words.
pub open spec fn scripted(title: Seq<char>, facts: Seq<char>, seg: JsonView) -> JsonView {
    script_segment(
        seg.at("segment_number"@).u64_or(1),
        seg.at("title"@).text_or("Segment"@),
        narration(title, facts, seg),
        seg.at("duration_seconds"@).u64_or(15),
        "Show "@ + seg.at("visual_style"@).text_or("default"@) + " visuals"@,
    )
}

/// The segments of a script: one for each planned segment, or a single one
/// where the plan has none.
pub open spec fn script_segments(body: JsonView) -> Seq<JsonView> {
    let plan = body.at("plan"@);
    let title = plan.at("title"@).text_or("Demo Video"@);
    let facts = facts_summary(body);
    match plan.at("segments"@) {
        JsonView::Array(segs) => segs.map_values(|seg: JsonView| scripted(title, facts, seg)),
        _ => seq![
            script_segment(
                1,
                title,
                "Welcome to "@ + title + ". "@ + facts,
                plan.at("total_duration_seconds"@).u64_or(30),
                "default visuals"@,
            ),
        ],
    }
}

/// A script for a plan.
pub open spec fn mock_script(body: JsonView) -> JsonView {
    let plan = body.at("plan"@);
    JsonView::Object(
        map![
            "job_id"@ => JsonView::Text(plan.at("job_id"@).text_or("demo"@)),
            "title"@ => JsonView::Text(plan.at("title"@).text_or("Demo Video"@)),
            "total_duration_seconds"@ => JsonView::Unsigned(
                plan.at("total_duration_seconds"@).u64_or(30),
            ),
            "segments"@ => JsonView::Array(script_segments(body)),
        ],
    )
}

fn script_one(title: &str, facts: &str, seg: &Json) -> (r: Json)
    ensures
        r@ == scripted(title@, facts@, seg@),
{
    let number: u64 = seg.u64_at("segment_number", 1);
    let seg_title = seg.text_at("title", "Segment");
    let desc = seg.text_at("description", "");
    let duration: u64 = seg.u64_at("duration_seconds", 15);
    let words = if number == 1 {
        plus(
            plus(
                plus(
                    plus(plus("Welcome to ".to_string(), title), ". Today we explore "),
                    desc,
                ),
                ". ",
            ),
            facts,
        )
    } else {
        plus(
            plus(
                plus(plus("Now let's dive deeper into ".to_string(), seg_title), ". "),
                desc,
            ),
            ". This is what makes the topic so compelling.",
        )
    };
    let notes = plus(
        plus("Show ".to_string(), seg.text_at("visual_style", "default")),
        " visuals",
    );
    script_segment_json(number, seg_title, words, duration, notes)
}

/// Write a script for a plan.
pub fn script(body: &Json) -> (r: Json)
    ensures
        r@ == mock_script(body@),
{
    let nothing = Json::Null;
    let plan = match body.get("plan") {
        Some(plan) => plan,
        None => &nothing,
    };
    let title = plan.text_at("title", "Demo Video");
    let total: u64 = plan.u64_at("total_duration_seconds", 30);
    let facts = summarize_facts(body);
    let ghost goal = script_segments(body@);
    let mut segments: Vec<Json> = Vec::new();
    match plan.array_at("segments") {
        Some(segs) => {
            let ghost all = items_view(segs@);
            let mut i: usize = 0;
            while i < segs.len()
                invariant
                    i <= segs@.len(),
                    all == items_view(segs@),
                    goal == all.map_values(|seg: JsonView| scripted(title@, facts@, seg)),
                    segments@.len() == i,
                    forall|j: int| 0 <= j < i ==> (#[trigger] segments@[j])@ == goal[j],
                decreases segs.len() - i,
            {
                assert(all[i as int] == segs@[i as int]@);
                segments.push(script_one(title, facts.as_str(), &segs[i]));
                i += 1;
            }
        },
        None => {
            let words = plus(
                plus(plus("Welcome to ".to_string(), title), ". "),
                facts.as_str(),
            );
            segments.push(
                script_segment_json(1, title, words, total, "default visuals".to_string()),
            );
        },
    }
    assert(items_view(segments@) =~= goal);
    Json::object().with("job_id", Json::text(plan.text_at("job_id", "demo"))).with(
        "title",
        Json::text(title),
    ).with("total_duration_seconds", Json::Unsigned(total)).with(
        "segments",
        Json::array(segments),
    )
}

// ---------------------------------------------------------------------------
// Speech
// ---------------------------------------------------------------------------

/// Where the audio files of a job go.
pub open spec fn tts_dir(body: JsonView) -> Seq<char> {
    "./data/demo/tts/"@ + body.at("job_id"@).text_or("demo"@)
}

/// The audio file of a segment.
pub open spec fn tts_path(dir: Seq<char>, seg: JsonView) -> Seq<char> {
    dir + "/seg"@ + zero_padded(seg.at("segment_number"@).u64_or(1) as nat, 3) + ".wav"@
}

/// Write where the audio files of a job go.
pub fn tts_directory(body: &Json) -> (r: String)
    ensures
        r@ == tts_dir(body@),
{
    plus("./data/demo/tts/".to_string(), body.text_at("job_id", "demo"))
}

fn segment_path(dir: &str, seg: &Json) -> (r: String)
    ensures
        r@ == tts_path(dir@, seg@),
{
    let number = zero_padded_text(seg.u64_at("segment_number", 1), 3);
    plus(plus(plus(dir.to_string(), "/seg"), number.as_str()), ".wav")
}

/// A file of silence that stands for speech.
#[derive(Debug)]
pub struct SilentAudio {
    pub path: String,
    pub seconds: u64,
}

/// How long the silence of a segment is.
pub open spec fn silent_seconds(seg: JsonView) -> u64 {
    seg.at("estimated_duration_seconds"@).u64_or(10)
}

/// The files of silence for the segments of a script, one for each.
pub fn silent_files(body: &Json) -> (r: Vec<SilentAudio>)
    ensures
        r@.len() == body@.at("segments"@).items().len(),
        forall|i: int|
            0 <= i < r@.len() ==> (#[trigger] r@[i]).path@ == tts_path(
                tts_dir(body@),
                body@.at("segments"@).items()[i],
            ) && r@[i].seconds == silent_seconds(
                body@.at("segments"@).items()[i],
            ),
{
    let dir = tts_directory(body);
    let mut r: Vec<SilentAudio> = Vec::new();
    match body.array_at("segments") {
        Some(segments) => {
            let ghost all = items_view(segments@);
            let mut i: usize = 0;
            while i < segments.len()
                invariant
                    i <= segments@.len(),
                    all == items_view(segments@),
                    dir@ == tts_dir(body@),
                    r@.len() == i,
                    forall|j: int|
                        0 <= j < i ==> (#[trigger] r@[j]).path@ == tts_path(tts_dir(body@), all[j])
                            && r@[j].seconds == silent_seconds(all[j]),
                decreases segments.len() - i,
            {
                assert(all[i as int] == segments@[i as int]@);
                r.push(
                    SilentAudio {
                        path: segment_path(dir.as_str(), &segments[i]),
                        seconds: segments[i].u64_at("estimated_duration_seconds", 10),
                    },
                );
                i += 1;
            }
        },
        None => {},
    }
    r
}

/// How ffmpeg makes a file of silence.
pub open spec fn silence_command(path: Seq<char>, seconds: u64) -> Seq<Seq<char>> {
    seq![
        "-y"@,
        "-f"@,
        "lavfi"@,
        "-i"@,
        "anullsrc=r=44100:cl=mono"@,
        "-t"@,
        decimal(seconds as nat),
        "-c:a"@,
        "pcm_s16le"@,
        path,
    ]
}

/// How ffmpeg makes a file of silence.
pub fn silence_args(file: &SilentAudio) -> (r: Vec<String>)
    ensures
        views(r@) == silence_command(file.path@, file.seconds),
{
    let seconds = decimal_text(file.seconds);
    let list = vec![
        "-y",
        "-f",
        "lavfi",
        "-i",
        "anullsrc=r=44100:cl=mono",
        "-t",
        seconds.as_str(),
        "-c:a",
        "pcm_s16le",
        file.path.as_str(),
    ];
    let r = strings(list);
    assert(views(r@) =~= silence_command(file.path@, file.seconds));
    r
}

/// The audio file of a segment, as the speech service reports it.
pub open spec fn spoken_segment(dir: Seq<char>, seg: JsonView) -> JsonView {
    JsonView::Object(
        map![
            "segment_number"@ => JsonView::Unsigned(seg.at("segment_number"@).u64_or(1)),
            "file_path"@ => JsonView::Text(tts_path(dir, seg)),
        ],
    )
}

/// What the speech service answers: a file for each segment.
pub open spec fn mock_tts(body: JsonView) -> JsonView {
    let dir = tts_dir(body);
    JsonView::Object(
        map![
            "job_id"@ => JsonView::Text(body.at("job_id"@).text_or("demo"@)),
            "segment_files"@ => JsonView::Array(
                body.at("segments"@).items().map_values(|seg: JsonView| spoken_segment(dir, seg)),
            ),
        ],
    )
}

/// Answer for a script, once the files are there or could not be made.
pub fn tts(body: &Json) -> (r: Json)
    ensures
        r@ == mock_tts(body@),
{
    let dir = tts_directory(body);
    let ghost all = body@.at("segments"@).items();
    let ghost goal = all.map_values(|seg: JsonView| spoken_segment(dir@, seg));
    let mut files: Vec<Json> = Vec::new();
    match body.array_at("segments") {
        Some(segments) => {
            let mut i: usize = 0;
            while i < segments.len()
                invariant
                    i <= segments@.len(),
                    all == items_view(segments@),
                    goal == all.map_values(|seg: JsonView| spoken_segment(dir@, seg)),
                    files@.len() == i,
                    forall|j: int| 0 <= j < i ==> (#[trigger] files@[j])@ == goal[j],
                decreases segments.len() - i,
            {
                let seg = &segments[i];
                assert(all[i as int] == seg@);
                files.push(
                    Json::object().with(
                        "segment_number",
                        Json::Unsigned(seg.u64_at("segment_number", 1)),
                    ).with("file_path", Json::Text(segment_path(dir.as_str(), seg))),
                );
                i += 1;
            }
        },
        None => {},
    }
    assert(items_view(files@) =~= goal);
    Json::object().with("job_id", Json::text(body.text_at("job_id", "demo"))).with(
        "segment_files",
        Json::array(files),
    )
}

// ---------------------------------------------------------------------------
// Validation
// ---------------------------------------------------------------------------

/// A transcript that matches what was expected.
pub open spec fn matching_transcript(seg: JsonView) -> JsonView {
    JsonView::Object(
        map![
            "segment_number"@ => JsonView::Unsigned(seg.at("segment_number"@).u64_or(1)),
            "transcript"@ => JsonView::Text(seg.at("expected_text"@).text_or(""@)),
            "similarity"@ => JsonView::Fraction("0.98"@),
            "issues"@ => JsonView::Array(Seq::empty()),
        ],
    )
}

/// What the validation answers: every segment passes.
pub open spec fn mock_validation(body: JsonView) -> JsonView {
    JsonView::Object(
        map![
            "job_id"@ => JsonView::Text(body.at("job_id"@).text_or("demo"@)),
            "passed"@ => JsonView::Bool(true),
            "segments"@ => JsonView::Array(
                body.at("segments"@).items().map_values(|seg: JsonView| matching_transcript(seg)),
            ),
        ],
    )
}

/// Pretend to have transcribed the audio, and that it matches.
pub fn validate(body: &Json) -> (r: Json)
    ensures
        r@ == mock_validation(body@),
{
    let ghost all = body@.at("segments"@).items();
    let ghost goal = all.map_values(|seg: JsonView| matching_transcript(seg));
    let mut results: Vec<Json> = Vec::new();
    match body.array_at("segments") {
        Some(segments) => {
            let mut i: usize = 0;
            while i < segments.len()
                invariant
                    i <= segments@.len(),
                    all == items_view(segments@),
                    goal == all.map_values(|seg: JsonView| matching_transcript(seg)),
                    results@.len() == i,
                    forall|j: int| 0 <= j < i ==> (#[trigger] results@[j])@ == goal[j],
                decreases segments.len() - i,
            {
                let seg = &segments[i];
                assert(all[i as int] == seg@);
                let no_issues: Vec<Json> = Vec::new();
                assert(items_view(no_issues@) =~= Seq::empty());
                results.push(
                    Json::object().with(
                        "segment_number",
                        Json::Unsigned(seg.u64_at("segment_number", 1)),
                    ).with("transcript", Json::text(seg.text_at("expected_text", ""))).with(
                        "similarity",
                        Json::Fraction("0.98".to_string()),
                    ).with("issues", Json::array(no_issues)),
                );
                i += 1;
            }
        },
        None => {},
    }
    assert(items_view(results@) =~= goal);
    Json::object().with("job_id", Json::text(body.text_at("job_id", "demo"))).with(
        "passed",
        Json::Bool(true),
    ).with("segments", Json::array(results))
}

// ---------------------------------------------------------------------------
// Captions
// ---------------------------------------------------------------------------

/// What the segments of a script say.
pub open spec fn spoken_parts(body: JsonView) -> Seq<Spoken> {
    body.at("segments"@).items().map_values(
        |seg: JsonView|
            Spoken {
                text: seg.at("narration_text"@).text_or("..."@),
                seconds: seg.at("estimated_duration_seconds"@).u64_or(10) as nat,
            },
    )
}

/// Where the captions of a job go.
pub open spec fn captions_dir(body: JsonView) -> Seq<char> {
    "./data/demo/captions/"@ + body.at("job_id"@).text_or("demo"@)
}

/// Write where the captions of a job go.
pub fn captions_directory(body: &Json) -> (r: String)
    ensures
        r@ == captions_dir(body@),
{
    plus("./data/demo/captions/".to_string(), body.text_at("job_id", "demo"))
}

/// Format seconds as SRT timecode.
pub fn format_srt_time(total_secs: u64) -> (r: String)
    ensures
        r@ == srt_time(total_secs as nat),
{
    srt_timecode(total_secs)
}

/// Whether 64 bits hold the time at which a script is over.
pub fn captions_fit(body: &Json) -> (r: bool)
    ensures
        r == (spoken_time(spoken_parts(body@)) <= u64::MAX),
{
    let ghost parts = spoken_parts(body@);
    let mut total: u64 = 0;
    match body.array_at("segments") {
        Some(segments) => {
            let mut i: usize = 0;
            while i < segments.len()
                invariant
                    i <= segments@.len(),
                    body@.at("segments"@).items() == items_view(segments@),
                    parts == spoken_parts(body@),
                    total as nat == spoken_time(parts.take(i as int)),
                decreases segments.len() - i,
            {
                let seconds: u64 = segments[i].u64_at("estimated_duration_seconds", 10);
                assert(parts.take(i as int + 1).drop_last() =~= parts.take(i as int));
                assert(items_view(segments@)[i as int] == segments@[i as int]@);
                if seconds > u64::MAX - total {
                    proof {
                        lemma_spoken_time_grows(parts, i as int + 1);
                    }
                    return false;
                }
                total += seconds;
                i += 1;
            }
            assert(parts.take(i as int) =~= parts);
        },
        None => {},
    }
    true
}

/// Build an SRT file from the narration of the segments.
pub fn captions_file(body: &Json) -> (r: String)
    requires
        spoken_time(spoken_parts(body@)) <= u64::MAX,
    ensures
        r@ == srt_file(spoken_parts(body@)),
{
    let ghost parts = spoken_parts(body@);
    let mut srt = String::new();
    assert(srt@ =~= cues(parts, 0));
    match body.array_at("segments") {
        Some(segments) => {
            let mut offset: u64 = 0;
            let mut i: usize = 0;
            while i < segments.len()
                invariant
                    i <= segments@.len(),
                    body@.at("segments"@).items() == items_view(segments@),
                    parts == spoken_parts(body@),
                    spoken_time(parts) <= u64::MAX,
                    offset as nat == spoken_time(parts.take(i as int)),
                    srt@ == cues(parts, i as nat),
                decreases segments.len() - i,
            {
                let seg = &segments[i];
                assert(items_view(segments@)[i as int] == seg@);
                let text = seg.text_at("narration_text", "...");
                let seconds: u64 = seg.u64_at("estimated_duration_seconds", 10);
                proof {
                    lemma_spoken_time_grows(parts, i as int + 1);
                    assert(parts.take(i as int + 1).drop_last() =~= parts.take(i as int));
                }
                let end: u64 = offset + seconds;
                srt = append_cue(srt, i as u64 + 1, offset, end, text);
                offset = end;
                i += 1;
            }
        },
        None => {},
    }
    srt
}

/// What the caption service answers.
pub open spec fn mock_captions(body: JsonView) -> JsonView {
    JsonView::Object(
        map![
            "job_id"@ => JsonView::Text(body.at("job_id"@).text_or("demo"@)),
            "srt_path"@ => JsonView::Text(captions_dir(body) + "/captions.srt"@),
            "cue_count"@ => JsonView::Unsigned(body.at("segments"@).items().len() as u64),
        ],
    )
}

/// Answer for a script, once the caption file is there or could not be written.
pub fn captions(body: &Json) -> (r: Json)
    ensures
        r@ == mock_captions(body@),
{
    let path = plus(captions_directory(body), "/captions.srt");
    let count: usize = match body.array_at("segments") {
        Some(segments) => segments.len(),
        None => 0,
    };
    Json::object().with("job_id", Json::text(body.text_at("job_id", "demo"))).with(
        "srt_path",
        Json::Text(path),
    ).with("cue_count", Json::Unsigned(count as u64))
}

// ---------------------------------------------------------------------------
// Laws
// ---------------------------------------------------------------------------

proof fn lemma_names_differ()
    ensures
        "segments"@ != "research_queries"@,
        "segments"@ != "narration_tone"@,
        "research_queries"@ != "narration_tone"@,
        "total_duration_seconds"@ != "segments"@,
        "total_duration_seconds"@ != "research_queries"@,
        "total_duration_seconds"@ != "narration_tone"@,
        "duration_seconds"@ != "description"@,
        "duration_seconds"@ != "visual_style"@,
        "segment_number"@ != "title"@,
        "segment_number"@ != "duration_seconds"@,
        "segment_number"@ != "description"@,
        "segment_number"@ != "visual_style"@,
        "segment_number"@ != "file_path"@,
        "segment_number"@ != "narration_text"@,
        "segment_number"@ != "estimated_duration_seconds"@,
        "segment_number"@ != "visual_notes"@,
        "plan"@ != "research"@,
{
    reveal_strlit("segments");
    reveal_strlit("research_queries");
    reveal_strlit("narration_tone");
    reveal_strlit("total_duration_seconds");
    reveal_strlit("duration_seconds");
    reveal_strlit("description");
    reveal_strlit("visual_style");
    reveal_strlit("segment_number");
    reveal_strlit("title");
    reveal_strlit("file_path");
    reveal_strlit("narration_text");
    reveal_strlit("estimated_duration_seconds");
    reveal_strlit("visual_notes");
    reveal_strlit("plan");
    reveal_strlit("research");
    assert("segments"@.len() == 8);
    assert("research_queries"@.len() == 16);
    assert("narration_tone"@.len() == 14);
    assert("total_duration_seconds"@.len() == 22);
    assert("duration_seconds"@.len() == 16);
    assert("description"@.len() == 11);
    assert("visual_style"@.len() == 12);
    assert("segment_number"@.len() == 14);
    assert("segment_number"@[0] == 's');
    assert("narration_text"@[0] == 'n');
    assert("estimated_duration_seconds"@.len() == 26);
    assert("visual_notes"@.len() == 12);
    assert("title"@.len() == 5);
    assert("file_path"@.len() == 9);
    assert("plan"@.len() == 4);
    assert("research"@.len() == 8);
}

/// The segments of a plan take as long together as the whole.
pub proof fn law_planned_segments_fill_the_video(body: JsonView)
    requires
        5 <= planned_duration(body) <= u64::MAX / 2,
    ensures
        ({
            let plan = mock_plan(body);
            let segments = plan.at("segments"@).items();
            &&& segments.len() == 2
            &&& segments[0].at("duration_seconds"@).u64_or(0) + segments[1].at(
                "duration_seconds"@,
            ).u64_or(0) == plan.at("total_duration_seconds"@).u64_or(0)
        }),
{
    lemma_names_differ();
}

/// What one stage answers is what the next one needs: a plan leads to a script
/// of two segments with the numbers of the plan, and these to an audio file, a
/// transcript and a cue each.
pub proof fn law_stages_chain(body: JsonView, research: JsonView)
    requires
        5 <= planned_duration(body) <= u64::MAX / 2,
    ensures
        ({
            let script = mock_script(
                JsonView::Object(
                    map![
                        "plan"@ => mock_plan(body),
                        "research"@ => research,
                    ],
                ),
            );
            let files = mock_tts(script).at("segment_files"@).items();
            &&& script.at("segments"@).items().len() == 2
            &&& script.at("segments"@).items()[0].at("segment_number"@) == JsonView::Unsigned(1)
            &&& script.at("segments"@).items()[1].at("segment_number"@) == JsonView::Unsigned(2)
            &&& files.len() == 2
            &&& files[0].at("segment_number"@) == JsonView::Unsigned(1)
            &&& files[1].at("segment_number"@) == JsonView::Unsigned(2)
            &&& spoken_parts(script).len() == 2
            &&& mock_captions(script).at("cue_count"@) == JsonView::Unsigned(2)
            &&& mock_validation(script).at("segments"@).items().len() == 2
        }),
{
    lemma_names_differ();
    let request = JsonView::Object(
        map![
            "plan"@ => mock_plan(body),
            "research"@ => research,
        ],
    );
    assert(request.at("plan"@) == mock_plan(body));
    let planned = mock_plan(body).at("segments"@);
    let idea = body.at("idea"@).text_or("A demo idea"@);
    assert(planned == JsonView::Array(mock_segments(idea, planned_duration(body))));
    let script = mock_script(request);
    assert(script.at("segments"@) == JsonView::Array(script_segments(request)));
    assert(script.at("segments"@).items()[0].at("segment_number"@) == JsonView::Unsigned(1));
    assert(script.at("segments"@).items()[1].at("segment_number"@) == JsonView::Unsigned(2));
}

/// A plan keeps what it was asked for, and its introduction takes two fifths of
/// the time, but no less than five seconds; the rest is left for the main
/// content.
pub proof fn law_plans_keep_the_request(
    body: JsonView,
    job_id: Seq<char>,
    title: Seq<char>,
    idea: Seq<char>,
    tone: Seq<char>,
    duration: u64,
)
    requires
        holds(body, "job_id"@, JsonView::Text(job_id)),
        holds(body, "title"@, JsonView::Text(title)),
        holds(body, "idea"@, JsonView::Text(idea)),
        holds(body, "tone"@, JsonView::Text(tone)),
        holds(body, "target_duration_seconds"@, JsonView::Unsigned(duration)),
        5 <= duration <= u64::MAX / 2,
    ensures
        ({
            let plan = mock_plan(body);
            let segments = plan->Object_0["segments"@]->Array_0;
            let queries = plan->Object_0["research_queries"@]->Array_0;
            let intro = segments[0]->Object_0["duration_seconds"@]->Unsigned_0;
            &&& holds(plan, "job_id"@, JsonView::Text(job_id))
            &&& holds(plan, "title"@, JsonView::Text(title))
            &&& holds(plan, "synopsis"@, JsonView::Text("A short video about: "@ + idea))
            &&& holds(plan, "total_duration_seconds"@, JsonView::Unsigned(duration))
            &&& holds(plan, "narration_tone"@, JsonView::Text(tone))
            &&& queries.len() == 2
            &&& queries[0] == JsonView::Text(title + " overview"@)
            &&& queries[1] == JsonView::Text(idea + " key facts"@)
            &&& segments.len() == 2
            &&& holds(segments[0], "segment_number"@, JsonView::Unsigned(1))
            &&& holds(segments[0], "title"@, JsonView::Text("Introduction"@))
            &&& holds(segments[0], "description"@, JsonView::Text("Introduce the topic: "@ + idea))
            &&& holds(segments[0], "visual_style"@, JsonView::Text("title-card"@))
            &&& holds(segments[0], "duration_seconds"@, JsonView::Unsigned(intro))
            &&& intro >= 5
            &&& 5 * intro <= 2 * duration || intro == 5
            &&& 2 * duration < 5 * intro + 5
            &&& holds(segments[1], "segment_number"@, JsonView::Unsigned(2))
            &&& holds(segments[1], "title"@, JsonView::Text("Main Content"@))
            &&& holds(
                segments[1],
                "description"@,
                JsonView::Text("Explore the core ideas of: "@ + idea),
            )
            &&& holds(segments[1], "visual_style"@, JsonView::Text("talking-head"@))
            &&& holds(
                segments[1],
                "duration_seconds"@,
                JsonView::Unsigned((duration - intro) as u64),
            )
        }),
{
    lemma_names_differ();
    lemma_plan_names_differ();
    assert(body.at("target_duration_seconds"@) == JsonView::Unsigned(duration));
    assert(planned_duration(body) == duration);
}

proof fn lemma_plan_names_differ()
    ensures
        "job_id"@.len() == 6,
        "title"@.len() == 5,
        "synopsis"@.len() == 8,
        "synopsis"@[1] == 'y',
        "segments"@.len() == 8,
        "segments"@[1] == 'e',
        "total_duration_seconds"@.len() == 22,
        "research_queries"@.len() == 16,
        "narration_tone"@.len() == 14,
        "segment_number"@.len() == 14,
        "duration_seconds"@.len() == 16,
        "description"@.len() == 11,
        "visual_style"@.len() == 12,
        "narration_text"@.len() == 14,
        "narration_text"@[0] == 'n',
        "segment_number"@[0] == 's',
        "estimated_duration_seconds"@.len() == 26,
        "visual_notes"@.len() == 12,
        "segment_files"@.len() == 13,
        "file_path"@.len() == 9,
        "passed"@.len() == 6,
        "passed"@[0] == 'p',
        "job_id"@[0] == 'j',
        "transcript"@.len() == 10,
        "transcript"@[0] == 't',
        "similarity"@.len() == 10,
        "similarity"@[0] == 's',
        "issues"@.len() == 6,
        "srt_path"@.len() == 8,
        "cue_count"@.len() == 9,
        "claim"@.len() == 5,
        "source"@.len() == 6,
        "confidence"@.len() == 10,
        "query"@.len() == 5,
        "facts"@.len() == 5,
        "query"@[0] == 'q',
        "facts"@[0] == 'f',
        "summary"@.len() == 7,
{
    reveal_strlit("job_id");
    reveal_strlit("title");
    reveal_strlit("synopsis");
    reveal_strlit("segments");
    reveal_strlit("total_duration_seconds");
    reveal_strlit("research_queries");
    reveal_strlit("narration_tone");
    reveal_strlit("segment_number");
    reveal_strlit("duration_seconds");
    reveal_strlit("description");
    reveal_strlit("visual_style");
    reveal_strlit("narration_text");
    reveal_strlit("estimated_duration_seconds");
    reveal_strlit("visual_notes");
    reveal_strlit("segment_files");
    reveal_strlit("file_path");
    reveal_strlit("passed");
    reveal_strlit("transcript");
    reveal_strlit("similarity");
    reveal_strlit("issues");
    reveal_strlit("srt_path");
    reveal_strlit("cue_count");
    reveal_strlit("claim");
    reveal_strlit("source");
    reveal_strlit("confidence");
    reveal_strlit("query");
    reveal_strlit("facts");
    reveal_strlit("summary");
}

/// Each query has a packet of its own, in the order of the queries, with two
/// facts and a summary that speak of it.
pub proof fn law_every_query_has_a_packet(
    body: JsonView,
    job_id: Seq<char>,
    queries: Seq<JsonView>,
    i: int,
    query: Seq<char>,
)
    requires
        holds(body, "job_id"@, JsonView::Text(job_id)),
        holds(body, "queries"@, JsonView::Array(queries)),
        0 <= i < queries.len(),
        queries[i] == JsonView::Text(query),
    ensures
        mock_research(body) is Array,
        mock_research(body)->Array_0.len() == queries.len(),
        ({
            let packet = mock_research(body)->Array_0[i];
            let facts = packet->Object_0["facts"@]->Array_0;
            &&& holds(packet, "job_id"@, JsonView::Text(job_id))
            &&& holds(packet, "query"@, JsonView::Text(query))
            &&& holds(packet, "summary"@, JsonView::Text("Research summary for: "@ + query))
            &&& facts.len() == 2
            &&& holds(
                facts[0],
                "claim"@,
                JsonView::Text(query + " is an important topic in modern technology."@),
            )
            &&& holds(facts[0], "source"@, JsonView::Text("demo-knowledge-base"@))
            &&& holds(facts[0], "confidence"@, JsonView::Fraction("0.92"@))
            &&& holds(
                facts[1],
                "claim"@,
                JsonView::Text(
                    "Understanding "@ + query + " helps developers build better systems."@,
                ),
            )
            &&& holds(facts[1], "source"@, JsonView::Text("demo-knowledge-base"@))
            &&& holds(facts[1], "confidence"@, JsonView::Fraction("0.88"@))
        }),
{
    lemma_plan_names_differ();
    assert(body.at("queries"@).items() == queries);
    assert(mock_research(body)->Array_0[i] == mock_packet(job_id, query));
}

/// The facts of a narration are the first claims of the packets, in order, and a
/// packet that makes none adds nothing.
pub proof fn law_first_claims_are_told(
    packets: Seq<JsonView>,
    packet: JsonView,
    facts: Seq<JsonView>,
    claim: Seq<char>,
)
    ensures
        first_claims(Seq::empty()).len() == 0,
        holds(packet, "facts"@, JsonView::Array(facts)) && facts.len() > 0 && holds(
            facts[0],
            "claim"@,
            JsonView::Text(claim),
        ) ==> first_claims(packets.push(packet)) == first_claims(packets).push(claim),
        holds(packet, "facts"@, JsonView::Array(Seq::empty())) ==> first_claims(
            packets.push(packet),
        ) == first_claims(packets),
        packet is Object && !packet->Object_0.contains_key("facts"@) ==> first_claims(
            packets.push(packet),
        ) == first_claims(packets),
{
    assert(packets.push(packet).drop_last() =~= packets);
}

/// Each planned segment is put into words, in the order of the plan: under its
/// number and its title, for as long as planned. The first welcomes and tells
/// the facts; the others go deeper.
pub proof fn law_every_planned_segment_is_scripted(
    body: JsonView,
    plan: JsonView,
    packets: Seq<JsonView>,
    job_id: Seq<char>,
    title: Seq<char>,
    total: u64,
    segments: Seq<JsonView>,
    i: int,
    number: u64,
    name: Seq<char>,
    description: Seq<char>,
    duration: u64,
    style: Seq<char>,
)
    requires
        holds(body, "plan"@, plan),
        holds(body, "research"@, JsonView::Array(packets)),
        holds(plan, "job_id"@, JsonView::Text(job_id)),
        holds(plan, "title"@, JsonView::Text(title)),
        holds(plan, "total_duration_seconds"@, JsonView::Unsigned(total)),
        holds(plan, "segments"@, JsonView::Array(segments)),
        0 <= i < segments.len(),
        holds(segments[i], "segment_number"@, JsonView::Unsigned(number)),
        holds(segments[i], "title"@, JsonView::Text(name)),
        holds(segments[i], "description"@, JsonView::Text(description)),
        holds(segments[i], "duration_seconds"@, JsonView::Unsigned(duration)),
        holds(segments[i], "visual_style"@, JsonView::Text(style)),
    ensures
        ({
            let script = mock_script(body);
            let spoken = script->Object_0["segments"@]->Array_0;
            let facts = joined(first_claims(packets), " Additionally, "@);
            &&& holds(script, "job_id"@, JsonView::Text(job_id))
            &&& holds(script, "title"@, JsonView::Text(title))
            &&& holds(script, "total_duration_seconds"@, JsonView::Unsigned(total))
            &&& spoken.len() == segments.len()
            &&& holds(spoken[i], "segment_number"@, JsonView::Unsigned(number))
            &&& holds(spoken[i], "title"@, JsonView::Text(name))
            &&& holds(spoken[i], "estimated_duration_seconds"@, JsonView::Unsigned(duration))
            &&& holds(
                spoken[i],
                "visual_notes"@,
                JsonView::Text("Show "@ + style + " visuals"@),
            )
            &&& number == 1 ==> holds(
                spoken[i],
                "narration_text"@,
                JsonView::Text(
                    "Welcome to "@ + title + ". Today we explore "@ + description + ". "@ + facts,
                ),
            )
            &&& number != 1 ==> holds(
                spoken[i],
                "narration_text"@,
                JsonView::Text(
                    "Now let's dive deeper into "@ + name + ". "@ + description
                        + ". This is what makes the topic so compelling."@,
                ),
            )
        }),
{
    lemma_names_differ();
    lemma_plan_names_differ();
    assert(body.at("plan"@) == plan);
    assert(body.at("research"@).items() == packets);
    assert(plan.at("segments"@) == JsonView::Array(segments));
    assert(script_segments(body)[i] == scripted(title, facts_summary(body), segments[i]));
}

/// Each segment of a script has an audio file of its own number, in the order of
/// the script, in the directory of its job; a transcript that matches; and a cue
/// with its narration for as long as it takes.
pub proof fn law_every_scripted_segment_is_served(
    body: JsonView,
    job_id: Seq<char>,
    segments: Seq<JsonView>,
    i: int,
    number: u64,
    words: Seq<char>,
    seconds: u64,
)
    requires
        holds(body, "job_id"@, JsonView::Text(job_id)),
        holds(body, "segments"@, JsonView::Array(segments)),
        0 <= i < segments.len(),
        holds(segments[i], "segment_number"@, JsonView::Unsigned(number)),
    ensures
        ({
            let speech = mock_tts(body);
            let files = speech->Object_0["segment_files"@]->Array_0;
            let validation = mock_validation(body);
            let heard = validation->Object_0["segments"@]->Array_0;
            let captions = mock_captions(body);
            let parts = spoken_parts(body);
            &&& holds(speech, "job_id"@, JsonView::Text(job_id))
            &&& files.len() == segments.len()
            &&& holds(files[i], "segment_number"@, JsonView::Unsigned(number))
            &&& holds(
                files[i],
                "file_path"@,
                JsonView::Text(
                    "./data/demo/tts/"@ + job_id + "/seg"@ + zero_padded(number as nat, 3)
                        + ".wav"@,
                ),
            )
            &&& holds(validation, "job_id"@, JsonView::Text(job_id))
            &&& holds(validation, "passed"@, JsonView::Bool(true))
            &&& heard.len() == segments.len()
            &&& holds(heard[i], "segment_number"@, JsonView::Unsigned(number))
            &&& holds(segments[i], "expected_text"@, JsonView::Text(words)) ==> holds(
                heard[i],
                "transcript"@,
                JsonView::Text(words),
            )
            &&& holds(heard[i], "similarity"@, JsonView::Fraction("0.98"@))
            &&& heard[i]->Object_0["issues"@]->Array_0.len() == 0
            &&& parts.len() == segments.len()
            &&& holds(segments[i], "narration_text"@, JsonView::Text(words)) ==> parts[i].text
                == words
            &&& holds(segments[i], "estimated_duration_seconds"@, JsonView::Unsigned(seconds))
                ==> parts[i].seconds == seconds
            &&& holds(captions, "job_id"@, JsonView::Text(job_id))
            &&& holds(
                captions,
                "srt_path"@,
                JsonView::Text("./data/demo/captions/"@ + job_id + "/captions.srt"@),
            )
            &&& holds(captions, "cue_count"@, JsonView::Unsigned(segments.len() as u64))
        }),
{
    lemma_names_differ();
    lemma_plan_names_differ();
    assert(body.at("segments"@).items() == segments);
    assert(mock_tts(body)->Object_0["segment_files"@]->Array_0[i] == spoken_segment(
        tts_dir(body),
        segments[i],
    ));
    assert(mock_validation(body)->Object_0["segments"@]->Array_0[i] == matching_transcript(
        segments[i],
    ));
}

/// Segments of different numbers have different audio files.
pub proof fn law_audio_files_differ(dir: Seq<char>, a: JsonView, b: JsonView, m: u64, n: u64)
    requires
        holds(a, "segment_number"@, JsonView::Unsigned(m)),
        holds(b, "segment_number"@, JsonView::Unsigned(n)),
        m != n,
    ensures
        tts_path(dir, a) != tts_path(dir, b),
{
    let head = dir + "/seg"@;
    let x = zero_padded(m as nat, 3);
    let y = zero_padded(n as nat, 3);
    law_numbers_are_read_back(m as nat, 0, 3);
    law_numbers_are_read_back(n as nat, 0, 3);
    let p = tts_path(dir, a);
    let q = tts_path(dir, b);
    if p == q {
        let k = head.len() as int;
        assert(p.len() == k + x.len() + ".wav"@.len());
        assert(q.len() == k + y.len() + ".wav"@.len());
        assert(x =~= p.subrange(k, k + x.len()));
        assert(y =~= q.subrange(k, k + y.len()));
        assert(x == y);
    }
}

/// Where a request leaves something out, the usual stands in for it.
pub proof fn law_the_usual_stands_in(body: Map<Seq<char>, JsonView>)
    ensures
        ({
            let b = JsonView::Object(body);
            let plan = mock_plan(b);
            let script = mock_script(b);
            &&& !body.contains_key("job_id"@) ==> holds(plan, "job_id"@, JsonView::Text("demo"@))
                && holds(mock_tts(b), "job_id"@, JsonView::Text("demo"@))
            &&& !body.contains_key("title"@) ==> holds(
                plan,
                "title"@,
                JsonView::Text("Demo Video"@),
            )
            &&& !body.contains_key("idea"@) ==> holds(
                plan,
                "synopsis"@,
                JsonView::Text("A short video about: "@ + "A demo idea"@),
            )
            &&& !body.contains_key("tone"@) ==> holds(
                plan,
                "narration_tone"@,
                JsonView::Text("informative"@),
            )
            &&& !body.contains_key("target_duration_seconds"@) ==> holds(
                plan,
                "total_duration_seconds"@,
                JsonView::Unsigned(30),
            )
            &&& !body.contains_key("queries"@) ==> mock_research(b)->Array_0.len() == 0
            &&& !body.contains_key("plan"@) ==> {
                let segments = script->Object_0["segments"@]->Array_0;
                let facts = joined(
                    first_claims(
                        if body.contains_key("research"@) && body["research"@] is Array {
                            body["research"@]->Array_0
                        } else {
                            Seq::empty()
                        },
                    ),
                    " Additionally, "@,
                );
                &&& holds(script, "title"@, JsonView::Text("Demo Video"@))
                &&& segments.len() == 1
                &&& holds(segments[0], "segment_number"@, JsonView::Unsigned(1))
                &&& holds(segments[0], "title"@, JsonView::Text("Demo Video"@))
                &&& holds(
                    segments[0],
                    "narration_text"@,
                    JsonView::Text("Welcome to "@ + "Demo Video"@ + ". "@ + facts),
                )
                &&& holds(segments[0], "estimated_duration_seconds"@, JsonView::Unsigned(30))
                &&& holds(segments[0], "visual_notes"@, JsonView::Text("default visuals"@))
            }
            &&& !body.contains_key("segments"@) ==> {
                &&& mock_tts(b)->Object_0["segment_files"@]->Array_0.len() == 0
                &&& mock_validation(b)->Object_0["segments"@]->Array_0.len() == 0
                &&& spoken_parts(b).len() == 0
                &&& holds(mock_captions(b), "cue_count"@, JsonView::Unsigned(0))
            }
        }),
{
    lemma_names_differ();
    lemma_plan_names_differ();
}

/// A segment is silent for as long as it should be spoken, and for ten seconds
/// where that is not said; the silence goes to its own file.
pub proof fn law_how_silence_is_made(seg: JsonView, path: Seq<char>, seconds: u64)
    ensures
        holds(seg, "estimated_duration_seconds"@, JsonView::Unsigned(seconds)) ==> silent_seconds(
            seg,
        ) == seconds,
        seg is Object && !seg->Object_0.contains_key("estimated_duration_seconds"@)
            ==> silent_seconds(seg) == 10,
        ({
            let args = silence_command(path, seconds);
            &&& args.len() == 10
            &&& args[0] == "-y"@
            &&& args[1] == "-f"@
            &&& args[2] == "lavfi"@
            &&& args[3] == "-i"@
            &&& args[4] == "anullsrc=r=44100:cl=mono"@
            &&& args[5] == "-t"@
            &&& args[6] == decimal(seconds as nat)
            &&& args[7] == "-c:a"@
            &&& args[8] == "pcm_s16le"@
            &&& args[9] == path
        }),
{
}

/// Where a planned or a scripted segment leaves something out, the usual stands
/// in for it.
pub proof fn law_the_usual_stands_in_for_segments(
    title: Seq<char>,
    facts: Seq<char>,
    dir: Seq<char>,
    seg: Map<Seq<char>, JsonView>,
    body: JsonView,
    segments: Seq<JsonView>,
    i: int,
)
    ensures
        ({
            let v = JsonView::Object(seg);
            let words = scripted(title, facts, v);
            let file = spoken_segment(dir, v);
            let heard = matching_transcript(v);
            let listed = holds(body, "segments"@, JsonView::Array(segments)) && 0 <= i
                < segments.len() && segments[i] == v;
            &&& !seg.contains_key("segment_number"@) ==> {
                &&& holds(words, "segment_number"@, JsonView::Unsigned(1))
                &&& holds(file, "segment_number"@, JsonView::Unsigned(1))
                &&& holds(heard, "segment_number"@, JsonView::Unsigned(1))
                &&& holds(
                    file,
                    "file_path"@,
                    JsonView::Text(dir + "/seg"@ + zero_padded(1, 3) + ".wav"@),
                )
                &&& !seg.contains_key("description"@) ==> holds(
                    words,
                    "narration_text"@,
                    JsonView::Text(
                        "Welcome to "@ + title + ". Today we explore "@ + ""@ + ". "@ + facts,
                    ),
                )
            }
            &&& !seg.contains_key("title"@) ==> holds(words, "title"@, JsonView::Text("Segment"@))
            &&& !seg.contains_key("duration_seconds"@) ==> holds(
                words,
                "estimated_duration_seconds"@,
                JsonView::Unsigned(15),
            )
            &&& !seg.contains_key("visual_style"@) ==> holds(
                words,
                "visual_notes"@,
                JsonView::Text("Show "@ + "default"@ + " visuals"@),
            )
            &&& !seg.contains_key("expected_text"@) ==> holds(
                heard,
                "transcript"@,
                JsonView::Text(""@),
            )
            &&& listed && !seg.contains_key("narration_text"@) ==> spoken_parts(body)[i].text
                == "..."@
            &&& listed && !seg.contains_key("estimated_duration_seconds"@) ==> spoken_parts(
                body,
            )[i].seconds == 10
        }),
{
    lemma_names_differ();
    lemma_plan_names_differ();
    if holds(body, "segments"@, JsonView::Array(segments)) && 0 <= i < segments.len() {
        assert(body.at("segments"@).items() == segments);
    }
}

/// Where a plan or a request has no name of a job, the job is the demo.
pub proof fn law_the_demo_stands_in_for_jobs(body: Map<Seq<char>, JsonView>, i: int, q: JsonView)
    ensures
        ({
            let b = JsonView::Object(body);
            &&& !body.contains_key("job_id"@) ==> {
                &&& holds(mock_validation(b), "job_id"@, JsonView::Text("demo"@))
                &&& holds(mock_captions(b), "job_id"@, JsonView::Text("demo"@))
                &&& tts_dir(b) == "./data/demo/tts/"@ + "demo"@
                &&& captions_dir(b) == "./data/demo/captions/"@ + "demo"@
            }
            &&& !body.contains_key("plan"@) ==> holds(
                mock_script(b),
                "job_id"@,
                JsonView::Text("demo"@),
            ) && holds(mock_script(b), "total_duration_seconds"@, JsonView::Unsigned(30))
            &&& body.contains_key("queries"@) && body["queries"@] is Array && 0 <= i
                < body["queries"@]->Array_0.len() && !(body["queries"@]->Array_0[i] is Text)
                ==> holds(
                mock_research(b)->Array_0[i],
                "query"@,
                JsonView::Text("unknown query"@),
            )
        }),
{
    lemma_names_differ();
    lemma_plan_names_differ();
}

} // verus!
