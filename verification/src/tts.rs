//! TTS: converts narration script segments into audio files with the help of a
//! speech model.

use crate::json::{holds, Json, JsonView};
use crate::paths::{join_path, joined_path, law_joining_paths};
use crate::pipeline_types::{NarrationScript, ScriptSegment};
use crate::provider_router::ProviderRouter;
use crate::text::{law_numbers_are_read_back, plus, zero_padded, zero_padded_text};
use vstd::prelude::*;
use vstd::string::*;

verus! {

/// The audio files of a script.
#[derive(Debug)]
pub struct TtsResult {
    pub job_id: String,
    pub segment_files: Vec<SegmentAudio>,
}

/// The audio file of a segment.
#[derive(Debug)]
pub struct SegmentAudio {
    pub segment_number: u32,
    pub file_path: String,
}

/// What a [`SegmentAudio`] says.
pub struct SegmentAudioView {
    pub segment_number: u32,
    pub file_path: Seq<char>,
}

impl View for SegmentAudio {
    type V = SegmentAudioView;

    open spec fn view(&self) -> SegmentAudioView {
        SegmentAudioView { segment_number: self.segment_number, file_path: self.file_path@ }
    }
}

/// What is sent to a speech model.
#[derive(Debug)]
pub struct TtsApiRequest {
    pub model: String,
    pub input: String,
    pub voice: String,
    pub response_format: String,
}

/// A request to a speech model as JSON.
pub open spec fn api_json(
    model: Seq<char>,
    input: Seq<char>,
    voice: Seq<char>,
    response_format: Seq<char>,
) -> JsonView {
    JsonView::Object(
        map![
            "model"@ => JsonView::Text(model),
            "input"@ => JsonView::Text(input),
            "voice"@ => JsonView::Text(voice),
            "response_format"@ => JsonView::Text(response_format),
        ],
    )
}

impl TtsApiRequest {
    /// The request as JSON.
    pub fn body(&self) -> (r: Json)
        ensures
            r@ == api_json(self.model@, self.input@, self.voice@, self.response_format@),
    {
        Json::object().with("model", Json::text(self.model.as_str())).with(
            "input",
            Json::text(self.input.as_str()),
        ).with("voice", Json::text(self.voice.as_str())).with(
            "response_format",
            Json::text(self.response_format.as_str()),
        )
    }
}

/// A request to a speech model, and the file for what it answers.
#[derive(Debug)]
pub struct TtsCall {
    pub segment_number: u32,
    pub file_path: String,
    pub request: TtsApiRequest,
}

/// The name of the audio file of a segment.
pub open spec fn audio_file_name(job_id: Seq<char>, segment_number: u32) -> Seq<char> {
    job_id + "_seg"@ + zero_padded(segment_number as nat, 3) + ".mp3"@
}

/// The audio file of a segment, in the output directory.
pub open spec fn audio_path(
    output_dir: Seq<char>,
    job_id: Seq<char>,
    segment_number: u32,
) -> Seq<char> {
    joined_path(output_dir, audio_file_name(job_id, segment_number))
}

fn path_of_audio(output_dir: &str, job_id: &str, segment_number: u32) -> (r: String)
    ensures
        r@ == audio_path(output_dir@, job_id@, segment_number),
{
    let number = zero_padded_text(segment_number as u64, 3);
    let name = plus(plus(plus(job_id.to_string(), "_seg"), number.as_str()), ".mp3");
    join_path(output_dir, name.as_str())
}

/// Whether a call is the one for that segment.
pub open spec fn is_call_for(
    call: TtsCall,
    output_dir: Seq<char>,
    job_id: Seq<char>,
    model: Seq<char>,
    seg: ScriptSegment,
) -> bool {
    &&& call.segment_number == seg.segment_number
    &&& call.file_path@ == audio_path(output_dir, job_id, seg.segment_number)
    &&& call.request.model@ == model
    &&& call.request.input@ == seg.narration_text@
    &&& call.request.voice@ == "alloy"@
    &&& call.request.response_format@ == "mp3"@
}

/// The calls for a script, one for each segment in order. Without a key for the
/// model the service answers 500.
pub fn tts_calls(
    router: &ProviderRouter,
    script: &NarrationScript,
    output_dir: &str,
    has_key: bool,
) -> (r: Result<Vec<TtsCall>, u16>)
    ensures
        if has_key {
            r matches Ok(calls) && calls@.len() == script.segments@.len() && forall|i: int|
                0 <= i < calls@.len() ==> is_call_for(
                    #[trigger] calls@[i],
                    output_dir@,
                    script.job_id@,
                    router@.route("tts"@).model,
                    script.segments@[i],
                )
        } else {
            r == Err::<Vec<TtsCall>, u16>(500)
        },
{
    let route = match router.route_for("tts") {
        Ok(route) => route,
        Err(_) => {
            return Err(500);
        },
    };
    if !has_key {
        return Err(500);
    }
    let mut calls: Vec<TtsCall> = Vec::new();
    let mut i: usize = 0;
    while i < script.segments.len()
        invariant
            i <= script.segments@.len(),
            route.model@ == router@.route("tts"@).model,
            calls@.len() == i,
            forall|j: int|
                0 <= j < i ==> is_call_for(
                    #[trigger] calls@[j],
                    output_dir@,
                    script.job_id@,
                    router@.route("tts"@).model,
                    script.segments@[j],
                ),
        decreases script.segments.len() - i,
    {
        let seg = &script.segments[i];
        calls.push(
            TtsCall {
                segment_number: seg.segment_number,
                file_path: path_of_audio(
                    output_dir,
                    script.job_id.as_str(),
                    seg.segment_number,
                ),
                request: TtsApiRequest {
                    model: route.model.clone(),
                    input: seg.narration_text.clone(),
                    voice: "alloy".to_string(),
                    response_format: "mp3".to_string(),
                },
            },
        );
        i += 1;
    }
    Ok(calls)
}

/// What became of the audio in a response.
#[derive(Debug)]
pub enum Saved {
    /// It could not be read.
    Unread,
    /// It could not be written.
    Unwritten,
    /// It is in the file of its segment.
    Written,
}

/// What came of a call.
#[derive(Debug)]
pub enum CallOutcome {
    /// There was no response.
    Unreachable,
    /// A response with that status code.
    Response { status: u16, saved: Saved },
}

/// The status code to answer with after a call that brought no audio: 502 where
/// the request failed or was refused or its response could not be read, and 500
/// where the audio could not be written.
pub open spec fn call_fault(outcome: CallOutcome) -> Option<u16> {
    match outcome {
        CallOutcome::Unreachable => Some(502),
        CallOutcome::Response { status, saved } => if 200 <= status <= 299 {
            match saved {
                Saved::Unread => Some(502),
                Saved::Unwritten => Some(500),
                Saved::Written => None,
            }
        } else {
            Some(502)
        },
    }
}

fn fault_of(outcome: &CallOutcome) -> (r: Option<u16>)
    ensures
        r == call_fault(*outcome),
{
    match outcome {
        CallOutcome::Unreachable => Some(502),
        CallOutcome::Response { status, saved } => {
            if *status < 200 || *status > 299 {
                return Some(502);
            }
            match saved {
                Saved::Unread => Some(502),
                Saved::Unwritten => Some(500),
                Saved::Written => None,
            }
        },
    }
}

/// Where the first call stands that brought no audio; their number, if all did.
pub open spec fn first_failure(outcomes: Seq<CallOutcome>, i: int) -> int
    decreases outcomes.len() - i,
{
    if i < 0 || i >= outcomes.len() {
        outcomes.len() as int
    } else if call_fault(outcomes[i]) is Some {
        i
    } else {
        first_failure(outcomes, i + 1)
    }
}

/// The call to be made next, by what came of those before: none behind one that
/// brought no audio, and none behind the last segment.
pub open spec fn next_of(calls: nat, outcomes: Seq<CallOutcome>) -> Option<nat> {
    if first_failure(outcomes, 0) < outcomes.len() || outcomes.len() >= calls {
        None
    } else {
        Some(outcomes.len())
    }
}

/// Decide which call is to be made next, by what came of those before. Nothing
/// is requested behind a call that brought no audio.
pub fn next_call(script: &NarrationScript, outcomes: &Vec<CallOutcome>) -> (r: Option<usize>)
    ensures
        match r {
            Some(n) => next_of(script.segments@.len(), outcomes@) == Some(n as nat),
            None => next_of(script.segments@.len(), outcomes@) is None,
        },
{
    let mut i: usize = 0;
    while i < outcomes.len()
        invariant
            i <= outcomes@.len(),
            first_failure(outcomes@, 0) == first_failure(outcomes@, i as int),
        decreases outcomes.len() - i,
    {
        if fault_of(&outcomes[i]).is_some() {
            return None;
        }
        i += 1;
    }
    if outcomes.len() >= script.segments.len() {
        None
    } else {
        Some(outcomes.len())
    }
}

/// Answer for a script, whose audio goes to the output directory, by what came
/// of its calls: those that [`next_call`] asks for, until it asks for no more.
/// Without a key for the model there are none, and the answer is 500; otherwise
/// the first call that brought no audio decides it.
pub fn generate_tts(
    script: &NarrationScript,
    output_dir: &str,
    has_key: bool,
    outcomes: &Vec<CallOutcome>,
) -> (r: Result<TtsResult, u16>)
    requires
        outcomes@.len() <= script.segments@.len(),
        has_key ==> next_of(script.segments@.len(), outcomes@) is None,
    ensures
        ({
            let k = first_failure(outcomes@, 0);
            if !has_key {
                r == Err::<TtsResult, u16>(500)
            } else if k < outcomes@.len() {
                r matches Err(code) && call_fault(outcomes@[k]) == Some(code)
            } else {
                r matches Ok(result) && result.job_id@ == script.job_id@
                    && result.segment_files@.len() == script.segments@.len() && forall|i: int|
                    0 <= i < result.segment_files@.len() ==> (#[trigger] result.segment_files@[i])@
                        == segment_audio(output_dir@, script.job_id@, script.segments@[i])
            }
        }),
{
    if !has_key {
        return Err(500);
    }
    let mut segment_files: Vec<SegmentAudio> = Vec::new();
    let mut i: usize = 0;
    while i < outcomes.len()
        invariant
            has_key,
            i <= outcomes@.len(),
            outcomes@.len() <= script.segments@.len(),
            first_failure(outcomes@, 0) == first_failure(outcomes@, i as int),
            segment_files@.len() == i,
            forall|j: int|
                0 <= j < i ==> (#[trigger] segment_files@[j])@ == segment_audio(
                    output_dir@,
                    script.job_id@,
                    script.segments@[j],
                ),
        decreases outcomes.len() - i,
    {
        match fault_of(&outcomes[i]) {
            Some(code) => {
                return Err(code);
            },
            None => {},
        }
        let number: u32 = script.segments[i].segment_number;
        segment_files.push(
            SegmentAudio {
                segment_number: number,
                file_path: path_of_audio(output_dir, script.job_id.as_str(), number),
            },
        );
        i += 1;
    }
    Ok(TtsResult { job_id: script.job_id.clone(), segment_files })
}

/// The audio file of a segment, as it is reported.
pub open spec fn segment_audio(
    output_dir: Seq<char>,
    job_id: Seq<char>,
    seg: ScriptSegment,
) -> SegmentAudioView {
    SegmentAudioView {
        segment_number: seg.segment_number,
        file_path: audio_path(output_dir, job_id, seg.segment_number),
    }
}

// ---------------------------------------------------------------------------
// Laws
// ---------------------------------------------------------------------------

/// Calls are made one after the other, and none behind one that failed: a call
/// is asked for only where all before it brought audio, and is the one for the
/// next segment. Once the last was made or one has failed, none is asked for.
pub proof fn law_no_call_follows_a_failed_one(
    calls: nat,
    outcomes: Seq<CallOutcome>,
    outcome: CallOutcome,
    i: int,
)
    requires
        0 <= i < outcomes.len(),
    ensures
        call_fault(outcomes[i]) is Some ==> next_of(calls, outcomes) is None && next_of(
            calls,
            outcomes.push(outcome),
        ) is None,
        next_of(calls, outcomes) matches Some(n) ==> n == outcomes.len() && call_fault(outcomes[i])
            is None,
{
    lemma_first_failure(outcomes, 0);
    lemma_first_failure(outcomes.push(outcome), 0);
    assert(outcomes.push(outcome)[i] == outcomes[i]);
}

proof fn lemma_first_failure(outcomes: Seq<CallOutcome>, i: int)
    requires
        0 <= i <= outcomes.len(),
    ensures
        i <= first_failure(outcomes, i) <= outcomes.len(),
        first_failure(outcomes, i) < outcomes.len() ==> call_fault(
            outcomes[first_failure(outcomes, i)],
        ) is Some,
        forall|j: int|
            i <= j < first_failure(outcomes, i) ==> call_fault(#[trigger] outcomes[j]) is None,
    decreases outcomes.len() - i,
{
    if i < outcomes.len() && call_fault(outcomes[i]) is None {
        lemma_first_failure(outcomes, i + 1);
    }
}

/// The file of which a segment's audio is reported is the one to which the call
/// for that segment writes.
pub proof fn law_reported_files_are_those_written(
    call: TtsCall,
    output_dir: Seq<char>,
    job_id: Seq<char>,
    model: Seq<char>,
    seg: ScriptSegment,
)
    requires
        is_call_for(call, output_dir, job_id, model, seg),
    ensures
        segment_audio(output_dir, job_id, seg).file_path == call.file_path@,
        segment_audio(output_dir, job_id, seg).segment_number == call.segment_number,
{
}

/// What counts of a [`SegmentAudio`] is what it holds, field by field.
pub proof fn law_audio_are_what_they_hold(audio: SegmentAudio)
    ensures
        audio@.segment_number == audio.segment_number,
        audio@.file_path == audio.file_path@,
{
}

/// Segments of different numbers have different audio files, all of them in the
/// output directory and named after the job.
pub proof fn law_every_segment_has_its_own_file(
    output_dir: Seq<char>,
    job_id: Seq<char>,
    a: u32,
    b: u32,
)
    requires
        job_id.len() > 0,
        job_id[0] != '/',
        output_dir.len() > 0,
        output_dir[output_dir.len() - 1] != '/',
    ensures
        audio_path(output_dir, job_id, a) == output_dir.push('/') + (job_id + "_seg"@
            + zero_padded(a as nat, 3) + ".mp3"@),
        a != b ==> audio_path(output_dir, job_id, a) != audio_path(output_dir, job_id, b),
{
    let name_a = audio_file_name(job_id, a);
    let name_b = audio_file_name(job_id, b);
    let head = job_id + "_seg"@;
    assert(name_a[0] == job_id[0]);
    assert(name_b[0] == job_id[0]);
    law_joining_paths(output_dir, name_a);
    law_joining_paths(output_dir, name_b);
    let x = zero_padded(a as nat, 3);
    let y = zero_padded(b as nat, 3);
    law_numbers_are_read_back(a as nat, 0, 3);
    law_numbers_are_read_back(b as nat, 0, 3);
    let p = output_dir.push('/') + name_a;
    let q = output_dir.push('/') + name_b;
    if p == q {
        let k = output_dir.len() as int + 1 + head.len();
        assert(p.len() == k + x.len() + ".mp3"@.len());
        assert(q.len() == k + y.len() + ".mp3"@.len());
        assert(x =~= p.subrange(k, k + x.len()));
        assert(y =~= q.subrange(k, k + y.len()));
        assert(x == y);
    }
}

/// A call brought audio exactly where it was answered with a code from 200 to
/// 299 and the audio was written; where it was not, the machine is at fault, and
/// in all other cases the speech model.
pub proof fn law_faults_of_calls(status: u16, saved: Saved)
    ensures
        call_fault(CallOutcome::Unreachable) == Some(502u16),
        !(200 <= status < 300) ==> call_fault(CallOutcome::Response { status, saved }) == Some(
            502u16,
        ),
        200 <= status < 300 ==> {
            &&& call_fault(CallOutcome::Response { status, saved: Saved::Unread }) == Some(502u16)
            &&& call_fault(CallOutcome::Response { status, saved: Saved::Unwritten }) == Some(
                500u16,
            )
            &&& call_fault(CallOutcome::Response { status, saved: Saved::Written }) is None
        },
{
}

/// The first call that brought no audio is found, and none is where all did;
/// then the next segment is called for, as long as there is one.
pub proof fn law_the_first_failure_is_found(calls: nat, outcomes: Seq<CallOutcome>, i: int)
    ensures
        0 <= i < outcomes.len() && call_fault(outcomes[i]) is Some && (forall|j: int|
            0 <= j < i ==> call_fault(#[trigger] outcomes[j]) is None) ==> first_failure(
            outcomes,
            0,
        ) == i,
        (forall|j: int| 0 <= j < outcomes.len() ==> call_fault(#[trigger] outcomes[j]) is None)
            ==> first_failure(outcomes, 0) == outcomes.len() && next_of(calls, outcomes) == if
            outcomes.len() < calls {
            Some(outcomes.len())
        } else {
            None
        },
{
    lemma_first_failure(outcomes, 0);
}

/// What is asked of the speech model is the narration of the segment, in the
/// usual voice and format, and what is reported is its number and its file.
pub proof fn law_calls_speak_the_narration(
    call: TtsCall,
    output_dir: Seq<char>,
    job_id: Seq<char>,
    model: Seq<char>,
    seg: ScriptSegment,
)
    ensures
        is_call_for(call, output_dir, job_id, model, seg) <==> call.request.input@
            == seg.narration_text@ && call.request.model@ == model && call.request.voice@
            == "alloy"@ && call.request.response_format@ == "mp3"@ && call.segment_number
            == seg.segment_number && call.file_path@ == audio_path(
            output_dir,
            job_id,
            seg.segment_number,
        ),
        segment_audio(output_dir, job_id, seg).segment_number == seg.segment_number,
        segment_audio(output_dir, job_id, seg).file_path == audio_path(
            output_dir,
            job_id,
            seg.segment_number,
        ),
{
}

/// A request to a speech model is written with each part under its own name.
pub proof fn law_requests_are_written_whole(
    model: Seq<char>,
    input: Seq<char>,
    voice: Seq<char>,
    response_format: Seq<char>,
)
    ensures
        ({
            let v = api_json(model, input, voice, response_format);
            &&& holds(v, "model"@, JsonView::Text(model))
            &&& holds(v, "input"@, JsonView::Text(input))
            &&& holds(v, "voice"@, JsonView::Text(voice))
            &&& holds(v, "response_format"@, JsonView::Text(response_format))
        }),
{
    reveal_strlit("model");
    reveal_strlit("input");
    reveal_strlit("voice");
    reveal_strlit("response_format");
    assert("model"@.len() == 5 && "model"@[0] == 'm');
    assert("input"@.len() == 5 && "input"@[0] == 'i');
    assert("voice"@.len() == 5 && "voice"@[0] == 'v');
    assert("response_format"@.len() == 15);
}

} // verus!
