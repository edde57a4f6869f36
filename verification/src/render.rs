//! Render: assembles the final video from audio segments and images.

use crate::json::{holds, Json, JsonView};
use crate::paths::{
    extension, extension_of, file_name, file_name_of, join_path, joined_path, lacks,
    law_extensions, law_file_names, law_joining_paths,
};
use crate::text::{plus, same_text};
use vstd::prelude::*;
use vstd::string::*;

verus! {

/// What is to be put together.
#[derive(Debug)]
pub struct RenderRequest {
    pub job_id: String,
    pub audio_files: Vec<String>,
    pub image_files: Vec<String>,
}

/// What the render stage answers.
#[derive(Debug)]
pub struct RenderResult {
    pub job_id: String,
    pub output_path: String,
    pub format: String,
}

/// The result of a render as JSON.
pub open spec fn result_json(
    job_id: Seq<char>,
    output_path: Seq<char>,
    format: Seq<char>,
) -> JsonView {
    JsonView::Object(
        map![
            "job_id"@ => JsonView::Text(job_id),
            "output_path"@ => JsonView::Text(output_path),
            "format"@ => JsonView::Text(format),
        ],
    )
}

impl RenderResult {
    /// The result as JSON.
    pub fn body(&self) -> (r: Json)
        ensures
            r@ == result_json(self.job_id@, self.output_path@, self.format@),
    {
        Json::object().with("job_id", Json::text(self.job_id.as_str())).with(
            "output_path",
            Json::text(self.output_path.as_str()),
        ).with("format", Json::text(self.format.as_str()))
    }
}

/// The steps of a render: the audio is joined where there is any, and a
/// slideshow is made where there are images.
#[derive(Debug)]
pub struct RenderPlan {
    pub audio_path: String,
    pub join_audio: bool,
    /// The video, where there is to be one.
    pub video_path: Option<String>,
    /// Frames per second of the slideshow.
    pub fps: u32,
}

/// The joined audio of a job, in the output directory.
pub open spec fn audio_output(output_dir: Seq<char>, job_id: Seq<char>) -> Seq<char> {
    joined_path(output_dir, job_id + "_audio.mp3"@)
}

/// The video of a job, in the output directory.
pub open spec fn video_output(output_dir: Seq<char>, job_id: Seq<char>) -> Seq<char> {
    joined_path(output_dir, job_id + ".mp4"@)
}

/// Plan a render.
pub fn plan_render(req: &RenderRequest, output_dir: &str) -> (r: RenderPlan)
    ensures
        r.audio_path@ == audio_output(output_dir@, req.job_id@),
        r.join_audio == (req.audio_files@.len() > 0),
        match r.video_path {
            Some(path) => req.image_files@.len() > 0 && path@ == video_output(
                output_dir@,
                req.job_id@,
            ),
            None => req.image_files@.len() == 0,
        },
        r.fps == 30,
{
    let video_path = if req.image_files.len() > 0 {
        Some(join_path(output_dir, plus(req.job_id.clone(), ".mp4").as_str()))
    } else {
        None
    };
    RenderPlan {
        audio_path: join_path(output_dir, plus(req.job_id.clone(), "_audio.mp3").as_str()),
        join_audio: req.audio_files.len() > 0,
        video_path,
        fps: 30,
    }
}

/// The format of a rendered file, by the extension of its name.
pub open spec fn format_of(path: Seq<char>) -> Seq<char> {
    if extension(file_name(path)) == Some("mp4"@) {
        "mp4"@
    } else {
        "mp3"@
    }
}

/// Tell the format of a rendered file by the extension of its name.
pub fn media_format(path: &str) -> (r: &'static str)
    ensures
        r@ == format_of(path@),
{
    match extension_of(file_name_of(path).as_str()) {
        Some(e) => {
            if same_text(e.as_str(), "mp4") {
                "mp4"
            } else {
                "mp3"
            }
        },
        None => "mp3",
    }
}

/// The file that a render makes: the video where there are images, and otherwise
/// the audio.
pub open spec fn rendered_file(output_dir: Seq<char>, job_id: Seq<char>, images: nat) -> Seq<char> {
    if images > 0 {
        video_output(output_dir, job_id)
    } else {
        audio_output(output_dir, job_id)
    }
}

/// Whether all steps that were planned have succeeded.
pub open spec fn rendered(audio: nat, images: nat, joined: bool, shown: bool) -> bool {
    (audio == 0 || joined) && (images == 0 || shown)
}

/// Answer a request to render into the output directory. `joined` and `shown`
/// say whether the steps that were planned have succeeded; a step that failed
/// is answered with 500.
pub fn render_video(req: &RenderRequest, output_dir: &str, joined: bool, shown: bool) -> (r: Result<
    RenderResult,
    u16,
>)
    ensures
        if !rendered(req.audio_files@.len(), req.image_files@.len(), joined, shown) {
            r == Err::<RenderResult, u16>(500)
        } else {
            let path = rendered_file(output_dir@, req.job_id@, req.image_files@.len());
            r matches Ok(result) && result.job_id@ == req.job_id@ && result.output_path@ == path
                && result.format@ == format_of(path)
        },
{
    if req.audio_files.len() > 0 && !joined {
        return Err(500);
    }
    if req.image_files.len() > 0 && !shown {
        return Err(500);
    }
    let plan = plan_render(req, output_dir);
    let output_path = match plan.video_path {
        Some(path) => path,
        None => plan.audio_path,
    };
    let format = media_format(output_path.as_str()).to_string();
    Ok(RenderResult { job_id: req.job_id.clone(), output_path, format })
}

/// The audio and the video of a job are in the output directory, under the name
/// of the job, and are told apart by their format.
pub proof fn law_renders_are_named_after_their_job(dir: Seq<char>, job_id: Seq<char>)
    requires
        lacks(job_id, '/'),
        job_id.len() > 0,
    ensures
        dir.len() > 0 && dir[dir.len() - 1] != '/' ==> {
            &&& video_output(dir, job_id) == dir.push('/') + (job_id + ".mp4"@)
            &&& audio_output(dir, job_id) == dir.push('/') + (job_id + "_audio.mp3"@)
            &&& format_of(video_output(dir, job_id)) == "mp4"@
            &&& format_of(audio_output(dir, job_id)) == "mp3"@
        },
{
    let video = job_id + ".mp4"@;
    let audio = job_id + "_audio.mp3"@;
    reveal_strlit(".mp4");
    reveal_strlit("mp4");
    reveal_strlit("_audio.mp3");
    reveal_strlit("mp3");
    assert(video[0] == job_id[0] && audio[0] == job_id[0]);
    law_joining_paths(dir, video);
    law_joining_paths(dir, audio);
    assert(lacks(video, '/')) by {
        assert forall|i: int| 0 <= i < video.len() implies (#[trigger] video[i]) != '/' by {
            if i < job_id.len() {
                assert(video[i] == job_id[i]);
            } else {
                assert(video[i] == ".mp4"@[i - job_id.len()]);
            }
        }
    }
    assert(lacks(audio, '/')) by {
        assert forall|i: int| 0 <= i < audio.len() implies (#[trigger] audio[i]) != '/' by {
            if i < job_id.len() {
                assert(audio[i] == job_id[i]);
            } else {
                assert(audio[i] == "_audio.mp3"@[i - job_id.len()]);
            }
        }
    }
    law_file_names(dir, video);
    law_file_names(dir, audio);
    let stem = job_id + seq!['_', 'a', 'u', 'd', 'i', 'o'];
    assert(video =~= job_id.push('.') + "mp4"@);
    assert(audio =~= stem.push('.') + "mp3"@);
    assert(lacks("mp4"@, '.'));
    assert(lacks("mp3"@, '.'));
    law_extensions(job_id, "mp4"@);
    law_extensions(stem, "mp3"@);
    assert("mp3"@[2] != "mp4"@[2]);
}

/// Every file whose name ends in `.mp4` behind something is a video, and every
/// other an audio file.
pub proof fn law_formats(path: Seq<char>)
    ensures
        format_of(path) == "mp4"@ || format_of(path) == "mp3"@,
        format_of(path) == "mp4"@ <==> extension(file_name(path)) == Some("mp4"@),
{
    reveal_strlit("mp4");
    reveal_strlit("mp3");
    assert("mp3"@[2] != "mp4"@[2]);
}

/// The result of a render is written with each part under its own name.
pub proof fn law_results_are_written_whole(
    job_id: Seq<char>,
    output_path: Seq<char>,
    format: Seq<char>,
)
    ensures
        holds(result_json(job_id, output_path, format), "job_id"@, JsonView::Text(job_id)),
        holds(
            result_json(job_id, output_path, format),
            "output_path"@,
            JsonView::Text(output_path),
        ),
        holds(result_json(job_id, output_path, format), "format"@, JsonView::Text(format)),
{
    reveal_strlit("job_id");
    reveal_strlit("output_path");
    reveal_strlit("format");
    assert("job_id"@.len() == 6 && "job_id"@[0] == 'j');
    assert("format"@.len() == 6 && "format"@[0] == 'f');
    assert("output_path"@.len() == 11);
}

/// A render with images makes the video, and one without makes the audio; it
/// fails where a step fails for which there was something to do, and in no other
/// case.
pub proof fn law_what_is_rendered(
    output_dir: Seq<char>,
    job_id: Seq<char>,
    audio: nat,
    images: nat,
    joined: bool,
    shown: bool,
)
    ensures
        rendered_file(output_dir, job_id, 0) == audio_output(output_dir, job_id),
        images > 0 ==> rendered_file(output_dir, job_id, images) == video_output(
            output_dir,
            job_id,
        ),
        rendered(audio, images, true, true),
        rendered(0, 0, joined, shown),
        rendered(0, images, joined, true),
        rendered(audio, 0, true, shown),
        audio > 0 ==> !rendered(audio, images, false, shown),
        images > 0 ==> !rendered(audio, images, joined, false),
{
}

} // verus!
