//! Mock implementation of the render and QA services: how a video is put
//! together with ffmpeg, and what is reported of it.

use crate::ffmpeg::concat_audio_args;
use crate::json::{holds, items_view, Json, JsonView};
use crate::registry::text_view;
use crate::text::{
    decimal, decimal_text, law_numbers_are_read_back, law_replacing, plus, replace, replaced,
    strings, views, zero_padded, zero_padded_text,
};
use vstd::prelude::*;
use vstd::string::*;

verus! {

/// Where the clips and the video of a job go.
pub open spec fn render_dir(body: JsonView) -> Seq<char> {
    "./data/demo/renders/"@ + body.at("job_id"@).text_or("demo"@)
}

/// The video of a job.
pub open spec fn output_path(body: JsonView) -> Seq<char> {
    render_dir(body) + "/final.mp4"@
}

/// Write where the clips and the video of a job go.
pub fn render_directory(body: &Json) -> (r: String)
    ensures
        r@ == render_dir(body@),
{
    plus("./data/demo/renders/".to_string(), body.text_at("job_id", "demo"))
}

/// Write where the video of a job goes.
pub fn video_path(body: &Json) -> (r: String)
    ensures
        r@ == output_path(body@),
{
    plus(render_directory(body), "/final.mp4")
}

/// The texts among some values, in order.
pub open spec fn texts_among(items: Seq<JsonView>) -> Seq<Seq<char>>
    decreases items.len(),
{
    if items.len() == 0 {
        Seq::empty()
    } else {
        match items.last() {
            JsonView::Text(s) => texts_among(items.drop_last()).push(s),
            _ => texts_among(items.drop_last()),
        }
    }
}

/// The audio files that a request names.
pub fn audio_candidates(body: &Json) -> (r: Vec<String>)
    ensures
        views(r@) == texts_among(body@.at("audio_files"@).items()),
{
    let ghost all = body@.at("audio_files"@).items();
    let mut r: Vec<String> = Vec::new();
    assert(views(r@) =~= texts_among(all.take(0)));
    match body.array_at("audio_files") {
        Some(items) => {
            let mut i: usize = 0;
            while i < items.len()
                invariant
                    i <= items@.len(),
                    all == items_view(items@),
                    views(r@) == texts_among(all.take(i as int)),
                decreases items.len() - i,
            {
                let ghost before = r@;
                assert(all.take(i as int + 1).drop_last() =~= all.take(i as int));
                assert(all[i as int] == items@[i as int]@);
                match &items[i] {
                    Json::Text(s) => {
                        r.push(s.clone());
                        assert(views(r@) =~= views(before).push(s@));
                    },
                    _ => {},
                }
                i += 1;
            }
            assert(all.take(i as int) =~= all);
        },
        None => {
            assert(all.take(0) =~= all);
        },
    }
    r
}

/// A clip to be rendered for an audio file.
#[derive(Debug)]
pub struct Clip {
    pub audio: String,
    pub path: String,
    /// The title of the segment.
    pub title: String,
    /// Whether the clip is the title card, rather than content with subtitles.
    pub intro: bool,
}

/// What a [`Clip`] says.
pub struct ClipView {
    pub audio: Seq<char>,
    pub path: Seq<char>,
    pub title: Seq<char>,
    pub intro: bool,
}

impl View for Clip {
    type V = ClipView;

    open spec fn view(&self) -> ClipView {
        ClipView {
            audio: self.audio@,
            path: self.path@,
            title: self.title@,
            intro: self.intro,
        }
    }
}

/// The title of a segment, where the request has that segment with a title.
pub open spec fn clip_title(segments: Seq<JsonView>, i: int) -> Seq<char> {
    if i < segments.len() {
        segments[i].at("title"@).text_or("Segment"@)
    } else {
        "Segment"@
    }
}

/// The clip for an audio file. The first one is the title card.
pub open spec fn clip(body: JsonView, audio: Seq<char>, i: int) -> ClipView {
    ClipView {
        audio,
        path: render_dir(body) + "/clip_"@ + zero_padded(i as nat, 3) + ".mp4"@,
        title: clip_title(body.at("segments"@).items(), i),
        intro: i == 0,
    }
}

/// The clips to be rendered for the audio files that are there, one for each.
pub fn clips(body: &Json, audio_paths: &Vec<String>) -> (r: Vec<Clip>)
    ensures
        r@.len() == audio_paths@.len(),
        forall|i: int|
            0 <= i < r@.len() ==> (#[trigger] r@[i])@ == clip(body@, audio_paths@[i]@, i),
{
    let dir = render_directory(body);
    let mut r: Vec<Clip> = Vec::new();
    let ghost all = body@.at("segments"@).items();
    let mut i: usize = 0;
    while i < audio_paths.len()
        invariant
            i <= audio_paths@.len(),
            dir@ == render_dir(body@),
            all == body@.at("segments"@).items(),
            r@.len() == i,
            forall|j: int|
                0 <= j < i ==> (#[trigger] r@[j])@ == clip(body@, audio_paths@[j]@, j),
        decreases audio_paths.len() - i,
    {
        let title = match body.array_at("segments") {
            Some(segments) => {
                assert(all == items_view(segments@));
                assert(all.len() == segments@.len());
                if i < segments.len() {
                    assert(all[i as int] == segments@[i as int]@);
                    segments[i].text_at("title", "Segment").to_string()
                } else {
                    "Segment".to_string()
                }
            },
            None => "Segment".to_string(),
        };
        let number = zero_padded_text(i as u64, 3);
        let path = plus(
            plus(plus(dir.clone(), "/clip_"), number.as_str()),
            ".mp4",
        );
        r.push(Clip { audio: audio_paths[i].clone(), path, title, intro: i == 0 });
        i += 1;
    }
    r
}

/// A text for ffmpeg's drawtext, with single quotes escaped.
pub open spec fn drawn(text: Seq<char>) -> Seq<char> {
    replaced(text, '\'', "'\\''"@)
}

/// The picture of a title card: a dark background with a large centered title
/// and a subtitle.
pub open spec fn title_filter(title: Seq<char>, subtitle: Seq<char>) -> Seq<char> {
    "color=c=0x0f0f23:s=1920x1080:r=30,drawtext=text='"@ + drawn(title)
        + "':fontsize=72:fontcolor=white:x=(w-text_w)/2:y=(h-text_h)/2-60,drawtext=text='"@
        + drawn(subtitle) + "':fontsize=36:fontcolor=0xaaaaaa:x=(w-text_w)/2:y=(h/2)+40[v]"@
}

/// How ffmpeg renders a title card.
pub open spec fn title_card(
    audio: Seq<char>,
    title: Seq<char>,
    subtitle: Seq<char>,
    out: Seq<char>,
) -> Seq<Seq<char>> {
    seq![
        "-y"@,
        "-i"@,
        audio,
        "-filter_complex"@,
        title_filter(title, subtitle),
        "-map"@,
        "[v]"@,
        "-map"@,
        "0:a"@,
        "-shortest"@,
        "-c:v"@,
        "libx264"@,
        "-preset"@,
        "ultrafast"@,
        "-c:a"@,
        "aac"@,
        "-b:a"@,
        "128k"@,
        "-pix_fmt"@,
        "yuv420p"@,
        out,
    ]
}

/// Say how ffmpeg renders the intro segment: dark background with large
/// centered title and subtitle.
pub fn render_title_card(audio_path: &str, title: &str, subtitle: &str, out: &str) -> (r: Vec<
    String,
>)
    ensures
        views(r@) == title_card(audio_path@, title@, subtitle@, out@),
{
    let filter = plus(
        "color=c=0x0f0f23:s=1920x1080:r=30,drawtext=text='".to_string(),
        replace(title, '\'', "'\\''").as_str(),
    );
    let filter = plus(
        filter,
        "':fontsize=72:fontcolor=white:x=(w-text_w)/2:y=(h-text_h)/2-60,drawtext=text='",
    );
    let filter = plus(filter, replace(subtitle, '\'', "'\\''").as_str());
    let filter = plus(
        filter,
        "':fontsize=36:fontcolor=0xaaaaaa:x=(w-text_w)/2:y=(h/2)+40[v]",
    );
    let r = strings(
        vec![
            "-y",
            "-i",
            audio_path,
            "-filter_complex",
            filter.as_str(),
            "-map",
            "[v]",
            "-map",
            "0:a",
            "-shortest",
            "-c:v",
            "libx264",
            "-preset",
            "ultrafast",
            "-c:a",
            "aac",
            "-b:a",
            "128k",
            "-pix_fmt",
            "yuv420p",
            out,
        ],
    );
    assert(views(r@) =~= title_card(audio_path@, title@, subtitle@, out@));
    r
}

/// The filter that burns subtitles in.
pub open spec fn subtitle_filter(path: Seq<char>) -> Seq<char> {
    "subtitles='"@ + replaced(path, ':', "\\:"@)
        + "':force_style='FontSize=32,FontName=Arial,PrimaryColour=&H00FFFFFF,OutlineColour=&H00000000,Outline=2,MarginV=50'"@
}

/// How ffmpeg renders a content segment: the subtitles are burned in where
/// there are any.
pub open spec fn content_segment(
    audio: Seq<char>,
    subtitles: Option<Seq<char>>,
    out: Seq<char>,
) -> Seq<Seq<char>> {
    let start = seq![
        "-y"@,
        "-i"@,
        audio,
        "-f"@,
        "lavfi"@,
        "-i"@,
        "color=c=0x1a1a2e:s=1920x1080:r=30"@,
        "-shortest"@,
    ];
    let middle = match subtitles {
        Some(path) => seq!["-vf"@, subtitle_filter(path)],
        None => Seq::empty(),
    };
    let end = seq![
        "-c:v"@,
        "libx264"@,
        "-preset"@,
        "ultrafast"@,
        "-c:a"@,
        "aac"@,
        "-b:a"@,
        "128k"@,
        "-pix_fmt"@,
        "yuv420p"@,
        out,
    ];
    start + middle + end
}

/// The subtitles to burn in: the caption file under its full name, where the
/// request gives one and it is there.
pub open spec fn burned(srt_path: Seq<char>, full_path: Option<Seq<char>>) -> Option<Seq<char>> {
    if srt_path.len() == 0 {
        None
    } else {
        full_path
    }
}

/// Say how ffmpeg renders a content segment: dark background with subtitles
/// burned in. `full_path` is the full name of the caption file, where that is
/// there.
pub fn render_content_segment(
    audio_path: &str,
    srt_path: &str,
    full_path: &Option<String>,
    out: &str,
) -> (r: Vec<String>)
    ensures
        views(r@) == content_segment(
            audio_path@,
            burned(srt_path@, text_view(*full_path)),
            out@,
        ),
{
    let ghost goal = content_segment(
        audio_path@,
        burned(srt_path@, text_view(*full_path)),
        out@,
    );
    let mut list = vec![
        "-y",
        "-i",
        audio_path,
        "-f",
        "lavfi",
        "-i",
        "color=c=0x1a1a2e:s=1920x1080:r=30",
        "-shortest",
    ];
    let mut filter = String::new();
    let mut burn = false;
    if srt_path.unicode_len() > 0 {
        match full_path {
            Some(path) => {
                filter = plus("subtitles='".to_string(), replace(path.as_str(), ':', "\\:").as_str());
                filter = plus(
                    filter,
                    "':force_style='FontSize=32,FontName=Arial,PrimaryColour=&H00FFFFFF,OutlineColour=&H00000000,Outline=2,MarginV=50'",
                );
                burn = true;
            },
            None => {},
        }
    }
    if burn {
        list.push("-vf");
        list.push(filter.as_str());
    }
    list.push("-c:v");
    list.push("libx264");
    list.push("-preset");
    list.push("ultrafast");
    list.push("-c:a");
    list.push("aac");
    list.push("-b:a");
    list.push("128k");
    list.push("-pix_fmt");
    list.push("yuv420p");
    list.push(out);
    let r = strings(list);
    assert(views(r@) =~= goal);
    r
}

/// How ffmpeg renders a clip: the title card for the introduction, with the title
/// of the video and that of the segment, and content with subtitles otherwise.
pub open spec fn clip_command(
    body: JsonView,
    clip: ClipView,
    full_path: Option<Seq<char>>,
) -> Seq<Seq<char>> {
    if clip.intro {
        title_card(clip.audio, body.at("title"@).text_or("Demo Video"@), clip.title, clip.path)
    } else {
        content_segment(
            clip.audio,
            burned(body.at("srt_path"@).text_or(""@), full_path),
            clip.path,
        )
    }
}

/// Write the path of the caption file that a request names; empty, where it
/// names none.
pub fn caption_file(body: &Json) -> (r: &str)
    ensures
        r@ == body@.at("srt_path"@).text_or(""@),
{
    body.text_at("srt_path", "")
}

/// Say how ffmpeg renders a clip. `full_path` is the full name of the caption
/// file, where that is there.
pub fn clip_args(body: &Json, clip: &Clip, full_path: &Option<String>) -> (r: Vec<String>)
    ensures
        views(r@) == clip_command(body@, clip@, text_view(*full_path)),
{
    if clip.intro {
        render_title_card(
            clip.audio.as_str(),
            body.text_at("title", "Demo Video"),
            clip.title.as_str(),
            clip.path.as_str(),
        )
    } else {
        render_content_segment(
            clip.audio.as_str(),
            caption_file(body),
            full_path,
            clip.path.as_str(),
        )
    }
}

/// How ffmpeg renders a video of five seconds without content.
pub open spec fn placeholder(out: Seq<char>) -> Seq<Seq<char>> {
    seq![
        "-y"@,
        "-f"@,
        "lavfi"@,
        "-i"@,
        "color=c=0x1a1a2e:s=1920x1080:r=30:d=5"@,
        "-f"@,
        "lavfi"@,
        "-i"@,
        "anullsrc=r=44100:cl=stereo"@,
        "-shortest"@,
        "-c:v"@,
        "libx264"@,
        "-preset"@,
        "ultrafast"@,
        "-c:a"@,
        "aac"@,
        "-pix_fmt"@,
        "yuv420p"@,
        out,
    ]
}

/// Say how ffmpeg renders a minimal placeholder video.
pub fn render_placeholder(out: &str) -> (r: Vec<String>)
    ensures
        views(r@) == placeholder(out@),
{
    let r = strings(
        vec![
            "-y",
            "-f",
            "lavfi",
            "-i",
            "color=c=0x1a1a2e:s=1920x1080:r=30:d=5",
            "-f",
            "lavfi",
            "-i",
            "anullsrc=r=44100:cl=stereo",
            "-shortest",
            "-c:v",
            "libx264",
            "-preset",
            "ultrafast",
            "-c:a",
            "aac",
            "-pix_fmt",
            "yuv420p",
            out,
        ],
    );
    assert(views(r@) =~= placeholder(out@));
    r
}

/// How the clips that were rendered become the video.
#[derive(Debug)]
pub enum Assembly {
    /// There is none: ffmpeg makes a placeholder, with these arguments.
    Placeholder(Vec<String>),
    /// There is one: it is renamed.
    Rename { from: String, to: String },
    /// They are listed in a file, and ffmpeg joins them, with these arguments.
    Concat { list_path: String, args: Vec<String> },
}

/// Decide how the clips that were rendered become the video.
pub fn assemble(body: &Json, clip_paths: &Vec<String>) -> (r: Assembly)
    ensures
        if clip_paths@.len() == 0 {
            r matches Assembly::Placeholder(args) && views(args@) == placeholder(
                output_path(body@),
            )
        } else if clip_paths@.len() == 1 {
            r matches Assembly::Rename { from, to } && from@ == clip_paths@[0]@ && to@
                == output_path(body@)
        } else {
            r matches Assembly::Concat { list_path, args } && list_path@ == render_dir(body@)
                + "/concat.txt"@ && views(args@) == concat_audio_args(list_path@, output_path(body@))
        },
{
    let out = video_path(body);
    if clip_paths.len() == 0 {
        return Assembly::Placeholder(render_placeholder(out.as_str()));
    }
    if clip_paths.len() == 1 {
        return Assembly::Rename { from: clip_paths[0].clone(), to: out };
    }
    let list_path = plus(render_directory(body), "/concat.txt");
    let args = strings(
        vec![
            "-y",
            "-f",
            "concat",
            "-safe",
            "0",
            "-i",
            list_path.as_str(),
            "-c",
            "copy",
            out.as_str(),
        ],
    );
    assert(views(args@) =~= concat_audio_args(list_path@, output_path(body@)));
    Assembly::Concat { list_path, args }
}

/// What the render service answers.
pub open spec fn mock_render(body: JsonView) -> JsonView {
    JsonView::Object(
        map![
            "job_id"@ => JsonView::Text(body.at("job_id"@).text_or("demo"@)),
            "output_path"@ => JsonView::Text(output_path(body)),
            "format"@ => JsonView::Text("mp4"@),
        ],
    )
}

/// Answer a request to render, whatever became of the video.
pub fn render(body: &Json) -> (r: Json)
    ensures
        r@ == mock_render(body@),
{
    Json::object().with("job_id", Json::text(body.text_at("job_id", "demo"))).with(
        "output_path",
        Json::Text(video_path(body)),
    ).with("format", Json::text("mp4"))
}

// ---------------------------------------------------------------------------
// QA
// ---------------------------------------------------------------------------

/// What was measured of a video that ffprobe could read.
#[derive(Debug)]
pub struct Measured {
    /// What ffprobe says.
    pub probe: Json,
    /// The duration that it says ([`probed_duration`]) as a number, zero where
    /// that is none.
    pub duration: Json,
    /// The duration with one decimal.
    pub duration_text: String,
    /// Whether it differs from what is expected by more than two seconds.
    pub off: bool,
}

/// The duration in what ffprobe says, as it writes it.
pub open spec fn duration_in(probe: JsonView) -> Option<Seq<char>> {
    probe.at("format"@).at("duration"@).as_text()
}

/// Find the duration in what ffprobe says.
pub fn probed_duration(probe: &Json) -> (r: Option<&str>)
    ensures
        match r {
            Some(s) => duration_in(probe@) == Some(s@),
            None => duration_in(probe@) is None,
        },
{
    match probe.get("format") {
        Some(format) => match format.get("duration") {
            Some(duration) => duration.as_text(),
            None => None,
        },
        None => None,
    }
}

/// How long a video is expected to be.
pub open spec fn expected_duration(body: JsonView) -> u64 {
    body.at("expected_duration_seconds"@).u64_or(30)
}

/// What is wrong with a video that was measured.
pub open spec fn qa_issues(body: JsonView, duration_text: Seq<char>, off: bool) -> Seq<JsonView> {
    if off {
        seq![
            JsonView::Text(
                "Duration mismatch: expected "@ + decimal(expected_duration(body) as nat)
                    + "s, got "@ + duration_text + "s"@,
            ),
        ]
    } else {
        Seq::empty()
    }
}

pub open spec fn measured_report(body: JsonView, m: Measured) -> JsonView {
    JsonView::Object(
        map![
            "job_id"@ => JsonView::Text(body.at("job_id"@).text_or("demo"@)),
            "passed"@ => JsonView::Bool(!m.off),
            "issues"@ => JsonView::Array(qa_issues(body, m.duration_text@, m.off)),
            "media_info"@ => JsonView::Object(map![
                "duration_seconds"@ => m.duration@,
                "format_name"@ => m.probe@.at("format"@).at("format_name"@),
                "streams"@ => m.probe@.at("streams"@),
            ]),
        ],
    )
}

/// The report on a video that could not be measured takes it to be as expected.
pub open spec fn assumed_report(body: JsonView, expected: JsonView) -> JsonView {
    JsonView::Object(
        map![
            "job_id"@ => JsonView::Text(body.at("job_id"@).text_or("demo"@)),
            "passed"@ => JsonView::Bool(true),
            "issues"@ => JsonView::Array(Seq::empty()),
            "media_info"@ => JsonView::Object(map![
                "duration_seconds"@ => expected,
                "format_name"@ => JsonView::Text("mp4"@),
            ]),
        ],
    )
}

fn member_or_null(v: &Json, name: &str) -> (r: Json)
    ensures
        r@ == v@.at(name@),
{
    match v.get(name) {
        Some(m) => m.copy(),
        None => Json::Null,
    }
}

/// Report on a video. `expected` is the expected duration as a number.
pub fn qa(body: &Json, measured: &Option<Measured>, expected: Json) -> (r: Json)
    ensures
        r@ == match *measured {
            Some(m) => measured_report(body@, m),
            None => assumed_report(body@, expected@),
        },
{
    let job_id = body.text_at("job_id", "demo");
    let mut issues: Vec<Json> = Vec::new();
    match measured {
        Some(m) => {
            if m.off {
                let seconds = decimal_text(body.u64_at("expected_duration_seconds", 30));
                let text = plus(
                    plus(
                        plus(
                            plus(
                                "Duration mismatch: expected ".to_string(),
                                seconds.as_str(),
                            ),
                            "s, got ",
                        ),
                        m.duration_text.as_str(),
                    ),
                    "s",
                );
                issues.push(Json::Text(text));
            }
            assert(items_view(issues@) =~= qa_issues(body@, m.duration_text@, m.off));
            let format = member_or_null(&m.probe, "format");
            let info = Json::object().with("duration_seconds", m.duration.copy()).with(
                "format_name",
                member_or_null(&format, "format_name"),
            ).with("streams", member_or_null(&m.probe, "streams"));
            Json::object().with("job_id", Json::text(job_id)).with(
                "passed",
                Json::Bool(!m.off),
            ).with("issues", Json::array(issues)).with("media_info", info)
        },
        None => {
            assert(items_view(issues@) =~= Seq::empty());
            let info = Json::object().with("duration_seconds", expected).with(
                "format_name",
                Json::text("mp4"),
            );
            Json::object().with("job_id", Json::text(job_id)).with(
                "passed",
                Json::Bool(true),
            ).with("issues", Json::array(issues)).with("media_info", info)
        },
    }
}

/// What counts of a [`Clip`] is what it holds, field by field.
pub proof fn law_clips_are_what_they_hold(clip: Clip)
    ensures
        clip@.audio == clip.audio@,
        clip@.path == clip.path@,
        clip@.title == clip.title@,
        clip@.intro == clip.intro,
{
}

/// The audio files of a request are all the texts that it lists, in their order,
/// and nothing else.
pub proof fn law_every_text_is_taken(items: Seq<JsonView>, item: JsonView, i: int)
    ensures
        texts_among(Seq::empty()).len() == 0,
        texts_among(items.push(item)) == if item is Text {
            texts_among(items).push(item->Text_0)
        } else {
            texts_among(items)
        },
        (forall|k: int| 0 <= k < items.len() ==> (#[trigger] items[k]) is Text) ==> {
            &&& texts_among(items).len() == items.len()
            &&& 0 <= i < items.len() ==> JsonView::Text(texts_among(items)[i]) == items[i]
        },
    decreases items.len(),
{
    assert(items.push(item).drop_last() =~= items);
    if (forall|k: int| 0 <= k < items.len() ==> (#[trigger] items[k]) is Text) && items.len() > 0 {
        let rest = items.drop_last();
        assert forall|k: int| 0 <= k < rest.len() implies (#[trigger] rest[k]) is Text by {
            assert(rest[k] == items[k]);
        }
        law_every_text_is_taken(rest, item, i);
        assert(items[items.len() - 1] is Text);
    }
}

/// All that is rendered for a job goes to the directory of that job.
pub proof fn law_renders_go_to_their_job(body: JsonView, job_id: Seq<char>)
    requires
        holds(body, "job_id"@, JsonView::Text(job_id)),
    ensures
        render_dir(body) == "./data/demo/renders/"@ + job_id,
        output_path(body) == "./data/demo/renders/"@ + job_id + "/final.mp4"@,
        holds(mock_render(body), "job_id"@, JsonView::Text(job_id)),
        holds(
            mock_render(body),
            "output_path"@,
            JsonView::Text("./data/demo/renders/"@ + job_id + "/final.mp4"@),
        ),
        holds(mock_render(body), "format"@, JsonView::Text("mp4"@)),
{
    reveal_strlit("job_id");
    reveal_strlit("output_path");
    reveal_strlit("format");
    assert("job_id"@.len() == 6 && "job_id"@[0] == 'j');
    assert("format"@.len() == 6 && "format"@[0] == 'f');
    assert("output_path"@.len() == 11);
}

/// A clip has the audio that it was made for, the title of the segment at its
/// place and a file of its own; the first one is the title card.
pub proof fn law_clips_follow_the_audio(
    body: JsonView,
    segments: Seq<JsonView>,
    audio: Seq<char>,
    i: int,
    j: int,
    title: Seq<char>,
)
    requires
        0 <= i,
        0 <= j,
        holds(body, "segments"@, JsonView::Array(segments)),
    ensures
        clip(body, audio, i).audio == audio,
        clip(body, audio, i).path == render_dir(body) + "/clip_"@ + zero_padded(i as nat, 3)
            + ".mp4"@,
        clip(body, audio, i).intro <==> i == 0,
        i < segments.len() && holds(segments[i], "title"@, JsonView::Text(title)) ==> clip(
            body,
            audio,
            i,
        ).title == title,
        i >= segments.len() ==> clip(body, audio, i).title == "Segment"@,
        i != j ==> clip(body, audio, i).path != clip(body, audio, j).path,
{
    let head = render_dir(body) + "/clip_"@;
    let x = zero_padded(i as nat, 3);
    let y = zero_padded(j as nat, 3);
    law_numbers_are_read_back(i as nat, 0, 3);
    law_numbers_are_read_back(j as nat, 0, 3);
    let p = clip(body, audio, i).path;
    let q = clip(body, audio, j).path;
    if p == q {
        let k = head.len() as int;
        assert(p.len() == k + x.len() + ".mp4"@.len());
        assert(q.len() == k + y.len() + ".mp4"@.len());
        assert(x =~= p.subrange(k, k + x.len()));
        assert(y =~= q.subrange(k, k + y.len()));
        assert(x == y);
    }
}

/// In a text that is drawn each single quote is closed, escaped and opened
/// again, and every other character stands as it is.
pub proof fn law_quotes_are_escaped(a: Seq<char>, x: char, b: Seq<char>)
    ensures
        drawn(Seq::empty()).len() == 0,
        drawn(a + b) == drawn(a) + drawn(b),
        x != '\'' ==> drawn(seq![x]) == seq![x],
        x == '\'' ==> drawn(seq![x]) == "'\\''"@,
{
    law_replacing(a, x, b, '\'', "'\\''"@);
}

/// A title card shows the title and below it the subtitle, as long as its audio
/// lasts.
pub proof fn law_how_a_title_card_is_made(
    audio: Seq<char>,
    title: Seq<char>,
    subtitle: Seq<char>,
    out: Seq<char>,
)
    ensures
        ({
            let args = title_card(audio, title, subtitle, out);
            &&& args.len() == 21
            &&& args[4] == "color=c=0x0f0f23:s=1920x1080:r=30,drawtext=text='"@ + drawn(title)
                + "':fontsize=72:fontcolor=white:x=(w-text_w)/2:y=(h-text_h)/2-60,drawtext=text='"@
                + drawn(subtitle) + "':fontsize=36:fontcolor=0xaaaaaa:x=(w-text_w)/2:y=(h/2)+40[v]"@
            &&& args[0] == "-y"@
            &&& args[1] == "-i"@
            &&& args[2] == audio
            &&& args[3] == "-filter_complex"@
            &&& args[5] == "-map"@
            &&& args[6] == "[v]"@
            &&& args[7] == "-map"@
            &&& args[8] == "0:a"@
            &&& args[9] == "-shortest"@
            &&& args[10] == "-c:v"@
            &&& args[11] == "libx264"@
            &&& args[12] == "-preset"@
            &&& args[13] == "ultrafast"@
            &&& args[14] == "-c:a"@
            &&& args[15] == "aac"@
            &&& args[16] == "-b:a"@
            &&& args[17] == "128k"@
            &&& args[18] == "-pix_fmt"@
            &&& args[19] == "yuv420p"@
            &&& args[20] == out
        }),
{
}

/// A content segment shows its subtitles where there are any, as long as its
/// audio lasts.
pub proof fn law_how_a_content_segment_is_made(
    audio: Seq<char>,
    subtitles: Option<Seq<char>>,
    out: Seq<char>,
)
    ensures
        ({
            let args = content_segment(audio, subtitles, out);
            let n: int = if subtitles is Some {
                10
            } else {
                8
            };
            &&& args.len() == n + 11
            &&& args[0] == "-y"@
            &&& args[1] == "-i"@
            &&& args[2] == audio
            &&& args[3] == "-f"@
            &&& args[4] == "lavfi"@
            &&& args[5] == "-i"@
            &&& args[6] == "color=c=0x1a1a2e:s=1920x1080:r=30"@
            &&& args[7] == "-shortest"@
            &&& subtitles matches Some(path) ==> args[8] == "-vf"@ && args[9] == "subtitles='"@
                + replaced(path, ':', "\\:"@)
                + "':force_style='FontSize=32,FontName=Arial,PrimaryColour=&H00FFFFFF,OutlineColour=&H00000000,Outline=2,MarginV=50'"@
            &&& args[n] == "-c:v"@
            &&& args[n + 1] == "libx264"@
            &&& args[n + 2] == "-preset"@
            &&& args[n + 3] == "ultrafast"@
            &&& args[n + 4] == "-c:a"@
            &&& args[n + 5] == "aac"@
            &&& args[n + 6] == "-b:a"@
            &&& args[n + 7] == "128k"@
            &&& args[n + 8] == "-pix_fmt"@
            &&& args[n + 9] == "yuv420p"@
            &&& args[n + 10] == out
        }),
{
}

/// A video without content is five seconds of one color and silence.
pub proof fn law_how_a_placeholder_is_made(out: Seq<char>)
    ensures
        ({
            let args = placeholder(out);
            &&& args.len() == 19
            &&& args[0] == "-y"@
            &&& args[1] == "-f"@
            &&& args[2] == "lavfi"@
            &&& args[3] == "-i"@
            &&& args[4] == "color=c=0x1a1a2e:s=1920x1080:r=30:d=5"@
            &&& args[5] == "-f"@
            &&& args[6] == "lavfi"@
            &&& args[7] == "-i"@
            &&& args[8] == "anullsrc=r=44100:cl=stereo"@
            &&& args[9] == "-shortest"@
            &&& args[10] == "-c:v"@
            &&& args[11] == "libx264"@
            &&& args[12] == "-preset"@
            &&& args[13] == "ultrafast"@
            &&& args[14] == "-c:a"@
            &&& args[15] == "aac"@
            &&& args[16] == "-pix_fmt"@
            &&& args[17] == "yuv420p"@
            &&& args[18] == out
        }),
{
}

/// The introduction is a title card with the title of the video above that of
/// the segment; any other clip is content with the captions of the request,
/// where it names them and they are there.
pub proof fn law_clips_are_made_by_their_kind(
    body: JsonView,
    clip: ClipView,
    title: Seq<char>,
    srt_path: Seq<char>,
    full_path: Option<Seq<char>>,
)
    requires
        holds(body, "title"@, JsonView::Text(title)),
    ensures
        clip.intro ==> clip_command(body, clip, full_path) == title_card(
            clip.audio,
            title,
            clip.title,
            clip.path,
        ),
        !clip.intro && holds(body, "srt_path"@, JsonView::Text(srt_path)) && srt_path.len() > 0
            ==> clip_command(body, clip, full_path) == content_segment(
            clip.audio,
            full_path,
            clip.path,
        ),
        !clip.intro && !body->Object_0.contains_key("srt_path"@) ==> clip_command(
            body,
            clip,
            full_path,
        ) == content_segment(clip.audio, None, clip.path),
{
    reveal_strlit("");
}

/// A video that was measured passes exactly where its duration is not off, and
/// is told to be off with what was expected and what was measured; the report
/// has what ffprobe says of it.
pub proof fn law_measured_videos(
    body: JsonView,
    job_id: Seq<char>,
    seconds: u64,
    m: Measured,
    format: JsonView,
    format_name: JsonView,
    streams: JsonView,
)
    requires
        holds(body, "job_id"@, JsonView::Text(job_id)),
        holds(body, "expected_duration_seconds"@, JsonView::Unsigned(seconds)),
        holds(m.probe@, "format"@, format),
        holds(format, "format_name"@, format_name),
        holds(m.probe@, "streams"@, streams),
    ensures
        ({
            let report = measured_report(body, m);
            let info = report->Object_0["media_info"@];
            let issues = report->Object_0["issues"@]->Array_0;
            &&& holds(report, "job_id"@, JsonView::Text(job_id))
            &&& holds(report, "passed"@, JsonView::Bool(!m.off))
            &&& report->Object_0["issues"@] is Array
            &&& !m.off ==> issues.len() == 0
            &&& m.off ==> issues.len() == 1 && issues[0] == JsonView::Text(
                "Duration mismatch: expected "@ + decimal(seconds as nat) + "s, got "@
                    + m.duration_text@ + "s"@,
            )
            &&& holds(info, "duration_seconds"@, m.duration@)
            &&& holds(info, "format_name"@, format_name)
            &&& holds(info, "streams"@, streams)
        }),
{
    lemma_report_names_differ();
}

/// A video that could not be measured passes, with the expected duration.
pub proof fn law_unmeasured_videos(body: JsonView, job_id: Seq<char>, expected: JsonView)
    requires
        holds(body, "job_id"@, JsonView::Text(job_id)),
    ensures
        ({
            let report = assumed_report(body, expected);
            let info = report->Object_0["media_info"@];
            &&& holds(report, "job_id"@, JsonView::Text(job_id))
            &&& holds(report, "passed"@, JsonView::Bool(true))
            &&& report->Object_0["issues"@] is Array
            &&& report->Object_0["issues"@]->Array_0.len() == 0
            &&& holds(info, "duration_seconds"@, expected)
            &&& holds(info, "format_name"@, JsonView::Text("mp4"@))
        }),
{
    lemma_report_names_differ();
}

proof fn lemma_report_names_differ()
    ensures
        "job_id"@.len() == 6 && "job_id"@[0] == 'j',
        "passed"@.len() == 6 && "passed"@[0] == 'p',
        "issues"@.len() == 6 && "issues"@[0] == 'i',
        "media_info"@.len() == 10,
        "duration_seconds"@.len() == 16,
        "format_name"@.len() == 11,
        "streams"@.len() == 7,
{
    reveal_strlit("job_id");
    reveal_strlit("passed");
    reveal_strlit("issues");
    reveal_strlit("media_info");
    reveal_strlit("duration_seconds");
    reveal_strlit("format_name");
    reveal_strlit("streams");
}

/// The duration of a video is the text that ffprobe has under its format.
pub proof fn law_durations_are_found(
    probe: JsonView,
    format: Map<Seq<char>, JsonView>,
    duration: Seq<char>,
)
    requires
        holds(probe, "format"@, JsonView::Object(format)),
    ensures
        format.contains_key("duration"@) && format["duration"@] == JsonView::Text(duration)
            ==> duration_in(probe) == Some(duration),
        !format.contains_key("duration"@) ==> duration_in(probe) is None,
{
}

/// Where a request to render or to check leaves something out, the usual stands
/// in for it.
pub proof fn law_the_usual_stands_in(
    body: Map<Seq<char>, JsonView>,
    audio: Seq<char>,
    i: int,
    clip_view: ClipView,
    full_path: Option<Seq<char>>,
    m: Measured,
)
    requires
        0 <= i,
    ensures
        ({
            let b = JsonView::Object(body);
            &&& !body.contains_key("job_id"@) ==> {
                &&& render_dir(b) == "./data/demo/renders/"@ + "demo"@
                &&& holds(mock_render(b), "job_id"@, JsonView::Text("demo"@))
                &&& holds(measured_report(b, m), "job_id"@, JsonView::Text("demo"@))
                &&& holds(assumed_report(b, m.duration@), "job_id"@, JsonView::Text("demo"@))
            }
            &&& !body.contains_key("segments"@) ==> clip(b, audio, i).title == "Segment"@
            &&& body.contains_key("segments"@) && body["segments"@] is Array && i
                < body["segments"@]->Array_0.len() && body["segments"@]->Array_0[i]
                == JsonView::Object(Map::empty()) ==> clip(b, audio, i).title == "Segment"@
            &&& !body.contains_key("title"@) && clip_view.intro ==> clip_command(
                b,
                clip_view,
                full_path,
            ) == title_card(clip_view.audio, "Demo Video"@, clip_view.title, clip_view.path)
            &&& !body.contains_key("expected_duration_seconds"@) ==> expected_duration(b) == 30
        }),
{
    lemma_report_names_differ();
    reveal_strlit("output_path");
    reveal_strlit("format");
    assert("format"@.len() == 6 && "format"@[0] == 'f');
    assert("output_path"@.len() == 11);
}

} // verus!
