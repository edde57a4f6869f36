//! Media rendering and conversion: what ffmpeg is asked to do.

use crate::dispatch::result_view;
use crate::paths::{replace_extension, with_extension};
use crate::text::{
    characters, contains, decimal, decimal_text, find, found, lemma_found, occurs_at, plus,
    signed_decimal, signed_text, strings, views,
};
use vstd::prelude::*;
use vstd::string::*;

verus! {

/// A run of ffmpeg on the files of a list.
#[derive(Debug)]
pub struct ListJob {
    /// The list file, beside the output.
    pub list_path: String,
    /// What the list file holds.
    pub list: String,
    pub args: Vec<String>,
}

/// The lines of a list: each path between the two texts.
pub open spec fn list_lines(paths: Seq<Seq<char>>, before: Seq<char>, behind: Seq<char>) -> Seq<
    char,
>
    decreases paths.len(),
{
    if paths.len() == 0 {
        Seq::empty()
    } else {
        list_lines(paths.drop_last(), before, behind) + (before + paths.last() + behind)
    }
}

fn write_list(paths: &Vec<String>, before: &str, behind: &str) -> (r: String)
    ensures
        r@ == list_lines(views(paths@), before@, behind@),
{
    let ghost all = views(paths@);
    let mut r = String::new();
    let mut i: usize = 0;
    assert(r@ =~= list_lines(all.take(0), before@, behind@));
    while i < paths.len()
        invariant
            i <= paths@.len(),
            all == views(paths@),
            r@ == list_lines(all.take(i as int), before@, behind@),
        decreases paths.len() - i,
    {
        let line = plus(plus(before.to_string(), paths[i].as_str()), behind);
        r.append(line.as_str());
        assert(all.take(i as int + 1).drop_last() =~= all.take(i as int));
        assert(all.take(i as int + 1).last() == paths@[i as int]@);
        i += 1;
    }
    assert(all.take(i as int) =~= all);
    r
}

/// The list of files that ffmpeg's concat demuxer reads.
pub open spec fn file_list(paths: Seq<Seq<char>>) -> Seq<char> {
    list_lines(paths, "file '"@, "'\n"@)
}

/// Write the list of files that ffmpeg's concat demuxer reads.
pub fn concat_list(paths: &Vec<String>) -> (r: String)
    ensures
        r@ == file_list(views(paths@)),
{
    write_list(paths, "file '", "'\n")
}

/// How ffmpeg joins the files of a list.
pub open spec fn concat_audio_args(list_path: Seq<char>, output: Seq<char>) -> Seq<Seq<char>> {
    seq![
        "-y"@,
        "-f"@,
        "concat"@,
        "-safe"@,
        "0"@,
        "-i"@,
        list_path,
        "-c"@,
        "copy"@,
        output,
    ]
}

/// The list file for an output: the output with another extension.
pub fn list_path_of(output: &str, extension: &str) -> (r: String)
    ensures
        r@ == with_extension(output@, extension@),
{
    replace_extension(output, extension)
}

/// What a run of ffmpeg on a list needs: the list file, what it holds, and the
/// arguments.
pub struct ListJobView {
    pub list_path: Seq<char>,
    pub list: Seq<char>,
    pub args: Seq<Seq<char>>,
}

impl View for ListJob {
    type V = ListJobView;

    open spec fn view(&self) -> ListJobView {
        ListJobView { list_path: self.list_path@, list: self.list@, args: views(self.args@) }
    }
}

/// How audio files are joined; why not, where there is none.
pub open spec fn concat_job(inputs: Seq<Seq<char>>, output: Seq<char>) -> Result<
    ListJobView,
    Seq<char>,
> {
    let list_path = with_extension(output, "concat.txt"@);
    if inputs.len() == 0 {
        Err("no input files provided"@)
    } else {
        Ok(
            ListJobView {
                list_path,
                list: file_list(inputs),
                args: concat_audio_args(list_path, output),
            },
        )
    }
}

/// How a slideshow is made; why not, where there is no image.
pub open spec fn slideshow_job(
    images: Seq<Seq<char>>,
    audio: Seq<char>,
    output: Seq<char>,
    fps: u32,
) -> Result<ListJobView, Seq<char>> {
    let list_path = with_extension(output, "images.txt"@);
    if images.len() == 0 {
        Err("no images provided"@)
    } else {
        Ok(
            ListJobView {
                list_path,
                list: image_list(images),
                args: slideshow_args(list_path, audio, output, fps),
            },
        )
    }
}

/// Concatenate audio files using the ffmpeg concat demuxer: what to write to
/// which list file, and how to run ffmpeg. Refused where there is no input.
pub fn concat_audio(inputs: &Vec<String>, output: &str) -> (r: Result<ListJob, String>)
    ensures
        result_view(r) == concat_job(views(inputs@), output@),
{
    if inputs.len() == 0 {
        return Err("no input files provided".to_string());
    }
    let list_path = list_path_of(output, "concat.txt");
    let args = strings(
        vec!["-y", "-f", "concat", "-safe", "0", "-i", list_path.as_str(), "-c", "copy", output],
    );
    assert(views(args@) =~= concat_audio_args(list_path@, output@));
    Ok(ListJob { list_path, list: concat_list(inputs), args })
}

/// How ffmpeg makes a slideshow.
pub open spec fn slideshow_args(
    list_path: Seq<char>,
    audio: Seq<char>,
    output: Seq<char>,
    fps: u32,
) -> Seq<Seq<char>> {
    seq![
        "-y"@,
        "-f"@,
        "concat"@,
        "-safe"@,
        "0"@,
        "-i"@,
        list_path,
        "-i"@,
        audio,
        "-c:v"@,
        "libx264"@,
        "-pix_fmt"@,
        "yuv420p"@,
        "-r"@,
        decimal(fps as nat),
        "-c:a"@,
        "aac"@,
        "-shortest"@,
        output,
    ]
}

/// The list of images, each shown for five seconds.
pub open spec fn image_list(paths: Seq<Seq<char>>) -> Seq<char> {
    list_lines(paths, "file '"@, "'\nduration 5\n"@)
}

/// Render a simple slideshow video from images with an audio track: what to
/// write to which list file, and how to run ffmpeg. Refused where there is no
/// image.
pub fn render_slideshow(
    images: &Vec<String>,
    audio: &str,
    output: &str,
    fps: u32,
) -> (r: Result<ListJob, String>)
    ensures
        result_view(r) == slideshow_job(views(images@), audio@, output@, fps),
{
    if images.len() == 0 {
        return Err("no images provided".to_string());
    }
    let rate = decimal_text(fps as u64);
    let list_path = list_path_of(output, "images.txt");
    let args = strings(
        vec![
            "-y",
            "-f",
            "concat",
            "-safe",
            "0",
            "-i",
            list_path.as_str(),
            "-i",
            audio,
            "-c:v",
            "libx264",
            "-pix_fmt",
            "yuv420p",
            "-r",
            rate.as_str(),
            "-c:a",
            "aac",
            "-shortest",
            output,
        ],
    );
    assert(views(args@) =~= slideshow_args(list_path@, audio@, output@, fps));
    Ok(ListJob { list_path, list: write_list(images, "file '", "'\nduration 5\n"), args })
}

/// An exit code, where the process had one.
pub open spec fn exit_code_text(code: Option<i32>) -> Seq<char> {
    match code {
        Some(c) => "Some("@ + signed_decimal(c as int) + ")"@,
        None => "None"@,
    }
}

/// Why a run of ffmpeg has failed, if it has.
pub open spec fn exit_fault(task: Seq<char>, success: bool, code: Option<i32>) -> Option<
    Seq<char>,
> {
    if success {
        None
    } else {
        Some("ffmpeg "@ + task + " failed with exit code "@ + exit_code_text(code))
    }
}

/// What came of a run of ffmpeg: refused where it did not succeed. `task` is
/// what it was to do.
pub fn exit_result(task: &str, success: bool, code: Option<i32>) -> (r: Result<(), String>)
    ensures
        match r {
            Ok(_) => exit_fault(task@, success, code) is None,
            Err(e) => exit_fault(task@, success, code) == Some(e@),
        },
{
    if success {
        return Ok(());
    }
    let code_text = match code {
        Some(c) => plus(plus("Some(".to_string(), signed_text(c).as_str()), ")"),
        None => "None".to_string(),
    };
    Err(
        plus(
            plus(plus("ffmpeg ".to_string(), task), " failed with exit code "),
            code_text.as_str(),
        ),
    )
}

/// How ffmpeg measures the loudness of a file.
pub open spec fn loudness_command(path: Seq<char>) -> Seq<Seq<char>> {
    seq!["-i"@, path, "-af"@, "loudnorm=print_format=json"@, "-f"@, "null"@, "-"@]
}

/// How ffmpeg measures the loudness of a file.
pub fn loudness_args(path: &str) -> (r: Vec<String>)
    ensures
        views(r@) == loudness_command(path@),
{
    let r = strings(vec!["-i", path, "-af", "loudnorm=print_format=json", "-f", "null", "-"]);
    assert(views(r@) =~= loudness_command(path@));
    r
}

/// The measured loudness in what ffmpeg prints: what stands in quotation marks
/// behind the first colon after the name.
pub open spec fn loudness_in(printed: Seq<char>) -> Option<Seq<char>> {
    match found(printed, "\"input_i\""@, 0) {
        Some(name) => match found(printed, ": \""@, name) {
            Some(colon) => match found(printed, "\""@, colon + 3) {
                Some(end) => Some(printed.subrange(colon + 3, end)),
                None => None,
            },
            None => None,
        },
        None => None,
    }
}

/// Find the measured loudness in what ffmpeg prints.
pub fn loudness_text(printed: &str) -> (r: Option<&str>)
    ensures
        match r {
            Some(s) => loudness_in(printed@) == Some(s@),
            None => loudness_in(printed@) is None,
        },
{
    proof {
        reveal_strlit("\"input_i\"");
        reveal_strlit(": \"");
        reveal_strlit("\"");
    }
    let chars = characters(printed);
    let end: usize = chars.len();
    match find(&chars, "\"input_i\"", 0) {
        Some(name) => match find(&chars, ": \"", name) {
            Some(colon) => {
                assert(colon + 3 <= end);
                match find(&chars, "\"", colon + 3) {
                    Some(stop) => Some(printed.substring_char(colon + 3, stop)),
                    None => None,
                }
            },
            None => None,
        },
        None => None,
    }
}

/// Each path that is added is one more line of a list, behind all others: the
/// file in quotation marks and, for an image, how long it is shown.
pub proof fn law_every_path_is_a_line(paths: Seq<Seq<char>>, path: Seq<char>)
    ensures
        file_list(Seq::empty()).len() == 0,
        file_list(paths.push(path)) == file_list(paths) + ("file '"@ + path + "'\n"@),
        image_list(Seq::empty()).len() == 0,
        image_list(paths.push(path)) == image_list(paths) + ("file '"@ + path
            + "'\nduration 5\n"@),
{
    assert(paths.push(path).drop_last() =~= paths);
}

/// The files of a list are joined as they are, into the output.
pub proof fn law_how_audio_is_joined(list_path: Seq<char>, output: Seq<char>)
    ensures
        ({
            let args = concat_audio_args(list_path, output);
            &&& args.len() == 10
            &&& args[0] == "-y"@
            &&& args[1] == "-f"@
            &&& args[2] == "concat"@
            &&& args[3] == "-safe"@
            &&& args[4] == "0"@
            &&& args[5] == "-i"@
            &&& args[6] == list_path
            &&& args[7] == "-c"@
            &&& args[8] == "copy"@
            &&& args[9] == output
        }),
{
}

/// A slideshow is made of the images of a list and one audio file, as long as
/// the shorter of the two, at so many frames per second, into the output.
pub proof fn law_how_a_slideshow_is_made(
    list_path: Seq<char>,
    audio: Seq<char>,
    output: Seq<char>,
    fps: u32,
)
    ensures
        ({
            let args = slideshow_args(list_path, audio, output, fps);
            &&& args.len() == 19
            &&& args[0] == "-y"@
            &&& args[1] == "-f"@
            &&& args[2] == "concat"@
            &&& args[3] == "-safe"@
            &&& args[4] == "0"@
            &&& args[5] == "-i"@
            &&& args[6] == list_path
            &&& args[7] == "-i"@
            &&& args[8] == audio
            &&& args[9] == "-c:v"@
            &&& args[10] == "libx264"@
            &&& args[11] == "-pix_fmt"@
            &&& args[12] == "yuv420p"@
            &&& args[13] == "-r"@
            &&& args[14] == decimal(fps as nat)
            &&& args[15] == "-c:a"@
            &&& args[16] == "aac"@
            &&& args[17] == "-shortest"@
            &&& args[18] == output
        }),
{
}

/// The loudness that is read is a text without quotation marks that stands in
/// quotation marks behind a colon, behind the name of the measure.
pub proof fn law_the_loudness_is_quoted(printed: Seq<char>, i: int)
    ensures
        loudness_in(printed) matches Some(s) ==> {
            &&& 0 <= i < s.len() ==> s[i] != '"'
            &&& exists|name: int, colon: int| #[trigger]
                occurs_at(printed, "\"input_i\""@, name) && #[trigger] occurs_at(
                    printed,
                    ": \""@ + s + "\""@,
                    colon,
                ) && name <= colon
        },
        !contains(printed, "\"input_i\""@) ==> loudness_in(printed) is None,
{
    let a = "\"input_i\""@;
    let b = ": \""@;
    let c = "\""@;
    reveal_strlit("\"input_i\"");
    reveal_strlit(": \"");
    reveal_strlit("\"");
    assert(c =~= seq!['"']);
    assert(b.len() == 3);
    lemma_found(printed, a, 0);
    if loudness_in(printed) is Some {
        let name = found(printed, a, 0)->0;
        lemma_found(printed, b, name);
        let colon = found(printed, b, name)->0;
        lemma_found(printed, c, colon + 3);
        let end = found(printed, c, colon + 3)->0;
        let s = loudness_in(printed)->0;
        if 0 <= i < s.len() {
            let k = colon + 3 + i;
            assert(!occurs_at(printed, c, k));
            if s[i] == '"' {
                assert(printed.subrange(k, k + 1) =~= c);
            }
        }
        let whole = b + s + c;
        assert(printed.subrange(colon, colon + 3) == b);
        assert(printed.subrange(end, end + 1) == c);
        assert(printed.subrange(colon, colon + whole.len()) =~= whole) by {
            assert forall|k: int| 0 <= k < whole.len() implies printed.subrange(
                colon,
                colon + whole.len(),
            )[k] == whole[k] by {
                if k < 3 {
                    assert(printed.subrange(colon, colon + 3)[k] == b[k]);
                } else if k == whole.len() - 1 {
                    assert(printed.subrange(end, end + 1)[0] == c[0]);
                }
            }
        }
        assert(occurs_at(printed, whole, colon));
        assert(occurs_at(printed, a, name));
    }
}

/// A process that had no exit code is told from one that had.
pub proof fn law_exit_codes(code: i32)
    ensures
        exit_code_text(Some(code)) == "Some("@ + signed_decimal(code as int) + ")"@,
        exit_code_text(None) == "None"@,
{
}

/// A run fails exactly where it did not succeed, and says what it was to do and
/// with which code it ended.
pub proof fn law_failed_runs(task: Seq<char>, code: Option<i32>)
    ensures
        exit_fault(task, true, code) is None,
        exit_fault(task, false, code) == Some(
            "ffmpeg "@ + task + " failed with exit code "@ + exit_code_text(code),
        ),
{
}

/// The loudness is measured of the file itself, and nothing is written.
pub proof fn law_how_loudness_is_measured(path: Seq<char>)
    ensures
        ({
            let args = loudness_command(path);
            &&& args.len() == 7
            &&& args[0] == "-i"@
            &&& args[1] == path
            &&& args[2] == "-af"@
            &&& args[3] == "loudnorm=print_format=json"@
            &&& args[4] == "-f"@
            &&& args[5] == "null"@
            &&& args[6] == "-"@
        }),
{
}

/// Where there is something to put together, the list file stands beside the
/// output and lists all files in order, and ffmpeg is run on it; where there is
/// nothing, nothing is done.
pub proof fn law_list_jobs(
    files: Seq<Seq<char>>,
    audio: Seq<char>,
    output: Seq<char>,
    fps: u32,
)
    ensures
        files.len() == 0 ==> concat_job(files, output) is Err && concat_job(files, output)->Err_0
            == "no input files provided"@ && slideshow_job(files, audio, output, fps) is Err
            && slideshow_job(files, audio, output, fps)->Err_0 == "no images provided"@,
        files.len() > 0 ==> {
            let sound = concat_job(files, output)->Ok_0;
            let show = slideshow_job(files, audio, output, fps)->Ok_0;
            &&& concat_job(files, output) is Ok
            &&& sound.list_path == with_extension(output, "concat.txt"@)
            &&& sound.list == file_list(files)
            &&& sound.args == concat_audio_args(with_extension(output, "concat.txt"@), output)
            &&& slideshow_job(files, audio, output, fps) is Ok
            &&& show.list_path == with_extension(output, "images.txt"@)
            &&& show.list == image_list(files)
            &&& show.args == slideshow_args(
                with_extension(output, "images.txt"@),
                audio,
                output,
                fps,
            )
        },
{
}

/// What counts of a [`ListJob`] is what it holds, field by field.
pub proof fn law_jobs_are_what_they_hold(job: ListJob, i: int)
    ensures
        job@.list_path == job.list_path@,
        job@.list == job.list@,
        job@.args.len() == job.args@.len(),
        0 <= i < job.args@.len() ==> job@.args[i] == job.args@[i]@,
{
}

} // verus!
