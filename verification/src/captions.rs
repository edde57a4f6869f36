//! Captions: SRT caption files from narration scripts, with timing estimates.

use crate::paths::{join_path, joined_path};
use crate::pipeline_types::{NarrationScript, ScriptSegment};
use crate::text::{
    decimal, decimal_text, digits_value, law_decimal_digits, law_numbers_are_read_back,
    law_padding_puts_zeros_before_the_number, plus, zero_padded, zero_padded_text,
};
use vstd::prelude::*;
use vstd::string::*;

verus! {

/// Seconds as an SRT timecode: HH:MM:SS,mmm
pub open spec fn srt_time(seconds: nat) -> Seq<char> {
    zero_padded(seconds / 3600, 2) + ":"@ + zero_padded((seconds % 3600) / 60, 2) + ":"@
        + zero_padded(seconds % 60, 2) + ",000"@
}

/// Format seconds as SRT timecode, whatever their number.
pub fn srt_timecode(total_seconds: u64) -> (r: String)
    ensures
        r@ == srt_time(total_seconds as nat),
{
    let hours = zero_padded_text(total_seconds / 3600, 2);
    let minutes = zero_padded_text((total_seconds % 3600) / 60, 2);
    let seconds = zero_padded_text(total_seconds % 60, 2);
    plus(plus(plus(plus(plus(hours, ":"), minutes.as_str()), ":"), seconds.as_str()), ",000")
}

/// Format seconds as SRT timecode: HH:MM:SS,mmm
pub fn format_srt_time(total_seconds: u32) -> (r: String)
    ensures
        r@ == srt_time(total_seconds as nat),
{
    srt_timecode(total_seconds as u64)
}

/// What is said, and for how many seconds.
pub struct Spoken {
    pub text: Seq<char>,
    pub seconds: nat,
}

/// How long it all takes.
pub open spec fn spoken_time(parts: Seq<Spoken>) -> nat
    decreases parts.len(),
{
    if parts.len() == 0 {
        0
    } else {
        spoken_time(parts.drop_last()) + parts.last().seconds
    }
}

/// When a part begins: when all before it are over.
pub open spec fn cue_start(parts: Seq<Spoken>, i: int) -> nat {
    spoken_time(parts.take(i))
}

/// When a part is over.
pub open spec fn cue_end(parts: Seq<Spoken>, i: int) -> nat {
    cue_start(parts, i) + parts[i].seconds
}

/// One cue of an SRT file.
pub open spec fn cue(number: nat, start: nat, end: nat, text: Seq<char>) -> Seq<char> {
    decimal(number) + "\n"@ + srt_time(start) + " --> "@ + srt_time(end) + "\n"@ + text + "\n\n"@
}

/// The first `n` cues of an SRT file, one for each part.
pub open spec fn cues(parts: Seq<Spoken>, n: nat) -> Seq<char>
    decreases n,
{
    if n == 0 {
        Seq::empty()
    } else {
        cues(parts, (n - 1) as nat) + cue(
            n,
            cue_start(parts, n - 1),
            cue_end(parts, n - 1),
            parts[n - 1].text,
        )
    }
}

/// An SRT file with one cue for each part.
pub open spec fn srt_file(parts: Seq<Spoken>) -> Seq<char> {
    cues(parts, parts.len())
}

/// Add a cue to an SRT file.
pub fn append_cue(srt: String, number: u64, start: u64, end: u64, text: &str) -> (r: String)
    ensures
        r@ == srt@ + cue(number as nat, start as nat, end as nat, text@),
{
    let c = plus(decimal_text(number), "\n");
    let c = plus(plus(c, srt_timecode(start).as_str()), " --> ");
    let c = plus(plus(c, srt_timecode(end).as_str()), "\n");
    let c = plus(plus(c, text), "\n\n");
    plus(srt, c.as_str())
}

/// Time only goes on.
pub proof fn lemma_spoken_time_grows(parts: Seq<Spoken>, i: int)
    requires
        0 <= i <= parts.len(),
    ensures
        spoken_time(parts.take(i)) <= spoken_time(parts),
    decreases parts.len(),
{
    if i < parts.len() {
        lemma_spoken_time_grows(parts.drop_last(), i);
        assert(parts.drop_last().take(i) =~= parts.take(i));
    } else {
        assert(parts.take(i) =~= parts);
    }
}

/// What the segments of a script say.
pub open spec fn spoken(segments: Seq<ScriptSegment>) -> Seq<Spoken> {
    segments.map_values(
        |s: ScriptSegment|
            Spoken { text: s.narration_text@, seconds: s.estimated_duration_seconds as nat },
    )
}

/// Whether 32 bits hold the time at which a script is over.
pub fn script_fits(script: &NarrationScript) -> (r: bool)
    ensures
        r == (spoken_time(spoken(script.segments@)) <= u32::MAX),
{
    let ghost parts = spoken(script.segments@);
    let mut total: u32 = 0;
    let mut i: usize = 0;
    while i < script.segments.len()
        invariant
            i <= script.segments@.len(),
            parts == spoken(script.segments@),
            total as nat == spoken_time(parts.take(i as int)),
        decreases script.segments.len() - i,
    {
        let seconds: u32 = script.segments[i].estimated_duration_seconds;
        assert(parts.take(i as int + 1).drop_last() =~= parts.take(i as int));
        if seconds > u32::MAX - total {
            proof {
                lemma_spoken_time_grows(parts, i as int + 1);
            }
            return false;
        }
        total += seconds;
        i += 1;
    }
    assert(parts.take(i as int) =~= parts);
    true
}

/// Convert a narration script into SRT format with estimated timing.
pub fn script_to_srt(script: &NarrationScript) -> (r: String)
    requires
        spoken_time(spoken(script.segments@)) <= u32::MAX,
    ensures
        r@ == srt_file(spoken(script.segments@)),
{
    let ghost parts = spoken(script.segments@);
    let mut srt = String::new();
    let mut offset_seconds: u32 = 0;
    let mut i: usize = 0;
    assert(srt@ =~= cues(parts, 0));
    while i < script.segments.len()
        invariant
            i <= script.segments@.len(),
            parts == spoken(script.segments@),
            spoken_time(parts) <= u32::MAX,
            offset_seconds as nat == spoken_time(parts.take(i as int)),
            srt@ == cues(parts, i as nat),
        decreases script.segments.len() - i,
    {
        let seg = &script.segments[i];
        proof {
            lemma_spoken_time_grows(parts, i as int + 1);
            assert(parts.take(i as int + 1).drop_last() =~= parts.take(i as int));
        }
        let end: u32 = offset_seconds + seg.estimated_duration_seconds;
        srt = append_cue(
            srt,
            i as u64 + 1,
            offset_seconds as u64,
            end as u64,
            seg.narration_text.as_str(),
        );
        offset_seconds = end;
        i += 1;
    }
    srt
}

/// What the caption stage answers.
#[derive(Debug)]
pub struct CaptionResult {
    pub job_id: String,
    pub srt_path: String,
    pub cue_count: usize,
}

/// The caption file of a job, in the output directory.
pub open spec fn caption_path(output_dir: Seq<char>, job_id: Seq<char>) -> Seq<char> {
    joined_path(output_dir, job_id + ".srt"@)
}

/// Write the path of the caption file of a job.
pub fn srt_path_of(output_dir: &str, job_id: &str) -> (r: String)
    ensures
        r@ == caption_path(output_dir@, job_id@),
{
    join_path(output_dir, plus(job_id.to_string(), ".srt").as_str())
}

/// Answer a request for captions, once the file was written to the output
/// directory or could not be: then with 500.
pub fn generate_captions(script: &NarrationScript, output_dir: &str, written: bool) -> (r: Result<
    CaptionResult,
    u16,
>)
    ensures
        if written {
            r matches Ok(result) && result.job_id@ == script.job_id@ && result.srt_path@
                == caption_path(output_dir@, script.job_id@) && result.cue_count
                == script.segments@.len()
        } else {
            r == Err::<CaptionResult, u16>(500)
        },
{
    if written {
        Ok(
            CaptionResult {
                job_id: script.job_id.clone(),
                srt_path: srt_path_of(output_dir, script.job_id.as_str()),
                cue_count: script.segments.len(),
            },
        )
    } else {
        Err(500)
    }
}

// ---------------------------------------------------------------------------
// Laws
// ---------------------------------------------------------------------------

/// Captions follow the narration without gap or overlap: the first cue starts
/// at once, each cue starts when the one before it ends, and the last one ends
/// with the narration.
pub proof fn law_cues_are_contiguous(parts: Seq<Spoken>, i: int)
    requires
        0 <= i < parts.len(),
    ensures
        cue_start(parts, 0) == 0,
        i + 1 < parts.len() ==> cue_start(parts, i + 1) == cue_end(parts, i),
        cue_end(parts, parts.len() - 1) == spoken_time(parts),
        cue_start(parts, i) <= cue_end(parts, i) <= spoken_time(parts),
{
    let n = parts.len() as int;
    assert(parts.take(i + 1).drop_last() =~= parts.take(i));
    assert(parts.take(n) =~= parts);
    assert(parts.take(n).drop_last() =~= parts.take(n - 1));
    lemma_spoken_time_grows(parts, i + 1);
}

/// Within a hundred hours, a timecode has twelve characters.
pub proof fn law_timecodes_have_one_width(seconds: nat)
    requires
        seconds < 360000,
    ensures
        srt_time(seconds).len() == 12,
{
    lemma_two_digits(seconds / 3600);
    lemma_two_digits((seconds % 3600) / 60);
    lemma_two_digits(seconds % 60);
    reveal_strlit(":");
    reveal_strlit(",000");
}

proof fn lemma_two_digits(n: nat)
    requires
        n < 100,
    ensures
        zero_padded(n, 2).len() == 2,
{
    reveal_with_fuel(decimal, 3);
}

/// Reading a timecode back gives the time: the fields behind the hours have two
/// digits each, minutes and seconds are below sixty, the fields stand between
/// colons, and what they write adds up to the time.
pub proof fn law_timecodes_are_read_back(seconds: nat)
    ensures
        ({
            let t = srt_time(seconds);
            let n = t.len() as int;
            let m = 10 * (t[n - 9] as int - 48) + (t[n - 8] as int - 48);
            let s = 10 * (t[n - 6] as int - 48) + (t[n - 5] as int - 48);
            &&& n >= 12
            &&& digits_value(t.take(n - 10)) is Some
            &&& digits_value(t.take(n - 10))->0 * 3600 + m * 60 + s == seconds
            &&& 0 <= m < 60
            &&& 0 <= s < 60
            &&& t[n - 10] == ':' && t[n - 7] == ':'
            &&& t.skip(n - 4) == seq![',', '0', '0', '0']
        }),
{
    let h = zero_padded(seconds / 3600, 2);
    let mm = zero_padded((seconds % 3600) / 60, 2);
    let ss = zero_padded(seconds % 60, 2);
    let t = srt_time(seconds);
    let n = t.len() as int;
    reveal_strlit(":");
    reveal_strlit(",000");
    law_padding_puts_zeros_before_the_number(seconds / 3600, 2);
    law_numbers_are_read_back(seconds / 3600, 0, 2);
    lemma_two_digit_value((seconds % 3600) / 60);
    lemma_two_digit_value(seconds % 60);
    assert(n == h.len() + 10);
    assert(t.take(n - 10) =~= h);
    assert(t[n - 9] == mm[0] && t[n - 8] == mm[1]);
    assert(t[n - 6] == ss[0] && t[n - 5] == ss[1]);
    assert(t.skip(n - 4) =~= seq![',', '0', '0', '0']);
}

proof fn lemma_two_digit_value(n: nat)
    requires
        n < 100,
    ensures
        zero_padded(n, 2).len() == 2,
        10 * (zero_padded(n, 2)[0] as int - 48) + (zero_padded(n, 2)[1] as int - 48) == n,
{
    lemma_two_digits(n);
    law_padding_puts_zeros_before_the_number(n, 2);
    law_decimal_digits(n);
    law_decimal_digits(n / 10);
    let z = zero_padded(n, 2);
    let d = decimal(n);
    if n < 10 {
        assert(z.skip(1) == d);
        assert(z[1] == z.skip(1)[0]);
        assert(d[0] == d.last());
        assert(z[0] == '0');
    } else {
        assert(d.drop_last() == decimal(n / 10));
        assert(d.len() == 2);
        assert(z.skip(0) =~= z);
        assert(d[0] == decimal(n / 10).last());
    }
}

/// Different times have different timecodes.
pub proof fn law_timecodes_tell_times_apart(a: nat, b: nat)
    requires
        srt_time(a) == srt_time(b),
    ensures
        a == b,
{
    law_timecodes_are_read_back(a);
    law_timecodes_are_read_back(b);
}

/// How long the narration takes is the sum of its parts.
pub proof fn law_time_adds_up(parts: Seq<Spoken>, part: Spoken)
    ensures
        spoken_time(Seq::empty()) == 0,
        spoken_time(parts.push(part)) == spoken_time(parts) + part.seconds,
{
    assert(parts.push(part).drop_last() =~= parts);
}

/// A caption file grows by one cue for each part that is added to the
/// narration, and what was there stays: the cue has the next number, starts when
/// the narration before it is over, lasts as long as the part, and shows its
/// text in full. Without narration the file is empty.
pub proof fn law_each_part_adds_its_cue(parts: Seq<Spoken>, part: Spoken)
    ensures
        srt_file(Seq::empty()) == Seq::<char>::empty(),
        srt_file(parts.push(part)) == srt_file(parts) + (decimal((parts.len() + 1) as nat) + "\n"@
            + srt_time(spoken_time(parts)) + " --> "@ + srt_time(
            (spoken_time(parts) + part.seconds) as nat,
        ) + "\n"@ + part.text + "\n\n"@),
{
    let all = parts.push(part);
    let n = parts.len();
    lemma_earlier_cues(parts, part, n);
    assert(all.take(n as int) =~= parts);
    assert(all[n as int] == part);
    assert(cues(all, (n + 1) as nat) == cues(all, n) + cue(
        (n + 1) as nat,
        cue_start(all, n as int),
        cue_end(all, n as int),
        part.text,
    ));
}

proof fn lemma_earlier_cues(parts: Seq<Spoken>, part: Spoken, n: nat)
    requires
        n <= parts.len(),
    ensures
        cues(parts.push(part), n) == cues(parts, n),
    decreases n,
{
    if n > 0 {
        lemma_earlier_cues(parts, part, (n - 1) as nat);
        assert(parts.push(part).take(n - 1) =~= parts.take(n - 1));
        assert(parts.push(part)[n - 1] == parts[n - 1]);
    }
}

/// Every segment of a script is spoken, in order, with its own text and for its
/// own time.
pub proof fn law_every_segment_is_spoken(segments: Seq<ScriptSegment>)
    ensures
        spoken(segments).len() == segments.len(),
        forall|i: int|
            0 <= i < segments.len() ==> (#[trigger] spoken(segments)[i]).text
                == segments[i].narration_text@ && spoken(segments)[i].seconds
                == segments[i].estimated_duration_seconds,
{
}

/// The caption file of a job stands in the output directory under the name of
/// the job.
pub proof fn law_caption_files_are_named_after_their_job(dir: Seq<char>, job_id: Seq<char>)
    requires
        dir.len() > 0,
        dir.last() != '/',
        job_id.len() > 0,
        job_id[0] != '/',
    ensures
        caption_path(dir, job_id) == dir + "/"@ + (job_id + ".srt"@),
{
    assert((job_id + ".srt"@)[0] == job_id[0]);
}

} // verus!
