//! QA: validates rendered output by what ffprobe and ffmpeg measure of it.

use crate::ffprobe::{
    has_audio, has_stream, law_streams_are_found_by_type, media_json, MediaInfo, MediaView,
};
use crate::json::{holds, Json, JsonView};
use crate::text::plus;
use crate::validator_core::{
    check, issue_views, issues_body, issues_json, required, IssueView, ValidationIssue,
};
use vstd::prelude::*;
use vstd::string::*;

verus! {

/// What is to be checked.
#[derive(Debug, Clone)]
pub struct QaRequest {
    pub job_id: String,
    pub output_path: String,
    pub expected_duration_seconds: u32,
}

/// What the checks came to.
#[derive(Debug)]
pub struct QaReport {
    pub job_id: String,
    pub passed: bool,
    pub issues: Vec<ValidationIssue>,
    pub media_info: Option<Json>,
}

/// What a [`QaReport`] says.
pub struct QaReportView {
    pub job_id: Seq<char>,
    pub passed: bool,
    pub issues: Seq<IssueView>,
    pub media_info: Option<JsonView>,
}

impl View for QaReport {
    type V = QaReportView;

    open spec fn view(&self) -> QaReportView {
        QaReportView {
            job_id: self.job_id@,
            passed: self.passed,
            issues: issue_views(self.issues@),
            media_info: match self.media_info {
                Some(v) => Some(v@),
                None => None,
            },
        }
    }
}

impl QaReportView {
    /// The report as JSON.
    pub open spec fn body(self) -> JsonView {
        JsonView::Object(
            map![
                "job_id"@ => JsonView::Text(self.job_id),
                "passed"@ => JsonView::Bool(self.passed),
                "issues"@ => issues_json(self.issues),
                "media_info"@ => match self.media_info {
                    Some(v) => v,
                    None => JsonView::Null,
                },
            ],
        )
    }
}

impl QaReport {
    /// The report as JSON.
    pub fn body(&self) -> (r: Json)
        ensures
            r@ == self@.body(),
    {
        let media_info = match &self.media_info {
            Some(v) => v.copy(),
            None => Json::Null,
        };
        Json::object().with("job_id", Json::text(self.job_id.as_str())).with(
            "passed",
            Json::Bool(self.passed),
        ).with("issues", issues_body(&self.issues)).with("media_info", media_info)
    }
}

/// How the duration of a file compares to the expected one.
#[derive(Debug)]
pub struct DurationCheck {
    /// Whether it is within a fifth of what is expected.
    pub within: bool,
    /// The duration with one decimal, and what is expected and tolerated
    /// without.
    pub actual: String,
    pub expected: String,
    pub tolerance: String,
    /// The duration as a number.
    pub number: Json,
}

/// How loud a file is.
#[derive(Debug)]
pub struct Loudness {
    /// Whether it is above -30 and below -5.
    pub within: bool,
    /// The loudness with one decimal.
    pub text: String,
}

/// What was found out about a file.
#[derive(Debug)]
pub enum Inspection {
    /// It is not there.
    Missing,
    /// ffprobe could not read it.
    Unreadable(String),
    /// It was measured; the loudness only where ffmpeg can tell it.
    Measured { info: MediaInfo, duration: DurationCheck, loudness: Option<Loudness> },
}

pub open spec fn duration_message(d: DurationCheck) -> Seq<char> {
    "duration "@ + d.actual@ + "s outside expected "@ + d.expected@ + "s +/- "@ + d.tolerance@
        + "s"@
}

pub open spec fn loudness_message(l: Loudness) -> Seq<char> {
    "integrated loudness "@ + l.text@ + " LUFS outside acceptable range (-30 to -5)"@
}

/// What is wrong with a file that was measured: each check that fails, in order.
pub open spec fn measured_issues(
    info: MediaView,
    duration: DurationCheck,
    loudness: Option<Loudness>,
) -> Seq<IssueView> {
    required(duration.within, "DURATION_MISMATCH"@, duration_message(duration)) + required(
        info.streams.len() > 0,
        "NO_STREAMS"@,
        "file has no media streams"@,
    ) + required(
        has_stream(info.streams, "audio"@),
        "NO_AUDIO"@,
        "file has no audio stream"@,
    ) + (match loudness {
        Some(l) => required(l.within, "LOUDNESS_OUT_OF_RANGE"@, loudness_message(l)),
        None => Seq::empty(),
    })
}

/// What is wrong with a file.
pub open spec fn issues_of(output_path: Seq<char>, inspection: Inspection) -> Seq<IssueView> {
    match inspection {
        Inspection::Missing => seq![
            IssueView {
                code: "FILE_MISSING"@,
                message: "output file not found: "@ + output_path,
            },
        ],
        Inspection::Unreadable(e) => seq![
            IssueView { code: "PROBE_FAILED"@, message: "ffprobe failed: "@ + e@ },
        ],
        Inspection::Measured { info, duration, loudness } => measured_issues(
            info@,
            duration,
            loudness,
        ),
    }
}

/// The report on a file. It passes exactly when nothing is wrong.
pub open spec fn qa_report(req: QaRequest, inspection: Inspection) -> QaReportView {
    let issues = issues_of(req.output_path@, inspection);
    QaReportView {
        job_id: req.job_id@,
        passed: issues.len() == 0,
        issues,
        media_info: match inspection {
            Inspection::Measured { info, duration, .. } => Some(
                media_json(info@, duration.number@),
            ),
            _ => None,
        },
    }
}

/// Check a rendered file by what was found out about it.
pub fn run_qa(req: &QaRequest, inspection: &Inspection) -> (r: QaReport)
    ensures
        r@ == qa_report(*req, *inspection),
{
    let mut issues: Vec<ValidationIssue> = Vec::new();
    assert(issue_views(issues@) =~= Seq::empty());
    match inspection {
        Inspection::Missing => {
            let message = plus("output file not found: ".to_string(), req.output_path.as_str());
            check(&mut issues, false, "FILE_MISSING", message.as_str());
            assert(issue_views(issues@) =~= issues_of(req.output_path@, *inspection));
            QaReport { job_id: req.job_id.clone(), passed: false, issues, media_info: None }
        },
        Inspection::Unreadable(e) => {
            let message = plus("ffprobe failed: ".to_string(), e.as_str());
            check(&mut issues, false, "PROBE_FAILED", message.as_str());
            assert(issue_views(issues@) =~= issues_of(req.output_path@, *inspection));
            QaReport { job_id: req.job_id.clone(), passed: false, issues, media_info: None }
        },
        Inspection::Measured { info, duration, loudness } => {
            let message = plus("duration ".to_string(), duration.actual.as_str());
            let message = plus(
                plus(message, "s outside expected "),
                duration.expected.as_str(),
            );
            let message = plus(
                plus(plus(message, "s +/- "), duration.tolerance.as_str()),
                "s",
            );
            check(&mut issues, duration.within, "DURATION_MISMATCH", message.as_str());
            check(
                &mut issues,
                info.streams.len() > 0,
                "NO_STREAMS",
                "file has no media streams",
            );
            check(&mut issues, has_audio(info), "NO_AUDIO", "file has no audio stream");
            match loudness {
                Some(l) => {
                    let message = plus(
                        plus("integrated loudness ".to_string(), l.text.as_str()),
                        " LUFS outside acceptable range (-30 to -5)",
                    );
                    check(&mut issues, l.within, "LOUDNESS_OUT_OF_RANGE", message.as_str());
                },
                None => {},
            }
            assert(issue_views(issues@) =~= issues_of(req.output_path@, *inspection));
            let passed = issues.len() == 0;
            let media_info = Some(info.body(duration.number.copy()));
            QaReport { job_id: req.job_id.clone(), passed, issues, media_info }
        },
    }
}

/// A file passes exactly when it could be measured and is as long as expected,
/// has audio and, where that can be told, the right loudness.
pub proof fn law_what_passes(req: QaRequest, inspection: Inspection)
    ensures
        qa_report(req, inspection).passed <==> (inspection matches Inspection::Measured {
            info,
            duration,
            loudness,
        } && duration.within && has_stream(info@.streams, "audio"@) && (loudness matches Some(l)
            ==> l.within)),
{
}

/// What counts of a [`QaReport`] is what it holds, field by field.
pub proof fn law_reports_are_what_they_hold(report: QaReport, i: int)
    ensures
        report@.job_id == report.job_id@,
        report@.passed == report.passed,
        report@.issues.len() == report.issues@.len(),
        0 <= i < report.issues@.len() ==> report@.issues[i] == report.issues@[i]@,
        report.media_info matches Some(v) ==> report@.media_info == Some(v@),
        report.media_info is None ==> report@.media_info is None,
{
}

/// A file that was measured has an issue for each check that it fails, in the
/// order duration, streams, audio, loudness, and no other issue.
pub proof fn law_each_failed_check_is_reported(
    info: MediaView,
    duration: DurationCheck,
    loudness: Option<Loudness>,
)
    ensures
        ({
            let issues = measured_issues(info, duration, loudness);
            let silent = forall|i: int|
                0 <= i < info.streams.len() ==> (#[trigger] info.streams[i]).codec_type != "audio"@;
            let loud = loudness is Some && !loudness->0.within;
            let a: int = if duration.within {
                0
            } else {
                1
            };
            let b: int = if info.streams.len() > 0 {
                a
            } else {
                a + 1
            };
            let c: int = if silent {
                b + 1
            } else {
                b
            };
            &&& issues.len() == if loud {
                c + 1
            } else {
                c
            }
            &&& !duration.within ==> issues[0].code == "DURATION_MISMATCH"@ && issues[0].message
                == "duration "@ + duration.actual@ + "s outside expected "@ + duration.expected@
                + "s +/- "@ + duration.tolerance@ + "s"@
            &&& info.streams.len() == 0 ==> issues[a].code == "NO_STREAMS"@ && issues[a].message
                == "file has no media streams"@
            &&& silent ==> issues[b].code == "NO_AUDIO"@ && issues[b].message
                == "file has no audio stream"@
            &&& loud ==> issues[c].code == "LOUDNESS_OUT_OF_RANGE"@ && issues[c].message
                == "integrated loudness "@ + loudness->0.text@
                + " LUFS outside acceptable range (-30 to -5)"@
        }),
{
    law_streams_are_found_by_type(info.streams, "audio"@);
}

/// A file that is missing or cannot be read has that one issue, and nothing is
/// told of its media; of one that was measured all is told.
pub proof fn law_what_is_reported(req: QaRequest, inspection: Inspection)
    ensures
        qa_report(req, inspection).job_id == req.job_id@,
        qa_report(req, inspection).passed <==> qa_report(req, inspection).issues.len() == 0,
        inspection == Inspection::Missing ==> {
            let report = qa_report(req, inspection);
            &&& report.issues.len() == 1
            &&& report.issues[0].code == "FILE_MISSING"@
            &&& report.issues[0].message == "output file not found: "@ + req.output_path@
            &&& report.media_info is None
        },
        inspection matches Inspection::Unreadable(e) ==> {
            let report = qa_report(req, inspection);
            &&& report.issues.len() == 1
            &&& report.issues[0].code == "PROBE_FAILED"@
            &&& report.issues[0].message == "ffprobe failed: "@ + e@
            &&& report.media_info is None
        },
        inspection matches Inspection::Measured { info, duration, loudness } ==> {
            let report = qa_report(req, inspection);
            &&& report.issues == measured_issues(info@, duration, loudness)
            &&& report.media_info == Some(media_json(info@, duration.number@))
        },
{
}

/// A report is written with each part under its own name, and with nothing of
/// the media where nothing is known.
pub proof fn law_reports_are_written_whole(report: QaReportView)
    ensures
        holds(report.body(), "job_id"@, JsonView::Text(report.job_id)),
        holds(report.body(), "passed"@, JsonView::Bool(report.passed)),
        holds(report.body(), "issues"@, issues_json(report.issues)),
        report.media_info matches Some(v) ==> holds(report.body(), "media_info"@, v),
        report.media_info is None ==> holds(report.body(), "media_info"@, JsonView::Null),
{
    reveal_strlit("job_id");
    reveal_strlit("passed");
    reveal_strlit("issues");
    reveal_strlit("media_info");
    assert("job_id"@.len() == 6 && "job_id"@[0] == 'j');
    assert("passed"@.len() == 6 && "passed"@[0] == 'p');
    assert("issues"@.len() == 6 && "issues"@[0] == 'i');
    assert("media_info"@.len() == 10);
}

} // verus!
