//! Deterministic checks.

use crate::json::{items_view, Json, JsonView};
use vstd::prelude::*;
use vstd::string::*;

verus! {

/// Something that is wrong.
#[derive(Debug, Clone)]
pub struct ValidationIssue {
    pub code: String,
    pub message: String,
}

/// What a [`ValidationIssue`] says.
pub struct IssueView {
    pub code: Seq<char>,
    pub message: Seq<char>,
}

impl View for ValidationIssue {
    type V = IssueView;

    open spec fn view(&self) -> IssueView {
        IssueView { code: self.code@, message: self.message@ }
    }
}

pub open spec fn issue_views(issues: Seq<ValidationIssue>) -> Seq<IssueView> {
    issues.map_values(|i: ValidationIssue| i@)
}

/// Issues as JSON.
pub open spec fn issues_json(issues: Seq<IssueView>) -> JsonView {
    JsonView::Array(
        issues.map_values(
            |i: IssueView|
                JsonView::Object(
                    map![
                        "code"@ => JsonView::Text(i.code),
                        "message"@ => JsonView::Text(i.message),
                    ],
                ),
        ),
    )
}

/// Write issues as JSON.
pub fn issues_body(issues: &Vec<ValidationIssue>) -> (r: Json)
    ensures
        r@ == issues_json(issue_views(issues@)),
{
    let ghost goal = issues_json(issue_views(issues@))->Array_0;
    let mut items: Vec<Json> = Vec::new();
    let mut i: usize = 0;
    while i < issues.len()
        invariant
            i <= issues@.len(),
            goal == issues_json(issue_views(issues@))->Array_0,
            items@.len() == i,
            forall|j: int| 0 <= j < i ==> (#[trigger] items@[j])@ == goal[j],
        decreases issues.len() - i,
    {
        items.push(
            Json::object().with("code", Json::text(issues[i].code.as_str())).with(
                "message",
                Json::text(issues[i].message.as_str()),
            ),
        );
        i += 1;
    }
    assert(items_view(items@) =~= goal);
    Json::array(items)
}

/// The issues of a requirement: none where it is met.
pub open spec fn required(condition: bool, code: Seq<char>, message: Seq<char>) -> Seq<IssueView> {
    if condition {
        Seq::empty()
    } else {
        seq![IssueView { code, message }]
    }
}

/// Check a requirement. An issue is returned where it is not met.
pub fn require(condition: bool, code: &str, message: &str) -> (r: Vec<ValidationIssue>)
    ensures
        issue_views(r@) == required(condition, code@, message@),
{
    let mut r: Vec<ValidationIssue> = Vec::new();
    if !condition {
        r.push(ValidationIssue { code: code.to_string(), message: message.to_string() });
    }
    assert(issue_views(r@) =~= required(condition, code@, message@));
    r
}

/// Check a requirement, and add an issue to a list where it is not met.
pub fn check(issues: &mut Vec<ValidationIssue>, condition: bool, code: &str, message: &str)
    ensures
        issue_views(final(issues)@) == issue_views(old(issues)@) + required(
            condition,
            code@,
            message@,
        ),
{
    let mut found = require(condition, code, message);
    let ghost before = issues@;
    let ghost more = found@;
    issues.append(&mut found);
    assert(issue_views(issues@) =~= issue_views(before) + issue_views(more));
}

/// What counts of a [`ValidationIssue`] is what it holds, field by field.
pub proof fn law_issues_are_what_they_hold(issue: ValidationIssue)
    ensures
        issue@.code == issue.code@,
        issue@.message == issue.message@,
{
}

/// An issue is reported exactly where a requirement is not met, under its code
/// and with its message.
pub proof fn law_unmet_requirements_are_issues(
    condition: bool,
    code: Seq<char>,
    message: Seq<char>,
)
    ensures
        condition ==> required(condition, code, message).len() == 0,
        !condition ==> required(condition, code, message).len() == 1 && required(
            condition,
            code,
            message,
        )[0].code == code && required(condition, code, message)[0].message == message,
{
}

/// Issues are written as JSON one for one, each with its code and its message.
pub proof fn law_every_issue_is_written(issues: Seq<IssueView>, i: int)
    ensures
        issues_json(issues) is Array,
        issues_json(issues)->Array_0.len() == issues.len(),
        0 <= i < issues.len() ==> {
            let m = issues_json(issues)->Array_0[i]->Object_0;
            &&& m.contains_key("code"@)
            &&& m["code"@] == JsonView::Text(issues[i].code)
            &&& m.contains_key("message"@)
            &&& m["message"@] == JsonView::Text(issues[i].message)
        },
{
    reveal_strlit("code");
    reveal_strlit("message");
    assert("code"@.len() != "message"@.len());
}

} // verus!
