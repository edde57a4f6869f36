//! ASR validation: checks that spoken audio says what the script says.

use crate::text::{
    characters, is_space, law_white_space_parts_words, plus, same_text, split_words, text_of,
    views, words,
};
use crate::validator_core::{check, issue_views, required, IssueView, ValidationIssue};
use vstd::prelude::*;
use vstd::set_lib::{lemma_len_intersect, lemma_len_union_ind, lemma_set_disjoint_lens};
use vstd::string::*;

verus! {

/// Whether a character is a letter or a number.
pub uninterp spec fn alphanumeric(c: char) -> bool;

/// Whether an ASCII character is a letter or a digit.
pub open spec fn ascii_alphanumeric(c: char) -> bool {
    'a' <= c <= 'z' || 'A' <= c <= 'Z' || '0' <= c <= '9'
}

/// Whether a character is a letter or a number: `char::is_alphanumeric`.
///
/// Claimed: the result depends on the character alone, and of the ASCII
/// characters it holds for the letters and the digits.
#[verifier::external_body]
fn is_alphanumeric(c: char) -> (r: bool)
    ensures
        r == alphanumeric(c),
        c <= '\u{7f}' ==> r == ascii_alphanumeric(c),
{
    c.is_alphanumeric()
}

/// Whether a character belongs to a word: a letter or a number. For ASCII
/// characters that is written out here.
pub open spec fn word_character(c: char) -> bool {
    if c <= '\u{7f}' {
        ascii_alphanumeric(c)
    } else {
        alphanumeric(c)
    }
}

/// A word without anything but letters and numbers at its start.
pub open spec fn bare_start(w: Seq<char>) -> Seq<char>
    decreases w.len(),
{
    if w.len() > 0 && !word_character(w[0]) {
        bare_start(w.drop_first())
    } else {
        w
    }
}

/// A word without anything but letters and numbers at its end.
pub open spec fn bare_end(w: Seq<char>) -> Seq<char>
    decreases w.len(),
{
    if w.len() > 0 && !word_character(w.last()) {
        bare_end(w.drop_last())
    } else {
        w
    }
}

/// A word without the punctuation around it.
pub open spec fn normalized(w: Seq<char>) -> Seq<char> {
    bare_end(bare_start(w))
}

/// The word without the punctuation around it.
pub fn normalize(w: &str) -> (r: String)
    ensures
        r@ == normalized(w@),
{
    let chars = characters(w);
    let mut lo: usize = 0;
    assert(w@.skip(0) =~= w@);
    while lo < chars.len() && !is_alphanumeric(chars[lo])
        invariant
            lo <= chars@.len(),
            chars@ == w@,
            bare_start(w@) == bare_start(w@.skip(lo as int)),
        decreases chars.len() - lo,
    {
        assert(w@.skip(lo as int).drop_first() =~= w@.skip(lo as int + 1));
        lo += 1;
    }
    let ghost t = w@.skip(lo as int);
    assert(bare_start(w@) == t);
    let mut hi: usize = chars.len();
    assert(t.take(hi - lo) =~= t);
    while hi > lo && !is_alphanumeric(chars[hi - 1])
        invariant
            lo <= hi <= chars@.len(),
            chars@ == w@,
            t == w@.skip(lo as int),
            bare_end(t) == bare_end(t.take(hi - lo)),
        decreases hi,
    {
        assert(t.take(hi - lo).drop_last() =~= t.take(hi - lo - 1));
        assert(t.take(hi - lo).last() == chars@[hi - 1]);
        hi -= 1;
    }
    assert(t.take(hi - lo) =~= w@.subrange(lo as int, hi as int));
    assert(hi > lo ==> t.take(hi - lo).last() == chars@[hi - 1]);
    text_of(&chars, lo, hi)
}

/// The words of a text, without punctuation, each once.
pub open spec fn word_set(text: Seq<char>) -> Set<Seq<char>> {
    words(text).map_values(|w: Seq<char>| normalized(w)).to_set()
}

fn contains_text(list: &Vec<String>, s: &str) -> (r: bool)
    ensures
        r == views(list@).contains(s@),
{
    let mut i: usize = 0;
    while i < list.len()
        invariant
            i <= list@.len(),
            forall|j: int| 0 <= j < i ==> (#[trigger] views(list@)[j]) != s@,
        decreases list.len() - i,
    {
        assert(views(list@)[i as int] == list@[i as int]@);
        if same_text(list[i].as_str(), s) {
            return true;
        }
        i += 1;
    }
    false
}

proof fn lemma_push_set<T>(s: Seq<T>, x: T)
    ensures
        s.push(x).to_set() == s.to_set().insert(x),
{
    assert(s.push(x).to_set() =~= s.to_set().insert(x)) by {
        assert forall|y: T| s.push(x).to_set().contains(y) <==> s.to_set().insert(x).contains(
            y,
        ) by {
            if s.to_set().contains(y) {
                let i = choose|i: int| 0 <= i < s.len() && s[i] == y;
                assert(s.push(x)[i] == y);
            }
            if y == x {
                assert(s.push(x)[s.len() as int] == y);
            }
            if s.push(x).contains(y) {
                let i = choose|i: int| 0 <= i < s.push(x).len() && s.push(x)[i] == y;
                if i < s.len() {
                    assert(s[i] == y);
                }
            }
        }
    }
}

fn distinct_words(text: &str) -> (r: Vec<String>)
    ensures
        views(r@).no_duplicates(),
        views(r@).to_set() == word_set(text@),
{
    let all = split_words(text);
    let ghost normal = words(text@).map_values(|w: Seq<char>| normalized(w));
    let mut r: Vec<String> = Vec::new();
    let mut i: usize = 0;
    assert(views(r@).to_set() =~= normal.take(0).to_set());
    while i < all.len()
        invariant
            i <= all@.len(),
            views(all@) == words(text@),
            normal == words(text@).map_values(|w: Seq<char>| normalized(w)),
            views(r@).no_duplicates(),
            views(r@).to_set() == normal.take(i as int).to_set(),
        decreases all.len() - i,
    {
        let ghost before = r@;
        assert(views(all@)[i as int] == all@[i as int]@);
        let w = normalize(all[i].as_str());
        proof {
            assert(normal[i as int] == w@);
            assert(normal.take(i as int + 1) =~= normal.take(i as int).push(w@));
            lemma_push_set(normal.take(i as int), w@);
            lemma_push_set(views(before), w@);
        }
        if contains_text(&r, w.as_str()) {
            assert(views(before).to_set().contains(w@));
            assert(views(before).to_set().insert(w@) =~= views(before).to_set());
        } else {
            r.push(w);
            assert(views(r@) =~= views(before).push(w@));
        }
        i += 1;
    }
    assert(normal.take(i as int) =~= normal);
    r
}

/// How many words two texts share, of how many that they have together.
#[derive(Debug, Clone, Copy, PartialEq, Eq, Structural)]
pub struct Similarity {
    pub shared: usize,
    pub all: usize,
}

impl Similarity {
    /// Whether the share is at least 85 of 100. Two texts without words are
    /// alike.
    pub open spec fn sufficient(self) -> bool {
        self.all == 0 || 20 * self.shared >= 17 * self.all
    }

    /// Whether the share is at least 85 of 100.
    pub fn is_sufficient(&self) -> (r: bool)
        ensures
            r == self.sufficient(),
    {
        self.all == 0 || 20 * (self.shared as u128) >= 17 * (self.all as u128)
    }
}

/// Simple word-level similarity between two texts (Jaccard index), as the two
/// numbers of which it is the quotient.
pub fn text_similarity(expected: &str, actual: &str) -> (r: Similarity)
    ensures
        r.shared as nat == word_set(expected@).intersect(word_set(actual@)).len(),
        r.all as nat == word_set(expected@).union(word_set(actual@)).len(),
{
    let a = distinct_words(expected);
    let b = distinct_words(actual);
    let ghost va = views(a@);
    let ghost vb = views(b@);
    let mut shared: Vec<String> = Vec::new();
    let mut all: Vec<String> = Vec::new();
    let mut i: usize = 0;
    assert(views(shared@).to_set() =~= va.take(0).to_set().intersect(vb.to_set()));
    assert(views(all@) =~= va.take(0));
    while i < a.len()
        invariant
            i <= a@.len(),
            va == views(a@),
            vb == views(b@),
            va.no_duplicates(),
            views(shared@).no_duplicates(),
            views(shared@).to_set() == va.take(i as int).to_set().intersect(vb.to_set()),
            views(all@) == va.take(i as int),
        decreases a.len() - i,
    {
        let ghost so_far = shared@;
        let ghost w = a@[i as int]@;
        proof {
            assert(va[i as int] == w);
            assert(va.take(i as int + 1) =~= va.take(i as int).push(w));
            lemma_push_set(va.take(i as int), w);
            lemma_push_set(views(so_far), w);
            assert(!va.take(i as int).contains(w));
        }
        let ghost before = all@;
        all.push(a[i].clone());
        assert(views(all@) =~= views(before).push(w));
        if contains_text(&b, a[i].as_str()) {
            shared.push(a[i].clone());
            assert(views(shared@) =~= views(so_far).push(w));
            assert(!views(so_far).contains(w)) by {
                if views(so_far).contains(w) {
                    assert(views(so_far).to_set().contains(w));
                    assert(va.take(i as int).to_set().contains(w));
                }
            }
            assert(views(shared@).to_set() =~= va.take(i as int + 1).to_set().intersect(
                vb.to_set(),
            ));
        } else {
            assert(!vb.to_set().contains(w));
            assert(views(shared@).to_set() =~= va.take(i as int + 1).to_set().intersect(
                vb.to_set(),
            ));
        }
        i += 1;
    }
    assert(va.take(i as int) =~= va);
    let mut k: usize = 0;
    assert(views(all@).to_set() =~= va.to_set().union(vb.take(0).to_set()));
    while k < b.len()
        invariant
            k <= b@.len(),
            va == views(a@),
            vb == views(b@),
            va.no_duplicates(),
            vb.no_duplicates(),
            views(all@).no_duplicates(),
            views(all@).to_set() == va.to_set().union(vb.take(k as int).to_set()),
        decreases b.len() - k,
    {
        let ghost before = all@;
        let ghost w = b@[k as int]@;
        proof {
            assert(vb[k as int] == w);
            assert(vb.take(k as int + 1) =~= vb.take(k as int).push(w));
            lemma_push_set(vb.take(k as int), w);
            lemma_push_set(views(before), w);
        }
        if !contains_text(&a, b[k].as_str()) {
            all.push(b[k].clone());
            assert(views(all@) =~= views(before).push(w));
            assert(!views(before).contains(w)) by {
                if views(before).contains(w) {
                    assert(views(before).to_set().contains(w));
                    assert(va.contains(w) || vb.take(k as int).contains(w));
                    assert(!vb.take(k as int).contains(w));
                }
            }
            assert(views(all@).to_set() =~= va.to_set().union(vb.take(k as int + 1).to_set()));
        } else {
            assert(va.to_set().contains(w));
            assert(views(all@).to_set() =~= va.to_set().union(vb.take(k as int + 1).to_set()));
        }
        k += 1;
    }
    proof {
        assert(vb.take(k as int) =~= vb);
        views(shared@).unique_seq_to_set();
        views(all@).unique_seq_to_set();
    }
    Similarity { shared: shared.len(), all: all.len() }
}

/// What is to be validated: an audio file, and what it should say.
#[derive(Debug, Clone)]
pub struct SegmentValidation {
    pub segment_number: u32,
    pub audio_path: String,
    pub expected_text: String,
}

/// What was found out about an audio file.
#[derive(Debug)]
pub struct SegmentReport {
    pub segment_number: u32,
    pub transcript: String,
    pub similarity: Similarity,
    pub issues: Vec<ValidationIssue>,
}

/// What was found out about all audio files of a job.
#[derive(Debug)]
pub struct ValidationReport {
    pub job_id: String,
    pub passed: bool,
    pub segments: Vec<SegmentReport>,
}

/// The similarity of two texts: how many words they share, of how many that they
/// have together.
pub open spec fn similarity(a: Seq<char>, b: Seq<char>) -> (nat, nat) {
    (word_set(a).intersect(word_set(b)).len(), word_set(a).union(word_set(b)).len())
}

/// What is wrong with a transcript. `similarity_text` is the similarity with
/// two decimals.
pub open spec fn transcript_issues(
    similarity: Similarity,
    similarity_text: Seq<char>,
    transcript: Seq<char>,
) -> Seq<IssueView> {
    required(
        similarity.sufficient(),
        "ASR_MISMATCH"@,
        "transcript similarity "@ + similarity_text + " below threshold 0.85"@,
    ) + required(
        transcript.len() > 0,
        "ASR_EMPTY"@,
        "transcription returned empty text"@,
    )
}

/// What was heard in an audio file; nothing, where it could not be transcribed.
pub open spec fn heard(transcript: Option<String>) -> Seq<char> {
    match transcript {
        Some(t) => t@,
        None => ""@,
    }
}

/// Whether a report is the one on a segment of which that was heard: the
/// transcript is compared with what that segment should say.
pub open spec fn reports_on(
    report: SegmentReport,
    seg: SegmentValidation,
    transcript: Seq<char>,
    similarity_text: Seq<char>,
) -> bool {
    &&& report.segment_number == seg.segment_number
    &&& report.transcript@ == transcript
    &&& (report.similarity.shared as nat, report.similarity.all as nat) == similarity(
        seg.expected_text@,
        transcript,
    )
    &&& issue_views(report.issues@) == transcript_issues(
        report.similarity,
        similarity_text,
        transcript,
    )
}

/// Report on a segment by its transcript.
pub fn report_segment(
    seg: &SegmentValidation,
    transcript: String,
    similarity_text: &str,
) -> (r: SegmentReport)
    ensures
        reports_on(r, *seg, transcript@, similarity_text@),
{
    let similarity = text_similarity(seg.expected_text.as_str(), transcript.as_str());
    let message = plus(
        plus("transcript similarity ".to_string(), similarity_text),
        " below threshold 0.85",
    );
    let mut issues: Vec<ValidationIssue> = Vec::new();
    assert(issue_views(issues@) =~= Seq::empty());
    check(&mut issues, similarity.is_sufficient(), "ASR_MISMATCH", message.as_str());
    check(
        &mut issues,
        transcript.as_str().unicode_len() > 0,
        "ASR_EMPTY",
        "transcription returned empty text",
    );
    assert(issue_views(issues@) =~= transcript_issues(
        similarity,
        similarity_text@,
        transcript@,
    ));
    SegmentReport { segment_number: seg.segment_number, transcript, similarity, issues }
}

/// Whether no report has an issue.
pub open spec fn without_issues(reports: Seq<SegmentReport>) -> bool {
    forall|i: int| 0 <= i < reports.len() ==> (#[trigger] reports[i]).issues@.len() == 0
}

proof fn lemma_one_more_report(reports: Seq<SegmentReport>, report: SegmentReport)
    ensures
        without_issues(reports.push(report)) == (without_issues(reports) && report.issues@.len()
            == 0),
{
    let all = reports.push(report);
    if without_issues(all) {
        assert forall|i: int| 0 <= i < reports.len() implies (#[trigger] reports[i]).issues@.len()
            == 0 by {
            assert(all[i] == reports[i]);
        }
        assert(all[reports.len() as int] == report);
    }
}

/// Report on a job by the transcripts of its segments, in order; a segment that
/// could not be transcribed has none. `similarity_texts` are the similarities
/// with two decimals. The job passes exactly when no segment has an issue.
/// Without a key for the transcription nothing is transcribed, and the answer is
/// 500.
pub fn validate_asr(
    job_id: &str,
    has_key: bool,
    segments: &Vec<SegmentValidation>,
    transcripts: Vec<Option<String>>,
    similarity_texts: &Vec<String>,
) -> (r: Result<ValidationReport, u16>)
    requires
        has_key ==> transcripts@.len() == segments@.len(),
        has_key ==> similarity_texts@.len() == segments@.len(),
    ensures
        if has_key {
            &&& r is Ok
            &&& r->Ok_0.job_id@ == job_id@
            &&& r->Ok_0.segments@.len() == segments@.len()
            &&& forall|i: int|
                0 <= i < segments@.len() ==> reports_on(
                    #[trigger] r->Ok_0.segments@[i],
                    segments@[i],
                    heard(transcripts@[i]),
                    similarity_texts@[i]@,
                )
            &&& r->Ok_0.passed == without_issues(r->Ok_0.segments@)
        } else {
            r == Err::<ValidationReport, u16>(500)
        },
{
    if !has_key {
        return Err(500);
    }
    let mut passed = true;
    let mut reports: Vec<SegmentReport> = Vec::new();
    let mut i: usize = 0;
    while i < segments.len()
        invariant
            i <= segments@.len(),
            transcripts@.len() == segments@.len(),
            similarity_texts@.len() == segments@.len(),
            reports@.len() == i,
            forall|j: int|
                0 <= j < i ==> reports_on(
                    #[trigger] reports@[j],
                    segments@[j],
                    heard(transcripts@[j]),
                    similarity_texts@[j]@,
                ),
            passed == without_issues(reports@),
        decreases segments.len() - i,
    {
        let transcript = match &transcripts[i] {
            Some(t) => t.clone(),
            None => "".to_string(),
        };
        let report = report_segment(&segments[i], transcript, similarity_texts[i].as_str());
        if report.issues.len() > 0 {
            passed = false;
        }
        proof {
            lemma_one_more_report(reports@, report);
        }
        reports.push(report);
        i += 1;
    }
    Ok(ValidationReport { job_id: job_id.to_string(), passed, segments: reports })
}

// ---------------------------------------------------------------------------
// Laws
// ---------------------------------------------------------------------------

/// It does not matter which of two texts was expected.
pub proof fn law_similarity_is_symmetric(a: Seq<char>, b: Seq<char>)
    ensures
        similarity(a, b) == similarity(b, a),
{
    assert(word_set(a).intersect(word_set(b)) =~= word_set(b).intersect(word_set(a)));
    assert(word_set(a).union(word_set(b)) =~= word_set(b).union(word_set(a)));
}

/// A text is wholly like itself, and like any with the same words.
pub proof fn law_texts_with_the_same_words_are_alike(a: Seq<char>, b: Seq<char>)
    requires
        word_set(a) == word_set(b),
    ensures
        similarity(a, b).0 == similarity(a, b).1,
{
    assert(word_set(a).intersect(word_set(b)) =~= word_set(a));
    assert(word_set(a).union(word_set(b)) =~= word_set(a));
}

/// Texts without a common word share nothing.
pub proof fn law_texts_without_common_words_share_nothing(a: Seq<char>, b: Seq<char>)
    requires
        word_set(a).disjoint(word_set(b)),
    ensures
        similarity(a, b).0 == 0,
{
    assert(word_set(a).intersect(word_set(b)) =~= Set::empty());
}

/// No more is shared than there is.
pub proof fn law_shared_words_are_among_all(a: Seq<char>, b: Seq<char>)
    ensures
        similarity(a, b).0 <= similarity(a, b).1,
{
    lemma_len_intersect(word_set(a), word_set(b));
    lemma_len_union_ind(word_set(a), word_set(b));
}

/// A segment has the one issue exactly when its transcript is not similar enough
/// to what it should say, and the other exactly when the transcript is empty. A
/// segment of which nothing was heard never passes.
pub proof fn law_issues_tell_what_is_wrong(
    similarity: Similarity,
    similarity_text: Seq<char>,
    transcript: Seq<char>,
)
    ensures
        ({
            let issues = transcript_issues(similarity, similarity_text, transcript);
            &&& (exists|i: int|
                0 <= i < issues.len() && (#[trigger] issues[i]).code == "ASR_MISMATCH"@)
                <==> !similarity.sufficient()
            &&& (exists|i: int| 0 <= i < issues.len() && (#[trigger] issues[i]).code == "ASR_EMPTY"@)
                <==> transcript.len() == 0
            &&& issues.len() == 0 <==> similarity.sufficient() && transcript.len() > 0
        }),
{
    reveal_strlit("ASR_MISMATCH");
    reveal_strlit("ASR_EMPTY");
    assert("ASR_MISMATCH"@.len() != "ASR_EMPTY"@.len());
    let issues = transcript_issues(similarity, similarity_text, transcript);
    if !similarity.sufficient() {
        assert(issues[0].code == "ASR_MISMATCH"@);
    }
    if transcript.len() == 0 {
        assert(issues[issues.len() - 1].code == "ASR_EMPTY"@);
    }
}

/// A word is in the set of a text exactly when some word of the text, wherever
/// it stands, is that word without the punctuation around it.
pub proof fn law_every_word_of_a_text_counts(text: Seq<char>, w: Seq<char>)
    ensures
        word_set(text).contains(w) <==> exists|i: int|
            0 <= i < words(text).len() && #[trigger] normalized(words(text)[i]) == w,
        word_set(text).finite(),
{
    let all = words(text).map_values(|x: Seq<char>| normalized(x));
    if word_set(text).contains(w) {
        let i = choose|i: int| 0 <= i < all.len() && all[i] == w;
        assert(normalized(words(text)[i]) == w);
    }
    if exists|i: int| 0 <= i < words(text).len() && #[trigger] normalized(words(text)[i]) == w {
        let i = choose|i: int|
            0 <= i < words(text).len() && #[trigger] normalized(words(text)[i]) == w;
        assert(all[i] == w);
        assert(all.contains(w));
    }
}

/// More words never make a set smaller: the words of two texts with white space
/// between them are those of the one and those of the other.
pub proof fn law_longer_texts_have_all_the_words(a: Seq<char>, c: char, b: Seq<char>)
    requires
        is_space(c),
    ensures
        word_set(a + seq![c] + b) == word_set(a).union(word_set(b)),
{
    law_white_space_parts_words(a, c, b);
    let all = words(a + seq![c] + b);
    assert forall|w: Seq<char>| word_set(a + seq![c] + b).contains(w) <==> word_set(a).union(
        word_set(b),
    ).contains(w) by {
        law_every_word_of_a_text_counts(a + seq![c] + b, w);
        law_every_word_of_a_text_counts(a, w);
        law_every_word_of_a_text_counts(b, w);
        if word_set(a + seq![c] + b).contains(w) {
            let i = choose|i: int| 0 <= i < all.len() && #[trigger] normalized(all[i]) == w;
            if i < words(a).len() {
                assert(normalized(words(a)[i]) == w);
            } else {
                assert(normalized(words(b)[i - words(a).len()]) == w);
            }
        }
        if word_set(a).contains(w) {
            let i = choose|i: int|
                0 <= i < words(a).len() && #[trigger] normalized(words(a)[i]) == w;
            assert(normalized(all[i]) == w);
        }
        if word_set(b).contains(w) {
            let i = choose|i: int|
                0 <= i < words(b).len() && #[trigger] normalized(words(b)[i]) == w;
            assert(normalized(all[i + words(a).len()]) == w);
        }
    }
    assert(word_set(a + seq![c] + b) =~= word_set(a).union(word_set(b)));
}

/// A word that only one of two texts has counts among all their words and not
/// among the shared ones, and a word that both have counts among both.
pub proof fn law_missing_words_are_not_shared(a: Seq<char>, b: Seq<char>)
    ensures
        similarity(a, b).1 == similarity(a, b).0 + word_set(a).difference(word_set(b)).len()
            + word_set(b).difference(word_set(a)).len(),
        similarity(a, b).0 + word_set(a).difference(word_set(b)).len() == word_set(a).len(),
        similarity(a, b).0 + word_set(b).difference(word_set(a)).len() == word_set(b).len(),
        (exists|w: Seq<char>| #[trigger]
            word_set(a).contains(w) && !word_set(b).contains(w)) ==> similarity(a, b).0
            < similarity(a, b).1,
{
    let s = word_set(a);
    let t = word_set(b);
    lemma_split(s, t);
    lemma_split(t, s);
    assert(s.intersect(t) =~= t.intersect(s));
    lemma_set_disjoint_lens(s, t.difference(s));
    assert(s.union(t) =~= s.union(t.difference(s)));
    if exists|w: Seq<char>| #[trigger] s.contains(w) && !t.contains(w) {
        let w = choose|w: Seq<char>| #[trigger] s.contains(w) && !t.contains(w);
        let d = s.difference(t);
        assert(d.contains(w));
        assert(d.len() > 0) by {
            if d.len() == 0 {
                assert(d =~= Set::empty());
            }
        }
    }
}

proof fn lemma_split(s: Set<Seq<char>>, t: Set<Seq<char>>)
    requires
        s.finite(),
        t.finite(),
    ensures
        s.intersect(t).len() + s.difference(t).len() == s.len(),
        s.difference(t).finite(),
{
    lemma_set_disjoint_lens(s.intersect(t), s.difference(t));
    assert(s =~= s.intersect(t).union(s.difference(t)));
}

/// A word keeps all but what is neither letter nor number at its ends.
pub proof fn law_normalized_words(w: Seq<char>)
    ensures
        exists|a: int, b: int|
            0 <= a <= b <= w.len() && normalized(w) == #[trigger] w.subrange(a, b) && (forall|
                i: int,
            |
                0 <= i < a || b <= i < w.len() ==> !word_character(#[trigger] w[i])),
        normalized(w).len() > 0 ==> word_character(normalized(w)[0]) && word_character(
            normalized(w).last(),
        ),
{
    lemma_bare_start(w);
    let t = bare_start(w);
    lemma_bare_end(t);
    let a = w.len() - t.len();
    let b = a + normalized(w).len();
    assert(normalized(w) =~= w.subrange(a, b)) by {
        assert(normalized(w) == t.take(normalized(w).len() as int));
        assert(t == w.skip(a));
    }
    assert forall|i: int| 0 <= i < a || b <= i < w.len() implies !word_character(
        #[trigger] w[i],
    ) by {
        if i >= b {
            assert(w[i] == t[i - a]);
        }
    }
    if normalized(w).len() > 0 {
        assert(normalized(w)[0] == t[0]);
    }
    assert(normalized(w) == w.subrange(a, b));
}

proof fn lemma_bare_start(w: Seq<char>)
    ensures
        bare_start(w).len() <= w.len(),
        bare_start(w) == w.skip(w.len() - bare_start(w).len()),
        forall|i: int| 0 <= i < w.len() - bare_start(w).len() ==> !word_character(#[trigger] w[i]),
        bare_start(w).len() > 0 ==> word_character(bare_start(w)[0]),
    decreases w.len(),
{
    if w.len() > 0 && !word_character(w[0]) {
        let rest = w.drop_first();
        lemma_bare_start(rest);
        let t = bare_start(w);
        assert(w.skip(w.len() - t.len()) =~= rest.skip(rest.len() - t.len()));
        assert forall|i: int| 0 <= i < w.len() - t.len() implies !word_character(
            #[trigger] w[i],
        ) by {
            if i > 0 {
                assert(w[i] == rest[i - 1]);
            }
        }
    } else {
        assert(w.skip(0) =~= w);
    }
}

proof fn lemma_bare_end(w: Seq<char>)
    ensures
        bare_end(w).len() <= w.len(),
        bare_end(w) == w.take(bare_end(w).len() as int),
        forall|i: int| bare_end(w).len() <= i < w.len() ==> !word_character(#[trigger] w[i]),
        bare_end(w).len() > 0 ==> word_character(bare_end(w).last()),
    decreases w.len(),
{
    if w.len() > 0 && !word_character(w.last()) {
        let rest = w.drop_last();
        lemma_bare_end(rest);
        let t = bare_end(w);
        assert(w.take(t.len() as int) =~= rest.take(t.len() as int));
        assert forall|i: int| t.len() <= i < w.len() implies !word_character(#[trigger] w[i]) by {
            if i < w.len() - 1 {
                assert(w[i] == rest[i]);
            }
        }
    } else {
        assert(w.take(w.len() as int) =~= w);
    }
}

/// Of the ASCII characters, the letters and the digits belong to words.
pub proof fn law_ascii_word_characters(c: char)
    requires
        (c as u32) < 128,
    ensures
        word_character(c) <==> (48 <= c as u32 <= 57 || 65 <= c as u32 <= 90 || 97 <= c as u32
            <= 122),
{
}

/// A transcript is similar enough from eighty-five of a hundred words on.
pub proof fn law_threshold(s: Similarity)
    ensures
        s.all > 0 ==> (s.sufficient() <==> 100 * s.shared >= 85 * s.all),
        s.all == 0 ==> s.sufficient(),
{
}

/// The issues of a transcript tell its similarity and say what is wrong.
pub proof fn law_words_of_the_issues(
    similarity: Similarity,
    similarity_text: Seq<char>,
    transcript: Seq<char>,
    i: int,
)
    requires
        0 <= i < transcript_issues(similarity, similarity_text, transcript).len(),
    ensures
        ({
            let issue = transcript_issues(similarity, similarity_text, transcript)[i];
            ||| issue.code == "ASR_MISMATCH"@ && issue.message == "transcript similarity "@
                + similarity_text + " below threshold 0.85"@
            ||| issue.code == "ASR_EMPTY"@ && issue.message == "transcription returned empty text"@
        }),
        transcript_issues(similarity, similarity_text, transcript).len() <= 2,
{
}

/// A transcript that is all there with the words of its segment, in any order
/// and with any punctuation, passes; a transcript that lacks more than three of
/// twenty does not.
pub proof fn law_what_is_heard_decides(
    report: SegmentReport,
    seg: SegmentValidation,
    transcript: Seq<char>,
    similarity_text: Seq<char>,
)
    requires
        reports_on(report, seg, transcript, similarity_text),
    ensures
        word_set(seg.expected_text@) == word_set(transcript) && transcript.len() > 0
            ==> report.issues@.len() == 0,
        transcript.len() == 0 ==> report.issues@.len() > 0,
        20 * word_set(seg.expected_text@).intersect(word_set(transcript)).len() < 17 * word_set(
            seg.expected_text@,
        ).union(word_set(transcript)).len() ==> report.issues@.len() > 0,
        report.segment_number == seg.segment_number,
        report.transcript@ == transcript,
{
    law_issues_tell_what_is_wrong(report.similarity, similarity_text, transcript);
    assert(issue_views(report.issues@).len() == report.issues@.len());
    if word_set(seg.expected_text@) == word_set(transcript) {
        law_texts_with_the_same_words_are_alike(seg.expected_text@, transcript);
    }
}

/// What was heard is the transcript, and nothing where there is none.
pub proof fn law_what_was_heard(transcript: String)
    ensures
        heard(Some(transcript)) == transcript@,
        heard(None).len() == 0,
{
    reveal_strlit("");
}

/// A job passes exactly where each of its segments has no issue.
pub proof fn law_one_issue_fails_the_job(reports: Seq<SegmentReport>, i: int)
    ensures
        0 <= i < reports.len() && reports[i].issues@.len() > 0 ==> !without_issues(reports),
        (forall|k: int| 0 <= k < reports.len() ==> (#[trigger] reports[k]).issues@.len() == 0)
            ==> without_issues(reports),
{
}

/// The similarity that is reported of a segment is that of what it should say to
/// what was heard.
pub proof fn law_reports_compare_their_own_segment(
    report: SegmentReport,
    seg: SegmentValidation,
    transcript: Seq<char>,
    similarity_text: Seq<char>,
)
    requires
        reports_on(report, seg, transcript, similarity_text),
    ensures
        report.similarity.shared as nat == word_set(seg.expected_text@).intersect(
            word_set(transcript),
        ).len(),
        report.similarity.all as nat == word_set(seg.expected_text@).union(
            word_set(transcript),
        ).len(),
        issue_views(report.issues@) == transcript_issues(
            report.similarity,
            similarity_text,
            transcript,
        ),
{
}

} // verus!
