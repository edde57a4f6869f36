//! Job queue for pipeline task dispatch.
//!
//! Jobs are enqueued with a stage and dequeued in FIFO order. A job is marked
//! "claimed" on dequeue so concurrent workers won't receive the same item.

use crate::clock::now_rfc3339;
use crate::text::same_text;
use vstd::prelude::*;
use vstd::string::*;

verus! {

/// A queue entry referencing a pipeline job and its target stage.
#[derive(Debug, Clone)]
pub struct QueueEntry {
    pub entry_id: i64,
    pub job_id: String,
    pub stage: String,
    pub enqueued_at: String,
    /// How often the entry was returned to the queue.
    pub attempts: u32,
}

/// What a [`QueueEntry`] says.
pub struct EntryView {
    pub entry_id: i64,
    pub job_id: Seq<char>,
    pub stage: Seq<char>,
    pub enqueued_at: Seq<char>,
    pub attempts: u32,
}

impl View for QueueEntry {
    type V = EntryView;

    open spec fn view(&self) -> EntryView {
        EntryView {
            entry_id: self.entry_id,
            job_id: self.job_id@,
            stage: self.stage@,
            enqueued_at: self.enqueued_at@,
            attempts: self.attempts,
        }
    }
}

/// A row of the queue: an entry, and whether a worker has it.
#[derive(Debug, Clone)]
pub struct QueueRow {
    pub entry: QueueEntry,
    pub claimed: bool,
}

/// What a [`QueueRow`] says.
pub struct RowView {
    pub entry: EntryView,
    pub claimed: bool,
}

impl View for QueueRow {
    type V = RowView;

    open spec fn view(&self) -> RowView {
        RowView { entry: self.entry@, claimed: self.claimed }
    }
}

/// Why an entry cannot be added.
#[derive(Debug, Clone, Copy, PartialEq, Eq, Structural)]
pub enum QueueError {
    /// Every entry number has been given out.
    Full,
}

impl QueueError {
    /// The error in words.
    pub fn message(&self) -> (r: &'static str)
        ensures
            r@ == "database or disk is full"@,
    {
        "database or disk is full"
    }
}

/// A FIFO work queue.
#[derive(Debug)]
pub struct JobQueue {
    /// The rows, by rising entry number.
    pub rows: Vec<QueueRow>,
    /// The highest entry number that was ever given out. Numbers are not used
    /// again, not even those of entries that are gone.
    pub last_id: i64,
}

/// What a [`JobQueue`] holds.
#[verifier::ext_equal]
pub struct QueueView {
    pub rows: Seq<RowView>,
    pub last_id: i64,
}

impl View for JobQueue {
    type V = QueueView;

    open spec fn view(&self) -> QueueView {
        QueueView { rows: row_views(self.rows@), last_id: self.last_id }
    }
}

pub open spec fn row_views(rows: Seq<QueueRow>) -> Seq<RowView> {
    rows.map_values(|r: QueueRow| r@)
}

/// The first row, from `i` on, that no worker has.
pub open spec fn first_free(rows: Seq<RowView>, i: int) -> Option<int>
    decreases rows.len() - i,
{
    if i < 0 || i >= rows.len() {
        None
    } else if !rows[i].claimed {
        Some(i)
    } else {
        first_free(rows, i + 1)
    }
}

impl QueueView {
    /// The numbers rise from row to row, and none is above the last one given
    /// out.
    pub open spec fn wf(self) -> bool {
        &&& 0 <= self.last_id
        &&& forall|i: int|
            0 <= i < self.rows.len() ==> 1 <= (#[trigger] self.rows[i]).entry.entry_id
                <= self.last_id
        &&& forall|i: int, j: int|
            0 <= i < j < self.rows.len() ==> (#[trigger] self.rows[i]).entry.entry_id < (
            #[trigger] self.rows[j]).entry.entry_id
    }

    /// The queue with one more entry behind all others.
    pub open spec fn enqueued(
        self,
        job_id: Seq<char>,
        stage: Seq<char>,
        enqueued_at: Seq<char>,
    ) -> QueueView {
        let id = (self.last_id + 1) as i64;
        QueueView {
            rows: self.rows.push(
                RowView {
                    entry: EntryView { entry_id: id, job_id, stage, enqueued_at, attempts: 0 },
                    claimed: false,
                },
            ),
            last_id: id,
        }
    }

    /// The entry that is claimed next.
    pub open spec fn next_entry(self) -> Option<EntryView> {
        match first_free(self.rows, 0) {
            Some(i) => Some(self.rows[i].entry),
            None => None,
        }
    }

    /// The queue after the next entry was claimed.
    pub open spec fn dequeued(self) -> QueueView {
        match first_free(self.rows, 0) {
            Some(i) => QueueView {
                rows: self.rows.update(i, RowView { claimed: true, ..self.rows[i] }),
                ..self
            },
            None => self,
        }
    }

    /// The queue without the entry of that number.
    pub open spec fn acknowledged(self, entry_id: i64) -> QueueView {
        QueueView { rows: self.rows.filter(|r: RowView| r.entry.entry_id != entry_id), ..self }
    }

    /// The queue with the entry of that number free again.
    pub open spec fn nacked(self, entry_id: i64) -> QueueView {
        QueueView { rows: self.rows.map_values(|r: RowView| row_nacked(r, entry_id)), ..self }
    }

    /// The queue without any entry of that job.
    pub open spec fn without_job(self, job_id: Seq<char>) -> QueueView {
        QueueView { rows: self.rows.filter(|r: RowView| r.entry.job_id != job_id), ..self }
    }

    /// How many entries no worker has.
    pub open spec fn pending(self) -> nat {
        self.rows.filter(|r: RowView| !r.claimed).len()
    }
}

/// One more, as long as there is a larger number.
pub open spec fn one_more(n: u32) -> u32 {
    if n < u32::MAX {
        (n + 1) as u32
    } else {
        n
    }
}

/// The row with its entry free again, where it has that number.
pub open spec fn row_nacked(r: RowView, entry_id: i64) -> RowView {
    if r.entry.entry_id == entry_id {
        RowView {
            entry: EntryView { attempts: one_more(r.entry.attempts), ..r.entry },
            claimed: false,
        }
    } else {
        r
    }
}

/// What one more item adds to what is left after a filter.
pub proof fn lemma_filter_push<T>(s: Seq<T>, x: T, keep: spec_fn(T) -> bool)
    ensures
        s.push(x).filter(keep) == (if keep(x) {
            s.filter(keep).push(x)
        } else {
            s.filter(keep)
        }),
{
    reveal(Seq::filter);
    assert(s.push(x).drop_last() =~= s);
}

/// Rows that are left out leave the order of the numbers as it is.
proof fn lemma_filter_keeps_order(q: QueueView, keep: spec_fn(RowView) -> bool)
    requires
        q.wf(),
    ensures
        (QueueView { rows: q.rows.filter(keep), ..q }).wf(),
        forall|r: RowView| #[trigger]
            q.rows.filter(keep).contains(r) ==> q.rows.contains(r) && keep(r),
    decreases q.rows.len(),
{
    reveal(Seq::filter);
    if q.rows.len() > 0 {
        let shorter = QueueView { rows: q.rows.drop_last(), ..q };
        lemma_filter_keeps_order(shorter, keep);
        let kept = shorter.rows.filter(keep);
        assert forall|i: int| 0 <= i < kept.len() implies (#[trigger] kept[i]).entry.entry_id
            < q.rows.last().entry.entry_id by {
            assert(kept.contains(kept[i]));
            let j = choose|j: int| 0 <= j < shorter.rows.len() && shorter.rows[j] == kept[i];
            assert(q.rows[j] == kept[i]);
        }
        let small = QueueView { rows: kept, ..q };
        assert(small.wf());
        let all = q.rows.filter(keep);
        assert(all == if keep(q.rows.last()) {
            kept.push(q.rows.last())
        } else {
            kept
        });
        assert(q.rows[q.rows.len() - 1] == q.rows.last());
        assert forall|i: int| 0 <= i < all.len() implies 1 <= (
        #[trigger] all[i]).entry.entry_id <= q.last_id by {
            if i < kept.len() {
                assert(all[i] == small.rows[i]);
            }
        }
        assert forall|i: int, j: int| 0 <= i < j < all.len() implies (
        #[trigger] all[i]).entry.entry_id < (#[trigger] all[j]).entry.entry_id by {
            assert(all[i] == small.rows[i]);
            if j < kept.len() {
                assert(all[j] == small.rows[j]);
            }
        }
        assert forall|r: RowView| #[trigger] q.rows.filter(keep).contains(r) implies q.rows.contains(
            r,
        ) && keep(r) by {
            if kept.contains(r) {
                let j = choose|j: int| 0 <= j < shorter.rows.len() && shorter.rows[j] == r;
                assert(q.rows[j] == r);
            } else {
                assert(r == q.rows.last());
                assert(q.rows[q.rows.len() - 1] == r);
            }
        }
    }
}

/// What is found is free, and all before it is claimed.
pub proof fn lemma_first_free(rows: Seq<RowView>, i: int)
    requires
        0 <= i,
    ensures
        match first_free(rows, i) {
            Some(k) => i <= k < rows.len() && !rows[k].claimed && forall|j: int|
                i <= j < k ==> (#[trigger] rows[j]).claimed,
            None => forall|j: int| i <= j < rows.len() ==> (#[trigger] rows[j]).claimed,
        },
    decreases rows.len() - i,
{
    if i < rows.len() && rows[i].claimed {
        lemma_first_free(rows, i + 1);
    }
}

impl QueueEntry {
    /// A second description of the same entry.
    pub fn copy(&self) -> (r: QueueEntry)
        ensures
            r@ == self@,
    {
        QueueEntry {
            entry_id: self.entry_id,
            job_id: self.job_id.clone(),
            stage: self.stage.clone(),
            enqueued_at: self.enqueued_at.clone(),
            attempts: self.attempts,
        }
    }
}

impl JobQueue {
    /// Whether the entry numbers rise and none is above the last one given out.
    pub open spec fn wf(self) -> bool {
        self@.wf()
    }

    /// An empty queue.
    pub fn open_in_memory() -> (r: JobQueue)
        ensures
            r.wf(),
            r@ == (QueueView { rows: Seq::empty(), last_id: 0 }),
    {
        let r = JobQueue { rows: Vec::new(), last_id: 0 };
        assert(r@.rows =~= Seq::empty());
        r
    }

    /// The queue of the given rows, where their numbers rise and none is above
    /// `last_id`; `None` otherwise.
    pub fn from_rows(rows: Vec<QueueRow>, last_id: i64) -> (r: Option<JobQueue>)
        ensures
            match r {
                Some(q) => q.wf() && q@ == (QueueView { rows: row_views(rows@), last_id }),
                None => !(QueueView { rows: row_views(rows@), last_id }).wf(),
            },
    {
        let ghost v = QueueView { rows: row_views(rows@), last_id };
        if last_id < 0 {
            return None;
        }
        let mut i: usize = 0;
        while i < rows.len()
            invariant
                i <= rows@.len(),
                0 <= last_id,
                v == (QueueView { rows: row_views(rows@), last_id }),
                forall|j: int|
                    0 <= j < i ==> 1 <= (#[trigger] v.rows[j]).entry.entry_id <= last_id,
                forall|j: int, k: int|
                    0 <= j < k < i ==> (#[trigger] v.rows[j]).entry.entry_id < (
                    #[trigger] v.rows[k]).entry.entry_id,
            decreases rows.len() - i,
        {
            let id: i64 = rows[i].entry.entry_id;
            assert(v.rows[i as int].entry.entry_id == id);
            if id < 1 || id > last_id {
                return None;
            }
            if i > 0 {
                let before: i64 = rows[i - 1].entry.entry_id;
                assert(v.rows[i - 1].entry.entry_id == before);
                if before >= id {
                    return None;
                }
            }
            i += 1;
        }
        Some(JobQueue { rows, last_id })
    }

    /// Add a job to the queue for a given stage, as of the given time.
    ///
    /// Refused exactly when every entry number has been given out.
    pub fn enqueue_at(&mut self, job_id: &str, stage: &str, enqueued_at: String) -> (r: Result<
        (),
        QueueError,
    >)
        requires
            old(self).wf(),
        ensures
            final(self).wf(),
            r is Err <==> old(self).last_id == i64::MAX,
            r is Ok ==> final(self)@ == old(self)@.enqueued(job_id@, stage@, enqueued_at@),
            r is Err ==> final(self)@ == old(self)@,
    {
        if self.last_id == i64::MAX {
            return Err(QueueError::Full);
        }
        let id: i64 = self.last_id + 1;
        let ghost before = self@;
        self.rows.push(
            QueueRow {
                entry: QueueEntry {
                    entry_id: id,
                    job_id: job_id.to_string(),
                    stage: stage.to_string(),
                    enqueued_at,
                    attempts: 0,
                },
                claimed: false,
            },
        );
        self.last_id = id;
        assert(self@.rows =~= before.enqueued(job_id@, stage@, enqueued_at@).rows);
        Ok(())
    }

    /// Add a job to the queue for a given stage, as of now.
    ///
    /// Refused exactly when every entry number has been given out.
    pub fn enqueue(&mut self, job_id: &str, stage: &str) -> (r: Result<(), QueueError>)
        requires
            old(self).wf(),
        ensures
            final(self).wf(),
            r is Err <==> old(self).last_id == i64::MAX,
            r is Ok ==> exists|at: Seq<char>|
                final(self)@ == #[trigger] old(self)@.enqueued(job_id@, stage@, at),
            r is Err ==> final(self)@ == old(self)@,
    {
        let at = now_rfc3339();
        self.enqueue_at(job_id, stage, at)
    }

    /// Claim the oldest unclaimed entry, returning it if available.
    pub fn dequeue(&mut self) -> (r: Option<QueueEntry>)
        requires
            old(self).wf(),
        ensures
            final(self).wf(),
            final(self)@ == old(self)@.dequeued(),
            match r {
                Some(e) => old(self)@.next_entry() == Some(e@),
                None => old(self)@.next_entry() is None,
            },
    {
        let ghost before = self@;
        let mut i: usize = 0;
        while i < self.rows.len()
            invariant
                i <= self.rows@.len(),
                self@ == before,
                before.wf(),
                *self == *old(self),
                first_free(before.rows, 0) == first_free(before.rows, i as int),
            decreases self.rows.len() - i,
        {
            assert(before.rows[i as int] == self.rows@[i as int]@);
            if !self.rows[i].claimed {
                let entry = self.rows[i].entry.copy();
                let claimed = QueueRow { entry: self.rows[i].entry.copy(), claimed: true };
                self.rows.set(i, claimed);
                assert(self@.rows =~= before.dequeued().rows);
                return Some(entry);
            }
            i += 1;
        }
        None
    }

    /// Remove an entry after successful processing.
    pub fn acknowledge(&mut self, entry_id: i64)
        requires
            old(self).wf(),
        ensures
            final(self).wf(),
            final(self)@ == old(self)@.acknowledged(entry_id),
    {
        let ghost before = self@;
        let ghost keep = |r: RowView| r.entry.entry_id != entry_id;
        let mut kept: Vec<QueueRow> = Vec::new();
        let mut i: usize = 0;
        assert(row_views(kept@) =~= before.rows.take(0).filter(keep)) by {
            reveal(Seq::filter);
        }
        while i < self.rows.len()
            invariant
                i <= self.rows@.len(),
                self@ == before,
                *self == *old(self),
                keep == (|r: RowView| r.entry.entry_id != entry_id),
                row_views(kept@) == before.rows.take(i as int).filter(keep),
            decreases self.rows.len() - i,
        {
            let ghost so_far = kept@;
            proof {
                lemma_filter_push(before.rows.take(i as int), before.rows[i as int], keep);
                assert(before.rows.take(i as int).push(before.rows[i as int]) =~= before.rows.take(
                    i as int + 1,
                ));
            }
            if self.rows[i].entry.entry_id != entry_id {
                let row = QueueRow {
                    entry: self.rows[i].entry.copy(),
                    claimed: self.rows[i].claimed,
                };
                kept.push(row);
                assert(row_views(kept@) =~= row_views(so_far).push(row@));
            }
            i += 1;
        }
        assert(before.rows.take(i as int) =~= before.rows);
        self.rows = kept;
        proof {
            lemma_filter_keeps_order(before, keep);
        }
    }

    /// Remove every entry of a job.
    pub fn remove_by_job_id(&mut self, job_id: &str)
        requires
            old(self).wf(),
        ensures
            final(self).wf(),
            final(self)@ == old(self)@.without_job(job_id@),
    {
        let ghost before = self@;
        let ghost keep = |r: RowView| r.entry.job_id != job_id@;
        let mut kept: Vec<QueueRow> = Vec::new();
        let mut i: usize = 0;
        assert(row_views(kept@) =~= before.rows.take(0).filter(keep)) by {
            reveal(Seq::filter);
        }
        while i < self.rows.len()
            invariant
                i <= self.rows@.len(),
                self@ == before,
                *self == *old(self),
                keep == (|r: RowView| r.entry.job_id != job_id@),
                row_views(kept@) == before.rows.take(i as int).filter(keep),
            decreases self.rows.len() - i,
        {
            let ghost so_far = kept@;
            proof {
                lemma_filter_push(before.rows.take(i as int), before.rows[i as int], keep);
                assert(before.rows.take(i as int).push(before.rows[i as int]) =~= before.rows.take(
                    i as int + 1,
                ));
            }
            if !same_text(self.rows[i].entry.job_id.as_str(), job_id) {
                let row = QueueRow {
                    entry: self.rows[i].entry.copy(),
                    claimed: self.rows[i].claimed,
                };
                kept.push(row);
                assert(row_views(kept@) =~= row_views(so_far).push(row@));
            }
            i += 1;
        }
        assert(before.rows.take(i as int) =~= before.rows);
        self.rows = kept;
        proof {
            lemma_filter_keeps_order(before, keep);
        }
    }

    /// Return a claimed entry to the queue so it can be retried later.
    pub fn nack(&mut self, entry_id: i64)
        requires
            old(self).wf(),
        ensures
            final(self).wf(),
            final(self)@ == old(self)@.nacked(entry_id),
    {
        let ghost before = self@;
        let mut i: usize = 0;
        while i < self.rows.len()
            invariant
                i <= self.rows@.len(),
                self.last_id == before.last_id,
                self.rows@.len() == before.rows.len(),
                forall|j: int|
                    0 <= j < i ==> (#[trigger] self.rows@[j])@ == row_nacked(
                        before.rows[j],
                        entry_id,
                    ),
                forall|j: int|
                    i <= j < self.rows@.len() ==> (#[trigger] self.rows@[j])@ == before.rows[j],
            decreases self.rows.len() - i,
        {
            if self.rows[i].entry.entry_id == entry_id {
                let mut entry = self.rows[i].entry.copy();
                if entry.attempts < u32::MAX {
                    entry.attempts = entry.attempts + 1;
                }
                self.rows.set(i, QueueRow { entry, claimed: false });
            }
            i += 1;
        }
        assert(self@.rows =~= before.nacked(entry_id).rows);
    }

    /// Return the number of unclaimed entries.
    pub fn pending_count(&self) -> (r: usize)
        ensures
            r as nat == self@.pending(),
    {
        let ghost all = self@.rows;
        let ghost free = |r: RowView| !r.claimed;
        let mut n: usize = 0;
        let mut i: usize = 0;
        assert(all.take(0).filter(free).len() == 0) by {
            reveal(Seq::filter);
        }
        while i < self.rows.len()
            invariant
                i <= self.rows@.len(),
                all == self@.rows,
                free == (|r: RowView| !r.claimed),
                n as nat == all.take(i as int).filter(free).len(),
                n <= i,
            decreases self.rows.len() - i,
        {
            proof {
                lemma_filter_push(all.take(i as int), all[i as int], free);
                assert(all.take(i as int).push(all[i as int]) =~= all.take(i as int + 1));
            }
            if !self.rows[i].claimed {
                n += 1;
            }
            i += 1;
        }
        assert(all.take(i as int) =~= all);
        n
    }
}

// ---------------------------------------------------------------------------
// Laws
// ---------------------------------------------------------------------------

/// First in, first out: what is claimed next was enqueued before everything
/// else that is unclaimed. Numbers rise with each enqueue, so the lowest number
/// is the oldest entry.
pub proof fn law_oldest_first(q: QueueView, i: int)
    requires
        q.wf(),
        0 <= i < q.rows.len(),
        !q.rows[i].claimed,
    ensures
        q.next_entry() is Some,
        q.next_entry()->0.entry_id <= q.rows[i].entry.entry_id,
{
    lemma_first_free(q.rows, 0);
}

/// Two entries that wait in the queue are handed out in the order in which they
/// were added, by consecutive claims.
pub proof fn law_waiting_entries_keep_their_order(
    q: QueueView,
    job_a: Seq<char>,
    stage_a: Seq<char>,
    at_a: Seq<char>,
    job_b: Seq<char>,
    stage_b: Seq<char>,
    at_b: Seq<char>,
)
    requires
        q.wf(),
        q.next_entry() is None,
        q.last_id <= i64::MAX - 2,
    ensures
        ({
            let both = q.enqueued(job_a, stage_a, at_a).enqueued(job_b, stage_b, at_b);
            &&& both.next_entry() matches Some(e) && e.job_id == job_a && e.stage == stage_a
            &&& both.dequeued().next_entry() matches Some(e) && e.job_id == job_b && e.stage
                == stage_b
            &&& both.dequeued().dequeued().next_entry() is None
        }),
{
    let n = q.rows.len() as int;
    let both = q.enqueued(job_a, stage_a, at_a).enqueued(job_b, stage_b, at_b);
    let one = both.dequeued();
    let two = one.dequeued();
    lemma_first_free(q.rows, 0);
    lemma_first_free(both.rows, 0);
    assert(both.rows[n].entry.job_id == job_a && !both.rows[n].claimed);
    assert(forall|j: int| 0 <= j < n ==> both.rows[j] == q.rows[j]);
    assert(first_free(both.rows, 0) == Some(n));
    lemma_first_free(one.rows, 0);
    assert(one.rows[n + 1].entry.job_id == job_b && !one.rows[n + 1].claimed);
    assert(first_free(one.rows, 0) == Some(n + 1));
    lemma_first_free(two.rows, 0);
    assert(forall|j: int| 0 <= j < two.rows.len() ==> (#[trigger] two.rows[j]).claimed);
}

/// No two workers receive one entry: what was claimed is not handed out again
/// as long as it is neither returned nor replaced.
pub proof fn law_claimed_entries_are_not_handed_out_again(q: QueueView)
    requires
        q.wf(),
        q.next_entry() is Some,
    ensures
        q.dequeued().wf(),
        q.dequeued().next_entry() matches Some(e) ==> e.entry_id > q.next_entry()->0.entry_id,
{
    let d = q.dequeued();
    lemma_first_free(q.rows, 0);
    lemma_first_free(d.rows, 0);
    let i = first_free(q.rows, 0)->0;
    if d.next_entry() is Some {
        let j = first_free(d.rows, 0)->0;
        assert(d.rows[i].claimed);
        assert(forall|k: int| 0 <= k < i ==> d.rows[k] == q.rows[k]);
        assert(j > i);
        assert(d.rows[j] == q.rows[j]);
    }
}

/// A claimed entry that is returned to the queue is handed out again, with the
/// same number, job and stage and one more attempt.
pub proof fn law_returned_entries_are_handed_out_again(q: QueueView)
    requires
        q.wf(),
        q.next_entry() is Some,
    ensures
        ({
            let e = q.next_entry()->0;
            q.dequeued().nacked(e.entry_id).next_entry() == Some(
                EntryView { attempts: one_more(e.attempts), ..e },
            )
        }),
{
    let e = q.next_entry()->0;
    let i = first_free(q.rows, 0)->0;
    let back = q.dequeued().nacked(e.entry_id);
    lemma_first_free(q.rows, 0);
    lemma_first_free(back.rows, 0);
    assert(back.rows[i] == row_nacked(q.dequeued().rows[i], e.entry_id));
    assert forall|k: int| 0 <= k < i implies (#[trigger] back.rows[k]).claimed by {
        assert(back.rows[k] == row_nacked(q.dequeued().rows[k], e.entry_id));
        assert(q.dequeued().rows[k] == q.rows[k]);
    }
    assert(first_free(back.rows, 0) == Some(i));
}

/// An acknowledged entry is gone: no row has its number, and every other row is
/// as it was.
pub proof fn law_acknowledged_entries_are_gone(q: QueueView, entry_id: i64)
    requires
        q.wf(),
    ensures
        q.acknowledged(entry_id).wf(),
        forall|r: RowView| #[trigger]
            q.acknowledged(entry_id).rows.contains(r) <==> q.rows.contains(r) && r.entry.entry_id
                != entry_id,
{
    let keep = |r: RowView| r.entry.entry_id != entry_id;
    lemma_filter_keeps_order(q, keep);
    assert forall|r: RowView| q.rows.contains(r) && r.entry.entry_id != entry_id implies #[trigger]
        q.acknowledged(entry_id).rows.contains(r) by {
        lemma_filter_contains(q.rows, r, keep);
    }
}

proof fn lemma_filter_contains<T>(s: Seq<T>, x: T, keep: spec_fn(T) -> bool)
    requires
        s.contains(x),
        keep(x),
    ensures
        s.filter(keep).contains(x),
    decreases s.len(),
{
    reveal(Seq::filter);
    if s.last() == x {
        let f = s.filter(keep);
        assert(f[f.len() - 1] == x);
    } else {
        let i = choose|i: int| 0 <= i < s.len() && s[i] == x;
        assert(s.drop_last()[i] == x);
        lemma_filter_contains(s.drop_last(), x, keep);
        let f = s.drop_last().filter(keep);
        let k = choose|k: int| 0 <= k < f.len() && f[k] == x;
        assert(s.filter(keep)[k] == x);
    }
}

/// The number of waiting entries goes up by one with each enqueue and down by
/// one with each claim.
pub proof fn law_pending_count_tracks_unclaimed(
    q: QueueView,
    job_id: Seq<char>,
    stage: Seq<char>,
    at: Seq<char>,
)
    requires
        q.wf(),
        q.last_id < i64::MAX,
    ensures
        q.enqueued(job_id, stage, at).pending() == q.pending() + 1,
        q.next_entry() is Some ==> q.dequeued().pending() == q.pending() - 1,
        q.next_entry() is None ==> q.dequeued().pending() == q.pending() == 0,
{
    let free = |r: RowView| !r.claimed;
    lemma_filter_push(q.rows, q.enqueued(job_id, stage, at).rows.last(), free);
    assert(q.enqueued(job_id, stage, at).rows =~= q.rows.push(
        q.enqueued(job_id, stage, at).rows.last(),
    ));
    lemma_first_free(q.rows, 0);
    if q.next_entry() is Some {
        lemma_claim_one(q.rows, first_free(q.rows, 0)->0);
    } else {
        lemma_all_claimed(q.rows);
    }
}

proof fn lemma_claim_one(rows: Seq<RowView>, i: int)
    requires
        0 <= i < rows.len(),
        !rows[i].claimed,
    ensures
        rows.update(i, RowView { claimed: true, ..rows[i] }).filter(|r: RowView| !r.claimed).len()
            == rows.filter(|r: RowView| !r.claimed).len() - 1,
    decreases rows.len(),
{
    reveal(Seq::filter);
    let changed = rows.update(i, RowView { claimed: true, ..rows[i] });
    if i == rows.len() - 1 {
        assert(changed.drop_last() =~= rows.drop_last());
    } else {
        lemma_claim_one(rows.drop_last(), i);
        assert(changed.drop_last() =~= rows.drop_last().update(
            i,
            RowView { claimed: true, ..rows[i] },
        ));
    }
}

proof fn lemma_all_claimed(rows: Seq<RowView>)
    requires
        forall|j: int| 0 <= j < rows.len() ==> (#[trigger] rows[j]).claimed,
    ensures
        rows.filter(|r: RowView| !r.claimed).len() == 0,
    decreases rows.len(),
{
    reveal(Seq::filter);
    if rows.len() > 0 {
        assert(rows[rows.len() - 1].claimed);
        lemma_all_claimed(rows.drop_last());
    }
}

/// A number that was given out once is not given out again: an entry that is
/// added gets a number above those of all entries that were ever in the queue.
pub proof fn law_entry_numbers_are_not_reused(
    q: QueueView,
    entry_id: i64,
    job_id: Seq<char>,
    stage: Seq<char>,
    at: Seq<char>,
)
    requires
        q.wf(),
        q.last_id < i64::MAX,
    ensures
        q.acknowledged(entry_id).last_id == q.last_id,
        q.without_job(job_id).last_id == q.last_id,
        q.enqueued(job_id, stage, at).last_id > q.last_id,
        q.enqueued(job_id, stage, at).rows.last().entry.entry_id > q.last_id,
{
}

/// What counts of a [`QueueEntry`] is what it holds, field by field.
pub proof fn law_entries_are_what_they_hold(entry: QueueEntry)
    ensures
        entry@.entry_id == entry.entry_id,
        entry@.job_id == entry.job_id@,
        entry@.stage == entry.stage@,
        entry@.enqueued_at == entry.enqueued_at@,
        entry@.attempts == entry.attempts,
{
}

/// What counts of a [`QueueRow`] is what it holds, field by field.
pub proof fn law_rows_are_what_they_hold(row: QueueRow)
    ensures
        row@.entry == row.entry@,
        row@.claimed == row.claimed,
{
}

/// What counts of a [`JobQueue`] is what it holds, field by field.
pub proof fn law_queues_are_what_they_hold(queue: JobQueue, i: int)
    ensures
        queue@.rows.len() == queue.rows@.len(),
        0 <= i < queue.rows@.len() ==> queue@.rows[i] == queue.rows@[i]@,
        queue@.last_id == queue.last_id,
{
}

/// An entry that is added stands behind all others, is free, was never tried and
/// says what it was given; every other row is as it was.
pub proof fn law_added_entries_stand_last(
    q: QueueView,
    job_id: Seq<char>,
    stage: Seq<char>,
    at: Seq<char>,
    i: int,
)
    requires
        q.last_id < i64::MAX,
    ensures
        ({
            let after = q.enqueued(job_id, stage, at);
            let n = q.rows.len() as int;
            &&& after.rows.len() == n + 1
            &&& 0 <= i < n ==> after.rows[i] == q.rows[i]
            &&& after.rows[n].entry.job_id == job_id
            &&& after.rows[n].entry.stage == stage
            &&& after.rows[n].entry.enqueued_at == at
            &&& after.rows[n].entry.entry_id == q.last_id + 1
            &&& after.rows[n].entry.attempts == 0
            &&& !after.rows[n].claimed
            &&& after.last_id == q.last_id + 1
        }),
{
}

/// The row that is claimed is the first that no worker has, and there is one as
/// long as any row is free. Claiming changes nothing but that it is claimed.
pub proof fn law_claiming_takes_the_first_free_row(q: QueueView, i: int)
    requires
        0 <= i < q.rows.len(),
    ensures
        !q.rows[i].claimed && (forall|j: int| 0 <= j < i ==> (#[trigger] q.rows[j]).claimed)
            ==> q.next_entry() == Some(q.rows[i].entry),
        (forall|j: int| 0 <= j < q.rows.len() ==> (#[trigger] q.rows[j]).claimed)
            <==> q.next_entry() is None,
        q.dequeued().last_id == q.last_id,
        q.dequeued().rows.len() == q.rows.len(),
        q.dequeued().rows[i].entry == q.rows[i].entry,
        q.dequeued().rows[i].claimed <==> q.rows[i].claimed || (forall|j: int|
            0 <= j < i ==> (#[trigger] q.rows[j]).claimed),
{
    lemma_first_free(q.rows, 0);
    if q.next_entry() is Some {
        let k = first_free(q.rows, 0)->0;
        assert(!q.rows[k].claimed);
    }
}

/// Returning an entry frees the row of its number and counts one more attempt,
/// as long as there is a larger number; every other row is as it was.
pub proof fn law_returning_frees_one_row(q: QueueView, entry_id: i64, i: int)
    requires
        0 <= i < q.rows.len(),
    ensures
        q.nacked(entry_id).last_id == q.last_id,
        q.nacked(entry_id).rows.len() == q.rows.len(),
        q.rows[i].entry.entry_id != entry_id ==> q.nacked(entry_id).rows[i] == q.rows[i],
        q.rows[i].entry.entry_id == entry_id ==> {
            let row = q.nacked(entry_id).rows[i];
            &&& !row.claimed
            &&& row.entry.entry_id == entry_id
            &&& row.entry.job_id == q.rows[i].entry.job_id
            &&& row.entry.stage == q.rows[i].entry.stage
            &&& row.entry.enqueued_at == q.rows[i].entry.enqueued_at
            &&& q.rows[i].entry.attempts < u32::MAX ==> row.entry.attempts
                == q.rows[i].entry.attempts + 1
            &&& q.rows[i].entry.attempts == u32::MAX ==> row.entry.attempts == u32::MAX
        },
{
}

/// The entries of a removed job are gone, and exactly they; the others are as
/// they were and in their order.
pub proof fn law_removed_jobs_are_gone(q: QueueView, job_id: Seq<char>)
    requires
        q.wf(),
    ensures
        q.without_job(job_id).wf(),
        q.without_job(job_id).last_id == q.last_id,
        forall|r: RowView| #[trigger]
            q.without_job(job_id).rows.contains(r) <==> q.rows.contains(r) && r.entry.job_id
                != job_id,
{
    let keep = |r: RowView| r.entry.job_id != job_id;
    lemma_filter_keeps_order(q, keep);
    assert forall|r: RowView| q.rows.contains(r) && r.entry.job_id != job_id implies #[trigger]
        q.without_job(job_id).rows.contains(r) by {
        lemma_filter_contains(q.rows, r, keep);
    }
}

/// Each row adds one to the number of waiting entries where no worker has it,
/// and nothing where one has.
pub proof fn law_every_free_row_counts(q: QueueView, row: RowView)
    ensures
        (QueueView { rows: Seq::empty(), ..q }).pending() == 0,
        (QueueView { rows: q.rows.push(row), ..q }).pending() == q.pending() + (if row.claimed {
            0int
        } else {
            1int
        }),
{
    lemma_filter_push(q.rows, row, |r: RowView| !r.claimed);
    lemma_all_claimed(Seq::empty());
}

} // verus!
