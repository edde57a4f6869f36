use media_pipeline::job_queue::{JobQueue, QueueEntry, QueueError, QueueRow};

#[test]
fn enqueue_and_dequeue() {
    let mut q = JobQueue::open_in_memory();
    q.enqueue("job-1", "Planning").unwrap();

    let entry = q.dequeue().expect("expected an entry");
    assert_eq!(entry.job_id, "job-1");
    assert_eq!(entry.stage, "Planning");
}

#[test]
fn dequeue_empty_returns_none() {
    let mut q = JobQueue::open_in_memory();
    let entry = q.dequeue();
    assert!(entry.is_none());
}

#[test]
fn fifo_order() {
    let mut q = JobQueue::open_in_memory();
    q.enqueue("a", "Planning").unwrap();
    q.enqueue("b", "Research").unwrap();

    let first = q.dequeue().unwrap();
    assert_eq!(first.job_id, "a");
    let second = q.dequeue().unwrap();
    assert_eq!(second.job_id, "b");
}

#[test]
fn claimed_items_not_redequeued() {
    let mut q = JobQueue::open_in_memory();
    q.enqueue("x", "Script").unwrap();

    let _entry = q.dequeue().unwrap();
    let none = q.dequeue();
    assert!(none.is_none());
}

#[test]
fn acknowledge_removes_entry() {
    let mut q = JobQueue::open_in_memory();
    q.enqueue("y", "Tts").unwrap();

    let entry = q.dequeue().unwrap();
    q.acknowledge(entry.entry_id);

    assert_eq!(q.pending_count(), 0);
    assert!(q.rows.is_empty());
}

#[test]
fn nack_returns_entry_to_queue() {
    let mut q = JobQueue::open_in_memory();
    q.enqueue("job-1", "Planning").unwrap();

    let entry = q.dequeue().unwrap();
    assert!(q.dequeue().is_none());

    q.nack(entry.entry_id);
    let retry = q.dequeue().unwrap();
    assert_eq!(retry.job_id, "job-1");
    assert_eq!(retry.entry_id, entry.entry_id);
    assert_eq!(retry.attempts, 1);
}

#[test]
fn pending_count_tracks_unclaimed() {
    let mut q = JobQueue::open_in_memory();
    assert_eq!(q.pending_count(), 0);

    q.enqueue("a", "Planning").unwrap();
    q.enqueue("b", "Research").unwrap();
    assert_eq!(q.pending_count(), 2);

    q.dequeue();
    assert_eq!(q.pending_count(), 1);
}

#[test]
fn timestamps_of_entries_are_rfc3339() {
    let mut q = JobQueue::open_in_memory();
    q.enqueue("a", "Planning").unwrap();
    let entry = q.dequeue().unwrap();
    assert!(chrono::DateTime::parse_from_rfc3339(&entry.enqueued_at).is_ok());
}

#[test]
fn entry_numbers_are_not_reused() {
    let mut q = JobQueue::open_in_memory();
    q.enqueue("a", "Planning").unwrap();
    let first = q.dequeue().unwrap();
    q.acknowledge(first.entry_id);
    q.enqueue("b", "Planning").unwrap();
    let second = q.dequeue().unwrap();
    assert_eq!(first.entry_id, 1);
    assert_eq!(second.entry_id, 2);
}

#[test]
fn nack_of_one_entry_leaves_the_others_claimed() {
    let mut q = JobQueue::open_in_memory();
    q.enqueue("a", "Planning").unwrap();
    q.enqueue("b", "Planning").unwrap();
    q.dequeue().unwrap();
    let b = q.dequeue().unwrap();
    q.nack(b.entry_id);
    assert_eq!(q.pending_count(), 1);
    assert_eq!(q.dequeue().unwrap().job_id, "b");
    assert!(q.dequeue().is_none());
}

#[test]
fn all_entries_of_a_job_can_be_removed() {
    let mut q = JobQueue::open_in_memory();
    q.enqueue("a", "Planning").unwrap();
    q.enqueue("b", "Planning").unwrap();
    q.enqueue("a", "Research").unwrap();
    q.remove_by_job_id("a");
    assert_eq!(q.pending_count(), 1);
    assert_eq!(q.dequeue().unwrap().job_id, "b");
}

fn row(entry_id: i64, claimed: bool) -> QueueRow {
    QueueRow {
        entry: QueueEntry {
            entry_id,
            job_id: format!("job-{entry_id}"),
            stage: "Tts".to_string(),
            enqueued_at: "2026-01-01T00:00:00+00:00".to_string(),
            attempts: 7,
        },
        claimed,
    }
}

#[test]
fn stored_rows_become_a_queue() {
    let mut q = JobQueue::from_rows(vec![row(3, true), row(5, false)], 9).unwrap();
    let entry = q.dequeue().unwrap();
    assert_eq!(entry.entry_id, 5);
    assert_eq!(entry.attempts, 7);
    q.enqueue_at("new", "Planning", "now".to_string()).unwrap();
    assert_eq!(q.dequeue().unwrap().entry_id, 10);
}

#[test]
fn rows_out_of_order_are_no_queue() {
    assert!(JobQueue::from_rows(vec![row(5, true), row(3, false)], 9).is_none());
    assert!(JobQueue::from_rows(vec![row(3, true), row(3, false)], 9).is_none());
    assert!(JobQueue::from_rows(vec![row(0, true)], 9).is_none());
    assert!(JobQueue::from_rows(vec![row(10, true)], 9).is_none());
    assert!(JobQueue::from_rows(vec![], -1).is_none());
}

#[test]
fn a_queue_without_numbers_left_is_full() {
    let mut q = JobQueue::from_rows(vec![], i64::MAX).unwrap();
    let e = q.enqueue("a", "Planning").unwrap_err();
    assert_eq!(e, QueueError::Full);
    assert_eq!(e.message(), "database or disk is full");
    assert_eq!(q.pending_count(), 0);
}
