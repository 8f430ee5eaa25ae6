use berry_editor::highlight_job::{HighlightJob, HighlightJobQueue};

#[test]
fn test_queue_basic() {
    let mut queue = HighlightJobQueue::new();
    assert!(queue.is_empty());
    queue.enqueue(HighlightJob { line_idx: 0, text: "test".to_string(), version: 1 });
    assert_eq!(queue.len(), 1);
    let job = queue.dequeue();
    assert!(job.is_some());
    assert_eq!(job.unwrap().line_idx, 0);
    assert!(queue.is_empty());
}

#[test]
fn test_queue_deduplication() {
    let mut queue = HighlightJobQueue::new();
    queue.enqueue(HighlightJob { line_idx: 5, text: "old".to_string(), version: 1 });
    queue.enqueue(HighlightJob { line_idx: 5, text: "new".to_string(), version: 2 });
    assert_eq!(queue.len(), 1);
    let job = queue.dequeue().unwrap();
    assert_eq!(job.text, "new");
    assert_eq!(job.version, 2);
}

#[test]
fn test_queue_max_size() {
    let mut queue = HighlightJobQueue::new();
    for i in 0..150 {
        queue.enqueue(HighlightJob { line_idx: i, text: format!("line {}", i), version: 1 });
    }
    assert_eq!(queue.len(), 100);
    let first_job = queue.dequeue().unwrap();
    assert_eq!(first_job.line_idx, 50);
}

#[test]
fn requeued_line_moves_to_back() {
    let mut queue = HighlightJobQueue::default();
    queue.enqueue(HighlightJob { line_idx: 1, text: "a".to_string(), version: 1 });
    queue.enqueue(HighlightJob { line_idx: 2, text: "b".to_string(), version: 1 });
    queue.enqueue(HighlightJob { line_idx: 1, text: "c".to_string(), version: 2 });
    assert_eq!(queue.dequeue().unwrap().line_idx, 2);
    assert_eq!(queue.dequeue().unwrap().text, "c");
    assert!(queue.dequeue().is_none());
}

#[test]
fn batch_and_clear() {
    let mut queue = HighlightJobQueue::new();
    let jobs = (0..5)
        .map(|i| HighlightJob { line_idx: i % 3, text: format!("{}", i), version: i as u64 })
        .collect::<Vec<_>>();
    queue.enqueue_batch(jobs);
    assert_eq!(queue.len(), 3);
    assert_eq!(queue.dequeue().unwrap().text, "2");
    assert_eq!(queue.dequeue().unwrap().text, "3");
    assert_eq!(queue.dequeue().unwrap().text, "4");
    queue.enqueue(HighlightJob { line_idx: 9, text: String::new(), version: 0 });
    queue.clear();
    assert!(queue.is_empty());
}
