use image_optimizer::batch::{discovery_message, summarize, BatchTotals};
use image_optimizer::file_job::FileOutcome;

#[test]
fn failures_count_in_neither_total() {
    let outcomes = vec![
        FileOutcome::Shrunk(2_000),
        FileOutcome::NotSmaller,
        FileOutcome::Failed,
        FileOutcome::Shrunk(48),
        FileOutcome::Shrunk(0),
    ];
    assert_eq!(summarize(&outcomes), BatchTotals { processed: 2, skipped: 2, total_saved: 2_048 });
    assert_eq!(summarize(&vec![]), BatchTotals { processed: 0, skipped: 0, total_saved: 0 });
}

#[test]
fn record_refuses_overflow_in_fits() {
    let t = BatchTotals { processed: 1, skipped: 0, total_saved: u64::MAX - 1 };
    assert!(t.fits(FileOutcome::Shrunk(1)));
    assert!(!t.fits(FileOutcome::Shrunk(2)));
    assert!(t.fits(FileOutcome::Failed));
}

#[test]
fn summary_lines_of_totals() {
    let t = BatchTotals { processed: 3, skipped: 2, total_saved: 1536 };
    assert_eq!(
        t.summary_lines(),
        vec![
            "Processed 3 files".to_string(),
            "Skipped 2 files (optimization would increase size)".to_string(),
            "Total space saved: 1.5 KB".to_string(),
        ]
    );
    let none = BatchTotals::new();
    assert_eq!(none.summary_lines(), vec!["Processed 0 files".to_string()]);
}

#[test]
fn discovery_messages() {
    assert_eq!(discovery_message(12, false), "Found 12 image files");
    assert_eq!(discovery_message(0, true), "The specified file is not a supported image format");
    assert_eq!(discovery_message(0, false), "No image files found in the specified directory");
}

#[test]
fn recording_order_does_not_matter() {
    let outcomes = [FileOutcome::Shrunk(10), FileOutcome::Failed, FileOutcome::NotSmaller, FileOutcome::Shrunk(5)];
    let mut forward = BatchTotals::new();
    for o in outcomes {
        forward.record(o);
    }
    let mut backward = BatchTotals::new();
    for o in outcomes.iter().rev() {
        backward.record(*o);
    }
    assert_eq!(forward, backward);
    assert_eq!(forward, BatchTotals { processed: 2, skipped: 1, total_saved: 15 });
}
