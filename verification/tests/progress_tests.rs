use null_launcher::progress::{Progress, ProgressPayload};

#[test]
fn progress_counts_files_and_bytes() {
    let mut p = Progress::new(100, 3);
    assert_eq!(p.payload(), ProgressPayload { downloaded_bytes: 0, total_bytes: 100, files_done: 0, files_total: 3 });
    let after = p.add_file(40);
    assert_eq!(after, ProgressPayload { downloaded_bytes: 40, total_bytes: 100, files_done: 1, files_total: 3 });
    p.add_bytes(10);
    p.add_bytes(5);
    let done = p.finish_file();
    assert_eq!(done, ProgressPayload { downloaded_bytes: 55, total_bytes: 100, files_done: 2, files_total: 3 });
}
