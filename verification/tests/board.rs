use onesync::adapter::onedrive::parse::{parse_file_change_line, parse_preview_change_line};
use onesync::event::{FileChange, PreviewState};
use onesync::session::board::{apply_label, apply_progress, file_progress, TransferBoard};

fn line(text: &str) -> FileChange {
    parse_file_change_line(text).expect("transfer line")
}

fn keys(board: &TransferBoard) -> Vec<String> {
    let rows = board.rows();
    board.display_order().into_iter().map(|i| rows[i].item_id.clone()).collect()
}

#[test]
fn transfer_progress_is_read_from_the_percentage() {
    assert_eq!(file_progress(&line("Uploading: a.bin ... 37%  |  ETA    00:00:10")), 370);
    assert_eq!(file_progress(&line("Uploading: a.bin ... 37.5%  |  ETA    00:00:10")), 375);
    assert_eq!(file_progress(&line("Uploading: a.bin ... 99.99%")), 999);
    assert_eq!(file_progress(&line("Uploading: a.bin ... 100%")), 1000);
    assert_eq!(file_progress(&line("Uploading: a.bin")), 0);
    assert_eq!(file_progress(&line("Uploading: a.bin ... done.")), 1000);
    assert_eq!(file_progress(&line("Uploading: a.bin ... failed!")), 0);
}

#[test]
fn transfer_is_complete_exactly_when_full() {
    for text in [
        "Uploading: a.bin ... 99.99%",
        "Uploading: a.bin ... 100%",
        "Uploading: a.bin ... done.",
        "Uploading: a.bin",
    ] {
        let file = line(text);
        assert_eq!(file.is_complete(), file_progress(&file) == 1000, "{text}");
    }
}

#[test]
fn running_transfer_progress_never_goes_back() {
    let mut board = TransferBoard::new();
    board.upsert(&line("Uploading: a.bin ... 50%"));
    board.upsert(&line("Uploading: a.bin ... 30%"));
    assert_eq!(board.rows().len(), 1);
    assert_eq!(board.rows()[0].progress, 500);
    assert!(!board.rows()[0].completed);
    board.upsert(&line("Uploading: a.bin ... done."));
    assert_eq!(board.rows()[0].progress, 1000);
    assert!(board.rows()[0].completed);
}

#[test]
fn failed_transfer_shows_what_it_reported() {
    let mut board = TransferBoard::new();
    board.upsert(&line("Uploading: a.bin ... 50%"));
    board.upsert(&line("Uploading: a.bin ... 20% failed!"));
    assert_eq!(board.rows()[0].progress, 200);
}

#[test]
fn rows_at_work_come_first_newest_first() {
    let mut board = TransferBoard::new();
    board.upsert(&line("Uploading: first.bin ... 10%"));
    board.upsert(&line("Uploading: second.bin ... done."));
    board.upsert(&line("Uploading: third.bin ... 40%"));
    board.upsert(&line("Uploading: fourth.bin ... done."));
    assert_eq!(keys(&board), vec!["third.bin", "first.bin", "fourth.bin", "second.bin"]);
    board.upsert(&line("Uploading: third.bin ... done."));
    assert_eq!(keys(&board), vec!["first.bin", "fourth.bin", "third.bin", "second.bin"]);
    board.clear();
    assert!(board.rows().is_empty());
    assert!(board.display_order().is_empty());
}

#[test]
fn previewed_change_rows_follow_the_apply() {
    let change = parse_preview_change_line("Uploading new file: docs/a.txt ... done").unwrap();
    let mut board = TransferBoard::new();
    board.upsert(&line("Uploading: done.bin ... done."));
    board.upsert_preview("p1", &change);
    assert_eq!(keys(&board), vec![change.id.clone(), "done.bin".to_string()]);
    board.upsert_preview("p1", &change);
    assert_eq!(board.rows().len(), 2);

    board.mark_applying("p1", &change.id);
    let row = board.rows().iter().find(|r| r.preview).unwrap();
    assert_eq!(row.state, PreviewState::Applying);

    board.mark_progress("p1", &change.id, 50, 200);
    let row = board.rows().iter().find(|r| r.preview).unwrap();
    assert_eq!(row.progress, 250);

    board.mark_reconciling("p1", &change.id);
    let row = board.rows().iter().find(|r| r.preview).unwrap();
    assert_eq!(row.state, PreviewState::Reconciling);

    board.mark_reconcile_failed("p1", &change.id);
    board.mark_failed("p1", &change.id);
    let row = board.rows().iter().find(|r| r.preview).unwrap();
    assert_eq!(row.state, PreviewState::ReconcileFailed);

    board.remove_preview("p1", &change.id);
    assert_eq!(keys(&board), vec!["done.bin"]);
}

#[test]
fn apply_failure_marks_the_row_failed() {
    let change = parse_preview_change_line("Deleting local file: x.txt").unwrap();
    let mut board = TransferBoard::new();
    board.upsert_preview("p1", &change);
    board.mark_applying("p1", &change.id);
    board.mark_failed("p1", &change.id);
    assert_eq!(board.rows()[0].state, PreviewState::Failed);
    board.mark_failed("p2", &change.id);
    assert_eq!(board.rows().len(), 1);
}

#[test]
fn apply_progress_and_label() {
    assert_eq!(apply_progress(50, 200), 250);
    assert_eq!(apply_progress(300, 200), 1000);
    assert_eq!(apply_progress(0, 0), 0);
    assert_eq!(apply_progress(7, 0), 1000);
    assert_eq!(apply_label(1, 3), "正在应用 33%");
    assert_eq!(apply_label(2, 3), "正在应用 67%");
    assert_eq!(apply_label(1, 2), "正在应用 50%");
    assert_eq!(apply_label(5, 0), "正在应用 100%");
    assert_eq!(apply_label(0, 10), "正在应用 0%");
}
