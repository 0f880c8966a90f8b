use edix::application::{Command, DifferApp, Message, PickedFile, ResultsPanel, StatusTone};
use edix::excel_diff::ExcelDiffError;

fn picked(path: &str, ext: Option<&str>) -> PickedFile {
    PickedFile { path: path.to_string(), extension: ext.map(|e| e.to_string()) }
}

#[test]
fn title_and_initial_state() {
    let app = DifferApp::new();
    assert_eq!(app.title(), "Excel Differ - Accounting Audit Tool");
    assert_eq!(app.status(), "Ready");
    assert_eq!(app.settings(), (3, 488, 932));
    assert!(app.file_path().is_none());
    assert!(!app.is_loading());
    let d = DifferApp::default();
    assert_eq!(d.status(), "");
    assert_eq!(d.settings(), (0, 0, 0));
}

#[test]
fn choosing_files() {
    let mut app = DifferApp::new();
    assert!(matches!(app.update(Message::FilePickerOpened), Command::OpenFilePicker));
    assert!(matches!(app.update(Message::FilePickerClosed(None)), Command::Nothing));
    assert_eq!(app.status(), "No file selected");
    app.update(Message::FilePickerClosed(Some(picked("/tmp/a.csv", Some("csv")))));
    assert_eq!(app.status(), "Invalid file type. Please select an .xlsx file.");
    assert!(app.file_path().is_none());
    app.update(Message::FilePickerClosed(Some(picked("/tmp/book.xlsx", Some("xlsx")))));
    assert_eq!(app.status(), "Selected file: /tmp/book.xlsx");
    assert_eq!(app.file_path().as_deref(), Some("/tmp/book.xlsx"));
    app.update(Message::EventOccurred(Some(picked("/tmp/other", None))));
    assert_eq!(app.status(), "Invalid file type. Please drop an .xlsx file.");
    app.update(Message::EventOccurred(Some(picked("/tmp/drop.xlsx", Some("xlsx")))));
    assert_eq!(app.status(), "Dropped file: /tmp/drop.xlsx");
    app.update(Message::EventOccurred(None));
    assert_eq!(app.status(), "Dropped file: /tmp/drop.xlsx");
}

#[test]
fn editing_settings() {
    let mut app = DifferApp::new();
    app.update(Message::ColumnIndexChanged("7".to_string()));
    assert_eq!(app.status(), "Column index set to 7");
    app.update(Message::ColumnIndexChanged("x".to_string()));
    assert_eq!(app.status(), "Invalid column index");
    app.update(Message::SourceLimitChanged("+12".to_string()));
    assert_eq!(app.status(), "Source limit set to 12");
    app.update(Message::GLLimitChanged("-1".to_string()));
    assert_eq!(app.status(), "Invalid limit");
    app.update(Message::GLLimitChanged(String::new()));
    assert_eq!(app.status(), "Invalid limit");
    assert_eq!(app.settings(), (7, 12, 932));
    app.update(Message::SourceSheetChanged("Data".to_string()));
    app.update(Message::GLSheetChanged("Ledger".to_string()));
    let screen = app.screen();
    assert_eq!(screen.inputs[0].2, "Data");
    assert_eq!(screen.inputs[1].2, "Ledger");
    assert_eq!(screen.inputs[2], ("Column Index (0-based):".to_string(), "3".to_string(), "7".to_string()));
}

#[test]
fn running_a_comparison() {
    let mut app = DifferApp::new();
    assert!(matches!(app.update(Message::RunComparison), Command::Nothing));
    assert_eq!(app.status(), "Please select an Excel file first");
    app.update(Message::FilePickerClosed(Some(picked("b.xlsx", Some("xlsx")))));
    match app.update(Message::RunComparison) {
        Command::Compare(r) => {
            assert_eq!(r.file_path, "b.xlsx");
            assert_eq!(r.source_sheet, "03");
            assert_eq!(r.gl_sheet, "GL");
            assert_eq!((r.column_index, r.source_limit, r.gl_limit), (3, 488, 932));
        }
        other => panic!("unexpected {:?}", other),
    }
    assert!(app.is_loading());
    assert_eq!(app.status(), "Running comparison...");
    let screen = app.screen();
    assert!(!screen.run_enabled && screen.buttons_stacked);
    assert_eq!(screen.status_tone, StatusTone::Neutral);
    assert!(matches!(screen.results, ResultsPanel::Running));

    app.update(Message::ComparisonCompleted(Ok((vec![(4, "X1".to_string())], 10, 1))));
    assert!(!app.is_loading());
    assert_eq!(app.status(), "Comparison complete. Found 1 mismatches.");
    assert_eq!((app.gl_set_size(), app.mismatch_count()), (10, 1));
    let screen = app.screen();
    assert_eq!(screen.status_tone, StatusTone::Success);
    match screen.results {
        ResultsPanel::Listed(h, lines) => {
            assert_eq!(h, "Found 1 mismatches:");
            assert_eq!(lines, vec![("Row 4:".to_string(), "X1".to_string())]);
        }
        other => panic!("unexpected {:?}", other),
    }
    assert_eq!(screen.file_line, "Selected: b.xlsx");

    app.update(Message::ComparisonCompleted(Err(ExcelDiffError::SheetNotFoundError("GL: missing".to_string()))));
    assert_eq!(app.status(), "Comparison failed");
    assert_eq!(app.error().as_deref(), Some("Sheet 'GL: missing' not found"));
    assert_eq!(app.screen().status_tone, StatusTone::Error);

    app.update(Message::Reset);
    assert_eq!(app.status(), "Ready");
    assert!(app.results().is_none() && app.error().is_none() && app.file_path().is_none());
    let screen = app.screen();
    assert_eq!(screen.file_line, "No file selected");
    assert_eq!(screen.file_hint, "Drag and drop an .xlsx file here");
    assert!(matches!(screen.results, ResultsPanel::Idle));
}

#[test]
fn empty_results_show_no_mismatches() {
    let mut app = DifferApp::new();
    app.update(Message::ComparisonCompleted(Ok((vec![], 3, 0))));
    assert!(matches!(app.screen().results, ResultsPanel::NoMismatches));
}
