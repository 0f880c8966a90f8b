//! The state of the workbook-comparison application and how each message changes it.
//!
//! The application chooses an `.xlsx` file and the settings of a column comparison between a
//! source sheet and a ledger sheet, runs it, and shows the values that the ledger lacks. Each
//! message is applied by `update`, which answers with the command to carry out (opening the
//! file picker, or running a comparison) whose outcome comes back as another message.

use vstd::prelude::*;
use crate::excel_diff::{error_text, ExcelDiffError};
use crate::text::{chars_of, decimal, decimal_chars, parse_usize, parse_usize_chars, str_eq, string_from_chars};

verus! {

/// A file chosen in the file picker or dropped on the window.
#[derive(Debug)]
pub struct PickedFile {
    /// The path, as displayed
    pub path: String,
    /// The path's extension, if it has one
    pub extension: Option<String>,
}

/// Messages that the application handles.
#[derive(Debug)]
pub enum Message {
    /// The file picker is asked for
    FilePickerOpened,
    /// The file picker closed, with the chosen file if any
    FilePickerClosed(Option<PickedFile>),
    /// A window event: a dropped file, or `None` for any other event
    EventOccurred(Option<PickedFile>),
    SourceSheetChanged(String),
    GLSheetChanged(String),
    ColumnIndexChanged(String),
    SourceLimitChanged(String),
    GLLimitChanged(String),
    /// Run the comparison
    RunComparison,
    /// The outcome of a comparison
    ComparisonCompleted(Result<(Vec<(usize, String)>, usize, usize), ExcelDiffError>),
    Reset,
}

/// The settings of a comparison to run.
#[derive(Debug)]
pub struct CompareRequest {
    pub file_path: String,
    pub source_sheet: String,
    pub gl_sheet: String,
    pub column_index: usize,
    pub source_limit: usize,
    pub gl_limit: usize,
}

/// What the application asks to be carried out after a message.
#[derive(Debug)]
pub enum Command {
    Nothing,
    OpenFilePicker,
    Compare(CompareRequest),
}

/// Main application state.
#[derive(Debug)]
pub struct DifferApp {
    file_path: Option<String>,
    source_sheet: String,
    gl_sheet: String,
    column_index: usize,
    source_limit: usize,
    gl_limit: usize,
    results: Option<Vec<(usize, String)>>,
    gl_set_size: usize,
    mismatch_count: usize,
    status: String,
    is_loading: bool,
    error: Option<String>,
}

/// The mathematical value of the application state.
pub struct AppView {
    /// Selected Excel file path
    pub file_path: Option<Seq<char>>,
    /// Source sheet name
    pub source_sheet: Seq<char>,
    /// Ledger sheet name
    pub gl_sheet: Seq<char>,
    /// Column index to compare (0-based)
    pub column_index: usize,
    /// Row limit for the source sheet
    pub source_limit: usize,
    /// Row limit for the ledger sheet
    pub gl_limit: usize,
    /// Comparison results
    pub results: Option<Seq<(usize, Seq<char>)>>,
    /// Number of distinct ledger values
    pub gl_set_size: usize,
    /// Mismatch count
    pub mismatch_count: usize,
    /// Status message
    pub status: Seq<char>,
    /// Loading state
    pub is_loading: bool,
    /// Error message
    pub error: Option<Seq<char>>,
}

/// The view of an optional string.
pub open spec fn opt_text(o: Option<String>) -> Option<Seq<char>> {
    match o {
        Some(s) => Some(s@),
        None => None,
    }
}

/// The view of optional results.
pub open spec fn results_view(o: Option<Vec<(usize, String)>>) -> Option<Seq<(usize, Seq<char>)>> {
    match o {
        Some(v) => Some(v@.map_values(|p: (usize, String)| (p.0, p.1@))),
        None => None,
    }
}

impl View for DifferApp {
    type V = AppView;

    closed spec fn view(&self) -> AppView {
        AppView {
            file_path: opt_text(self.file_path),
            source_sheet: self.source_sheet@,
            gl_sheet: self.gl_sheet@,
            column_index: self.column_index,
            source_limit: self.source_limit,
            gl_limit: self.gl_limit,
            results: results_view(self.results),
            gl_set_size: self.gl_set_size,
            mismatch_count: self.mismatch_count,
            status: self.status@,
            is_loading: self.is_loading,
            error: opt_text(self.error),
        }
    }
}

/// The state that the application starts in.
pub open spec fn initial_state() -> AppView {
    AppView {
        file_path: None,
        source_sheet: "03"@,
        gl_sheet: "GL"@,
        column_index: 3,
        source_limit: 488,
        gl_limit: 932,
        results: None,
        gl_set_size: 0,
        mismatch_count: 0,
        status: "Ready"@,
        is_loading: false,
        error: None,
    }
}

/// `s` with the status message and nothing else changed.
pub open spec fn with_status(s: AppView, status: Seq<char>) -> AppView {
    AppView { status, ..s }
}

/// The state after a file is chosen (`dropped` tells a dropped file from a picked one).
pub open spec fn file_chosen(s: AppView, f: PickedFile, dropped: bool) -> AppView {
    if f.extension matches Some(e) && e@ == "xlsx"@ {
        AppView {
            file_path: Some(f.path@),
            status: (if dropped {
                "Dropped file: "@
            } else {
                "Selected file: "@
            }) + f.path@,
            ..s
        }
    } else {
        with_status(
            s,
            if dropped {
                "Invalid file type. Please drop an .xlsx file."@
            } else {
                "Invalid file type. Please select an .xlsx file."@
            },
        )
    }
}

/// The state after a number setting is edited: set, with `label` and the number in the
/// status, when the text reads as a number; otherwise `invalid` in the status unless the
/// text is empty.
pub open spec fn number_edited(
    s: AppView,
    text: Seq<char>,
    current: usize,
    label: Seq<char>,
    invalid: Seq<char>,
) -> (AppView, usize) {
    match parse_usize(text) {
        Some(n) => (with_status(s, label + decimal(n as nat)), n),
        None => if text.len() > 0 {
            (with_status(s, invalid), current)
        } else {
            (s, current)
        },
    }
}

/// The state after a comparison's outcome arrives.
pub open spec fn comparison_completed(
    s: AppView,
    outcome: Result<(Vec<(usize, String)>, usize, usize), ExcelDiffError>,
    message: Seq<char>,
) -> AppView {
    match outcome {
        Ok((results, gl_set_size, mismatch_count)) => AppView {
            is_loading: false,
            results: results_view(Some(results)),
            gl_set_size,
            mismatch_count,
            status: "Comparison complete. Found "@ + decimal(mismatch_count as nat)
                + " mismatches."@,
            ..s
        },
        Err(_) => AppView {
            is_loading: false,
            error: Some(message),
            status: "Comparison failed"@,
            ..s
        },
    }
}

fn concat_text(a: &str, b: &Vec<char>) -> (r: String)
    ensures
        r@ == a@ + b@,
{
    let mut v = chars_of(a);
    let mut i: usize = 0;
    let ghost start = v@;
    while i < b.len()
        invariant
            i <= b@.len(),
            v@ == start + b@.take(i as int),
        decreases b@.len() - i,
    {
        v.push(b[i]);
        i = i + 1;
        assert(v@ =~= start + b@.take(i as int));
    }
    assert(b@.take(b@.len() as int) =~= b@);
    string_from_chars(v.as_slice())
}

impl DifferApp {
    pub fn new() -> (app: Self)
        ensures
            app@ == initial_state(),
    {
        DifferApp {
            file_path: None,
            source_sheet: String::from_str("03"),
            gl_sheet: String::from_str("GL"),
            column_index: 3,
            source_limit: 488,
            gl_limit: 932,
            results: None,
            gl_set_size: 0,
            mismatch_count: 0,
            status: String::from_str("Ready"),
            is_loading: false,
            error: None,
        }
    }

    pub fn title(&self) -> (t: String)
        ensures
            t@ == "Excel Differ - Accounting Audit Tool"@,
    {
        String::from_str("Excel Differ - Accounting Audit Tool")
    }

    /// The status message.
    pub fn status(&self) -> (s: &String)
        ensures
            s@ == self@.status,
    {
        &self.status
    }

    /// The selected file.
    pub fn file_path(&self) -> (p: &Option<String>)
        ensures
            opt_text(*p) == self@.file_path,
    {
        &self.file_path
    }

    /// The results of the last comparison.
    pub fn results(&self) -> (r: &Option<Vec<(usize, String)>>)
        ensures
            results_view(*r) == self@.results,
    {
        &self.results
    }

    /// The error of the last comparison.
    pub fn error(&self) -> (e: &Option<String>)
        ensures
            opt_text(*e) == self@.error,
    {
        &self.error
    }

    /// Whether a comparison is running.
    pub fn is_loading(&self) -> (b: bool)
        ensures
            b == self@.is_loading,
    {
        self.is_loading
    }

    /// The number of values the ledger lacks, in the last comparison.
    pub fn mismatch_count(&self) -> (n: usize)
        ensures
            n == self@.mismatch_count,
    {
        self.mismatch_count
    }

    /// The number of distinct ledger values, in the last comparison.
    pub fn gl_set_size(&self) -> (n: usize)
        ensures
            n == self@.gl_set_size,
    {
        self.gl_set_size
    }

    /// The comparison settings: column index, source limit, ledger limit.
    pub fn settings(&self) -> (r: (usize, usize, usize))
        ensures
            r == (self@.column_index, self@.source_limit, self@.gl_limit),
    {
        (self.column_index, self.source_limit, self.gl_limit)
    }

    fn choose_file(&mut self, f: PickedFile, dropped: bool)
        ensures
            final(self)@ == file_chosen(old(self)@, f, dropped),
    {
        let is_xlsx = match &f.extension {
            Some(e) => str_eq(e.as_str(), "xlsx"),
            None => false,
        };
        if is_xlsx {
            let p = chars_of(f.path.as_str());
            self.status = if dropped {
                concat_text("Dropped file: ", &p)
            } else {
                concat_text("Selected file: ", &p)
            };
            self.file_path = Some(f.path);
        } else {
            self.status = if dropped {
                String::from_str("Invalid file type. Please drop an .xlsx file.")
            } else {
                String::from_str("Invalid file type. Please select an .xlsx file.")
            };
        }
    }

    fn edit_number(&mut self, text: &String, current: usize, label: &str, invalid: &str) -> (n: usize)
        ensures
            (final(self)@, n) == number_edited(old(self)@, text@, current, label@, invalid@),
    {
        let v = chars_of(text.as_str());
        match parse_usize_chars(&v) {
            Some(n) => {
                let d = decimal_chars(n);
                self.status = concat_text(label, &d);
                n
            },
            None => {
                if v.len() > 0 {
                    self.status = String::from_str(invalid);
                }
                current
            },
        }
    }

    /// Apply a message to the state, and give the command to carry out.
    pub fn update(&mut self, message: Message) -> (c: Command)
        ensures
            match message {
                Message::FilePickerOpened => final(self)@ == old(self)@ && c is OpenFilePicker,
                Message::FilePickerClosed(Some(f)) => final(self)@ == file_chosen(
                    old(self)@,
                    f,
                    false,
                ) && c is Nothing,
                Message::FilePickerClosed(None) => final(self)@ == with_status(
                    old(self)@,
                    "No file selected"@,
                ) && c is Nothing,
                Message::EventOccurred(Some(f)) => final(self)@ == file_chosen(old(self)@, f, true)
                    && c is Nothing,
                Message::EventOccurred(None) => final(self)@ == old(self)@ && c is Nothing,
                Message::SourceSheetChanged(s) => final(self)@ == (AppView {
                    source_sheet: s@,
                    ..old(self)@
                }) && c is Nothing,
                Message::GLSheetChanged(s) => final(self)@ == (AppView {
                    gl_sheet: s@,
                    ..old(self)@
                }) && c is Nothing,
                Message::ColumnIndexChanged(t) => {
                    let (st, n) = number_edited(
                        old(self)@,
                        t@,
                        old(self)@.column_index,
                        "Column index set to "@,
                        "Invalid column index"@,
                    );
                    final(self)@ == (AppView { column_index: n, ..st }) && c is Nothing
                },
                Message::SourceLimitChanged(t) => {
                    let (st, n) = number_edited(
                        old(self)@,
                        t@,
                        old(self)@.source_limit,
                        "Source limit set to "@,
                        "Invalid limit"@,
                    );
                    final(self)@ == (AppView { source_limit: n, ..st }) && c is Nothing
                },
                Message::GLLimitChanged(t) => {
                    let (st, n) = number_edited(
                        old(self)@,
                        t@,
                        old(self)@.gl_limit,
                        "GL limit set to "@,
                        "Invalid limit"@,
                    );
                    final(self)@ == (AppView { gl_limit: n, ..st }) && c is Nothing
                },
                Message::RunComparison => match old(self)@.file_path {
                    None => final(self)@ == with_status(
                        old(self)@,
                        "Please select an Excel file first"@,
                    ) && c is Nothing,
                    Some(p) => {
                        &&& final(self)@ == (AppView {
                            is_loading: true,
                            status: "Running comparison..."@,
                            error: None,
                            ..old(self)@
                        })
                        &&& c matches Command::Compare(r)
                        &&& r.file_path@ == p
                        &&& r.source_sheet@ == old(self)@.source_sheet
                        &&& r.gl_sheet@ == old(self)@.gl_sheet
                        &&& r.column_index == old(self)@.column_index
                        &&& r.source_limit == old(self)@.source_limit
                        &&& r.gl_limit == old(self)@.gl_limit
                    },
                },
                Message::ComparisonCompleted(outcome) => final(self)@ == comparison_completed(
                    old(self)@,
                    outcome,
                    match outcome {
                        Ok(_) => seq![],
                        Err(e) => error_text(&e),
                    },
                ) && c is Nothing,
                Message::Reset => final(self)@ == initial_state() && c is Nothing,
            },
    {
        match message {
            Message::FilePickerOpened => Command::OpenFilePicker,
            Message::FilePickerClosed(picked) => {
                match picked {
                    Some(f) => self.choose_file(f, false),
                    None => {
                        self.status = String::from_str("No file selected");
                    },
                }
                Command::Nothing
            },
            Message::EventOccurred(dropped) => {
                match dropped {
                    Some(f) => self.choose_file(f, true),
                    None => {},
                }
                Command::Nothing
            },
            Message::SourceSheetChanged(sheet) => {
                self.source_sheet = sheet;
                Command::Nothing
            },
            Message::GLSheetChanged(sheet) => {
                self.gl_sheet = sheet;
                Command::Nothing
            },
            Message::ColumnIndexChanged(text) => {
                let current = self.column_index;
                let n = self.edit_number(&text, current, "Column index set to ", "Invalid column index");
                self.column_index = n;
                Command::Nothing
            },
            Message::SourceLimitChanged(text) => {
                let current = self.source_limit;
                let n = self.edit_number(&text, current, "Source limit set to ", "Invalid limit");
                self.source_limit = n;
                Command::Nothing
            },
            Message::GLLimitChanged(text) => {
                let current = self.gl_limit;
                let n = self.edit_number(&text, current, "GL limit set to ", "Invalid limit");
                self.gl_limit = n;
                Command::Nothing
            },
            Message::RunComparison => {
                match &self.file_path {
                    None => {
                        self.status = String::from_str("Please select an Excel file first");
                        Command::Nothing
                    },
                    Some(p) => {
                        let request = CompareRequest {
                            file_path: p.clone(),
                            source_sheet: self.source_sheet.clone(),
                            gl_sheet: self.gl_sheet.clone(),
                            column_index: self.column_index,
                            source_limit: self.source_limit,
                            gl_limit: self.gl_limit,
                        };
                        self.is_loading = true;
                        self.status = String::from_str("Running comparison...");
                        self.error = None;
                        Command::Compare(request)
                    },
                }
            },
            Message::ComparisonCompleted(outcome) => {
                self.is_loading = false;
                match outcome {
                    Ok((results, gl_set_size, mismatch_count)) => {
                        self.results = Some(results);
                        self.gl_set_size = gl_set_size;
                        self.mismatch_count = mismatch_count;
                        let d = decimal_chars(mismatch_count);
                        let s = concat_text("Comparison complete. Found ", &d);
                        self.status = s.concat(" mismatches.");
                        assert(self@ == comparison_completed(old(self)@, outcome, seq![]));
                    },
                    Err(err) => {
                        let m = err.message();
                        self.error = Some(m);
                        self.status = String::from_str("Comparison failed");
                        assert(self@ == comparison_completed(old(self)@, outcome, m@));
                    },
                }
                Command::Nothing
            },
            Message::Reset => {
                *self = DifferApp::new();
                Command::Nothing
            },
        }
    }
}

/// The tone of the status bar.
#[derive(Debug, Clone, Copy, PartialEq, Eq, Structural)]
pub enum StatusTone {
    /// While a comparison runs
    Neutral,
    /// After a failed comparison
    Error,
    /// Otherwise
    Success,
}

/// The results panel.
#[derive(Debug)]
pub enum ResultsPanel {
    /// A comparison found nothing lacking
    NoMismatches,
    /// The heading, and one (row label, value) line per value lacking
    Listed(String, Vec<(String, String)>),
    /// A comparison is running
    Running,
    /// No comparison has run yet
    Idle,
}

/// What the window shows: every text, and which controls are enabled.
#[derive(Debug)]
pub struct Screen {
    /// The line about the chosen file
    pub file_line: String,
    /// The hint below it
    pub file_hint: String,
    /// The settings, as (label, placeholder, value) in display order
    pub inputs: Vec<(String, String, String)>,
    /// The run button can be pressed
    pub run_enabled: bool,
    /// The action buttons stand in a column rather than a row
    pub buttons_stacked: bool,
    pub status: String,
    pub status_tone: StatusTone,
    pub results: ResultsPanel,
}

/// The views of (label, placeholder, value) triples.
pub open spec fn inputs_view(v: Seq<(String, String, String)>) -> Seq<
    (Seq<char>, Seq<char>, Seq<char>),
> {
    v.map_values(|t: (String, String, String)| (t.0@, t.1@, t.2@))
}

/// The settings as the window shows them.
pub open spec fn inputs_of(s: AppView) -> Seq<(Seq<char>, Seq<char>, Seq<char>)> {
    seq![
        ("Source Sheet:"@, "03"@, s.source_sheet),
        ("GL Sheet:"@, "GL"@, s.gl_sheet),
        ("Column Index (0-based):"@, "3"@, decimal(s.column_index as nat)),
        ("Source Limit:"@, "488"@, decimal(s.source_limit as nat)),
        ("GL Limit:"@, "932"@, decimal(s.gl_limit as nat)),
    ]
}

/// The (row label, value) lines of the results.
pub open spec fn result_lines(r: Seq<(usize, Seq<char>)>) -> Seq<(Seq<char>, Seq<char>)> {
    r.map_values(|p: (usize, Seq<char>)| ("Row "@ + decimal(p.0 as nat) + ":"@, p.1))
}

/// The views of (label, value) pairs.
pub open spec fn lines_view(v: Seq<(String, String)>) -> Seq<(Seq<char>, Seq<char>)> {
    v.map_values(|p: (String, String)| (p.0@, p.1@))
}

fn decimal_text(n: usize) -> (s: String)
    ensures
        s@ == decimal(n as nat),
{
    let d = decimal_chars(n);
    string_from_chars(d.as_slice())
}

fn copy_text(s: &String) -> (r: String)
    ensures
        r == s,
{
    s.clone()
}

impl DifferApp {
    /// What the window shows in the current state.
    pub fn screen(&self) -> (sc: Screen)
        ensures
            sc.file_line@ == match self@.file_path {
                Some(p) => "Selected: "@ + p,
                None => "No file selected"@,
            },
            sc.file_hint@ == if self@.file_path is Some {
                "Drop an .xlsx file here to change"@
            } else {
                "Drag and drop an .xlsx file here"@
            },
            inputs_view(sc.inputs@) == inputs_of(self@),
            sc.run_enabled == !self@.is_loading,
            sc.buttons_stacked == self@.is_loading,
            sc.status@ == self@.status,
            sc.status_tone == if self@.is_loading {
                StatusTone::Neutral
            } else if self@.error is Some {
                StatusTone::Error
            } else {
                StatusTone::Success
            },
            match self@.results {
                Some(r) => if r.len() == 0 {
                    sc.results is NoMismatches
                } else {
                    sc.results matches ResultsPanel::Listed(h, lines) && h@ == "Found "@ + decimal(
                        r.len(),
                    ) + " mismatches:"@ && lines_view(lines@) == result_lines(r)
                },
                None => if self@.is_loading {
                    sc.results is Running
                } else {
                    sc.results is Idle
                },
            },
    {
        let (file_line, file_hint) = match &self.file_path {
            Some(p) => {
                let v = chars_of(p.as_str());
                (
                    concat_text("Selected: ", &v),
                    String::from_str("Drop an .xlsx file here to change"),
                )
            },
            None => (
                String::from_str("No file selected"),
                String::from_str("Drag and drop an .xlsx file here"),
            ),
        };
        let inputs = vec![
            (String::from_str("Source Sheet:"), String::from_str("03"), copy_text(&self.source_sheet)),
            (String::from_str("GL Sheet:"), String::from_str("GL"), copy_text(&self.gl_sheet)),
            (
                String::from_str("Column Index (0-based):"),
                String::from_str("3"),
                decimal_text(self.column_index),
            ),
            (String::from_str("Source Limit:"), String::from_str("488"), decimal_text(self.source_limit)),
            (String::from_str("GL Limit:"), String::from_str("932"), decimal_text(self.gl_limit)),
        ];
        assert(inputs_view(inputs@) =~= inputs_of(self@));
        let status_tone = if self.is_loading {
            StatusTone::Neutral
        } else if self.error.is_some() {
            StatusTone::Error
        } else {
            StatusTone::Success
        };
        let results = match &self.results {
            Some(r) => {
                if r.len() == 0 {
                    ResultsPanel::NoMismatches
                } else {
                    let ghost rv = results_view(self.results)->0;
                    let heading = concat_text("Found ", &decimal_chars(r.len())).concat(
                        " mismatches:",
                    );
                    let mut lines: Vec<(String, String)> = Vec::new();
                    let mut i: usize = 0;
                    while i < r.len()
                        invariant
                            i <= r@.len(),
                            rv == r@.map_values(|p: (usize, String)| (p.0, p.1@)),
                            lines_view(lines@) == result_lines(rv.take(i as int)),
                        decreases r@.len() - i,
                    {
                        let label = concat_text("Row ", &decimal_chars(r[i].0)).concat(":");
                        let ghost before = lines_view(lines@);
                        lines.push((label, copy_text(&r[i].1)));
                        assert(rv[i as int] == (r@[i as int].0, r@[i as int].1@));
                        assert(result_lines(rv.take(i + 1)) =~= before.push(
                            ("Row "@ + decimal(r@[i as int].0 as nat) + ":"@, r@[i as int].1@),
                        ));
                        assert(lines_view(lines@) =~= result_lines(rv.take(i + 1)));
                        i = i + 1;
                    }
                    assert(rv.take(r@.len() as int) =~= rv);
                    ResultsPanel::Listed(heading, lines)
                }
            },
            None => if self.is_loading {
                ResultsPanel::Running
            } else {
                ResultsPanel::Idle
            },
        };
        Screen {
            file_line,
            file_hint,
            inputs,
            run_enabled: !self.is_loading,
            buttons_stacked: self.is_loading,
            status: copy_text(&self.status),
            status_tone,
            results,
        }
    }
}

impl Default for DifferApp {
    fn default() -> (app: Self)
        ensures
            app@ == (AppView {
                file_path: None,
                source_sheet: seq![],
                gl_sheet: seq![],
                column_index: 0,
                source_limit: 0,
                gl_limit: 0,
                results: None,
                gl_set_size: 0,
                mismatch_count: 0,
                status: seq![],
                is_loading: false,
                error: None,
            }),
    {
        DifferApp {
            file_path: None,
            source_sheet: String::new(),
            gl_sheet: String::new(),
            column_index: 0,
            source_limit: 0,
            gl_limit: 0,
            results: None,
            gl_set_size: 0,
            mismatch_count: 0,
            status: String::new(),
            is_loading: false,
            error: None,
        }
    }
}

} // verus!
