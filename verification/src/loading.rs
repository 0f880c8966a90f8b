//! Loading sheets from the bytes of CSV and Excel files: the records that the csv parser
//! reads, or the cells of a worksheet, laid out as a sheet.

use vstd::prelude::*;
use crate::config::CsvOptions;
use crate::excel_diff::{
    open_xlsx, sheet_cells, sheet_names_of, text_grid_view, xlsx_opened, CellKind, CellReading,
    ReadKind, SheetCell,
};
use crate::io::{
    build_csv_sheet, csv_delimiter, csv_delimiter_of, csv_has_headers, csv_rows_fit, csv_sheet,
    parse_sheet, parsed_sheet, select_sheet, CsvField, RangeCell, SheetChoiceError,
};
use crate::text::{
    chars_of, digits_value, is_blank, is_blank_chars, is_digit, lemma_padded_reads_back, padded,
    padded_chars, string_from_chars,
};
use crate::types::{strings_view, CellValue, CellView, SheetData};

verus! {

/// What the csv parser reads from `bytes` with field delimiter `delimiter`, taking every line
/// as a record: the fields of each record, or the message of the failure.
pub uninterp spec fn csv_parsed(bytes: Seq<u8>, delimiter: u8) -> Result<
    Seq<Seq<Seq<char>>>,
    Seq<char>,
>;

/// The csv crate's `ReaderBuilder` with the given delimiter and no header record, reading all
/// records of `bytes`: the fields of each record, or the failure's message.
#[verifier::external_body]
fn csv_records_of(bytes: &[u8], delimiter: u8) -> (r: Result<Vec<Vec<String>>, String>)
    ensures
        match r {
            Ok(v) => csv_parsed(bytes@, delimiter) == Ok::<_, Seq<char>>(text_grid_view(v@)),
            Err(e) => csv_parsed(bytes@, delimiter) == Err::<Seq<Seq<Seq<char>>>, _>(e@),
        },
{
    csv::ReaderBuilder::new().delimiter(delimiter).has_headers(false).from_reader(bytes).records().map(
        |rec| rec.map(|rec| rec.iter().map(|f| f.to_string()).collect()),
    ).collect::<Result<Vec<Vec<String>>, csv::Error>>().map_err(|e| e.to_string())
}

/// Why CSV bytes cannot be loaded.
#[derive(Debug)]
pub enum CsvLoadError {
    /// The csv parser failed, with its message
    Parse(String),
    /// The row numbers of the records do not fit in a `usize`
    RowNumbersOverflow,
}

/// The texts of the fields of `fields`.
pub open spec fn field_texts(fields: Seq<Vec<CsvField>>) -> Seq<Seq<Seq<char>>> {
    fields.map_values(|r: Vec<CsvField>| r@.map_values(|f: CsvField| f.text@))
}

/// Each field's number is one that `read_number` gives for its text.
pub open spec fn numbers_read<F: Fn(String) -> Option<String>>(
    read_number: F,
    fields: Seq<Vec<CsvField>>,
) -> bool {
    forall|i: int, j: int|
        0 <= i < fields.len() && 0 <= j < fields[i]@.len() ==> read_number.ensures(
            (fields[i]@[j].text,),
            fields[i]@[j].number,
        )
}

/// Load a sheet named `name` from the bytes of a CSV file: every line is a record, the first
/// one holds the headers when the options say so (as they do by default), and the number
/// that each field's text reads as is given by `read_number`.
pub fn load_csv_bytes<F: Fn(String) -> Option<String>>(
    name: &str,
    bytes: &[u8],
    options: Option<&CsvOptions>,
    header_row: Option<usize>,
    read_number: F,
) -> (r: Result<SheetData, CsvLoadError>)
    requires
        forall|s: String| read_number.requires((s,)),
    ensures
        match csv_parsed(bytes@, csv_delimiter_of(options)) {
            Err(e) => r matches Err(CsvLoadError::Parse(m)) && m@ == e,
            Ok(records) => {
                let has_headers = match options {
                    Some(o) => o.has_headers,
                    None => true,
                };
                if !csv_rows_fit(records.len(), has_headers, header_row) {
                    r matches Err(CsvLoadError::RowNumbersOverflow)
                } else {
                    r matches Ok(sheet) && exists|fields: Seq<Vec<CsvField>>|
                        {
                            &&& field_texts(fields) == records
                            &&& numbers_read(read_number, fields)
                            &&& csv_sheet(sheet, name@, fields, has_headers, header_row)
                        }
                }
            },
        },
{
    let delimiter = csv_delimiter(options);
    let has_headers = csv_has_headers(options);
    let texts = match csv_records_of(bytes, delimiter) {
        Ok(t) => t,
        Err(e) => {
            return Err(CsvLoadError::Parse(e));
        },
    };
    let ghost records = text_grid_view(texts@);
    if texts.len() > 0 {
        let first = match header_row {
            Some(h) => h,
            None => if has_headers {
                2
            } else {
                1
            },
        };
        let data_len = if has_headers {
            texts.len() - 1
        } else {
            texts.len()
        };
        if first as u128 + data_len as u128 > usize::MAX as u128 + 1 {
            return Err(CsvLoadError::RowNumbersOverflow);
        }
    }
    let mut fields: Vec<Vec<CsvField>> = Vec::new();
    let mut i: usize = 0;
    while i < texts.len()
        invariant
            i <= texts@.len(),
            records == text_grid_view(texts@),
            forall|s: String| read_number.requires((s,)),
            field_texts(fields@) == records.take(i as int),
            numbers_read(read_number, fields@),
        decreases texts@.len() - i,
    {
        let rec = &texts[i];
        let mut row: Vec<CsvField> = Vec::new();
        let mut j: usize = 0;
        while j < rec.len()
            invariant
                j <= rec@.len(),
                forall|s: String| read_number.requires((s,)),
                row@.map_values(|f: CsvField| f.text@) == rec@.take(j as int).map_values(
                    |t: String| t@,
                ),
                forall|k: int|
                    0 <= k < row@.len() ==> read_number.ensures(
                        (row@[k].text,),
                        row@[k].number,
                    ),
            decreases rec@.len() - j,
        {
            let text = rec[j].clone();
            let number = read_number(rec[j].clone());
            let ghost before = row@.map_values(|f: CsvField| f.text@);
            row.push(CsvField { text, number });
            assert(row@.map_values(|f: CsvField| f.text@) =~= before.push(rec@[j as int]@));
            assert(rec@.take(j + 1).map_values(|t: String| t@) =~= rec@.take(j as int).map_values(
                |t: String| t@,
            ).push(rec@[j as int]@));
            j = j + 1;
        }
        assert(rec@.take(rec@.len() as int) =~= rec@);
        assert(row@.map_values(|f: CsvField| f.text@) =~= strings_view(rec@));
        assert(records[i as int] == strings_view(texts@[i as int]@));
        let ghost before = fields@;
        fields.push(row);
        assert(field_texts(fields@) =~= field_texts(before).push(
            row@.map_values(|f: CsvField| f.text@),
        ));
        assert(field_texts(fields@) =~= records.take(i + 1));
        assert forall|a: int, b: int|
            0 <= a < fields@.len() && 0 <= b < fields@[a]@.len() implies read_number.ensures(
            (fields@[a]@[b].text,),
            fields@[a]@[b].number,
        ) by {
            if a < before.len() {
                assert(fields@[a] == before[a]);
            }
        }
        i = i + 1;
    }
    assert(records.take(texts@.len() as int) =~= records);
    let sheet = build_csv_sheet(name, fields.as_slice(), has_headers, header_row);
    Ok(sheet)
}


/// Why a sheet of an Excel workbook cannot be loaded.
#[derive(Debug)]
pub enum ExcelLoadError {
    /// The workbook does not open, with the message of the failure
    Open(String),
    /// The workbook has no sheets
    NoSheets,
    /// The named sheet is not among the workbook's sheets, which are given
    NotFound(String, Vec<String>),
    /// The named sheet cannot be read, with the message of the failure
    Sheet(String, String),
}

/// A calendar date written as `%Y-%m-%d`: the year in four digits, the month and the day in
/// two.
pub open spec fn iso_date(year: u16, month: u8, day: u8) -> Seq<char> {
    padded(year as nat, 4) + seq!['-'] + padded(month as nat, 2) + seq!['-'] + padded(day as nat, 2)
}

/// The date `year`-`month`-`day` written as `%Y-%m-%d`.
pub fn date_text(year: u16, month: u8, day: u8) -> (r: String)
    ensures
        r@ == iso_date(year, month, day),
{
    let mut v = padded_chars(year as usize, 4);
    v.push('-');
    let m = padded_chars(month as usize, 2);
    let mut i: usize = 0;
    let ghost start = v@;
    while i < m.len()
        invariant
            i <= m.len(),
            v@ == start + m@.take(i as int),
        decreases m.len() - i,
    {
        v.push(m[i]);
        i = i + 1;
        assert(v@ =~= start + m@.take(i as int));
    }
    assert(m@.take(m.len() as int) =~= m@);
    v.push('-');
    let d = padded_chars(day as usize, 2);
    let mut j: usize = 0;
    let ghost middle = v@;
    while j < d.len()
        invariant
            j <= d.len(),
            v@ == middle + d@.take(j as int),
        decreases d.len() - j,
    {
        v.push(d[j]);
        j = j + 1;
        assert(v@ =~= middle + d@.take(j as int));
    }
    assert(d@.take(d.len() as int) =~= d@);
    assert(v@ =~= iso_date(year, month, day));
    string_from_chars(&v)
}

/// `v` is the value of a read text `text` in a cell: the text, with the number that
/// `read_number` gives for it.
pub open spec fn text_read<F: Fn(String) -> Option<String>>(
    read_number: F,
    text: Seq<char>,
    v: CellValue,
) -> bool {
    v matches CellValue::String(t, n) && t@ == text && read_number.ensures((t,), n)
}

/// `v` is the range cell of worksheet cell `c`: its display text, and its value: blank text
/// and errors become empty, numbers are held by their display text, date-times by their date
/// written as `%Y-%m-%d`, ISO dates as dates, and durations and other text as text.
pub open spec fn cell_read<F: Fn(String) -> Option<String>>(
    read_number: F,
    c: CellReading,
    v: RangeCell,
) -> bool {
    &&& v.text@ == c.text
    &&& match c.kind {
        ReadKind::Text => if is_blank(c.text) {
            v.value@ == CellView::Empty
        } else {
            text_read(read_number, c.text, v.value)
        },
        ReadKind::Number => v.value@ == CellView::Number(c.text),
        ReadKind::Bool(b) => v.value@ == CellView::Boolean(b),
        ReadKind::DateTime(y, m, d) => v.value@ == CellView::Date(iso_date(y, m, d)),
        ReadKind::Iso => v.value@ == CellView::Date(c.text),
        ReadKind::Duration => text_read(read_number, c.text, v.value),
        ReadKind::Error => v.value@ == CellView::Empty,
        ReadKind::Empty => v.value@ == CellView::Empty,
    }
}

/// `t` writes the date `year`-`month`-`day` as `YYYY-MM-DD`: four digits that read as the year,
/// a `-`, two digits that read as the month, a `-`, and two digits that read as the day.
pub open spec fn writes_date(t: Seq<char>, year: nat, month: nat, day: nat) -> bool {
    &&& t.len() == 10
    &&& t[4] == '-' && t[7] == '-'
    &&& forall|i: int| 0 <= i < 10 && i != 4 && i != 7 ==> is_digit(#[trigger] t[i])
    &&& digits_value(t.subrange(0, 4)) == year
    &&& digits_value(t.subrange(5, 7)) == month
    &&& digits_value(t.subrange(8, 10)) == day
}

/// A calendar date of four-digit year and two-digit month and day is written as `YYYY-MM-DD`.
pub proof fn law_dates_are_written_year_month_day(year: u16, month: u8, day: u8)
    requires
        year < 10000,
        month < 100,
        day < 100,
    ensures
        writes_date(iso_date(year, month, day), year as nat, month as nat, day as nat),
{
    lemma_padded_reads_back(year as nat, 4);
    lemma_padded_reads_back(month as nat, 2);
    lemma_padded_reads_back(day as nat, 2);
    let a = padded(year as nat, 4);
    let b = padded(month as nat, 2);
    let c = padded(day as nat, 2);
    let t = iso_date(year, month, day);
    assert(t.subrange(0, 4) =~= a);
    assert(t.subrange(5, 7) =~= b);
    assert(t.subrange(8, 10) =~= c);
    assert forall|i: int| 0 <= i < 10 && i != 4 && i != 7 implies is_digit(#[trigger] t[i]) by {
        if i < 4 {
            assert(t[i] == a[i]);
        } else if i < 7 {
            assert(t[i] == b[i - 5]);
        } else {
            assert(t[i] == c[i - 8]);
        }
    }
}

/// Every cell read from a worksheet keeps what the cell holds: its display text; a boolean
/// cell its own truth value; a number cell the number as it displays; an ISO date cell its
/// text as a date; an error, empty or blank text cell nothing; other text and durations their
/// text; and a date-time cell its calendar date written as `YYYY-MM-DD`.
pub proof fn law_read_cells_keep_their_values<F: Fn(String) -> Option<String>>(
    read_number: F,
    c: CellReading,
    v: RangeCell,
)
    requires
        cell_read(read_number, c, v),
    ensures
        v.text@ == c.text,
        c.kind matches ReadKind::Bool(b) ==> v.value@ == CellView::Boolean(b),
        c.kind is Number ==> v.value@ == CellView::Number(c.text),
        c.kind is Iso ==> v.value@ == CellView::Date(c.text),
        c.kind is Error || c.kind is Empty ==> v.value@ == CellView::Empty,
        c.kind is Text && is_blank(c.text) ==> v.value@ == CellView::Empty,
        (c.kind is Text && !is_blank(c.text)) || c.kind is Duration ==> (v.value@ matches CellView::Text(
            t,
            _,
        ) && t == c.text),
        match c.kind {
            ReadKind::DateTime(y, m, d) => y < 10000 && m < 100 && d < 100 ==> (v.value@ matches CellView::Date(
                t,
            ) && writes_date(t, y as nat, m as nat, d as nat)),
            _ => true,
        },
{
    if let ReadKind::DateTime(y, m, d) = c.kind {
        if y < 10000 && m < 100 && d < 100 {
            law_dates_are_written_year_month_day(y, m, d);
        }
    }
}

/// A range read from worksheet cells holds, at each position, a cell that keeps what the
/// worksheet cell there holds (see `law_read_cells_keep_their_values`); in particular every
/// boolean cell loads as its own truth value.
pub proof fn law_read_ranges_keep_booleans<F: Fn(String) -> Option<String>>(
    read_number: F,
    g: Seq<Seq<CellReading>>,
    range: Seq<Vec<RangeCell>>,
    i: int,
    j: int,
)
    requires
        range_read(read_number, g, range),
        0 <= i < g.len(),
        0 <= j < g[i].len(),
    ensures
        range[i]@[j].text@ == g[i][j].text,
        g[i][j].kind matches ReadKind::Bool(b) ==> range[i]@[j].value@ == CellView::Boolean(b),
{
    law_read_cells_keep_their_values(read_number, g[i][j], range[i]@[j]);
}

/// `range` is the grid of worksheet cells `g`, cell by cell.
pub open spec fn range_read<F: Fn(String) -> Option<String>>(
    read_number: F,
    g: Seq<Seq<CellReading>>,
    range: Seq<Vec<RangeCell>>,
) -> bool {
    &&& range.len() == g.len()
    &&& forall|i: int| 0 <= i < g.len() ==> (#[trigger] range[i])@.len() == g[i].len()
    &&& forall|i: int, j: int|
        0 <= i < g.len() && 0 <= j < g[i].len() ==> cell_read(read_number, g[i][j], range[i]@[j])
}

/// `sheet` is the sheet named `name` parsed under `header_row` from the worksheet cells `g`.
pub open spec fn loaded_from<F: Fn(String) -> Option<String>>(
    read_number: F,
    g: Seq<Seq<CellReading>>,
    sheet: SheetData,
    name: Seq<char>,
    header_row: usize,
) -> bool {
    exists|range: Seq<Vec<RangeCell>>|
        #[trigger] range_read(read_number, g, range) && parsed_sheet(sheet, range, name, header_row)
}

/// Load a sheet of an Excel workbook from its bytes: the named sheet, or the first, parsed under
/// its 1-based header row; the number that a text cell reads as is given by `read_number`.
pub fn load_excel_bytes<F: Fn(String) -> Option<String>>(
    bytes: Vec<u8>,
    sheet_name: Option<&str>,
    header_row: usize,
    read_number: F,
) -> (r: Result<SheetData, ExcelLoadError>)
    requires
        forall|s: String| read_number.requires((s,)),
    ensures
        match xlsx_opened(bytes@) {
            Err(e) => r matches Err(ExcelLoadError::Open(m)) && m@ == e,
            Ok(wb) => if wb.names.len() == 0 {
                r matches Err(ExcelLoadError::NoSheets)
            } else {
                let chosen = match sheet_name {
                    Some(q) => q@,
                    None => wb.names[0],
                };
                if !wb.names.contains(chosen) {
                    r matches Err(ExcelLoadError::NotFound(n, all)) && n@ == chosen
                        && strings_view(all@) == wb.names
                } else if !wb.sheets.contains_key(chosen) {
                    r matches Err(ExcelLoadError::Sheet(n, _)) && n@ == chosen
                } else {
                    r matches Ok(sheet) && loaded_from(
                        read_number,
                        wb.sheets[chosen],
                        sheet,
                        chosen,
                        header_row,
                    )
                }
            },
        },
{
    let ghost opened = xlsx_opened(bytes@);
    let mut book = match open_xlsx(bytes) {
        Ok(b) => b,
        Err(e) => {
            return Err(ExcelLoadError::Open(e));
        },
    };
    let names = sheet_names_of(&book);
    let name = match select_sheet(names.as_slice(), sheet_name) {
        Ok(n) => n,
        Err(SheetChoiceError::NoSheets) => {
            return Err(ExcelLoadError::NoSheets);
        },
        Err(SheetChoiceError::NotFound(n)) => {
            return Err(ExcelLoadError::NotFound(n, names));
        },
    };
    let cells = match sheet_cells(&mut book, name.as_str()) {
        Ok(c) => c,
        Err(e) => {
            return Err(ExcelLoadError::Sheet(name, e));
        },
    };
    let ghost wb = opened->Ok_0;
    let ghost chosen = match sheet_name {
        Some(q) => q@,
        None => wb.names[0],
    };
    assert(wb.names.len() > 0);
    assert(strings_view(names@)[0] == names@[0]@);
    assert(name@ == chosen);
    let ghost g = opened->Ok_0.sheets[name@];
    let mut range: Vec<Vec<RangeCell>> = Vec::new();
    let mut i: usize = 0;
    while i < cells.len()
        invariant
            i <= cells@.len(),
            g.len() == cells@.len(),
            forall|k: int| 0 <= k < g.len() ==> #[trigger] g[k] == cells@[k]@.map_values(
                |c: SheetCell| c@,
            ),
            forall|s: String| read_number.requires((s,)),
            range_read(read_number, g.take(i as int), range@),
        decreases cells@.len() - i,
    {
        let row = &cells[i];
        let mut out: Vec<RangeCell> = Vec::new();
        let mut j: usize = 0;
        while j < row.len()
            invariant
                j <= row@.len(),
                g[i as int] == row@.map_values(|c: SheetCell| c@),
                forall|s: String| read_number.requires((s,)),
                out@.len() == j,
                forall|k: int| 0 <= k < j ==> cell_read(read_number, g[i as int][k], #[trigger] out@[k]),
            decreases row@.len() - j,
        {
            let c = &row[j];
            let v = chars_of(c.text.as_str());
            let value = match &c.kind {
                CellKind::Text => if is_blank_chars(&v) {
                    CellValue::Empty
                } else {
                    CellValue::String(c.text.clone(), read_number(c.text.clone()))
                },
                CellKind::Number => CellValue::Number(c.text.clone()),
                CellKind::Bool(b) => CellValue::Boolean(*b),
                CellKind::DateTime(y, m, d) => CellValue::Date(date_text(*y, *m, *d)),
                CellKind::Iso => CellValue::Date(c.text.clone()),
                CellKind::Duration => CellValue::String(c.text.clone(), read_number(c.text.clone())),
                CellKind::Error => CellValue::Empty,
                CellKind::Empty => CellValue::Empty,
            };
            let cell = RangeCell { value, text: c.text.clone() };
            assert(g[i as int][j as int] == c@);
            assert(cell_read(read_number, c@, cell));
            out.push(cell);
            j = j + 1;
        }
        let ghost before = range@;
        range.push(out);
        assert(g.take(i + 1) =~= g.take(i as int).push(g[i as int]));
        assert forall|a: int| 0 <= a < i + 1 implies (#[trigger] range@[a])@.len() == g.take(
            i + 1,
        )[a].len() by {
            if a < i {
                assert(range@[a] == before[a]);
            }
        }
        assert forall|a: int, b: int|
            0 <= a < i + 1 && 0 <= b < g.take(i + 1)[a].len() implies cell_read(
            read_number,
            g.take(i + 1)[a][b],
            range@[a]@[b],
        ) by {
            if a < i {
                assert(range@[a] == before[a]);
            }
        }
        i = i + 1;
    }
    assert(g.take(cells@.len() as int) =~= g);
    let sheet = parse_sheet(range.as_slice(), name.as_str(), header_row);
    assert(range_read(read_number, g, range@));
    assert(loaded_from(read_number, wb.sheets[chosen], sheet, chosen, header_row));
    Ok(sheet)
}

} // verus!
