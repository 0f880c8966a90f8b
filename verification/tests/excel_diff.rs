use edix::loading::{date_text, load_excel_bytes, ExcelLoadError};
use edix::types::CellValue;
use edix::excel_diff::{compare_sheets_sync, diff_ledger_column, ExcelDiffError};

fn grid(rows: &[&[&str]]) -> Vec<Vec<String>> {
    rows.iter().map(|r| r.iter().map(|c| c.to_string()).collect()).collect()
}

#[test]
fn ledger_column_difference() {
    let source = grid(&[
        &["h0", "h1"],
        &["a", "INV-100"],
        &["b", "200"],
        &["c"],
        &["d", "pay 300"],
        &["e", "x-"],
        &["f", "400"],
    ]);
    let ledger = grid(&[&["h"], &["", "100"], &["", "300"], &["", "100"], &["", "999"]]);
    let (missing, gl_size, count) = diff_ledger_column(&source, &ledger, 1, 10, 10);
    assert_eq!(missing, vec![(3, "200".to_string()), (7, "400".to_string())]);
    assert_eq!(gl_size, 3);
    assert_eq!(count, 2);
}

#[test]
fn ledger_column_difference_respects_limits() {
    let source = grid(&[&["h"], &["1"], &["2"], &["3"]]);
    let ledger = grid(&[&["h"], &["1"], &["2"], &["3"]]);
    let (missing, gl_size, count) = diff_ledger_column(&source, &ledger, 0, 2, 1);
    assert_eq!(missing, vec![(3, "2".to_string())]);
    assert_eq!((gl_size, count), (1, 1));
    let (missing, gl_size, count) = diff_ledger_column(&grid(&[&["h"]]), &grid(&[]), 0, 5, 5);
    assert!(missing.is_empty());
    assert_eq!((gl_size, count), (0, 0));
}

#[test]
fn bytes_that_are_not_a_workbook_fail_to_open() {
    let r = compare_sheets_sync(b"not a zip".to_vec(), "03".to_string(), "GL".to_string(), 3, 488, 932);
    assert!(matches!(r, Err(ExcelDiffError::WorkbookOpenError(_))));
}

#[test]
fn error_messages() {
    assert_eq!(ExcelDiffError::WorkbookOpenError("bad".to_string()).message(), "Failed to open workbook: bad");
    assert_eq!(ExcelDiffError::SheetNotFoundError("GL".to_string()).message(), "Sheet 'GL' not found");
    assert_eq!(ExcelDiffError::DataError("x".to_string()).message(), "Invalid data in sheet: x");
    assert_eq!(ExcelDiffError::IoError("y".to_string()).message(), "IO error: y");
}

/// CRC-32 (IEEE) of `data`, as zip archives record it.
fn crc32(data: &[u8]) -> u32 {
    let mut crc: u32 = 0xFFFF_FFFF;
    for &b in data {
        crc ^= b as u32;
        for _ in 0..8 {
            let mask = (!(crc & 1)).wrapping_add(1);
            crc = (crc >> 1) ^ (0xEDB8_8320 & mask);
        }
    }
    !crc
}

/// A zip archive holding `files` uncompressed.
fn stored_zip(files: &[(&str, String)]) -> Vec<u8> {
    let mut out: Vec<u8> = Vec::new();
    let mut central: Vec<u8> = Vec::new();
    for (name, body) in files {
        let data = body.as_bytes();
        let crc = crc32(data);
        let offset = out.len() as u32;
        let header = |sig: u32, central_entry: bool| {
            let mut h: Vec<u8> = Vec::new();
            h.extend_from_slice(&sig.to_le_bytes());
            if central_entry {
                h.extend_from_slice(&20u16.to_le_bytes());
            }
            h.extend_from_slice(&20u16.to_le_bytes());
            h.extend_from_slice(&0u16.to_le_bytes());
            h.extend_from_slice(&0u16.to_le_bytes());
            h.extend_from_slice(&0u16.to_le_bytes());
            h.extend_from_slice(&0x21u16.to_le_bytes());
            h.extend_from_slice(&crc.to_le_bytes());
            h.extend_from_slice(&(data.len() as u32).to_le_bytes());
            h.extend_from_slice(&(data.len() as u32).to_le_bytes());
            h.extend_from_slice(&(name.len() as u16).to_le_bytes());
            h.extend_from_slice(&0u16.to_le_bytes());
            if central_entry {
                h.extend_from_slice(&0u16.to_le_bytes());
                h.extend_from_slice(&0u16.to_le_bytes());
                h.extend_from_slice(&0u16.to_le_bytes());
                h.extend_from_slice(&0u32.to_le_bytes());
                h.extend_from_slice(&offset.to_le_bytes());
            }
            h.extend_from_slice(name.as_bytes());
            h
        };
        out.extend_from_slice(&header(0x0403_4b50, false));
        out.extend_from_slice(data);
        central.extend_from_slice(&header(0x0201_4b50, true));
    }
    let cd_offset = out.len() as u32;
    out.extend_from_slice(&central);
    out.extend_from_slice(&0x0605_4b50u32.to_le_bytes());
    out.extend_from_slice(&0u16.to_le_bytes());
    out.extend_from_slice(&0u16.to_le_bytes());
    out.extend_from_slice(&(files.len() as u16).to_le_bytes());
    out.extend_from_slice(&(files.len() as u16).to_le_bytes());
    out.extend_from_slice(&(central.len() as u32).to_le_bytes());
    out.extend_from_slice(&cd_offset.to_le_bytes());
    out.extend_from_slice(&0u16.to_le_bytes());
    out
}

fn sheet_xml(values: &[&str]) -> String {
    let mut rows = String::new();
    for (i, v) in values.iter().enumerate() {
        let r = i + 1;
        rows.push_str(&format!(
            "<row r=\"{r}\"><c r=\"A{r}\" t=\"inlineStr\"><is><t>x</t></is></c><c r=\"B{r}\" t=\"inlineStr\"><is><t>{v}</t></is></c></row>"
        ));
    }
    format!(
        "<?xml version=\"1.0\" encoding=\"UTF-8\"?><worksheet xmlns=\"http://schemas.openxmlformats.org/spreadsheetml/2006/main\"><sheetData>{rows}</sheetData></worksheet>"
    )
}

fn workbook(source: &[&str], ledger: &[&str]) -> Vec<u8> {
    let rel = "http://schemas.openxmlformats.org/officeDocument/2006/relationships";
    let pkg = "http://schemas.openxmlformats.org/package/2006/relationships";
    stored_zip(&[
        (
            "_rels/.rels",
            format!("<?xml version=\"1.0\" encoding=\"UTF-8\"?><Relationships xmlns=\"{pkg}\"><Relationship Id=\"rId1\" Type=\"{rel}/officeDocument\" Target=\"xl/workbook.xml\"/></Relationships>"),
        ),
        (
            "xl/workbook.xml",
            format!("<?xml version=\"1.0\" encoding=\"UTF-8\"?><workbook xmlns=\"http://schemas.openxmlformats.org/spreadsheetml/2006/main\" xmlns:r=\"{rel}\"><sheets><sheet name=\"03\" sheetId=\"1\" r:id=\"rId1\"/><sheet name=\"GL\" sheetId=\"2\" r:id=\"rId2\"/></sheets></workbook>"),
        ),
        (
            "xl/_rels/workbook.xml.rels",
            format!("<?xml version=\"1.0\" encoding=\"UTF-8\"?><Relationships xmlns=\"{pkg}\"><Relationship Id=\"rId1\" Type=\"{rel}/worksheet\" Target=\"worksheets/sheet1.xml\"/><Relationship Id=\"rId2\" Type=\"{rel}/worksheet\" Target=\"worksheets/sheet2.xml\"/></Relationships>"),
        ),
        ("xl/worksheets/sheet1.xml", sheet_xml(source)),
        ("xl/worksheets/sheet2.xml", sheet_xml(ledger)),
    ])
}

#[test]
fn workbook_sheets_are_read_and_compared() {
    let book = workbook(&["code", "INV-100", "INV-200", "pay 300", "400"], &["code", "100", "300", "300"]);
    let r = compare_sheets_sync(book.clone(), "03".to_string(), "GL".to_string(), 1, 488, 932);
    let (missing, gl_size, count) = r.expect("the workbook opens");
    assert_eq!(missing, vec![(3, "200".to_string()), (5, "400".to_string())]);
    assert_eq!((gl_size, count), (2, 2));
    match compare_sheets_sync(book, "03".to_string(), "Ledger".to_string(), 1, 488, 932) {
        Err(ExcelDiffError::SheetNotFoundError(m)) => assert!(m.starts_with("Ledger: ")),
        other => panic!("unexpected {:?}", other.map(|x| x.2)),
    }
}

fn read_number(s: String) -> Option<String> {
    s.trim().replace(',', "").parse::<f64>().ok().map(|n| n.to_string())
}

#[test]
fn workbook_sheets_load_as_sheets() {
    let book = workbook(&["Code", "INV-100", "1,500"], &["code", "100"]);
    let s = load_excel_bytes(book.clone(), None, 1, read_number).unwrap();
    assert_eq!(s.name, "03");
    assert_eq!(s.headers, vec!["x".to_string(), "code".to_string()]);
    assert_eq!(s.rows.len(), 2);
    assert_eq!(s.rows[0].row_number, 2);
    assert_eq!(s.rows[0].values[1], ("code".to_string(), CellValue::String("INV-100".to_string(), None)));
    assert_eq!(s.rows[1].values[1], ("code".to_string(), CellValue::String("1,500".to_string(), Some("1500".to_string()))));
    let g = load_excel_bytes(book.clone(), Some("GL"), 1, read_number).unwrap();
    assert_eq!(g.name, "GL");
    match load_excel_bytes(book, Some("Nope"), 1, read_number) {
        Err(ExcelLoadError::NotFound(n, all)) => {
            assert_eq!(n, "Nope");
            assert_eq!(all, vec!["03".to_string(), "GL".to_string()]);
        }
        other => panic!("unexpected {:?}", other),
    }
    assert!(matches!(load_excel_bytes(b"junk".to_vec(), None, 1, read_number), Err(ExcelLoadError::Open(_))));
}

#[test]
fn larger_limits_extend_the_results() {
    let source = grid(&[&["h"], &["1"], &["2"], &["3"], &["4"]]);
    let ledger = grid(&[&["h"], &["9"], &["2"], &["4"]]);
    let (few, n1, _) = diff_ledger_column(&source, &ledger, 0, 2, 1);
    let (more, n2, _) = diff_ledger_column(&source, &ledger, 0, 4, 1);
    assert_eq!(few, vec![(2, "1".to_string()), (3, "2".to_string())]);
    assert_eq!(&more[..few.len()], &few[..]);
    assert_eq!(n1, n2);
    let (fewer_missing, n3, _) = diff_ledger_column(&source, &ledger, 0, 2, 3);
    assert_eq!(fewer_missing, vec![(2, "1".to_string())]);
    assert!(n1 <= n3);
}

/// A workbook whose one sheet has the header `when`, then one date-formatted cell for each
/// serial value.
fn date_workbook(serials: &[&str]) -> Vec<u8> {
    let rel = "http://schemas.openxmlformats.org/officeDocument/2006/relationships";
    let pkg = "http://schemas.openxmlformats.org/package/2006/relationships";
    let main = "http://schemas.openxmlformats.org/spreadsheetml/2006/main";
    let mut rows = String::from("<row r=\"1\"><c r=\"A1\" t=\"inlineStr\"><is><t>when</t></is></c></row>");
    for (i, v) in serials.iter().enumerate() {
        let r = i + 2;
        rows.push_str(&format!("<row r=\"{r}\"><c r=\"A{r}\" s=\"1\"><v>{v}</v></c></row>"));
    }
    stored_zip(&[
        (
            "_rels/.rels",
            format!("<?xml version=\"1.0\" encoding=\"UTF-8\"?><Relationships xmlns=\"{pkg}\"><Relationship Id=\"rId1\" Type=\"{rel}/officeDocument\" Target=\"xl/workbook.xml\"/></Relationships>"),
        ),
        (
            "xl/workbook.xml",
            format!("<?xml version=\"1.0\" encoding=\"UTF-8\"?><workbook xmlns=\"{main}\" xmlns:r=\"{rel}\"><sheets><sheet name=\"Dates\" sheetId=\"1\" r:id=\"rId1\"/></sheets></workbook>"),
        ),
        (
            "xl/_rels/workbook.xml.rels",
            format!("<?xml version=\"1.0\" encoding=\"UTF-8\"?><Relationships xmlns=\"{pkg}\"><Relationship Id=\"rId1\" Type=\"{rel}/worksheet\" Target=\"worksheets/sheet1.xml\"/><Relationship Id=\"rId2\" Type=\"{rel}/styles\" Target=\"styles.xml\"/></Relationships>"),
        ),
        (
            "xl/styles.xml",
            format!("<?xml version=\"1.0\" encoding=\"UTF-8\"?><styleSheet xmlns=\"{main}\"><cellXfs count=\"2\"><xf numFmtId=\"0\" fontId=\"0\" fillId=\"0\" borderId=\"0\" xfId=\"0\"/><xf numFmtId=\"14\" fontId=\"0\" fillId=\"0\" borderId=\"0\" xfId=\"0\" applyNumberFormat=\"1\"/></cellXfs></styleSheet>"),
        ),
        (
            "xl/worksheets/sheet1.xml",
            format!("<?xml version=\"1.0\" encoding=\"UTF-8\"?><worksheet xmlns=\"{main}\"><sheetData>{rows}</sheetData></worksheet>"),
        ),
    ])
}

#[test]
fn date_cells_load_as_calendar_dates() {
    let book = date_workbook(&["45943.541", "367", "-1e12", "3000000"]);
    let s = load_excel_bytes(book, None, 1, read_number).unwrap();
    assert_eq!(s.headers, vec!["when".to_string()]);
    let dates: Vec<&CellValue> = s.rows.iter().map(|r| &r.values[0].1).collect();
    let expected = [
        CellValue::Date("2025-10-13".to_string()),
        CellValue::Date("1901-01-01".to_string()),
        CellValue::Date("1899-12-31".to_string()),
        CellValue::Date("9999-12-31".to_string()),
    ];
    assert_eq!(dates, expected.iter().collect::<Vec<_>>());
}

#[test]
fn dates_are_written_with_padded_fields() {
    assert_eq!(date_text(2024, 3, 7), "2024-03-07");
    assert_eq!(date_text(999, 12, 31), "0999-12-31");
    assert_eq!(date_text(1900, 1, 1), "1900-01-01");
}
