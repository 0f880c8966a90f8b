use edix::formatter::{escape_md, format_to_str, OutputFormat};

#[test]
fn output_format_names() {
    assert_eq!(OutputFormat::from_str("CSV"), Some(OutputFormat::Csv));
    assert_eq!(OutputFormat::from_str("md"), Some(OutputFormat::Markdown));
    assert_eq!(OutputFormat::from_str("Markdown"), Some(OutputFormat::Markdown));
    assert_eq!(OutputFormat::from_str("xlsx"), Some(OutputFormat::Excel));
    assert_eq!(OutputFormat::from_str("EXCEL"), Some(OutputFormat::Excel));
    assert_eq!(OutputFormat::from_str("json"), None);
    assert_eq!(OutputFormat::from_str(" csv"), None);
}

#[test]
fn output_format_display_names() {
    assert_eq!(format_to_str(&OutputFormat::Csv), "CSV");
    assert_eq!(format_to_str(&OutputFormat::Markdown), "Markdown");
    assert_eq!(format_to_str(&OutputFormat::Excel), "Excel");
}

#[test]
fn markdown_escaping() {
    assert_eq!(escape_md("a|b"), "a\\|b");
    assert_eq!(escape_md("x\r\ny"), "x  y");
    assert_eq!(escape_md("plain"), "plain");
    assert_eq!(escape_md(""), "");
}

#[test]
fn display_names_read_back() {
    for f in [OutputFormat::Csv, OutputFormat::Markdown, OutputFormat::Excel] {
        assert_eq!(OutputFormat::from_str(format_to_str(&f)), Some(f));
    }
}
