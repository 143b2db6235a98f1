use osdat::extractor::{
    classify_format, csv_metadata_from_records, extract_csv_metadata, extract_excel_metadata, extract_metadata,
    extract_txt_metadata, extract_xml_metadata, is_spreadsheet_extension, sheet_metadata, xml_metadata_from_events,
    SheetData, XmlItem,
};

#[test]
fn test_classify_format() {
    assert_eq!(classify_format(".csv"), (1, 1));
    assert_eq!(classify_format(".xml"), (1, 1));
    assert_eq!(classify_format(".xlsx"), (1, 0));
    assert_eq!(classify_format(".pdf"), (0, 0));
    assert_eq!(classify_format(".docx"), (0, 0));
}

#[test]
fn test_extract_csv_metadata() {
    let content = "name,age,city\nAlice,30,NYC\nBob,25,LA\n";
    let (rows, cols, headers) = extract_csv_metadata(content.as_bytes());
    assert_eq!(rows, Some(2));
    assert_eq!(cols, Some(3));
    assert_eq!(headers, vec!["name", "age", "city"]);
}

#[test]
fn test_extract_txt_metadata_tsv() {
    let content = "col1\tcol2\tcol3\nval1\tval2\tval3\n";
    let (rows, cols, headers) = extract_txt_metadata(content);
    assert_eq!(rows, Some(1));
    assert_eq!(cols, Some(3));
    assert_eq!(headers, vec!["col1", "col2", "col3"]);
}

#[test]
fn test_extract_metadata_creates_dataset() {
    let content = "x,y\n1,2\n3,4\n";
    let dataset = extract_metadata(
        "downloads/test_data.csv",
        Some(content.as_bytes()),
        None,
        "https://example.com/test_data.csv",
        "https://example.com/page",
        ".csv",
        50,
    );

    assert_eq!(dataset.title, "test_data");
    assert_eq!(dataset.file_type, "CSV");
    assert_eq!(dataset.file_size_bytes, Some(50));
    assert_eq!(dataset.metadata.rows, Some(2));
    assert_eq!(dataset.metadata.columns, Some(2));
    assert_eq!(dataset.metadata.format_quality.machine_readable, 1);
    assert_eq!(dataset.metadata.format_quality.open_format, 1);
}

#[test]
fn extract_metadata_describes_unreadable_and_other_files() {
    let d = extract_metadata("x/report.pdf", None, None, "https://e.org/report.pdf", "https://e.org/p", ".pdf", 7);
    assert_eq!(d.title, "report");
    assert_eq!(d.file_type, "PDF");
    assert_eq!(d.metadata.rows, None);
    assert_eq!(d.metadata.columns, None);
    assert!(d.metadata.column_names.is_empty());
    assert_eq!(d.metadata.description, "Data file (PDF) extracted from https://e.org/p");
    assert_eq!((d.metadata.format_quality.machine_readable, d.metadata.format_quality.open_format), (0, 0));
    let c = extract_metadata("x/a.csv", None, None, "u", "s", ".csv", 1);
    assert_eq!(c.metadata.rows, None);
}

#[test]
fn txt_metadata_edge_cases() {
    assert_eq!(extract_txt_metadata(""), (Some(0), None, vec![]));
    // a single line: no data rows, comma separated header
    let (rows, cols, headers) = extract_txt_metadata("a, b ,c");
    assert_eq!(rows, Some(0));
    assert_eq!(cols, Some(3));
    assert_eq!(headers, vec!["a", "b", "c"]);
    // no separator: only the line count
    let (rows, cols, headers) = extract_txt_metadata("only\nrow\n");
    assert_eq!(rows, Some(2));
    assert_eq!(cols, None);
    assert!(headers.is_empty());
    // a carriage return before the first newline is not part of the header
    let (rows, cols, headers) = extract_txt_metadata("x\ty\r\n1\t2\r\n3\t4");
    assert_eq!(rows, Some(2));
    assert_eq!(cols, Some(2));
    assert_eq!(headers, vec!["x", "y"]);
}

#[test]
fn csv_metadata_counts_good_records() {
    let (rows, cols, headers) = csv_metadata_from_records(vec!["a".to_string(), "b".to_string()], &[true, false, true]);
    assert_eq!((rows, cols), (Some(2), Some(2)));
    assert_eq!(headers, vec!["a", "b"]);
    assert_eq!(csv_metadata_from_records(vec![], &[]), (None, None, vec![]));
    // header only
    let (rows, cols, _) = extract_csv_metadata(b"h1,h2\n");
    assert_eq!((rows, cols), (None, Some(2)));
}

#[test]
fn xml_metadata_counts_records() {
    let xml = b"<root><item><a>1</a><b>2</b></item><item><a>3</a><b>4</b></item></root>";
    let (rows, cols, names) = extract_xml_metadata(xml);
    // every distinct element name counts as a column, the root's too
    assert_eq!(rows, Some(2));
    assert_eq!(cols, Some(4));
    assert_eq!(names, vec!["root", "item", "a", "b"]);
}

#[test]
fn xml_metadata_from_events_walk() {
    let ev = vec![
        XmlItem::Start("root".into()),
        XmlItem::Start("row".into()),
        XmlItem::Start("x".into()),
        XmlItem::End,
        XmlItem::End,
        XmlItem::End,
        XmlItem::EndDocument,
    ];
    let (rows, cols, names) = xml_metadata_from_events(&ev);
    assert_eq!(rows, Some(1));
    assert_eq!(cols, Some(3));
    assert_eq!(names, vec!["root", "row", "x"]);
    assert_eq!(xml_metadata_from_events(&[XmlItem::Error]), (None, None, vec![]));
}

#[test]
fn unreadable_spreadsheets_and_text() {
    assert_eq!(extract_excel_metadata(None), (None, None, vec![]));
    let d = extract_metadata("notes.txt", Some(&[0xff, 0xfe, 0x00]), None, "u", "s", ".txt", 3);
    assert_eq!((d.metadata.rows, d.metadata.columns), (None, None));
    let t = extract_metadata("notes.txt", Some("a\tb\n1\t2\n".as_bytes()), None, "u", "s", ".txt", 3);
    assert_eq!((t.metadata.rows, t.metadata.columns), (Some(1), Some(2)));
    assert_eq!(t.file_type, "TXT");
    let x = extract_metadata("d.xml", Some(b"<a><b/><b/></a>"), None, "u", "s", ".xml", 3);
    assert_eq!(x.metadata.rows, Some(2));
    assert_eq!(x.metadata.column_names, vec!["a", "b"]);
    let bad = extract_metadata("d.xml", Some(b"<a><b></a>"), None, "u", "s", ".xml", 3);
    assert_eq!(bad.metadata.rows, Some(1));
}

#[test]
fn sheet_metadata_shape() {
    let (rows, cols, names) = sheet_metadata(3, 2, Some(vec!["h1".into(), "h2".into()]));
    assert_eq!((rows, cols), (Some(2), Some(2)));
    assert_eq!(names, vec!["h1", "h2"]);
    assert_eq!(sheet_metadata(0, 0, None), (None, Some(0), vec![]));
    assert_eq!(sheet_metadata(1, 3, Some(vec!["x".into()])), (Some(0), Some(3), vec!["x".to_string()]));
}

#[test]
fn spreadsheets_take_their_first_sheet() {
    assert!(is_spreadsheet_extension(".xlsx") && is_spreadsheet_extension(".xls"));
    assert!(!is_spreadsheet_extension(".csv") && !is_spreadsheet_extension("xlsx"));
    let sheet = SheetData { height: 4, width: 2, first_row: Some(vec!["a".into(), "b".into()]) };
    let d = extract_metadata("x/book.xlsx", None, Some(sheet), "u", "s", ".xlsx", 9);
    assert_eq!((d.metadata.rows, d.metadata.columns), (Some(3), Some(2)));
    assert_eq!(d.metadata.column_names, vec!["a", "b"]);
    assert_eq!(d.file_type, "XLSX");
    let none = extract_metadata("x/book.xls", Some(b"bytes"), None, "u", "s", ".xls", 9);
    assert_eq!((none.metadata.rows, none.metadata.columns), (None, None));
    let ignored = SheetData { height: 4, width: 2, first_row: None };
    let c = extract_metadata("x/a.csv", Some(b"p,q\n1,2\n"), Some(ignored), "u", "s", ".csv", 9);
    assert_eq!((c.metadata.rows, c.metadata.columns), (Some(1), Some(2)));
}
