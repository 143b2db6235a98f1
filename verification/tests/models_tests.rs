use osdat::models::{
    auto_detect_data_level, auto_detect_dataset_level, extracted_file_data, format_file_size,
    is_non_proprietary, machine_readable_formats, Dataset, DatasetMetadata, ExtractedFileData,
    FormatQuality, LlmAnalysis, DatasetRagAnalysis,
};

fn sample(file_type: &str, size: u64, rows: Option<u64>, columns: Option<u64>, empty: u64) -> ExtractedFileData {
    ExtractedFileData {
        title: "test".into(),
        source_url: "http://example.com".into(),
        download_url: "http://example.com/f.csv".into(),
        file_type: file_type.into(),
        file_size_bytes: size,
        rows,
        columns,
        empty_cells: empty,
        column_names: vec![],
        machine_readable: 1,
        open_format: 1,
    }
}

#[test]
fn test_format_file_size() {
    assert_eq!(format_file_size(500), "500B");
    assert_eq!(format_file_size(1024), "1kb");
    assert_eq!(format_file_size(1536), "1kb");
    assert_eq!(format_file_size(1048576), "1.0M");
    assert_eq!(format_file_size(1365000), "1.3M");
    assert_eq!(format_file_size(1073741824), "1.0G");
}

#[test]
fn test_machine_readable_formats() {
    let pdf = machine_readable_formats(".pdf");
    assert_eq!(pdf.pdf, 1);
    assert_eq!(pdf.csv, 0);

    let csv = machine_readable_formats(".csv");
    assert_eq!(csv.csv, 1);
    assert_eq!(csv.pdf, 0);
}

#[test]
fn test_is_non_proprietary() {
    assert_eq!(is_non_proprietary(".csv"), 1);
    assert_eq!(is_non_proprietary(".pdf"), 1);
    assert_eq!(is_non_proprietary(".xlsx"), 0);
}

#[test]
fn test_auto_detect_dataset_level() {
    let data = sample("CSV", 1024, Some(10), Some(3), 2);
    let dl = auto_detect_dataset_level(&data);
    assert_eq!(dl.openness.complete.downloadable, 1);
    assert_eq!(dl.openness.complete.machine_readable, 1);
    assert_eq!(dl.openness.non_proprietary, 1);
    assert_eq!(dl.openness.machine_readable.csv, 1);
    assert_eq!(dl.openness.machine_readable.pdf, 0);
}

#[test]
fn test_auto_detect_data_level() {
    let data = sample("CSV", 1365000, Some(100), Some(5), 7);
    let dl = auto_detect_data_level(&data);
    assert_eq!(dl.data_level_completeness.number_of_empty_cells, 7);
    assert_eq!(dl.data_volume.number_of_rows, 100);
    assert_eq!(dl.data_volume.number_of_columns, 5);
    assert_eq!(dl.data_volume.file_size, "1.3M");
    assert_eq!(dl.data_volume.download_link, "http://example.com/f.csv");
}

/// The formatted size agrees with one-decimal floating-point formatting of
/// the size in the unit, for sizes around every unit boundary.
#[test]
fn format_file_size_matches_float_formatting() {
    let gb = 1024u64 * 1024 * 1024;
    let mb = 1024u64 * 1024;
    let mut sizes: Vec<u64> = vec![0, 1, 1023, 1024, 1025, mb - 1, mb, mb + 1, gb - 1, gb, gb + 1];
    for k in 0..2000u64 {
        sizes.push(mb + k * 52_428 + 7);
        sizes.push(gb + k * 53_687_091 + 11);
        sizes.push(k * 1_000_003);
    }
    sizes.push(u64::MAX);
    sizes.push(u64::MAX - 1);
    sizes.push((1u64 << 53) + 1);
    sizes.push(1310720); // exactly 1.25 MB: ties go to the even tenth
    for &b in &sizes {
        let expected = if b >= gb {
            format!("{:.1}G", b as f64 / gb as f64)
        } else if b >= mb {
            format!("{:.1}M", b as f64 / mb as f64)
        } else if b >= 1024 {
            format!("{}kb", b / 1024)
        } else {
            format!("{}B", b)
        };
        assert_eq!(format_file_size(b), expected, "size {}", b);
    }
}

#[test]
fn format_file_size_rounds_ties_to_even() {
    assert_eq!(format_file_size(1310720), "1.2M");
    assert_eq!(format_file_size(1415577), "1.3M");
    assert_eq!(format_file_size(1415578), "1.4M");
    assert_eq!(format_file_size(1023), "1023B");
    assert_eq!(format_file_size(1048575), "1023kb");
}

#[test]
fn machine_readable_formats_of_other_extensions() {
    let rdf = machine_readable_formats(".rdf");
    assert_eq!((rdf.pdf, rdf.csv, rdf.rdf, rdf.xml), (0, 0, 1, 0));
    let xml = machine_readable_formats(".xml");
    assert_eq!((xml.pdf, xml.csv, xml.rdf, xml.xml), (0, 0, 0, 1));
    let docx = machine_readable_formats(".docx");
    assert_eq!((docx.pdf, docx.csv, docx.rdf, docx.xml), (0, 0, 0, 0));
}

#[test]
fn auto_detect_dataset_level_for_excel() {
    let mut data = sample("xlsx", 10, None, None, 0);
    data.machine_readable = 1;
    data.open_format = 0;
    let dl = auto_detect_dataset_level(&data);
    assert_eq!(dl.openness.non_proprietary, 0);
    assert_eq!(dl.openness.machine_readable.csv, 0);
    assert_eq!(dl.transparency.five_star.available_online, 1);
}

#[test]
fn auto_detect_data_level_without_counts() {
    let data = sample("CSV", 500, None, None, 0);
    let dl = auto_detect_data_level(&data);
    assert_eq!(dl.data_volume.number_of_rows, 0);
    assert_eq!(dl.data_volume.number_of_columns, 0);
    assert_eq!(dl.data_volume.file_size, "500B");
}

#[test]
fn extracted_file_data_keeps_measurements() {
    let d = Dataset {
        title: "t".into(),
        source_url: "s".into(),
        download_url: "d".into(),
        file_type: "CSV".into(),
        file_size_bytes: None,
        metadata: DatasetMetadata {
            description: "x".into(),
            rows: Some(4),
            columns: Some(2),
            column_names: vec!["a".into(), "b".into()],
            format_quality: FormatQuality { machine_readable: 1, open_format: 1 },
        },
    };
    let e = extracted_file_data(d);
    assert_eq!(e.file_size_bytes, 0);
    assert_eq!(e.rows, Some(4));
    assert_eq!(e.columns, Some(2));
    assert_eq!(e.column_names, vec!["a", "b"]);
    assert_eq!(e.empty_cells, 0);
    assert_eq!((e.machine_readable, e.open_format), (1, 1));
}

#[test]
fn default_analyses_suggest_nothing() {
    let l = LlmAnalysis::default();
    assert!(l.necessity_of_login.is_none() && l.languages.is_none() && l.number_of_category.is_none());
    let r = DatasetRagAnalysis::default();
    assert!(r.dataset_name.is_none() && r.granularity_zila.is_none());
}
