use osdat::downloader::{download_size_allowed, filename_from_url, filename_or_fallback, unique_downloads, urldecode, MAX_FILE_SIZE};
use osdat::models::DiscoveredFile;

/// A local file name for `url`, with a fresh random UUID as the fallback.
fn generate_filename(url: &str, extension: &str) -> String {
    filename_or_fallback(url, extension, &uuid::Uuid::new_v4().to_string())
}

#[test]
fn test_generate_filename_from_url() {
    let name = generate_filename("https://example.com/files/report.pdf", ".pdf");
    assert_eq!(name, "report.pdf");
}

#[test]
fn test_generate_filename_with_special_chars() {
    let name = generate_filename("https://example.com/files/my report (1).csv", ".csv");
    assert_eq!(name, "my_report__1_.csv");
}

#[test]
fn test_generate_filename_fallback() {
    let name = generate_filename("https://example.com/", ".csv");
    assert!(name.ends_with(".csv"));
    assert!(name.len() > 4); // UUID + .csv
}

#[test]
fn test_urldecode() {
    assert_eq!(urldecode("hello%20world"), "hello world");
    assert_eq!(urldecode("data%2Ffile.csv"), "data/file.csv");
    assert_eq!(urldecode("normal"), "normal");
}

#[test]
fn urldecode_keeps_bad_escapes() {
    assert_eq!(urldecode("100%"), "100%");
    assert_eq!(urldecode("%zz1"), "%zz1");
    assert_eq!(urldecode("%4"), "\u{4}");
    assert_eq!(urldecode("a+b"), "a+b");
    assert_eq!(urldecode("%41%42"), "AB");
    assert_eq!(urldecode("%e9"), "\u{e9}");
}

#[test]
fn generated_names_never_traverse() {
    // a decoded segment with `..` or a separator is not used
    let a = generate_filename("https://example.com/x/..%2F..%2Fetc.csv", ".csv");
    assert!(!a.contains('/') && a.ends_with(".csv") && a.len() == 36 + 4);
    let b = generate_filename("https://example.com/a%5Cb.csv", ".csv");
    assert_eq!(b.len(), 36 + 4);
    // no dot in the last segment: fallback
    let c = generate_filename("https://example.com/download/123", ".pdf");
    assert_eq!(c.len(), 36 + 4);
    assert!(c.ends_with(".pdf"));
    // not a URL: fallback
    let d = generate_filename("not a url", ".txt");
    assert_eq!(d.len(), 36 + 4);
    // the fallback is a hyphenated lower-case UUID
    for (i, ch) in d[..36].chars().enumerate() {
        if i == 8 || i == 13 || i == 18 || i == 23 {
            assert_eq!(ch, '-');
        } else {
            assert!(ch.is_ascii_digit() || ('a'..='f').contains(&ch), "{}", d);
        }
    }
    assert_ne!(generate_filename("x", ".txt"), generate_filename("x", ".txt"));
}

#[test]
fn filename_helpers() {
    assert_eq!(filename_from_url("https://example.com/a/b%20c.xlsx"), Some("b_c.xlsx".to_string()));
    assert_eq!(filename_from_url("https://example.com/a/"), None);
    assert_eq!(filename_or_fallback("https://example.com/", ".csv", "ID"), "ID.csv");
    assert_eq!(filename_or_fallback("https://example.com/r.pdf", ".csv", "ID"), "r.pdf");
}

#[test]
fn download_size_limit() {
    assert_eq!(MAX_FILE_SIZE, 500 * 1024 * 1024);
    assert!(download_size_allowed(0));
    assert!(download_size_allowed(MAX_FILE_SIZE));
    assert!(!download_size_allowed(MAX_FILE_SIZE + 1));
}

fn discovered(page: &str, url: &str, ext: &str) -> DiscoveredFile {
    DiscoveredFile {
        source_page_url: page.to_string(),
        download_url: url.to_string(),
        file_extension: ext.to_string(),
    }
}

#[test]
fn duplicate_downloads_are_dropped() {
    let files = vec![
        discovered("https://a.org/p1", "https://a.org/x.csv", ".csv"),
        discovered("https://a.org/p2", "https://a.org/y.json", ".json"),
        discovered("https://a.org/p3", "https://a.org/x.csv", ".csv"),
    ];
    let unique = unique_downloads(&files);
    assert_eq!(unique.len(), 2);
    assert_eq!(unique[0].download_url, "https://a.org/x.csv");
    assert_eq!(unique[0].source_page_url, "https://a.org/p1");
    assert_eq!(unique[1].download_url, "https://a.org/y.json");
    assert!(unique_downloads(&[]).is_empty());
}

#[test]
fn urldecode_scenarios() {
    assert_eq!(urldecode("%48%69"), "Hi");
    assert_eq!(urldecode("100%zz"), "100%zz");
    assert_eq!(urldecode("a%"), "a%");
    assert_eq!(urldecode("plain.csv"), "plain.csv");
}

#[test]
fn urldecode_undoes_percent_encoding() {
    let text: String = (0u8..128).map(|b| b as char).collect();
    let encoded: String = text.bytes().map(|b| format!("%{:02X}", b)).collect();
    assert_eq!(urldecode(&encoded), text);
}
