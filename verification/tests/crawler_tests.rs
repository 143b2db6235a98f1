use osdat::crawler::{extract_file_links, get_data_extension};

#[test]
fn test_get_data_extension() {
    assert_eq!(get_data_extension("https://example.com/data.csv"), Some(".csv"));
    assert_eq!(get_data_extension("https://example.com/report.pdf"), Some(".pdf"));
    assert_eq!(get_data_extension("https://example.com/data.xlsx"), Some(".xlsx"));
    assert_eq!(get_data_extension("https://example.com/data.rdf"), Some(".rdf"));
    assert_eq!(get_data_extension("https://example.com/page.html"), None);
    assert_eq!(get_data_extension("https://example.com/file.CSV"), Some(".csv"));
    assert_eq!(
        get_data_extension("https://example.com/data.csv?download=true"),
        Some(".csv")
    );
}

#[test]
fn test_extract_file_links_basic() {
    let html = r#"
        <html>
        <body>
            <a href="data.csv">CSV Data</a>
            <a href="report.pdf">PDF Report</a>
            <a href="/files/info.xlsx">Excel File</a>
            <a href="page.html">Regular Page</a>
            <a href="">Empty Link</a>
        </body>
        </html>
    "#;

    let mut seen = Vec::new();
    let files = extract_file_links(html, "https://example.com/downloads/", &mut seen);

    assert_eq!(files.len(), 3);
    assert!(files.iter().any(|f| f.download_url == "https://example.com/downloads/data.csv"));
    assert!(files.iter().any(|f| f.download_url == "https://example.com/downloads/report.pdf"));
    assert!(files.iter().any(|f| f.download_url == "https://example.com/files/info.xlsx"));
}

#[test]
fn test_extract_file_links_deduplication() {
    let html = r#"
        <html>
        <body>
            <a href="data.csv">Link 1</a>
            <a href="data.csv">Link 2 (duplicate)</a>
        </body>
        </html>
    "#;

    let mut seen = Vec::new();
    let files = extract_file_links(html, "https://example.com/", &mut seen);

    assert_eq!(files.len(), 1);
}

#[test]
fn test_extract_file_links_all_extensions() {
    let html = r#"
        <html><body>
            <a href="a.pdf">1</a>
            <a href="b.xlsx">2</a>
            <a href="c.xls">3</a>
            <a href="d.csv">4</a>
            <a href="e.xml">5</a>
            <a href="e2.rdf">5b</a>
            <a href="f.docx">6</a>
            <a href="g.doc">7</a>
            <a href="h.pptx">8</a>
            <a href="i.ppt">9</a>
            <a href="j.txt">10</a>
        </body></html>
    "#;

    let mut seen = Vec::new();
    let files = extract_file_links(html, "https://example.com/", &mut seen);
    assert_eq!(files.len(), 11);
}

#[test]
fn test_extract_file_links_download_attribute() {
    let html = r#"
        <html><body>
            <a href="https://example.com/api/download/123" download="report.pdf">Download</a>
            <a href="data.csv" data-href="https://cdn.example.com/data.csv">CSV via data-href</a>
        </body></html>
    "#;

    let mut seen = Vec::new();
    let files = extract_file_links(html, "https://example.com/", &mut seen);
    // data.csv from href, https://cdn.example.com/data.csv from data-href,
    // and the download attribute fallback for the api URL
    assert!(files.len() >= 2);
    assert!(files.iter().any(|f| f.file_extension == ".csv"));
}

#[test]
fn extract_file_links_across_pages_keeps_each_url_once() {
    let page = r#"<a href="data.csv">a</a><a href="more.xml">b</a>"#;
    let mut seen = Vec::new();
    let first = extract_file_links(page, "https://example.com/", &mut seen);
    assert_eq!(first.len(), 2);
    assert_eq!(seen, vec!["https://example.com/data.csv", "https://example.com/more.xml"]);
    let again = extract_file_links(page, "https://example.com/", &mut seen);
    assert!(again.is_empty());
    assert_eq!(seen.len(), 2);
    assert_eq!(first[0].source_page_url, "https://example.com/");
    assert_eq!(first[1].file_extension, ".xml");
}

#[test]
fn extract_file_links_details() {
    let html = r#"
        <a href="https://example.com/api/download/123" download="report.pdf">D</a>
        <a href="  spaced.csv  ">S</a>
        <a href="x.html" download="https://cdn.example.com/f.txt">T</a>
    "#;
    let mut seen = Vec::new();
    let files = extract_file_links(html, "https://example.com/", &mut seen);
    let urls: Vec<&str> = files.iter().map(|f| f.download_url.as_str()).collect();
    assert_eq!(
        urls,
        vec![
            "https://example.com/api/download/123",
            "https://example.com/spaced.csv",
            "https://cdn.example.com/f.txt",
            "https://example.com/x.html",
        ]
    );
    assert_eq!(files[0].file_extension, ".pdf");
    // the page link behind a `download` file name takes that name's extension
    assert_eq!(files[3].file_extension, ".txt");
    // a base that is no URL finds nothing and leaves `seen` alone
    let mut seen2 = vec!["kept".to_string()];
    assert!(extract_file_links(html, "not a url", &mut seen2).is_empty());
    assert_eq!(seen2, vec!["kept"]);
}

#[test]
fn data_extension_edge_cases() {
    assert_eq!(get_data_extension("https://example.com/a.pptx"), Some(".pptx"));
    assert_eq!(get_data_extension("https://example.com/a.docx#top"), Some(".docx"));
    assert_eq!(get_data_extension("not a url.csv"), Some(".csv"));
    assert_eq!(get_data_extension("https://example.com/csv"), None);
}
