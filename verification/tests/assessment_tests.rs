use osdat::assessment::{apply_rag_granularity, assemble_report, choose_dataset_name, dataset_key, site_name};
use osdat::cli::{platform_level_from_answers, PlatformAnswers};
use osdat::models::{
    auto_detect_data_level, auto_detect_dataset_level, AppConfig, DatasetEntry, DatasetRagAnalysis,
    ExtractedFileData,
};

fn data(title: &str) -> ExtractedFileData {
    ExtractedFileData {
        title: title.into(),
        source_url: "https://sparrso.gov.bd/page".into(),
        download_url: format!("https://sparrso.gov.bd/{}.csv", title),
        file_type: "CSV".into(),
        file_size_bytes: 1024,
        rows: Some(3),
        columns: Some(2),
        empty_cells: 5,
        column_names: vec![],
        machine_readable: 1,
        open_format: 1,
    }
}

fn entry(title: &str) -> DatasetEntry {
    let d = data(title);
    DatasetEntry {
        dataset_name: title.into(),
        url: d.source_url.clone(),
        dataset_level: auto_detect_dataset_level(&d),
        data_level: auto_detect_data_level(&d),
    }
}

#[test]
fn site_names() {
    assert_eq!(site_name("https://sparrso.gov.bd/"), "sparrso.gov.bd");
    assert_eq!(site_name("not a url"), "Unknown");
    assert_eq!(site_name("data:text/plain,hello"), "Unknown");
}

#[test]
fn dataset_names() {
    assert_eq!(choose_dataset_name(&Some("Rainfall".into()), "file"), "Rainfall");
    assert_eq!(choose_dataset_name(&Some(String::new()), "file"), "file");
    assert_eq!(choose_dataset_name(&None, "file"), "file");
}

#[test]
fn dataset_keys() {
    assert_eq!(dataset_key(0), "dataset1");
    assert_eq!(dataset_key(9), "dataset10");
    assert_eq!(dataset_key(122), "dataset123");
}

#[test]
fn rag_granularity_is_taken_over() {
    let mut level = auto_detect_data_level(&data("a"));
    let mut rag = DatasetRagAnalysis::default();
    rag.granularity_month = Some(1);
    rag.granularity_zila = Some(1);
    apply_rag_granularity(&mut level, &rag);
    assert_eq!(level.granularity.time_dimension.month, 1);
    assert_eq!(level.granularity.time_dimension.day, 0);
    assert_eq!(level.granularity.geo_dimension.zila, 1);
    assert_eq!(level.granularity.geo_dimension.union, 0);
    assert_eq!(level.data_level_completeness.number_of_empty_cells, 5);
}

#[test]
fn report_holds_the_datasets_in_order() {
    let config = AppConfig {
        root_url: "https://sparrso.gov.bd/".into(),
        page_urls: vec![],
        output_filename: "sparrso.json".into(),
        category_name: "গবেষণা".into(),
    };
    let platform = platform_level_from_answers(PlatformAnswers {
        necessity_of_login: 0,
        multiple_language_support: 1,
        request_for_datasets: 0,
        languages: vec![],
        browse_datasets_by_category: 1,
        filter_sort_datasets: 0,
        search_for_dataset: 1,
        user_guideline: 0,
        number_of_category: 2,
    });
    let report = assemble_report(&config, platform, vec![entry("a"), entry("b"), entry("c")]);
    assert_eq!(report.website.url, "https://sparrso.gov.bd/");
    let p = &report.website.portal_quality_assessment.platform_level;
    assert_eq!(p.diversity.number_of_dataset, 3);
    assert_eq!(p.diversity.number_of_category, 2);
    assert_eq!(report.website.category.len(), 1);
    let datasets = &report.website.category["গবেষণা"];
    let keys: Vec<&String> = datasets.keys().collect();
    assert_eq!(keys, vec!["dataset1", "dataset2", "dataset3"]);
    assert_eq!(datasets["dataset2"].dataset_name, "b");
}

#[test]
fn empty_report() {
    let config = AppConfig {
        root_url: "r".into(),
        page_urls: vec![],
        output_filename: "o.json".into(),
        category_name: "c".into(),
    };
    let platform = platform_level_from_answers(PlatformAnswers {
        necessity_of_login: 1,
        multiple_language_support: 0,
        request_for_datasets: 0,
        languages: vec![],
        browse_datasets_by_category: 0,
        filter_sort_datasets: 0,
        search_for_dataset: 0,
        user_guideline: 0,
        number_of_category: 1,
    });
    let report = assemble_report(&config, platform, vec![]);
    assert_eq!(report.website.portal_quality_assessment.platform_level.diversity.number_of_dataset, 0);
    assert!(report.website.category["c"].is_empty());
}
