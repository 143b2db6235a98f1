use osdat::cli::{
    accepts_suggestion, answer_text, binary_answer, dataset_level_from_answers, is_safe_filename,
    platform_level_from_answers, record_language, text_answer, transparency_source, u32_answer,
    u64_answer, DatasetAnswers, PlatformAnswers,
};
use osdat::models::{auto_detect_dataset_level, ExtractedFileData};

#[test]
fn safe_filenames() {
    assert!(is_safe_filename("sparrso.json"));
    assert!(is_safe_filename("report"));
    assert!(!is_safe_filename(""));
    assert!(!is_safe_filename("../out.json"));
    assert!(!is_safe_filename("dir/out.json"));
    assert!(!is_safe_filename("dir\\out.json"));
    assert!(!is_safe_filename(".hidden"));
    assert!(!is_safe_filename("a..b"));
    assert!(is_safe_filename("a.b.c"));
}

#[test]
fn answers_are_trimmed() {
    assert_eq!(answer_text("  1 \n"), "1");
    assert_eq!(answer_text("\t\r\n"), "");
    assert_eq!(answer_text("গবেষণা\n"), "গবেষণা");
}

#[test]
fn binary_answers() {
    assert_eq!(binary_answer("0", None), Some(0));
    assert_eq!(binary_answer("1", Some(0)), Some(1));
    assert_eq!(binary_answer("", Some(1)), Some(1));
    assert_eq!(binary_answer("", None), None);
    assert_eq!(binary_answer("2", Some(1)), None);
    assert_eq!(binary_answer("01", None), None);
    assert_eq!(binary_answer("yes", Some(0)), None);
}

#[test]
fn number_answers() {
    assert_eq!(u32_answer("", Some(7)), Some(7));
    assert_eq!(u32_answer("", None), None);
    assert_eq!(u32_answer("42", Some(7)), Some(42));
    assert_eq!(u32_answer("+42", None), Some(42));
    assert_eq!(u32_answer("-1", None), None);
    assert_eq!(u32_answer("+", None), None);
    assert_eq!(u32_answer("4x", None), None);
    assert_eq!(u32_answer("4294967295", None), Some(4294967295));
    assert_eq!(u32_answer("4294967296", None), None);
    assert_eq!(u32_answer("007", None), Some(7));
    assert_eq!(u64_answer("18446744073709551615", None), Some(u64::MAX));
    assert_eq!(u64_answer("18446744073709551616", None), None);
    assert_eq!(u64_answer("", Some(3)), Some(3));
    // the same as `str::parse` on a range of inputs
    for s in ["0", "12", "+0", "99999999999", "1 2", " 1", "٣", "", "+-1", "0x10"] {
        assert_eq!(u32_answer(s, None), s.parse::<u32>().ok(), "{:?}", s);
        assert_eq!(u64_answer(s, None), s.parse::<u64>().ok(), "{:?}", s);
    }
}

#[test]
fn numbers_read_back() {
    for n in [0u64, 7, 10, 99, 4294967295, 4294967296, 12345678901234, u64::MAX] {
        assert_eq!(u64_answer(&n.to_string(), None), Some(n));
        assert_eq!(u32_answer(&n.to_string(), None), u32::try_from(n).ok());
    }
}

#[test]
fn text_answers() {
    assert_eq!(text_answer("", Some("2020-2021")), "2020-2021");
    assert_eq!(text_answer("monthly", Some("yearly")), "monthly");
    assert_eq!(text_answer("", Some("")), "");
    assert_eq!(text_answer("", None), "");
    assert_eq!(text_answer("x", None), "x");
}

#[test]
fn suggestion_acceptance() {
    assert!(accepts_suggestion("y"));
    assert!(accepts_suggestion("Y"));
    assert!(!accepts_suggestion("yes"));
    assert!(!accepts_suggestion("n"));
    assert!(!accepts_suggestion(""));
}

#[test]
fn languages_keep_their_place() {
    let mut langs: Vec<(String, u8)> = Vec::new();
    record_language(&mut langs, "bangla".into(), 1);
    record_language(&mut langs, "english".into(), 0);
    record_language(&mut langs, "bangla".into(), 0);
    assert_eq!(langs, vec![("bangla".to_string(), 0), ("english".to_string(), 0)]);
    record_language(&mut langs, "arabic".into(), 1);
    assert_eq!(langs.len(), 3);
    assert_eq!(langs[2], ("arabic".to_string(), 1));
}

#[test]
fn platform_level_from_collected_answers() {
    let p = platform_level_from_answers(PlatformAnswers {
        necessity_of_login: 0,
        multiple_language_support: 1,
        request_for_datasets: 0,
        languages: vec![("bangla".into(), 1)],
        browse_datasets_by_category: 1,
        filter_sort_datasets: 0,
        search_for_dataset: 1,
        user_guideline: 0,
        number_of_category: 2,
    });
    assert_eq!(p.diversity.number_of_dataset, 0);
    assert_eq!(p.diversity.number_of_category, 2);
    assert_eq!(p.user_accessibility.multiple_language_support, 1);
    assert_eq!(p.user_accessibility.languages, vec![("bangla".to_string(), 1)]);
    assert_eq!(p.user_usability.search_for_dataset, 1);
}

fn answers() -> DatasetAnswers {
    DatasetAnswers {
        descriptive: 1,
        linked_data: 0,
        primary: 1,
        timely: 1,
        license_free: 0,
        non_discriminatory: 1,
        accessible: 1,
        number_of_downloads: 12,
        faq: 0,
        textual_description: 1,
        category_tag: 1,
        meta_data: 0,
        open_standard: 0,
        five_star_linked_data: 0,
        time_period: "2020".into(),
        update_activity: "yearly".into(),
        last_update: "2021-01-01".into(),
        collection_method: "survey".into(),
        external_vocabulary: 0,
    }
}

#[test]
fn dataset_level_from_collected_answers() {
    let data = ExtractedFileData {
        title: "t".into(),
        source_url: "s".into(),
        download_url: "d".into(),
        file_type: "CSV".into(),
        file_size_bytes: 1,
        rows: None,
        columns: None,
        empty_cells: 0,
        column_names: vec![],
        machine_readable: 1,
        open_format: 1,
    };
    let auto = auto_detect_dataset_level(&data);
    let level = dataset_level_from_answers(&auto, "sparrso.gov.bd", answers());
    assert_eq!(level.transparency.source, "sparrso.gov.bd");
    assert_eq!(level.provenance.source, "sparrso.gov.bd");
    assert_eq!(level.openness.complete.descriptive, 1);
    assert_eq!(level.openness.complete.downloadable, 1);
    assert_eq!(level.openness.non_proprietary, 1);
    assert_eq!(level.openness.machine_readable.csv, 1);
    assert_eq!(level.transparency.number_of_downloads, 12);
    assert_eq!(level.transparency.five_star.available_online, 1);
    assert_eq!(level.provenance.collection_method, "survey");
    let mut auto2 = auto.clone();
    auto2.transparency.source = "Ministry".into();
    let level2 = dataset_level_from_answers(&auto2, "sparrso.gov.bd", answers());
    assert_eq!(level2.transparency.source, "Ministry");
    assert_eq!(level2.provenance.source, "Ministry");
    assert_eq!(transparency_source("", "site"), "site");
    assert_eq!(transparency_source("src", "site"), "src");
}
