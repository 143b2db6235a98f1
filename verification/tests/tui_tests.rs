use osdat::models::{auto_detect_data_level, auto_detect_dataset_level, DatasetRagAnalysis, ExtractedFileData, LlmAnalysis};
use osdat::tui::{
    after_key, begin_crawl, begin_download, build_dataset_editor_entry, build_platform_fields, enter_editor,
    fail_crawl, finish_crawl, finish_download, handle_key, json_line_kind, section_marker,
    starts_section, suggestion_note, tab_title, terminal_too_small, value_text, App, AppScreen,
    FieldValue, JsonLineKind, Key, KeyPress, TuiAction,
};
use osdat::widgets::{ProgressStatus, TextInputState};

fn press(code: Key) -> KeyPress {
    KeyPress { code, control: false }
}

fn ctrl(c: char) -> KeyPress {
    KeyPress { code: Key::Char(c), control: true }
}

fn type_text(app: &mut App, s: &str) {
    for c in s.chars() {
        assert!(handle_key(app, press(Key::Char(c))));
    }
}

fn sample() -> ExtractedFileData {
    ExtractedFileData {
        title: "rain".into(),
        source_url: "https://e.org/p".into(),
        download_url: "https://e.org/rain.csv".into(),
        file_type: "CSV".into(),
        file_size_bytes: 1365000,
        rows: Some(10),
        columns: Some(4),
        empty_cells: 3,
        column_names: vec![],
        machine_readable: 1,
        open_format: 1,
    }
}

#[test]
fn new_app_starts_on_the_welcome_screen() {
    let app = App::new();
    assert_eq!(app.screen, AppScreen::Welcome);
    assert!(!app.should_quit);
    assert_eq!(app.output_filename.value, "output.json");
    assert_eq!(app.output_filename.cursor, 11);
    assert_eq!(app.welcome_focus, 0);
    assert!(app.report.is_none() && app.output_path.is_none());
    let config = app.get_config();
    assert_eq!(config.output_filename, "output.json");
    assert!(config.root_url.is_empty() && config.page_urls.is_empty());
}

#[test]
fn welcome_screen_editing_and_focus() {
    let mut app = App::new();
    type_text(&mut app, "https://e.org/");
    assert_eq!(app.root_url.value, "https://e.org/");
    assert!(handle_key(&mut app, press(Key::Backspace)));
    assert!(handle_key(&mut app, press(Key::Left)));
    assert!(handle_key(&mut app, press(Key::Char('X'))));
    assert_eq!(app.root_url.value, "https://e.orXg");
    assert!(handle_key(&mut app, press(Key::Right)));
    assert!(handle_key(&mut app, press(Key::Right)));
    assert_eq!(app.root_url.cursor, app.root_url.value.len());
    assert!(app.root_url.cursor_is_valid() && app.current_page_url.cursor_is_valid());
    // Enter moves on from a text field
    assert!(handle_key(&mut app, press(Key::Enter)));
    assert_eq!(app.welcome_focus, 1);
    type_text(&mut app, "https://e.org/a");
    assert!(handle_key(&mut app, press(Key::Enter)));
    assert_eq!(app.page_urls, vec!["https://e.org/a"]);
    assert!(app.current_page_url.value.is_empty());
    // an empty page URL is not added
    assert!(handle_key(&mut app, press(Key::Enter)));
    assert_eq!(app.page_urls.len(), 1);
    // Delete on an empty page URL drops the last one
    assert!(handle_key(&mut app, press(Key::Delete)));
    assert!(app.page_urls.is_empty());
    // Shift-Tab wraps around
    assert!(handle_key(&mut app, press(Key::BackTab)));
    assert!(handle_key(&mut app, press(Key::BackTab)));
    assert_eq!(app.welcome_focus, 4);
    assert!(handle_key(&mut app, press(Key::Tab)));
    assert_eq!(app.welcome_focus, 0);
    // unknown keys are not used
    assert!(!handle_key(&mut app, press(Key::Esc)));
}

#[test]
fn multibyte_text_editing() {
    let mut app = App::new();
    for _ in 0..3 {
        handle_key(&mut app, press(Key::Tab));
    }
    type_text(&mut app, "গবে");
    assert_eq!(app.category_name.value, "গবে");
    assert!(handle_key(&mut app, press(Key::Left)));
    assert!(handle_key(&mut app, press(Key::Backspace)));
    assert_eq!(app.category_name.value, "গে");
    assert_eq!(app.category_name.cursor, "গ".len());
}

#[test]
fn typing_then_erasing_restores_the_input() {
    let mut app = App::new();
    handle_key(&mut app, press(Key::Tab));
    handle_key(&mut app, press(Key::Tab));
    handle_key(&mut app, press(Key::Left));
    let (before, cursor) = (app.output_filename.value.clone(), app.output_filename.cursor);
    handle_key(&mut app, press(Key::Char('ü')));
    assert_eq!(app.output_filename.value, "output.jsoün");
    handle_key(&mut app, press(Key::Backspace));
    assert_eq!((app.output_filename.value.clone(), app.output_filename.cursor), (before, cursor));
}

#[test]
fn submit_starts_the_assessment_only_with_a_root_url() {
    let mut app = App::new();
    for _ in 0..4 {
        handle_key(&mut app, press(Key::Tab));
    }
    let used = handle_key(&mut app, press(Key::Enter));
    assert!(used);
    assert_eq!(after_key(&mut app, press(Key::Enter), used), TuiAction::Nothing);
    assert_eq!(app.screen, AppScreen::Welcome);

    let mut app = App::new();
    type_text(&mut app, "https://e.org/");
    for _ in 0..4 {
        handle_key(&mut app, press(Key::Tab));
    }
    let used = handle_key(&mut app, press(Key::Enter));
    assert_eq!(after_key(&mut app, press(Key::Enter), used), TuiAction::AnalyzeAndRun);
    assert_eq!(app.screen, AppScreen::PlatformAnalysis);
}

#[test]
fn control_keys_quit_from_anywhere() {
    let mut app = App::new();
    assert!(handle_key(&mut app, ctrl('q')));
    assert!(app.should_quit);
    let mut app = App::new();
    app.screen = AppScreen::CrawlProgress;
    assert!(!handle_key(&mut app, press(Key::Enter)));
    assert!(handle_key(&mut app, ctrl('c')));
    assert!(app.should_quit);
}

#[test]
fn platform_fields_from_suggestions() {
    let mut llm = LlmAnalysis::default();
    llm.necessity_of_login = Some(1);
    llm.number_of_category = Some(12);
    let fields = build_platform_fields(&llm);
    assert_eq!(fields.len(), 8);
    assert_eq!(fields[0].name, "necessity-of-login");
    assert_eq!(fields[0].ai_suggestion.as_deref(), Some("1"));
    assert!(matches!(fields[0].value, FieldValue::Binary(ref b) if b.value == 1));
    assert_eq!(fields[1].ai_suggestion, None);
    assert!(matches!(fields[1].value, FieldValue::Binary(ref b) if b.value == 0));
    assert_eq!(fields[4].name, "filter-and/or-sort-datasets");
    assert_eq!(fields[7].name, "number-of-category");
    assert_eq!(fields[7].ai_suggestion.as_deref(), Some("12"));
    assert!(matches!(fields[7].value, FieldValue::Number(12)));
    let none = build_platform_fields(&LlmAnalysis::default());
    assert!(matches!(none[7].value, FieldValue::Number(1)));
}

#[test]
fn platform_screen_keys() {
    let mut app = App::new();
    app.screen = AppScreen::PlatformAnalysis;
    assert!(!handle_key(&mut app, press(Key::Down)));
    app.platform_fields = build_platform_fields(&LlmAnalysis::default());
    assert!(handle_key(&mut app, press(Key::Char('1'))));
    assert!(matches!(app.platform_fields[0].value, FieldValue::Binary(ref b) if b.value == 1));
    assert!(handle_key(&mut app, press(Key::Up)));
    assert_eq!(app.platform_focus, 0);
    for _ in 0..20 {
        handle_key(&mut app, press(Key::Tab));
    }
    assert_eq!(app.platform_focus, 7);
    // the count field is not a 0/1 field
    assert!(handle_key(&mut app, press(Key::Char('0'))));
    assert!(matches!(app.platform_fields[7].value, FieldValue::Number(1)));
    assert!(!handle_key(&mut app, press(Key::Char('x'))));
    let used = handle_key(&mut app, press(Key::Enter));
    assert!(used);
    assert_eq!(after_key(&mut app, press(Key::Enter), used), TuiAction::RunPipeline);
}

#[test]
fn dataset_editor_entry_fields() {
    let d = sample();
    let auto = auto_detect_dataset_level(&d);
    let auto_data = auto_detect_data_level(&d);
    let mut rag = DatasetRagAnalysis::default();
    rag.time_period = Some("2020-2021".into());
    rag.granularity_year = Some(1);
    let e = build_dataset_editor_entry("Rainfall", "https://e.org/p", &auto, &auto_data, &rag, "e.org");
    assert_eq!(e.name, "Rainfall");
    assert_eq!(e.data_summary, "10×4, 1.3M, 3 empty");
    assert_eq!(e.fields.len(), 18);
    assert_eq!(e.fields[0].section, "openness");
    assert_eq!(e.fields[7].name, "understandability.faq");
    assert_eq!(e.fields[10].name, "time-period");
    assert!(matches!(e.fields[10].value, FieldValue::Text(ref t) if t.value == "2020-2021" && t.cursor == 9));
    assert_eq!(e.fields[10].ai_suggestion.as_deref(), Some("2020-2021"));
    assert!(matches!(e.fields[11].value, FieldValue::Text(ref t) if t.value.is_empty()));
    assert_eq!(e.fields[11].ai_suggestion, None);
    assert_eq!(e.fields[17].name, "time-dimension.year");
    assert_eq!(e.fields[17].ai_suggestion.as_deref(), Some("1"));
    assert!(matches!(e.fields[17].value, FieldValue::Binary(ref b) if b.value == 1));
    assert!(starts_section(&e.fields, 0));
    assert!(!starts_section(&e.fields, 1));
    assert!(starts_section(&e.fields, 7));
    assert!(starts_section(&e.fields, 15));
}

#[test]
fn dataset_editor_keys() {
    let d = sample();
    let auto = auto_detect_dataset_level(&d);
    let auto_data = auto_detect_data_level(&d);
    let rag = DatasetRagAnalysis::default();
    let mut app = App::new();
    app.screen = AppScreen::DatasetEditor;
    assert!(!handle_key(&mut app, press(Key::Down)));
    app.datasets.push(build_dataset_editor_entry("a", "u", &auto, &auto_data, &rag, "s"));
    app.datasets.push(build_dataset_editor_entry("b", "u", &auto, &auto_data, &rag, "s"));
    // next section, and back to the last field of the previous one
    assert!(handle_key(&mut app, press(Key::PageDown)));
    assert_eq!(app.dataset_field_focus, 7);
    assert!(handle_key(&mut app, press(Key::PageDown)));
    assert_eq!(app.dataset_field_focus, 10);
    assert!(handle_key(&mut app, press(Key::PageUp)));
    assert_eq!(app.dataset_field_focus, 9);
    // toggles on the current dataset only
    assert!(handle_key(&mut app, press(Key::Char('1'))));
    assert!(matches!(app.datasets[0].fields[9].value, FieldValue::Binary(ref b) if b.value == 1));
    assert!(matches!(app.datasets[1].fields[9].value, FieldValue::Binary(ref b) if b.value == 0));
    assert!(handle_key(&mut app, press(Key::Tab)));
    assert_eq!((app.current_dataset, app.dataset_field_focus), (1, 0));
    assert!(handle_key(&mut app, press(Key::Tab)));
    assert_eq!(app.current_dataset, 1);
    for _ in 0..30 {
        handle_key(&mut app, press(Key::Down));
    }
    assert_eq!(app.dataset_field_focus, 17);
    assert!(handle_key(&mut app, press(Key::PageDown)));
    assert_eq!(app.dataset_field_focus, 17);
    assert!(handle_key(&mut app, press(Key::BackTab)));
    assert_eq!((app.current_dataset, app.dataset_field_focus), (0, 0));
    assert!(handle_key(&mut app, ctrl('s')));
    assert_eq!(app.screen, AppScreen::ReviewAndExport);
}

#[test]
fn review_screen_keys() {
    let mut app = App::new();
    app.screen = AppScreen::ReviewAndExport;
    assert!(handle_key(&mut app, press(Key::Up)));
    assert_eq!(app.json_scroll, 0);
    assert!(handle_key(&mut app, press(Key::Down)));
    assert!(handle_key(&mut app, press(Key::Down)));
    assert!(handle_key(&mut app, press(Key::Up)));
    assert_eq!(app.json_scroll, 1);
    assert!(handle_key(&mut app, press(Key::Char('e'))));
    assert_eq!(app.screen, AppScreen::DatasetEditor);
    app.screen = AppScreen::ReviewAndExport;
    let used = handle_key(&mut app, press(Key::Enter));
    assert_eq!(after_key(&mut app, press(Key::Enter), used), TuiAction::SaveAndQuit);
    assert!(app.should_quit);
    let mut app = App::new();
    app.screen = AppScreen::ReviewAndExport;
    assert!(handle_key(&mut app, press(Key::Esc)));
    assert!(app.should_quit);
}

#[test]
fn progress_screens() {
    let mut app = App::new();
    let urls = vec!["https://e.org/a".to_string(), "https://e.org/b".to_string()];
    begin_crawl(&mut app, &urls);
    assert_eq!(app.screen, AppScreen::CrawlProgress);
    assert_eq!(app.crawl_total, 2);
    assert_eq!(app.crawl_progress.items[1].label, "https://e.org/b");
    assert_eq!(app.crawl_progress.items[1].status, ProgressStatus::Pending);
    finish_crawl(&mut app, &vec![Some(3), None]);
    assert_eq!(app.crawl_done, 2);
    assert_eq!(app.crawl_progress.items[0].detail, "3 files");
    assert_eq!(app.crawl_progress.items[1].detail, "");
    assert_eq!(app.crawl_progress.items[1].status, ProgressStatus::Done);
    fail_crawl(&mut app);
    assert_eq!(app.crawl_progress.items[0].status, ProgressStatus::Failed);
    assert_eq!(app.crawl_progress.items[0].detail, "3 files");

    let files = vec!["f1".to_string(), "f2".to_string(), "f3".to_string()];
    begin_download(&mut app, &files);
    assert_eq!(app.screen, AppScreen::DownloadProgress);
    assert_eq!(app.download_total, 3);
    finish_download(&mut app, 2);
    assert_eq!(app.download_done, 2);
    let statuses: Vec<ProgressStatus> = app.download_progress.items.iter().map(|i| i.status.clone()).collect();
    assert_eq!(statuses, vec![ProgressStatus::Done, ProgressStatus::Done, ProgressStatus::Failed]);
}

#[test]
fn what_the_screens_show() {
    assert!(terminal_too_small(79, 40));
    assert!(terminal_too_small(100, 23));
    assert!(!terminal_too_small(80, 24));
    assert_eq!(value_text(&FieldValue::Number(12)), "12");
    assert_eq!(value_text(&FieldValue::Binary(osdat::widgets::BinaryFieldState::new(1))), "[1]");
    assert_eq!(value_text(&FieldValue::Text(TextInputState::new("abc".into()))), "abc");
    assert_eq!(suggestion_note(&Some("1".into())), " (AI: 1)");
    assert_eq!(suggestion_note(&None), "");
    assert_eq!(section_marker("openness"), "── openness ──\n");
    assert_eq!(tab_title("short"), " short ");
    assert_eq!(tab_title("a very long dataset name indeed"), " a very long dataset  ");
    assert_eq!(json_line_kind("    \"url\": \"x\","), JsonLineKind::Key);
    assert_eq!(json_line_kind("  },"), JsonLineKind::Bracket);
    assert_eq!(json_line_kind("  \"just a string\""), JsonLineKind::Value);
    assert_eq!(json_line_kind("   1,"), JsonLineKind::Value);
    assert_eq!(json_line_kind(""), JsonLineKind::Value);
}

#[test]
fn pipeline_opens_the_editor_on_the_new_datasets() {
    let d = sample();
    let auto = auto_detect_dataset_level(&d);
    let auto_data = auto_detect_data_level(&d);
    let rag = DatasetRagAnalysis::default();
    let mut app = App::new();
    app.screen = AppScreen::DownloadProgress;
    app.datasets.push(build_dataset_editor_entry("old", "u", &auto, &auto_data, &rag, "s"));
    let entries = vec![
        build_dataset_editor_entry("a", "u1", &auto, &auto_data, &rag, "s"),
        build_dataset_editor_entry("b", "u2", &auto, &auto_data, &rag, "s"),
    ];
    enter_editor(&mut app, entries);
    assert_eq!(app.screen, AppScreen::DatasetEditor);
    let names: Vec<&str> = app.datasets.iter().map(|e| e.name.as_str()).collect();
    assert_eq!(names, vec!["old", "a", "b"]);
    assert_eq!((app.current_dataset, app.dataset_field_focus), (0, 0));
}

#[test]
fn welcome_tab_and_back_tab_undo_each_other() {
    for start in 0..5 {
        let mut app = App::new();
        app.welcome_focus = start;
        assert!(handle_key(&mut app, press(Key::Tab)));
        assert_eq!(app.welcome_focus, (start + 1) % 5);
        assert!(handle_key(&mut app, press(Key::BackTab)));
        assert_eq!(app.welcome_focus, start);
        assert!(handle_key(&mut app, press(Key::BackTab)));
        assert_eq!(app.welcome_focus, (start + 4) % 5);
        assert!(handle_key(&mut app, press(Key::Tab)));
        assert_eq!(app.welcome_focus, start);
    }
}

#[test]
fn platform_focus_stays_on_a_field() {
    let mut app = App::new();
    app.screen = AppScreen::PlatformAnalysis;
    app.platform_fields = build_platform_fields(&LlmAnalysis::default());
    let n = app.platform_fields.len();
    assert!(n > 1);
    assert!(handle_key(&mut app, press(Key::Up)));
    assert_eq!(app.platform_focus, 0);
    assert!(handle_key(&mut app, press(Key::Tab)));
    assert_eq!(app.platform_focus, 1);
    for _ in 0..(n + 3) {
        assert!(handle_key(&mut app, press(Key::Down)));
        assert!(app.platform_focus < n);
    }
    assert_eq!(app.platform_focus, n - 1);
    assert!(!handle_key(&mut app, press(Key::Char('x'))));
    assert_eq!(app.platform_focus, n - 1);
    assert_eq!(app.platform_fields.len(), n);
}
