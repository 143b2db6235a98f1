use vstd::prelude::*;

use std::path::PathBuf;

use crate::crawler::opt_view;
use crate::models::{AppConfig, DataLevel, DatasetLevel, DatasetRagAnalysis, LlmAnalysis, QualityReport};
use crate::text::{decimal, decimal_string, push_decimal, push_str};
use crate::textops::{contains_char, has_char_in, trim_chars, trimmed};
use crate::widgets::{
    byte_len, byte_prefix, cut_ok, lemma_byte_len_bound, truncate_bytes, BinaryFieldState,
    ProgressItem, ProgressListState, ProgressStatus, TextInputState,
};

verus! {

#[verifier::external_type_specification]
#[verifier::external_body]
pub struct ExPathBuf(PathBuf);

// ──────────────────────────────────────────────
// Screens, keys and the application state
// ──────────────────────────────────────────────

#[derive(Debug, Clone, Copy, PartialEq, Eq, Structural)]
pub enum AppScreen {
    Welcome,
    PlatformAnalysis,
    CrawlProgress,
    DownloadProgress,
    DatasetEditor,
    ReviewAndExport,
}

/// A key, as far as the screens tell keys apart.
#[derive(Debug, Clone, Copy, PartialEq, Eq, Structural)]
pub enum Key {
    Char(char),
    Tab,
    BackTab,
    Enter,
    Backspace,
    Left,
    Right,
    Up,
    Down,
    Delete,
    PageUp,
    PageDown,
    Esc,
    Other,
}

/// A key press: the key and whether Control was held.
#[derive(Debug, Clone, Copy, PartialEq, Eq, Structural)]
pub struct KeyPress {
    pub code: Key,
    pub control: bool,
}

pub struct App {
    pub screen: AppScreen,
    pub should_quit: bool,

    // Welcome screen state
    pub root_url: TextInputState,
    pub page_urls: Vec<String>,
    pub current_page_url: TextInputState,
    pub output_filename: TextInputState,
    pub category_name: TextInputState,
    /// 0 = root URL, 1 = page URL, 2 = output file, 3 = category, 4 = submit.
    pub welcome_focus: usize,

    // Platform analysis state
    pub platform_fields: Vec<PlatformFieldEntry>,
    pub platform_focus: usize,

    // Crawl progress state
    pub crawl_progress: ProgressListState,
    pub crawl_total: usize,
    pub crawl_done: usize,

    // Download progress state
    pub download_progress: ProgressListState,
    pub download_total: usize,
    pub download_done: usize,

    // Dataset editor state
    pub datasets: Vec<DatasetEditorEntry>,
    pub current_dataset: usize,
    pub dataset_field_focus: usize,

    // Review state
    pub json_preview: String,
    pub json_scroll: u16,

    // Final report
    pub report: Option<QualityReport>,
    pub output_path: Option<PathBuf>,
}

pub struct PlatformFieldEntry {
    pub name: String,
    pub description: String,
    pub ai_suggestion: Option<String>,
    pub value: FieldValue,
}

pub enum FieldValue {
    Binary(BinaryFieldState),
    Text(TextInputState),
    Number(u32),
}

pub struct DatasetEditorEntry {
    pub name: String,
    pub url: String,
    pub fields: Vec<DatasetFieldEntry>,
    pub data_summary: String,
}

pub struct DatasetFieldEntry {
    pub section: String,
    pub name: String,
    pub description: String,
    pub value: FieldValue,
    pub ai_suggestion: Option<String>,
}

// ──────────────────────────────────────────────
// Views of the editable fields
// ──────────────────────────────────────────────

/// The value a field holds: a 0/1 flag, a text, or a number.
pub enum FieldModel {
    Binary(u8),
    Text(Seq<char>),
    Number(u32),
}

impl View for FieldValue {
    type V = FieldModel;

    open spec fn view(&self) -> FieldModel {
        match self {
            FieldValue::Binary(b) => FieldModel::Binary(b.value),
            FieldValue::Text(t) => FieldModel::Text(t.value@),
            FieldValue::Number(n) => FieldModel::Number(*n),
        }
    }
}

impl FieldValue {
    /// A text value is ready for editing: its cursor stands at the end of the
    /// text, at the byte offset that is the text's length in bytes.
    pub open spec fn ready(&self) -> bool {
        match self {
            FieldValue::Text(t) => t.fresh(t.value@) && t.cursor == byte_len(t.value@),
            _ => true,
        }
    }
}

/// A platform field as shown: name, description, suggestion and value.
pub struct PlatformRow {
    pub name: Seq<char>,
    pub description: Seq<char>,
    pub ai_suggestion: Option<Seq<char>>,
    pub value: FieldModel,
}

impl View for PlatformFieldEntry {
    type V = PlatformRow;

    open spec fn view(&self) -> PlatformRow {
        PlatformRow {
            name: self.name@,
            description: self.description@,
            ai_suggestion: opt_view(self.ai_suggestion),
            value: self.value@,
        }
    }
}

/// A dataset field as shown: section, name, description, value and suggestion.
pub struct EditorRow {
    pub section: Seq<char>,
    pub name: Seq<char>,
    pub description: Seq<char>,
    pub value: FieldModel,
    pub ai_suggestion: Option<Seq<char>>,
}

impl View for DatasetFieldEntry {
    type V = EditorRow;

    open spec fn view(&self) -> EditorRow {
        EditorRow {
            section: self.section@,
            name: self.name@,
            description: self.description@,
            value: self.value@,
            ai_suggestion: opt_view(self.ai_suggestion),
        }
    }
}

// ──────────────────────────────────────────────
// The application state
// ──────────────────────────────────────────────

impl App {
    /// The text inputs of the welcome screen are editable and the focus is on
    /// one of its five elements.
    pub open spec fn wf(&self) -> bool {
        &&& self.root_url.wf()
        &&& self.current_page_url.wf()
        &&& self.output_filename.wf()
        &&& self.category_name.wf()
        &&& self.welcome_focus < 5
    }

    pub fn new() -> (r: Self)
        ensures
            r.wf(),
            r.screen == AppScreen::Welcome,
            !r.should_quit,
            r.root_url.fresh(Seq::empty()),
            r.page_urls@.len() == 0,
            r.current_page_url.fresh(Seq::empty()),
            r.output_filename.fresh("output.json"@),
            r.category_name.fresh(Seq::empty()),
            r.welcome_focus == 0,
            r.platform_fields@.len() == 0,
            r.platform_focus == 0,
            r.crawl_progress.items@.len() == 0,
            r.crawl_total == 0,
            r.crawl_done == 0,
            r.download_progress.items@.len() == 0,
            r.download_total == 0,
            r.download_done == 0,
            r.datasets@.len() == 0,
            r.current_dataset == 0,
            r.dataset_field_focus == 0,
            r.json_preview@.len() == 0,
            r.json_scroll == 0,
            r.report is None,
            r.output_path is None,
    {
        proof {
            reveal_strlit("output.json");
            lemma_byte_len_bound("output.json"@);
        }
        Self {
            screen: AppScreen::Welcome,
            should_quit: false,
            root_url: TextInputState::new(String::new()),
            page_urls: Vec::new(),
            current_page_url: TextInputState::new(String::new()),
            output_filename: TextInputState::new(String::from_str("output.json")),
            category_name: TextInputState::new(String::new()),
            welcome_focus: 0,
            platform_fields: Vec::new(),
            platform_focus: 0,
            crawl_progress: ProgressListState::new(),
            crawl_total: 0,
            crawl_done: 0,
            download_progress: ProgressListState::new(),
            download_total: 0,
            download_done: 0,
            datasets: Vec::new(),
            current_dataset: 0,
            dataset_field_focus: 0,
            json_preview: String::new(),
            json_scroll: 0,
            report: None,
            output_path: None,
        }
    }

    /// The configuration entered on the welcome screen.
    pub fn get_config(&self) -> (r: AppConfig)
        ensures
            r.root_url == self.root_url.value,
            r.page_urls@ == self.page_urls@,
            r.output_filename == self.output_filename.value,
            r.category_name == self.category_name.value,
    {
        AppConfig {
            root_url: self.root_url.value.clone(),
            page_urls: clone_strings(&self.page_urls),
            output_filename: self.output_filename.value.clone(),
            category_name: self.category_name.value.clone(),
        }
    }
}

fn clone_strings(v: &Vec<String>) -> (r: Vec<String>)
    ensures
        r@ == v@,
{
    let mut out: Vec<String> = Vec::new();
    let mut i: usize = 0;
    while i < v.len()
        invariant
            i <= v.len(),
            out@ == v@.take(i as int),
        decreases v.len() - i,
    {
        out.push(v[i].clone());
        assert(v@.take(i + 1) =~= v@.take(i as int).push(v@[i as int]));
        i += 1;
    }
    assert(v@.take(v.len() as int) =~= v@);
    out
}

// ──────────────────────────────────────────────
// The platform fields
// ──────────────────────────────────────────────

/// A suggested 0/1 value as text.
pub open spec fn suggestion(v: Option<u8>) -> Option<Seq<char>> {
    match v {
        Some(n) => Some(decimal(n as nat)),
        None => None,
    }
}

/// A suggested count as text.
pub open spec fn count_suggestion(v: Option<u32>) -> Option<Seq<char>> {
    match v {
        Some(n) => Some(decimal(n as nat)),
        None => None,
    }
}

/// A 0/1 platform field: the suggestion, or 0 without one.
pub open spec fn binary_row(name: Seq<char>, description: Seq<char>, v: Option<u8>) -> PlatformRow {
    PlatformRow {
        name,
        description,
        ai_suggestion: suggestion(v),
        value: FieldModel::Binary(
            match v {
                Some(n) => n,
                None => 0,
            },
        ),
    }
}

/// The platform fields built from the model's suggestions, in display order.
pub open spec fn platform_rows(llm: LlmAnalysis) -> Seq<PlatformRow> {
    seq![
        binary_row("necessity-of-login"@, "Does the site require login to access data?"@, llm.necessity_of_login),
        binary_row("multiple-language-support"@, "Does the site offer multiple languages?"@, llm.multiple_language_support),
        binary_row("request-for-datasets"@, "Is there a mechanism to request new datasets?"@, llm.request_for_datasets),
        binary_row("browse-data-sets-by-category"@, "Can users browse datasets by category?"@, llm.browse_datasets_by_category),
        binary_row("filter-and/or-sort-datasets"@, "Are filter/sort options available?"@, llm.filter_sort_datasets),
        binary_row("search-for-dataset"@, "Is there a search feature?"@, llm.search_for_dataset),
        binary_row("user-guideline"@, "Are usage guidelines provided?"@, llm.user_guideline),
        PlatformRow {
            name: "number-of-category"@,
            description: "Total number of dataset categories"@,
            ai_suggestion: count_suggestion(llm.number_of_category),
            value: FieldModel::Number(
                match llm.number_of_category {
                    Some(n) => n,
                    None => 1,
                },
            ),
        },
    ]
}

fn suggestion_text(v: Option<u8>) -> (r: Option<String>)
    ensures
        opt_view(r) == suggestion(v),
{
    match v {
        Some(n) => Some(decimal_string(n as u64)),
        None => None,
    }
}

fn binary_entry(name: &str, description: &str, v: Option<u8>) -> (r: PlatformFieldEntry)
    ensures
        r@ == binary_row(name@, description@, v),
        r.value.ready(),
{
    let value = match v {
        Some(n) => n,
        None => 0,
    };
    PlatformFieldEntry {
        name: String::from_str(name),
        description: String::from_str(description),
        ai_suggestion: suggestion_text(v),
        value: FieldValue::Binary(BinaryFieldState::new(value)),
    }
}

/// The platform-level fields of the editor, pre-filled from the model's
/// suggestions (0, or one category, where it gave none).
pub fn build_platform_fields(llm: &LlmAnalysis) -> (r: Vec<PlatformFieldEntry>)
    ensures
        r@.map_values(|e: PlatformFieldEntry| e@) == platform_rows(*llm),
        forall|i: int| 0 <= i < r@.len() ==> #[trigger] r@[i].value.ready(),
{
    let mut v: Vec<PlatformFieldEntry> = Vec::new();
    v.push(binary_entry("necessity-of-login", "Does the site require login to access data?", llm.necessity_of_login));
    v.push(binary_entry("multiple-language-support", "Does the site offer multiple languages?", llm.multiple_language_support));
    v.push(binary_entry("request-for-datasets", "Is there a mechanism to request new datasets?", llm.request_for_datasets));
    v.push(binary_entry("browse-data-sets-by-category", "Can users browse datasets by category?", llm.browse_datasets_by_category));
    v.push(binary_entry("filter-and/or-sort-datasets", "Are filter/sort options available?", llm.filter_sort_datasets));
    v.push(binary_entry("search-for-dataset", "Is there a search feature?", llm.search_for_dataset));
    v.push(binary_entry("user-guideline", "Are usage guidelines provided?", llm.user_guideline));
    let count = match llm.number_of_category {
        Some(n) => n,
        None => 1,
    };
    let count_text = match llm.number_of_category {
        Some(n) => Some(decimal_string(n as u64)),
        None => None,
    };
    v.push(PlatformFieldEntry {
        name: String::from_str("number-of-category"),
        description: String::from_str("Total number of dataset categories"),
        ai_suggestion: count_text,
        value: FieldValue::Number(count),
    });
    assert(v@.map_values(|e: PlatformFieldEntry| e@) =~= platform_rows(*llm));
    v
}

// ──────────────────────────────────────────────
// The dataset editor fields
// ──────────────────────────────────────────────

/// A 0/1 dataset field.
pub open spec fn editor_binary(section: Seq<char>, name: Seq<char>, description: Seq<char>, value: u8, ai_suggestion: Option<Seq<char>>) -> EditorRow {
    EditorRow { section, name, description, value: FieldModel::Binary(value), ai_suggestion }
}

/// A 0/1 dataset field filled from a suggestion (0 without one).
pub open spec fn editor_suggested(section: Seq<char>, name: Seq<char>, description: Seq<char>, v: Option<u8>) -> EditorRow {
    editor_binary(section, name, description, match v { Some(n) => n, None => 0 }, suggestion(v))
}

/// A text dataset field filled from a suggestion (empty without one).
pub open spec fn editor_text(section: Seq<char>, name: Seq<char>, description: Seq<char>, v: Option<String>) -> EditorRow {
    EditorRow {
        section,
        name,
        description,
        value: FieldModel::Text(match v { Some(s) => s@, None => Seq::empty() }),
        ai_suggestion: opt_view(v),
    }
}

/// The fields of the dataset editor, by section, in display order.
pub open spec fn editor_rows(auto: DatasetLevel, rag: DatasetRagAnalysis) -> Seq<EditorRow> {
    seq![
        editor_binary("openness"@, "complete.descriptive"@, "Is the dataset descriptive?"@, auto.openness.complete.descriptive, None),
        editor_binary("openness"@, "complete.linked-data"@, "Is linked data available?"@, auto.openness.complete.linked_data, None),
        editor_binary("openness"@, "primary"@, "Is this primary/original data?"@, auto.openness.primary, None),
        editor_binary("openness"@, "non-discriminatory"@, "Is data available without discrimination?"@, auto.openness.non_discriminatory, None),
        editor_binary("openness"@, "accessible"@, "Is data publicly accessible?"@, auto.openness.accessible, None),
        editor_binary("openness"@, "timely"@, "Is data published timely?"@, auto.openness.timely, None),
        editor_binary("openness"@, "license-free"@, "Is the data license-free?"@, auto.openness.license_free, None),
        editor_binary("transparency"@, "understandability.faq"@, "Is there a FAQ?"@, auto.transparency.understandability.faq, None),
        editor_binary("transparency"@, "understandability.textual-description"@, "Is there a textual description?"@, auto.transparency.understandability.textual_description, None),
        editor_binary("transparency"@, "meta-data"@, "Is metadata provided?"@, auto.transparency.meta_data, None),
        editor_text("provenance"@, "time-period"@, "Time period covered"@, rag.time_period),
        editor_text("provenance"@, "update-activity"@, "Update frequency"@, rag.update_activity),
        editor_text("provenance"@, "last-update"@, "Last update date"@, rag.last_update),
        editor_text("provenance"@, "collection-method"@, "Data collection method"@, rag.collection_method),
        editor_binary("semantic-consistency"@, "external-vocabulary"@, "Uses external vocabulary?"@, auto.semantic_consistency.external_vocabulary, None),
        editor_suggested("granularity"@, "time-dimension.day"@, "Day-level time granularity"@, rag.granularity_day),
        editor_suggested("granularity"@, "time-dimension.month"@, "Month-level time granularity"@, rag.granularity_month),
        editor_suggested("granularity"@, "time-dimension.year"@, "Year-level time granularity"@, rag.granularity_year),
    ]
}

/// The summary line of a dataset: `rows×columns, size, n empty`.
pub open spec fn summary_text(d: DataLevel) -> Seq<char> {
    decimal(d.data_volume.number_of_rows as nat) + "×"@ + decimal(d.data_volume.number_of_columns as nat)
        + ", "@ + d.data_volume.file_size@ + ", "@
        + decimal(d.data_level_completeness.number_of_empty_cells as nat) + " empty"@
}

fn binary_field(section: &str, name: &str, description: &str, value: u8, ai_suggestion: Option<String>) -> (r: DatasetFieldEntry)
    ensures
        r@ == editor_binary(section@, name@, description@, value, opt_view(ai_suggestion)),
        r.value.ready(),
{
    DatasetFieldEntry {
        section: String::from_str(section),
        name: String::from_str(name),
        description: String::from_str(description),
        value: FieldValue::Binary(BinaryFieldState::new(value)),
        ai_suggestion,
    }
}

fn suggested_field(section: &str, name: &str, description: &str, v: Option<u8>) -> (r: DatasetFieldEntry)
    ensures
        r@ == editor_suggested(section@, name@, description@, v),
        r.value.ready(),
{
    let value = match v {
        Some(n) => n,
        None => 0,
    };
    binary_field(section, name, description, value, suggestion_text(v))
}

fn text_field(section: &str, name: &str, description: &str, v: &Option<String>) -> (r: DatasetFieldEntry)
    requires
        match v { Some(s) => byte_len(s@) <= usize::MAX, None => true },
    ensures
        r@ == editor_text(section@, name@, description@, *v),
        r.value.ready(),
{
    let (value, ai) = match v {
        Some(s) => (s.clone(), Some(s.clone())),
        None => (String::new(), None),
    };
    let t = TextInputState::new(value);
    assert(t.value@.take(t.value@.len() as int) =~= t.value@);
    DatasetFieldEntry {
        section: String::from_str(section),
        name: String::from_str(name),
        description: String::from_str(description),
        value: FieldValue::Text(t),
        ai_suggestion: ai,
    }
}

/// The editor page of one dataset: its fields, pre-filled from the detected
/// dataset level and the model's suggestions, and its summary line.
pub fn build_dataset_editor_entry(
    name: &str,
    url: &str,
    auto: &DatasetLevel,
    auto_data: &DataLevel,
    rag: &DatasetRagAnalysis,
    _site_name: &str,
) -> (r: DatasetEditorEntry)
    requires
        match rag.time_period { Some(s) => byte_len(s@) <= usize::MAX, None => true },
        match rag.update_activity { Some(s) => byte_len(s@) <= usize::MAX, None => true },
        match rag.last_update { Some(s) => byte_len(s@) <= usize::MAX, None => true },
        match rag.collection_method { Some(s) => byte_len(s@) <= usize::MAX, None => true },
    ensures
        r.name@ == name@,
        r.url@ == url@,
        r.data_summary@ == summary_text(*auto_data),
        r.fields@.map_values(|f: DatasetFieldEntry| f@) == editor_rows(*auto, *rag),
        forall|i: int| 0 <= i < r.fields@.len() ==> #[trigger] r.fields@[i].value.ready(),
{
    let mut summary = String::new();
    push_decimal(&mut summary, auto_data.data_volume.number_of_rows);
    push_str(&mut summary, "×");
    push_decimal(&mut summary, auto_data.data_volume.number_of_columns);
    push_str(&mut summary, ", ");
    push_str(&mut summary, auto_data.data_volume.file_size.as_str());
    push_str(&mut summary, ", ");
    push_decimal(&mut summary, auto_data.data_level_completeness.number_of_empty_cells);
    push_str(&mut summary, " empty");

    let mut f: Vec<DatasetFieldEntry> = Vec::new();
    f.push(binary_field("openness", "complete.descriptive", "Is the dataset descriptive?", auto.openness.complete.descriptive, None));
    f.push(binary_field("openness", "complete.linked-data", "Is linked data available?", auto.openness.complete.linked_data, None));
    f.push(binary_field("openness", "primary", "Is this primary/original data?", auto.openness.primary, None));
    f.push(binary_field("openness", "non-discriminatory", "Is data available without discrimination?", auto.openness.non_discriminatory, None));
    f.push(binary_field("openness", "accessible", "Is data publicly accessible?", auto.openness.accessible, None));
    f.push(binary_field("openness", "timely", "Is data published timely?", auto.openness.timely, None));
    f.push(binary_field("openness", "license-free", "Is the data license-free?", auto.openness.license_free, None));
    f.push(binary_field("transparency", "understandability.faq", "Is there a FAQ?", auto.transparency.understandability.faq, None));
    f.push(binary_field("transparency", "understandability.textual-description", "Is there a textual description?", auto.transparency.understandability.textual_description, None));
    f.push(binary_field("transparency", "meta-data", "Is metadata provided?", auto.transparency.meta_data, None));
    f.push(text_field("provenance", "time-period", "Time period covered", &rag.time_period));
    f.push(text_field("provenance", "update-activity", "Update frequency", &rag.update_activity));
    f.push(text_field("provenance", "last-update", "Last update date", &rag.last_update));
    f.push(text_field("provenance", "collection-method", "Data collection method", &rag.collection_method));
    f.push(binary_field("semantic-consistency", "external-vocabulary", "Uses external vocabulary?", auto.semantic_consistency.external_vocabulary, None));
    f.push(suggested_field("granularity", "time-dimension.day", "Day-level time granularity", rag.granularity_day));
    f.push(suggested_field("granularity", "time-dimension.month", "Month-level time granularity", rag.granularity_month));
    f.push(suggested_field("granularity", "time-dimension.year", "Year-level time granularity", rag.granularity_year));

    assert(f@.map_values(|e: DatasetFieldEntry| e@) =~= editor_rows(*auto, *rag));
    assert(summary@ =~= summary_text(*auto_data));
    DatasetEditorEntry {
        name: String::from_str(name),
        url: String::from_str(url),
        fields: f,
        data_summary: summary,
    }
}

// ──────────────────────────────────────────────
// Key handling: what each key does
// ──────────────────────────────────────────────

/// Control-C or Control-Q: quit from any screen.
pub open spec fn is_quit_key(key: KeyPress) -> bool {
    key.control && (key.code == Key::Char('c') || key.code == Key::Char('q'))
}

/// The welcome focus after Tab: the next element, wrapping after the submit button.
pub open spec fn next_focus(f: usize) -> usize {
    ((f + 1) % 5) as usize
}

/// The welcome focus after Shift-Tab: the previous element, wrapping before the root URL.
pub open spec fn prev_focus(f: usize) -> usize {
    if f == 0 { 4 } else { (f - 1) as usize }
}

/// An editing key is allowed on a text input: its cursor is valid, and an
/// inserted character still fits.
pub open spec fn edit_allowed(t: TextInputState, code: Key) -> bool {
    match code {
        Key::Char(c) => t.can_insert(c),
        Key::Backspace | Key::Left | Key::Right => t.wf(),
        _ => true,
    }
}

/// `after` is the text input `before` after the editing key `code`.
pub open spec fn edited(before: TextInputState, after: TextInputState, code: Key) -> bool {
    match code {
        Key::Char(c) => before.inserted(after, c),
        Key::Backspace => before.deleted_back(after),
        Key::Left => before.moved_left(after),
        Key::Right => before.moved_right(after),
        _ => after == before,
    }
}

pub open spec fn is_edit_key(code: Key) -> bool {
    code is Char || code is Backspace || code is Left || code is Right
}

/// The first field after `focus` whose section differs from the focused one's,
/// if there is one; `target` is where the focus goes.
pub open spec fn next_section_target(fields: Seq<DatasetFieldEntry>, focus: int, target: int) -> bool {
    let sec = fields[focus].section@;
    if exists|i: int| focus < i < fields.len() && #[trigger] fields[i].section@ != sec {
        &&& focus < target < fields.len()
        &&& fields[target].section@ != sec
        &&& forall|j: int| focus < j < target ==> #[trigger] fields[j].section@ == sec
    } else {
        target == focus
    }
}

/// The last field before `focus` whose section differs from the focused one's,
/// if there is one; `target` is where the focus goes.
pub open spec fn prev_section_target(fields: Seq<DatasetFieldEntry>, focus: int, target: int) -> bool {
    let sec = fields[focus].section@;
    if exists|i: int| 0 <= i < focus && #[trigger] fields[i].section@ != sec {
        &&& 0 <= target < focus
        &&& fields[target].section@ != sec
        &&& forall|j: int| target < j < focus ==> #[trigger] fields[j].section@ == sec
    } else {
        target == focus
    }
}

impl App {
    /// The `i`-th text input of the welcome screen (0: root URL, 1: page URL,
    /// 2: output file, 3: category).
    pub open spec fn welcome_input(&self, i: int) -> TextInputState {
        if i == 0 {
            self.root_url
        } else if i == 1 {
            self.current_page_url
        } else if i == 2 {
            self.output_filename
        } else {
            self.category_name
        }
    }

    /// This state with the `i`-th welcome input replaced by `t`.
    pub open spec fn with_welcome_input(self, i: int, t: TextInputState) -> App {
        if i == 0 {
            App { root_url: t, ..self }
        } else if i == 1 {
            App { current_page_url: t, ..self }
        } else if i == 2 {
            App { output_filename: t, ..self }
        } else {
            App { category_name: t, ..self }
        }
    }

    /// The key can be handled without overflowing a counter or editing a text
    /// input whose cursor is invalid.
    pub open spec fn accepts(&self, key: KeyPress) -> bool {
        is_quit_key(key) || match self.screen {
            AppScreen::Welcome => match key.code {
                Key::Tab | Key::Enter => self.welcome_focus < usize::MAX,
                _ => is_edit_key(key.code) && self.welcome_focus < 4 ==> edit_allowed(
                    self.welcome_input(self.welcome_focus as int),
                    key.code,
                ),
            },
            AppScreen::ReviewAndExport => key.code == Key::Down ==> self.json_scroll < u16::MAX,
            _ => true,
        }
    }
}

/// What a key does on the welcome screen; `r` is the handler's answer.
pub open spec fn welcome_step(a: App, b: App, key: KeyPress, r: bool) -> bool {
    let f = a.welcome_focus;
    match key.code {
        Key::Tab => r && b == App { welcome_focus: next_focus(f), ..a },
        Key::BackTab => r && b == App { welcome_focus: prev_focus(f), ..a },
        Key::Enter => r && if f == 1 {
            if a.current_page_url.value@.len() > 0 {
                &&& b == App { page_urls: b.page_urls, current_page_url: b.current_page_url, ..a }
                &&& b.page_urls@ == a.page_urls@.push(a.current_page_url.value)
                &&& b.current_page_url.fresh(Seq::empty())
            } else {
                b == a
            }
        } else if f == 4 {
            b == a
        } else {
            b == App { welcome_focus: next_focus(f), ..a }
        },
        Key::Char(_) | Key::Backspace | Key::Left | Key::Right => r && if f < 4 {
            &&& b == a.with_welcome_input(f as int, b.welcome_input(f as int))
            &&& edited(a.welcome_input(f as int), b.welcome_input(f as int), key.code)
        } else {
            b == a
        },
        Key::Delete => r && if f == 1 && a.current_page_url.value@.len() == 0 {
            &&& b == App { page_urls: b.page_urls, ..a }
            &&& b.page_urls@ == if a.page_urls@.len() > 0 { a.page_urls@.drop_last() } else { a.page_urls@ }
        } else {
            b == a
        },
        _ => !r && b == a,
    }
}

/// What a key does on the platform analysis screen.
pub open spec fn platform_step(a: App, b: App, key: KeyPress, r: bool) -> bool {
    let n = a.platform_fields@.len();
    let f = a.platform_focus;
    if n == 0 {
        !r && b == a
    } else {
        match key.code {
            Key::Up => r && b == App { platform_focus: if f > 0 { (f - 1) as usize } else { f }, ..a },
            Key::Down | Key::Tab => r && b == App {
                platform_focus: if f + 1 < n { (f + 1) as usize } else { f },
                ..a
            },
            Key::Char(c) => if c == '0' || c == '1' {
                r && if f < n && a.platform_fields@[f as int].value is Binary {
                    &&& b == App { platform_fields: b.platform_fields, ..a }
                    &&& b.platform_fields@ == a.platform_fields@.update(
                        f as int,
                        PlatformFieldEntry {
                            value: FieldValue::Binary(BinaryFieldState { value: if c == '0' { 0 } else { 1 } }),
                            ..a.platform_fields@[f as int]
                        },
                    )
                } else {
                    b == a
                }
            } else {
                !r && b == a
            },
            Key::Enter => r && b == a,
            _ => !r && b == a,
        }
    }
}

/// Setting the focused field of the current dataset to `v` when it is a 0/1 field.
pub open spec fn editor_set_step(a: App, b: App, v: u8) -> bool {
    let d = a.current_dataset;
    let f = a.dataset_field_focus;
    if d < a.datasets@.len() && f < a.datasets@[d as int].fields@.len()
        && a.datasets@[d as int].fields@[f as int].value is Binary {
        let old_entry = a.datasets@[d as int];
        let new_entry = b.datasets@[d as int];
        &&& b == App { datasets: b.datasets, ..a }
        &&& b.datasets@ == a.datasets@.update(d as int, new_entry)
        &&& new_entry == DatasetEditorEntry { fields: new_entry.fields, ..old_entry }
        &&& new_entry.fields@ == old_entry.fields@.update(
            f as int,
            DatasetFieldEntry {
                value: FieldValue::Binary(BinaryFieldState { value: v }),
                ..old_entry.fields@[f as int]
            },
        )
    } else {
        b == a
    }
}

/// Moving the focus to the next (`down`) or previous section of the current dataset.
pub open spec fn editor_section_step(a: App, b: App, down: bool) -> bool {
    let d = a.current_dataset;
    let f = a.dataset_field_focus;
    if d < a.datasets@.len() && f < a.datasets@[d as int].fields@.len() {
        &&& b == App { dataset_field_focus: b.dataset_field_focus, ..a }
        &&& if down {
            next_section_target(a.datasets@[d as int].fields@, f as int, b.dataset_field_focus as int)
        } else {
            prev_section_target(a.datasets@[d as int].fields@, f as int, b.dataset_field_focus as int)
        }
    } else {
        b == a
    }
}

/// What a key does in the dataset editor.
pub open spec fn editor_step(a: App, b: App, key: KeyPress, r: bool) -> bool {
    let n = a.datasets@.len();
    let d = a.current_dataset;
    let f = a.dataset_field_focus;
    if n == 0 {
        !r && b == a
    } else if key.control && key.code == Key::Char('s') {
        r && b == App { screen: AppScreen::ReviewAndExport, ..a }
    } else {
        match key.code {
            Key::Up => r && b == App { dataset_field_focus: if f > 0 { (f - 1) as usize } else { f }, ..a },
            Key::Down => r && b == App {
                dataset_field_focus: if d < n && f + 1 < a.datasets@[d as int].fields@.len() { (f + 1) as usize } else { f },
                ..a
            },
            Key::Tab => r && if d + 1 < n {
                b == App { current_dataset: (d + 1) as usize, dataset_field_focus: 0, ..a }
            } else {
                b == a
            },
            Key::BackTab => r && if d > 0 {
                b == App { current_dataset: (d - 1) as usize, dataset_field_focus: 0, ..a }
            } else {
                b == a
            },
            Key::Char(c) => if c == '0' || c == '1' {
                r && editor_set_step(a, b, if c == '0' { 0 } else { 1 })
            } else {
                !r && b == a
            },
            Key::PageDown => r && editor_section_step(a, b, true),
            Key::PageUp => r && editor_section_step(a, b, false),
            Key::Enter => r && b == a,
            _ => !r && b == a,
        }
    }
}

/// What a key does on the review screen.
pub open spec fn review_step(a: App, b: App, key: KeyPress, r: bool) -> bool {
    let s = a.json_scroll;
    match key.code {
        Key::Up => r && b == App { json_scroll: if s > 0 { (s - 1) as u16 } else { s }, ..a },
        Key::Down => r && b == App { json_scroll: (s + 1) as u16, ..a },
        Key::Enter => r && b == a,
        Key::Char(c) => if c == 'e' {
            r && b == App { screen: AppScreen::DatasetEditor, ..a }
        } else {
            !r && b == a
        },
        Key::Esc => r && b == App { should_quit: true, ..a },
        _ => !r && b == a,
    }
}

/// What a key does: quit on Control-C/Q, else what the current screen does
/// with it (the progress screens ignore keys). `r` says whether the key was used.
pub open spec fn key_step(a: App, b: App, key: KeyPress, r: bool) -> bool {
    if is_quit_key(key) {
        r && b == App { should_quit: true, ..a }
    } else {
        match a.screen {
            AppScreen::Welcome => welcome_step(a, b, key, r),
            AppScreen::PlatformAnalysis => platform_step(a, b, key, r),
            AppScreen::CrawlProgress | AppScreen::DownloadProgress => !r && b == a,
            AppScreen::DatasetEditor => editor_step(a, b, key, r),
            AppScreen::ReviewAndExport => review_step(a, b, key, r),
        }
    }
}

// ──────────────────────────────────────────────
// Key handling
// ──────────────────────────────────────────────

/// Handles a key press on the current screen. Returns whether the key was used
/// (on the welcome screen's submit button, whether to move on).
pub fn handle_key(app: &mut App, key: KeyPress) -> (r: bool)
    requires
        old(app).accepts(key),
    ensures
        key_step(*old(app), *final(app), key, r),
{
    if key.control && (key.code == Key::Char('c') || key.code == Key::Char('q')) {
        app.should_quit = true;
        return true;
    }
    match app.screen {
        AppScreen::Welcome => handle_welcome_key(app, key),
        AppScreen::PlatformAnalysis => handle_platform_key(app, key),
        AppScreen::CrawlProgress => false,
        AppScreen::DownloadProgress => false,
        AppScreen::DatasetEditor => handle_dataset_editor_key(app, key),
        AppScreen::ReviewAndExport => handle_review_key(app, key),
    }
}

fn handle_welcome_key(app: &mut App, key: KeyPress) -> (r: bool)
    requires
        old(app).screen == AppScreen::Welcome,
        old(app).accepts(key),
        !is_quit_key(key),
    ensures
        welcome_step(*old(app), *final(app), key, r),
{
    match key.code {
        Key::Tab => {
            app.welcome_focus = (app.welcome_focus + 1) % 5;
            true
        },
        Key::BackTab => {
            app.welcome_focus = if app.welcome_focus == 0 {
                4
            } else {
                app.welcome_focus - 1
            };
            true
        },
        Key::Enter => {
            if app.welcome_focus == 1 {
                if !app.current_page_url.value.as_str().is_empty() {
                    let url = app.current_page_url.value.clone();
                    app.page_urls.push(url);
                    app.current_page_url = TextInputState::new(String::new());
                }
            } else if app.welcome_focus == 4 {
                if !app.root_url.value.as_str().is_empty() {
                    return true;
                }
            } else {
                app.welcome_focus = (app.welcome_focus + 1) % 5;
            }
            true
        },
        Key::Char(c) => {
            if app.welcome_focus == 0 {
                app.root_url.insert(c);
            } else if app.welcome_focus == 1 {
                app.current_page_url.insert(c);
            } else if app.welcome_focus == 2 {
                app.output_filename.insert(c);
            } else if app.welcome_focus == 3 {
                app.category_name.insert(c);
            }
            true
        },
        Key::Backspace => {
            if app.welcome_focus == 0 {
                app.root_url.delete_back();
            } else if app.welcome_focus == 1 {
                app.current_page_url.delete_back();
            } else if app.welcome_focus == 2 {
                app.output_filename.delete_back();
            } else if app.welcome_focus == 3 {
                app.category_name.delete_back();
            }
            true
        },
        Key::Left => {
            if app.welcome_focus == 0 {
                app.root_url.move_left();
            } else if app.welcome_focus == 1 {
                app.current_page_url.move_left();
            } else if app.welcome_focus == 2 {
                app.output_filename.move_left();
            } else if app.welcome_focus == 3 {
                app.category_name.move_left();
            }
            true
        },
        Key::Right => {
            if app.welcome_focus == 0 {
                app.root_url.move_right();
            } else if app.welcome_focus == 1 {
                app.current_page_url.move_right();
            } else if app.welcome_focus == 2 {
                app.output_filename.move_right();
            } else if app.welcome_focus == 3 {
                app.category_name.move_right();
            }
            true
        },
        Key::Delete => {
            if app.welcome_focus == 1 && app.current_page_url.value.as_str().is_empty() {
                app.page_urls.pop();
            }
            true
        },
        _ => false,
    }
}

fn handle_platform_key(app: &mut App, key: KeyPress) -> (r: bool)
    requires
        old(app).screen == AppScreen::PlatformAnalysis,
        !is_quit_key(key),
    ensures
        platform_step(*old(app), *final(app), key, r),
{
    if app.platform_fields.len() == 0 {
        return false;
    }
    match key.code {
        Key::Up => {
            if app.platform_focus > 0 {
                app.platform_focus = app.platform_focus - 1;
            }
            true
        },
        Key::Down | Key::Tab => {
            if app.platform_focus < app.platform_fields.len() - 1 {
                app.platform_focus = app.platform_focus + 1;
            }
            true
        },
        Key::Char(c) => {
            if c == '0' || c == '1' {
                let f = app.platform_focus;
                if f < app.platform_fields.len() {
                    let is_binary = match app.platform_fields[f].value {
                        FieldValue::Binary(_) => true,
                        _ => false,
                    };
                    if is_binary {
                        let mut entry = app.platform_fields.remove(f);
                        entry.value = FieldValue::Binary(BinaryFieldState::new(if c == '0' { 0 } else { 1 }));
                        app.platform_fields.insert(f, entry);
                        assert(app.platform_fields@ =~= old(app).platform_fields@.update(f as int, entry));
                    }
                }
                true
            } else {
                false
            }
        },
        Key::Enter => true,
        _ => false,
    }
}

fn same_section(a: &DatasetFieldEntry, b: &DatasetFieldEntry) -> (r: bool)
    ensures
        r == (a.section@ == b.section@),
{
    crate::text::str_eq(a.section.as_str(), b.section.as_str())
}

/// Index of the first field after `focus` in another section than the focused
/// field, or `focus` when there is none.
fn next_section_index(fields: &Vec<DatasetFieldEntry>, focus: usize) -> (t: usize)
    requires
        focus < fields@.len(),
    ensures
        next_section_target(fields@, focus as int, t as int),
{
    let n = fields.len();
    let mut i: usize = focus + 1;
    while i < n
        invariant
            focus < i <= n,
            n == fields@.len(),
            forall|j: int| focus < j < i ==> #[trigger] fields@[j].section@ == fields@[focus as int].section@,
        decreases n - i,
    {
        if !same_section(&fields[i], &fields[focus]) {
            return i;
        }
        i += 1;
    }
    assert(forall|j: int| focus < j < fields@.len() ==> #[trigger] fields@[j].section@ == fields@[focus as int].section@);
    focus
}

/// Index of the last field before `focus` in another section than the focused
/// field, or `focus` when there is none.
fn prev_section_index(fields: &Vec<DatasetFieldEntry>, focus: usize) -> (t: usize)
    requires
        focus < fields@.len(),
    ensures
        prev_section_target(fields@, focus as int, t as int),
{
    let mut i: usize = focus;
    while i > 0
        invariant
            i <= focus < fields@.len(),
            forall|j: int| i <= j < focus ==> #[trigger] fields@[j].section@ == fields@[focus as int].section@,
        decreases i,
    {
        if !same_section(&fields[i - 1], &fields[focus]) {
            return i - 1;
        }
        i -= 1;
    }
    focus
}

fn editor_set(app: &mut App, v: u8)
    ensures
        editor_set_step(*old(app), *final(app), v),
{
    let d = app.current_dataset;
    let f = app.dataset_field_focus;
    if d < app.datasets.len() && f < app.datasets[d].fields.len() {
        let is_binary = match app.datasets[d].fields[f].value {
            FieldValue::Binary(_) => true,
            _ => false,
        };
        if is_binary {
            let mut entry = app.datasets.remove(d);
            let ghost old_fields = entry.fields@;
            let mut field = entry.fields.remove(f);
            field.value = FieldValue::Binary(BinaryFieldState::new(v));
            entry.fields.insert(f, field);
            assert(entry.fields@ =~= old_fields.update(f as int, field));
            app.datasets.insert(d, entry);
            assert(app.datasets@ =~= old(app).datasets@.update(d as int, entry));
        }
    }
}

fn editor_jump_section(app: &mut App, down: bool)
    ensures
        editor_section_step(*old(app), *final(app), down),
{
    let d = app.current_dataset;
    if d < app.datasets.len() && app.dataset_field_focus < app.datasets[d].fields.len() {
        let t = if down {
            next_section_index(&app.datasets[d].fields, app.dataset_field_focus)
        } else {
            prev_section_index(&app.datasets[d].fields, app.dataset_field_focus)
        };
        app.dataset_field_focus = t;
    }
}

fn handle_dataset_editor_key(app: &mut App, key: KeyPress) -> (r: bool)
    requires
        old(app).screen == AppScreen::DatasetEditor,
        !is_quit_key(key),
    ensures
        editor_step(*old(app), *final(app), key, r),
{
    if app.datasets.len() == 0 {
        return false;
    }
    if key.control && key.code == Key::Char('s') {
        app.screen = AppScreen::ReviewAndExport;
        return true;
    }
    match key.code {
        Key::Up => {
            if app.dataset_field_focus > 0 {
                app.dataset_field_focus = app.dataset_field_focus - 1;
            }
            true
        },
        Key::Down => {
            let d = app.current_dataset;
            if d < app.datasets.len() {
                let n = app.datasets[d].fields.len();
                if n > 0 && app.dataset_field_focus < n - 1 {
                    app.dataset_field_focus = app.dataset_field_focus + 1;
                }
            }
            true
        },
        Key::Tab => {
            if app.current_dataset < app.datasets.len() - 1 {
                app.current_dataset = app.current_dataset + 1;
                app.dataset_field_focus = 0;
            }
            true
        },
        Key::BackTab => {
            if app.current_dataset > 0 {
                app.current_dataset = app.current_dataset - 1;
                app.dataset_field_focus = 0;
            }
            true
        },
        Key::Char(c) => {
            if c == '0' || c == '1' {
                editor_set(app, if c == '0' { 0 } else { 1 });
                true
            } else {
                false
            }
        },
        Key::PageDown => {
            editor_jump_section(app, true);
            true
        },
        Key::PageUp => {
            editor_jump_section(app, false);
            true
        },
        Key::Enter => true,
        _ => false,
    }
}

fn handle_review_key(app: &mut App, key: KeyPress) -> (r: bool)
    requires
        old(app).screen == AppScreen::ReviewAndExport,
        old(app).accepts(key),
        !is_quit_key(key),
    ensures
        review_step(*old(app), *final(app), key, r),
{
    match key.code {
        Key::Up => {
            if app.json_scroll > 0 {
                app.json_scroll = app.json_scroll - 1;
            }
            true
        },
        Key::Down => {
            app.json_scroll = app.json_scroll + 1;
            true
        },
        Key::Enter => true,
        Key::Char(c) => {
            if c == 'e' {
                app.screen = AppScreen::DatasetEditor;
                true
            } else {
                false
            }
        },
        Key::Esc => {
            app.should_quit = true;
            true
        },
        _ => false,
    }
}

// ──────────────────────────────────────────────
// Laws of the key handling
// ──────────────────────────────────────────────

/// Every accepted key keeps the application well formed: the welcome inputs
/// stay editable and the welcome focus stays on one of its five elements.
pub proof fn law_handle_key_keeps_wf(a: App, b: App, key: KeyPress, r: bool)
    requires
        a.wf(),
        a.accepts(key),
        key_step(a, b, key, r),
    ensures
        b.wf(),
{
    if !is_quit_key(key) && a.screen == AppScreen::Welcome && is_edit_key(key.code) && a.welcome_focus < 4 {
        let f = a.welcome_focus as int;
        assert(b.welcome_input(f).wf());
        assert(b == a.with_welcome_input(f, b.welcome_input(f)));
    }
}

/// On the welcome screen, typing a character into a text input and then
/// pressing Backspace gives the input back its text and its cursor.
pub proof fn law_type_then_erase(a: App, b: App, c: App, ch: char, r1: bool, r2: bool)
    requires
        a.wf(),
        a.screen == AppScreen::Welcome,
        a.welcome_focus < 4,
        a.accepts(KeyPress { code: Key::Char(ch), control: false }),
        key_step(a, b, KeyPress { code: Key::Char(ch), control: false }, r1),
        key_step(b, c, KeyPress { code: Key::Backspace, control: false }, r2),
    ensures
        c.welcome_input(a.welcome_focus as int).value@ == a.welcome_input(a.welcome_focus as int).value@,
        c.welcome_input(a.welcome_focus as int).cursor == a.welcome_input(a.welcome_focus as int).cursor,
        c.welcome_focus == a.welcome_focus,
        c.page_urls == a.page_urls,
{
    let f = a.welcome_focus as int;
    let t0 = a.welcome_input(f);
    let t1 = b.welcome_input(f);
    let t2 = c.welcome_input(f);
    let k = t0.char_cursor();
    assert(t0.cursor_after(k));
    assert(b == a.with_welcome_input(f, t1));
    assert(b.screen == AppScreen::Welcome && b.welcome_focus == a.welcome_focus);
    assert(t1.cursor_after(t1.char_cursor()));
    crate::widgets::lemma_prefix_unique(t1.value@, t1.char_cursor(), k + 1);
    crate::widgets::law_insert_then_delete_back(t0.value@, k, ch);
    assert(c == b.with_welcome_input(f, t2));
    assert(t2.value@ == t0.value@);
    assert(t2.cursor_after(k));
}

/// Tab and Shift-Tab on the welcome screen undo each other.
pub proof fn law_welcome_focus_cycle(f: usize)
    requires
        f < 5,
    ensures
        prev_focus(next_focus(f)) == f,
        next_focus(prev_focus(f)) == f,
        next_focus(f) < 5,
        prev_focus(f) < 5,
{
}

// ──────────────────────────────────────────────
// The run loop's decisions
// ──────────────────────────────────────────────

/// Tab and then Shift-Tab on the welcome screen come back to the same state,
/// and so do Shift-Tab and then Tab; each key is used.
pub proof fn law_welcome_tab_round_trip(a: App, b: App, c: App, first: KeyPress, second: KeyPress, r1: bool, r2: bool)
    requires
        a.screen == AppScreen::Welcome,
        a.welcome_focus < 5,
        (first.code == Key::Tab && second.code == Key::BackTab) || (first.code == Key::BackTab && second.code == Key::Tab),
        key_step(a, b, first, r1),
        key_step(b, c, second, r2),
    ensures
        first.code == Key::Tab ==> b.welcome_focus == (a.welcome_focus + 1) % 5,
        first.code == Key::BackTab ==> b.welcome_focus == (a.welcome_focus + 4) % 5,
        b.welcome_focus < 5,
        c == a,
        r1 && r2,
{
    law_welcome_focus_cycle(a.welcome_focus);
}

/// The focused element of the platform screen stays on one of its fields
/// whatever key is pressed; Up moves it one field up and Down or Tab one field
/// down, stopping at the ends; no key adds or removes a field or renames one.
pub proof fn law_platform_focus(a: App, b: App, key: KeyPress, r: bool)
    requires
        a.screen == AppScreen::PlatformAnalysis,
        a.platform_fields@.len() > 0,
        a.platform_focus < a.platform_fields@.len(),
        key_step(a, b, key, r),
    ensures
        b.platform_focus < b.platform_fields@.len(),
        b.platform_fields@.len() == a.platform_fields@.len(),
        forall|i: int| 0 <= i < a.platform_fields@.len() ==> {
            &&& #[trigger] b.platform_fields@[i].name == a.platform_fields@[i].name
            &&& b.platform_fields@[i].description == a.platform_fields@[i].description
        },
        !is_quit_key(key) && key.code == Key::Up ==> b.platform_focus == if a.platform_focus > 0 {
            a.platform_focus - 1
        } else {
            0
        },
        !is_quit_key(key) && (key.code == Key::Down || key.code == Key::Tab) ==> b.platform_focus == if a.platform_focus + 1 < a.platform_fields@.len() {
            a.platform_focus + 1
        } else {
            a.platform_focus as int
        },
        is_quit_key(key) || !(key.code == Key::Up || key.code == Key::Down || key.code == Key::Tab)
            ==> b.platform_focus == a.platform_focus,
{
    assert(a.platform_fields.len() == a.platform_fields@.len());
}

/// In the dataset editor the focus stays on a dataset, and on one of its fields
/// when it has any.
pub open spec fn editor_focus_valid(a: App) -> bool {
    let d = a.current_dataset as int;
    &&& d < a.datasets@.len()
    &&& a.datasets@[d].fields@.len() == 0 || a.dataset_field_focus < a.datasets@[d].fields@.len()
}

/// Every key in the dataset editor keeps the focus valid and keeps the datasets
/// and their fields (each field's section and name stay as they were); Tab and
/// Shift-Tab move to a neighbouring dataset, starting again at its first field,
/// and Control-S opens the review screen.
pub proof fn law_editor_key(a: App, b: App, key: KeyPress, r: bool)
    requires
        a.screen == AppScreen::DatasetEditor,
        editor_focus_valid(a),
        key_step(a, b, key, r),
    ensures
        editor_focus_valid(b),
        b.datasets@.len() == a.datasets@.len(),
        forall|i: int| 0 <= i < a.datasets@.len() ==> #[trigger] b.datasets@[i].fields@.len() == a.datasets@[i].fields@.len(),
        forall|i: int, j: int| 0 <= i < a.datasets@.len() && 0 <= j < a.datasets@[i].fields@.len() ==> {
            &&& #[trigger] b.datasets@[i].fields@[j].section == a.datasets@[i].fields@[j].section
            &&& b.datasets@[i].fields@[j].name == a.datasets@[i].fields@[j].name
        },
        b.current_dataset == a.current_dataset || b.current_dataset == a.current_dataset + 1
            || b.current_dataset + 1 == a.current_dataset,
        b.current_dataset != a.current_dataset ==> b.dataset_field_focus == 0,
        !is_quit_key(key) && !key.control && key.code == Key::Tab ==> b.current_dataset == if a.current_dataset + 1 < a.datasets@.len() {
            a.current_dataset + 1
        } else {
            a.current_dataset as int
        },
        !is_quit_key(key) && !key.control && key.code == Key::BackTab ==> b.current_dataset == if a.current_dataset > 0 {
            a.current_dataset - 1
        } else {
            0
        },
        key.control && key.code == Key::Char('s') ==> r && b == (App { screen: AppScreen::ReviewAndExport, ..a }),
{
    let d = a.current_dataset as int;
    assert(a.datasets.len() == a.datasets@.len());
    if !is_quit_key(key) && !(key.control && key.code == Key::Char('s')) {
        match key.code {
            Key::Char(ch) => {
                if (ch == '0' || ch == '1') && a.dataset_field_focus < a.datasets@[d].fields@.len()
                    && a.datasets@[d].fields@[a.dataset_field_focus as int].value is Binary {
                    let v: u8 = if ch == '0' { 0 } else { 1 };
                    assert(editor_set_step(a, b, v));
                    assert forall|i: int, j: int| 0 <= i < a.datasets@.len() && 0 <= j < a.datasets@[i].fields@.len() implies {
                        &&& #[trigger] b.datasets@[i].fields@[j].section == a.datasets@[i].fields@[j].section
                        &&& b.datasets@[i].fields@[j].name == a.datasets@[i].fields@[j].name
                    } by {
                        if i == d {
                            assert(b.datasets@[i] == b.datasets@[d]);
                        }
                    }
                }
            },
            _ => {},
        }
    }
}


/// What the run loop does after a key was handled.
#[derive(Debug, Clone, Copy, PartialEq, Eq, Structural)]
pub enum TuiAction {
    /// Nothing more.
    Nothing,
    /// Analyse the root website and fill the platform fields, then run the
    /// crawl, download and extraction pipeline.
    AnalyzeAndRun,
    /// Run the crawl, download and extraction pipeline.
    RunPipeline,
    /// Save the report, if there is one; the application quits.
    SaveAndQuit,
}

/// The screen change and the work that follow a handled key; `advanced` is
/// what `handle_key` returned.
pub open spec fn transition_step(a: App, b: App, key: KeyPress, advanced: bool, act: TuiAction) -> bool {
    let enter = advanced && key.code == Key::Enter;
    if enter && a.screen == AppScreen::Welcome && a.welcome_focus == 4 && a.root_url.value@.len() > 0 {
        b == App { screen: AppScreen::PlatformAnalysis, ..a } && act == TuiAction::AnalyzeAndRun
    } else if enter && a.screen == AppScreen::PlatformAnalysis {
        b == a && act == TuiAction::RunPipeline
    } else if enter && a.screen == AppScreen::ReviewAndExport {
        b == App { should_quit: true, ..a } && act == TuiAction::SaveAndQuit
    } else {
        b == a && act == TuiAction::Nothing
    }
}

/// Decides, after `handle_key` returned `advanced` for `key`, whether to leave
/// the welcome screen, run the pipeline, or save and quit.
pub fn after_key(app: &mut App, key: KeyPress, advanced: bool) -> (act: TuiAction)
    ensures
        transition_step(*old(app), *final(app), key, advanced, act),
{
    let enter = advanced && key.code == Key::Enter;
    if enter && app.screen == AppScreen::Welcome && app.welcome_focus == 4
        && !app.root_url.value.as_str().is_empty() {
        app.screen = AppScreen::PlatformAnalysis;
        TuiAction::AnalyzeAndRun
    } else if enter && app.screen == AppScreen::PlatformAnalysis {
        TuiAction::RunPipeline
    } else if enter && app.screen == AppScreen::ReviewAndExport {
        app.should_quit = true;
        TuiAction::SaveAndQuit
    } else {
        TuiAction::Nothing
    }
}

/// A progress item waiting for its label's work.
pub open spec fn is_pending_item(item: ProgressItem, label: String) -> bool {
    item.label == label && item.status == ProgressStatus::Pending && item.detail@.len() == 0
}

/// One pending progress item for each label, in order.
pub open spec fn pending_list(items: Seq<ProgressItem>, labels: Seq<String>) -> bool {
    &&& items.len() == labels.len()
    &&& forall|i: int| 0 <= i < labels.len() ==> is_pending_item(#[trigger] items[i], labels[i])
}

fn pending_items(labels: &Vec<String>) -> (r: Vec<ProgressItem>)
    ensures
        pending_list(r@, labels@),
{
    let mut out: Vec<ProgressItem> = Vec::new();
    let mut i: usize = 0;
    while i < labels.len()
        invariant
            i <= labels@.len(),
            out@.len() == i,
            forall|j: int| 0 <= j < i ==> is_pending_item(#[trigger] out@[j], labels@[j]),
        decreases labels.len() - i,
    {
        out.push(ProgressItem { label: labels[i].clone(), status: ProgressStatus::Pending, detail: String::new() });
        i += 1;
    }
    out
}

/// Shows the crawl screen with one pending item per page URL.
pub fn begin_crawl(app: &mut App, page_urls: &Vec<String>)
    ensures
        *final(app) == (App {
            screen: AppScreen::CrawlProgress,
            crawl_total: page_urls@.len() as usize,
            crawl_progress: final(app).crawl_progress,
            ..*old(app)
        }),
        pending_list(final(app).crawl_progress.items@, page_urls@),
{
    app.screen = AppScreen::CrawlProgress;
    app.crawl_total = page_urls.len();
    app.crawl_progress.items = pending_items(page_urls);
}

/// The detail shown for a crawled page: how many files it links to.
pub open spec fn files_detail(n: nat) -> Seq<char> {
    decimal(n) + " files"@
}

/// Marks every crawled page done, with the number of files found on it where
/// that is known (`file_counts` has one entry per page, in order).
pub fn finish_crawl(app: &mut App, file_counts: &Vec<Option<usize>>)
    requires
        file_counts@.len() == old(app).crawl_progress.items@.len(),
    ensures
        *final(app) == (App { crawl_done: old(app).crawl_total, crawl_progress: final(app).crawl_progress, ..*old(app) }),
        final(app).crawl_progress.items@.len() == old(app).crawl_progress.items@.len(),
        forall|i: int| 0 <= i < file_counts@.len() ==> {
            let before = #[trigger] old(app).crawl_progress.items@[i];
            let after = final(app).crawl_progress.items@[i];
            &&& after.label == before.label
            &&& after.status == ProgressStatus::Done
            &&& after.detail@ == match file_counts@[i] {
                Some(n) => files_detail(n as nat),
                None => before.detail@,
            }
        },
{
    let n = app.crawl_progress.items.len();
    let mut i: usize = 0;
    while i < n
        invariant
            i <= n,
            n == file_counts@.len(),
            app.crawl_progress.items@.len() == n,
            *app == (App { crawl_progress: app.crawl_progress, ..*old(app) }),
            forall|j: int| i <= j < n ==> #[trigger] app.crawl_progress.items@[j] == old(app).crawl_progress.items@[j],
            forall|j: int| 0 <= j < i ==> {
                let before = #[trigger] old(app).crawl_progress.items@[j];
                let after = app.crawl_progress.items@[j];
                &&& after.label == before.label
                &&& after.status == ProgressStatus::Done
                &&& after.detail@ == match file_counts@[j] {
                    Some(c) => files_detail(c as nat),
                    None => before.detail@,
                }
            },
        decreases n - i,
    {
        let label = app.crawl_progress.items[i].label.clone();
        let detail = match file_counts[i] {
            Some(c) => {
                let mut d = String::new();
                push_decimal(&mut d, c as u64);
                push_str(&mut d, " files");
                assert(d@ =~= files_detail(c as nat));
                d
            },
            None => app.crawl_progress.items[i].detail.clone(),
        };
        app.crawl_progress.items.set(i, ProgressItem { label, status: ProgressStatus::Done, detail });
        i += 1;
    }
    app.crawl_done = app.crawl_total;
}

/// Marks every crawled page failed.
pub fn fail_crawl(app: &mut App)
    ensures
        *final(app) == (App { crawl_progress: final(app).crawl_progress, ..*old(app) }),
        final(app).crawl_progress.items@.len() == old(app).crawl_progress.items@.len(),
        forall|i: int| 0 <= i < old(app).crawl_progress.items@.len() ==> {
            let before = #[trigger] old(app).crawl_progress.items@[i];
            let after = final(app).crawl_progress.items@[i];
            after == (ProgressItem { status: ProgressStatus::Failed, ..before })
        },
{
    let n = app.crawl_progress.items.len();
    let mut i: usize = 0;
    while i < n
        invariant
            i <= n,
            app.crawl_progress.items@.len() == n,
            n == old(app).crawl_progress.items@.len(),
            *app == (App { crawl_progress: app.crawl_progress, ..*old(app) }),
            forall|j: int| i <= j < n ==> #[trigger] app.crawl_progress.items@[j] == old(app).crawl_progress.items@[j],
            forall|j: int| 0 <= j < i ==> {
                let before = #[trigger] old(app).crawl_progress.items@[j];
                app.crawl_progress.items@[j] == (ProgressItem { status: ProgressStatus::Failed, ..before })
            },
        decreases n - i,
    {
        let label = app.crawl_progress.items[i].label.clone();
        let detail = app.crawl_progress.items[i].detail.clone();
        app.crawl_progress.items.set(i, ProgressItem { label, status: ProgressStatus::Failed, detail });
        i += 1;
    }
}

/// Shows the download screen with one pending item per download URL.
pub fn begin_download(app: &mut App, download_urls: &Vec<String>)
    ensures
        *final(app) == (App {
            screen: AppScreen::DownloadProgress,
            download_total: download_urls@.len() as usize,
            download_progress: final(app).download_progress,
            ..*old(app)
        }),
        pending_list(final(app).download_progress.items@, download_urls@),
{
    app.screen = AppScreen::DownloadProgress;
    app.download_total = download_urls.len();
    app.download_progress.items = pending_items(download_urls);
}

/// Records that the first `downloaded` files arrived: those items are done,
/// the others failed.
pub fn finish_download(app: &mut App, downloaded: usize)
    ensures
        *final(app) == (App { download_done: downloaded, download_progress: final(app).download_progress, ..*old(app) }),
        final(app).download_progress.items@.len() == old(app).download_progress.items@.len(),
        forall|i: int| 0 <= i < old(app).download_progress.items@.len() ==> {
            let before = #[trigger] old(app).download_progress.items@[i];
            let after = final(app).download_progress.items@[i];
            after == (ProgressItem {
                status: if i < downloaded { ProgressStatus::Done } else { ProgressStatus::Failed },
                ..before
            })
        },
{
    app.download_done = downloaded;
    let n = app.download_progress.items.len();
    let mut i: usize = 0;
    while i < n
        invariant
            i <= n,
            app.download_progress.items@.len() == n,
            n == old(app).download_progress.items@.len(),
            *app == (App { download_done: downloaded, download_progress: app.download_progress, ..*old(app) }),
            forall|j: int| i <= j < n ==> #[trigger] app.download_progress.items@[j] == old(app).download_progress.items@[j],
            forall|j: int| 0 <= j < i ==> {
                let before = #[trigger] old(app).download_progress.items@[j];
                app.download_progress.items@[j] == (ProgressItem {
                    status: if j < downloaded { ProgressStatus::Done } else { ProgressStatus::Failed },
                    ..before
                })
            },
        decreases n - i,
    {
        let label = app.download_progress.items[i].label.clone();
        let detail = app.download_progress.items[i].detail.clone();
        let status = if i < downloaded { ProgressStatus::Done } else { ProgressStatus::Failed };
        app.download_progress.items.set(i, ProgressItem { label, status, detail });
        i += 1;
    }
}

/// Opens the dataset editor on the datasets built from the downloaded files,
/// added after those already there.
pub fn enter_editor(app: &mut App, entries: Vec<DatasetEditorEntry>)
    ensures
        final(app).datasets@ == old(app).datasets@ + entries@,
        *final(app) == (App { datasets: final(app).datasets, screen: AppScreen::DatasetEditor, ..*old(app) }),
{
    let mut entries = entries;
    app.datasets.append(&mut entries);
    app.screen = AppScreen::DatasetEditor;
}

// ──────────────────────────────────────────────
// What the screens show
// ──────────────────────────────────────────────

/// The smallest terminal the screens are drawn in.
pub const MIN_WIDTH: u16 = 80;
pub const MIN_HEIGHT: u16 = 24;

/// The terminal is too small to draw the screens in.
pub fn terminal_too_small(width: u16, height: u16) -> (r: bool)
    ensures
        r == (width < MIN_WIDTH || height < MIN_HEIGHT),
{
    width < MIN_WIDTH || height < MIN_HEIGHT
}

/// A field's value as shown: `[v]` for a 0/1 field, the text, or the number.
pub open spec fn value_text_of(v: FieldModel) -> Seq<char> {
    match v {
        FieldModel::Binary(b) => "["@ + decimal(b as nat) + "]"@,
        FieldModel::Text(t) => t,
        FieldModel::Number(n) => decimal(n as nat),
    }
}

pub fn value_text(v: &FieldValue) -> (r: String)
    ensures
        r@ == value_text_of(v@),
{
    match v {
        FieldValue::Binary(b) => {
            let mut s = String::from_str("[");
            push_decimal(&mut s, b.value as u64);
            push_str(&mut s, "]");
            s
        },
        FieldValue::Text(t) => t.value.clone(),
        FieldValue::Number(n) => decimal_string(*n as u64),
    }
}

/// A suggestion as shown after a field: ` (AI: s)`, or nothing.
pub open spec fn suggestion_note_of(ai: Option<Seq<char>>) -> Seq<char> {
    match ai {
        Some(s) => " (AI: "@ + s + ")"@,
        None => Seq::empty(),
    }
}

pub fn suggestion_note(ai: &Option<String>) -> (r: String)
    ensures
        r@ == suggestion_note_of(opt_view(*ai)),
{
    match ai {
        Some(s) => {
            let mut t = String::from_str(" (AI: ");
            push_str(&mut t, s.as_str());
            push_str(&mut t, ")");
            t
        },
        None => String::new(),
    }
}

/// The `i`-th field opens a section: it is the first, or its section differs
/// from the previous field's.
pub open spec fn starts_section_of(fields: Seq<DatasetFieldEntry>, i: int) -> bool {
    i == 0 || fields[i - 1].section@ != fields[i].section@
}

pub fn starts_section(fields: &Vec<DatasetFieldEntry>, i: usize) -> (r: bool)
    requires
        i < fields@.len(),
    ensures
        r == starts_section_of(fields@, i as int),
{
    i == 0 || !crate::text::str_eq(fields[i - 1].section.as_str(), fields[i].section.as_str())
}

/// The heading line of a section.
pub open spec fn section_marker_of(section: Seq<char>) -> Seq<char> {
    "── "@ + section + " ──\n"@
}

pub fn section_marker(section: &str) -> (r: String)
    ensures
        r@ == section_marker_of(section@),
{
    let mut s = String::from_str("── ");
    push_str(&mut s, section);
    push_str(&mut s, " ──\n");
    s
}

/// Most bytes of a dataset name shown on its tab.
pub const TAB_NAME_BYTES: usize = 20;

/// A dataset's tab title: its name, cut after `TAB_NAME_BYTES` bytes, between spaces.
pub open spec fn tab_title_of(name: Seq<char>) -> Seq<char> {
    " "@ + byte_prefix(name, TAB_NAME_BYTES as nat) + " "@
}

pub fn tab_title(name: &str) -> (r: String)
    requires
        cut_ok(name@, TAB_NAME_BYTES as nat),
    ensures
        r@ == tab_title_of(name@),
{
    let shown = truncate_bytes(name, TAB_NAME_BYTES);
    let mut s = String::from_str(" ");
    let middle = crate::text::string_from_chars(shown.as_slice());
    push_str(&mut s, middle.as_str());
    push_str(&mut s, " ");
    s
}

/// How a line of the JSON preview is coloured.
#[derive(Debug, Clone, Copy, PartialEq, Eq, Structural)]
pub enum JsonLineKind {
    /// A `"key": value` line.
    Key,
    /// A line that opens or closes an object or array.
    Bracket,
    /// Any other line.
    Value,
}

pub open spec fn json_line_kind_of(line: Seq<char>) -> JsonLineKind {
    let t = trimmed(line);
    if t.len() > 0 && t[0] == '"' && has_char_in(t, ':') {
        JsonLineKind::Key
    } else if t.len() > 0 && (t[0] == '{' || t[0] == '}' || t[0] == '[' || t[0] == ']') {
        JsonLineKind::Bracket
    } else {
        JsonLineKind::Value
    }
}

pub fn json_line_kind(line: &str) -> (r: JsonLineKind)
    ensures
        r == json_line_kind_of(line@),
{
    let cs = crate::text::chars_of(line);
    let t = trim_chars(cs.as_slice());
    if t.len() > 0 && t[0] == '"' && contains_char(t.as_slice(), ':') {
        JsonLineKind::Key
    } else if t.len() > 0 && (t[0] == '{' || t[0] == '}' || t[0] == '[' || t[0] == ']') {
        JsonLineKind::Bracket
    } else {
        JsonLineKind::Value
    }
}

} // verus!
