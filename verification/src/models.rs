use vstd::prelude::*;

use std::collections::HashMap;

use indexmap::IndexMap;

use crate::text::{decimal, push_char, push_decimal, push_str, str_eq};

verus! {

#[verifier::external_type_specification]
#[verifier::external_body]
#[verifier::reject_recursive_types(K)]
#[verifier::reject_recursive_types(V)]
#[verifier::reject_recursive_types(S)]
pub struct ExIndexMap<K, V, S>(IndexMap<K, V, S>);

// ──────────────────────────────────────────────
// The quality report
// ──────────────────────────────────────────────

/// The whole quality-assessment report.
#[derive(Debug, Clone)]
pub struct QualityReport {
    pub website: WebsiteReport,
}

/// The assessed website: its URL, its platform-level assessment and its
/// datasets, grouped by category name and keyed `dataset1`, `dataset2`, ...
#[derive(Debug, Clone)]
pub struct WebsiteReport {
    pub url: String,
    pub portal_quality_assessment: PortalQualityAssessment,
    pub category: HashMap<String, IndexMap<String, DatasetEntry>>,
}

#[derive(Debug, Clone)]
pub struct PortalQualityAssessment {
    pub platform_level: PlatformLevel,
}

#[derive(Debug, Clone)]
pub struct PlatformLevel {
    pub user_accessibility: UserAccessibility,
    pub user_usability: UserUsability,
    pub diversity: Diversity,
}

/// Accessibility flags; `languages` pairs each language name with its 0/1
/// support flag, each name at most once.
#[derive(Debug, Clone)]
pub struct UserAccessibility {
    pub necessity_of_login: u8,
    pub multiple_language_support: u8,
    pub request_for_datasets: u8,
    pub languages: Vec<(String, u8)>,
}

#[derive(Debug, Clone)]
pub struct UserUsability {
    pub browse_datasets_by_category: u8,
    pub filter_sort_datasets: u8,
    pub search_for_dataset: u8,
    pub user_guideline: u8,
}

#[derive(Debug, Clone)]
pub struct Diversity {
    pub number_of_dataset: u32,
    pub number_of_category: u32,
}

/// One dataset of the report.
#[derive(Debug, Clone)]
pub struct DatasetEntry {
    pub dataset_name: String,
    pub url: String,
    pub dataset_level: DatasetLevel,
    pub data_level: DataLevel,
}

#[derive(Debug, Clone)]
pub struct DatasetLevel {
    pub openness: Openness,
    pub transparency: Transparency,
    pub provenance: Provenance,
    pub semantic_consistency: SemanticConsistency,
}

#[derive(Debug, Clone)]
pub struct Openness {
    pub complete: OpennessComplete,
    pub primary: u8,
    pub non_discriminatory: u8,
    pub accessible: u8,
    pub timely: u8,
    pub non_proprietary: u8,
    pub license_free: u8,
    pub machine_readable: MachineReadableFormats,
}

#[derive(Debug, Clone)]
pub struct OpennessComplete {
    pub descriptive: u8,
    pub downloadable: u8,
    pub machine_readable: u8,
    pub linked_data: u8,
}

#[derive(Debug, Clone, Copy)]
pub struct MachineReadableFormats {
    pub pdf: u8,
    pub csv: u8,
    pub rdf: u8,
    pub xml: u8,
}

#[derive(Debug, Clone)]
pub struct Transparency {
    pub source: String,
    pub number_of_downloads: u64,
    pub understandability: Understandability,
    pub meta_data: u8,
    pub five_star: FiveStar,
}

#[derive(Debug, Clone, Copy)]
pub struct Understandability {
    pub faq: u8,
    pub textual_description: u8,
    pub category_tag: u8,
}

#[derive(Debug, Clone, Copy)]
pub struct FiveStar {
    pub available_online: u8,
    pub machine_readable: u8,
    pub non_proprietary_format: u8,
    pub open_standard: u8,
    pub linked_data: u8,
}

#[derive(Debug, Clone)]
pub struct Provenance {
    pub source: String,
    pub time_period: String,
    pub update_activity: String,
    pub last_update: String,
    pub collection_method: String,
}

#[derive(Debug, Clone, Copy)]
pub struct SemanticConsistency {
    pub external_vocabulary: u8,
}

#[derive(Debug, Clone)]
pub struct DataLevel {
    pub granularity: Granularity,
    pub data_level_completeness: DataLevelCompleteness,
    pub data_volume: DataVolume,
}

#[derive(Debug, Clone, Copy)]
pub struct Granularity {
    pub time_dimension: TimeDimension,
    pub geo_dimension: GeoDimension,
}

#[derive(Debug, Clone, Copy)]
pub struct TimeDimension {
    pub day: u8,
    pub month: u8,
    pub year: u8,
}

#[derive(Debug, Clone, Copy)]
pub struct GeoDimension {
    pub union: u8,
    pub upazila: u8,
    pub zila: u8,
}

#[derive(Debug, Clone, Copy)]
pub struct DataLevelCompleteness {
    pub number_of_empty_cells: u64,
}

#[derive(Debug, Clone)]
pub struct DataVolume {
    pub number_of_rows: u64,
    pub number_of_columns: u64,
    pub file_size: String,
    pub download_link: String,
}

// ──────────────────────────────────────────────
// Working structures
// ──────────────────────────────────────────────

/// A data file link found while crawling.
#[derive(Debug, Clone)]
pub struct DiscoveredFile {
    pub source_page_url: String,
    pub download_url: String,
    pub file_extension: String,
}

/// What the user entered to start an assessment.
#[derive(Debug, Clone)]
pub struct AppConfig {
    pub root_url: String,
    pub page_urls: Vec<String>,
    pub output_filename: String,
    pub category_name: String,
}

/// Platform-level values suggested by the language model; `None` where it
/// gave no usable answer.
#[derive(Debug, Clone)]
pub struct LlmAnalysis {
    pub necessity_of_login: Option<u8>,
    pub multiple_language_support: Option<u8>,
    pub request_for_datasets: Option<u8>,
    pub languages: Option<Vec<(String, u8)>>,
    pub browse_datasets_by_category: Option<u8>,
    pub filter_sort_datasets: Option<u8>,
    pub search_for_dataset: Option<u8>,
    pub user_guideline: Option<u8>,
    pub number_of_category: Option<u32>,
}

/// Per-dataset values suggested by the language model.
#[derive(Debug, Clone)]
pub struct DatasetRagAnalysis {
    pub dataset_name: Option<String>,
    pub time_period: Option<String>,
    pub update_activity: Option<String>,
    pub last_update: Option<String>,
    pub collection_method: Option<String>,
    pub granularity_day: Option<u8>,
    pub granularity_month: Option<u8>,
    pub granularity_year: Option<u8>,
    pub granularity_union: Option<u8>,
    pub granularity_upazila: Option<u8>,
    pub granularity_zila: Option<u8>,
}

impl Default for LlmAnalysis {
    /// No suggestion at all.
    fn default() -> (r: Self)
        ensures
            r.necessity_of_login is None,
            r.multiple_language_support is None,
            r.request_for_datasets is None,
            r.languages is None,
            r.browse_datasets_by_category is None,
            r.filter_sort_datasets is None,
            r.search_for_dataset is None,
            r.user_guideline is None,
            r.number_of_category is None,
    {
        LlmAnalysis {
            necessity_of_login: None,
            multiple_language_support: None,
            request_for_datasets: None,
            languages: None,
            browse_datasets_by_category: None,
            filter_sort_datasets: None,
            search_for_dataset: None,
            user_guideline: None,
            number_of_category: None,
        }
    }
}

impl Default for DatasetRagAnalysis {
    /// No suggestion at all.
    fn default() -> (r: Self)
        ensures
            r.dataset_name is None,
            r.time_period is None,
            r.update_activity is None,
            r.last_update is None,
            r.collection_method is None,
            r.granularity_day is None,
            r.granularity_month is None,
            r.granularity_year is None,
            r.granularity_union is None,
            r.granularity_upazila is None,
            r.granularity_zila is None,
    {
        DatasetRagAnalysis {
            dataset_name: None,
            time_period: None,
            update_activity: None,
            last_update: None,
            collection_method: None,
            granularity_day: None,
            granularity_month: None,
            granularity_year: None,
            granularity_union: None,
            granularity_upazila: None,
            granularity_zila: None,
        }
    }
}

/// Format quality flags of a file: machine readable, open format.
#[derive(Debug, Clone, Copy)]
pub struct FormatQuality {
    pub machine_readable: u8,
    pub open_format: u8,
}

/// What is measured on a file's content.
#[derive(Debug, Clone)]
pub struct DatasetMetadata {
    pub description: String,
    pub rows: Option<u64>,
    pub columns: Option<u64>,
    pub column_names: Vec<String>,
    pub format_quality: FormatQuality,
}

/// One downloaded file described as a dataset.
#[derive(Debug, Clone)]
pub struct Dataset {
    pub title: String,
    pub source_url: String,
    pub download_url: String,
    pub file_type: String,
    pub file_size_bytes: Option<u64>,
    pub metadata: DatasetMetadata,
}

/// Metrics measured on one downloaded file.
#[derive(Debug, Clone)]
pub struct ExtractedFileData {
    pub title: String,
    pub source_url: String,
    pub download_url: String,
    pub file_type: String,
    pub file_size_bytes: u64,
    pub rows: Option<u64>,
    pub columns: Option<u64>,
    pub empty_cells: u64,
    pub column_names: Vec<String>,
    pub machine_readable: u8,
    pub open_format: u8,
}


/// The measurements of an extracted dataset as the quality rules read them:
/// an unknown file size counts as no bytes, and no empty cells are counted.
pub fn extracted_file_data(d: Dataset) -> (r: ExtractedFileData)
    ensures
        r.title == d.title,
        r.source_url == d.source_url,
        r.download_url == d.download_url,
        r.file_type == d.file_type,
        r.file_size_bytes == match d.file_size_bytes {
            Some(n) => n,
            None => 0,
        },
        r.rows == d.metadata.rows,
        r.columns == d.metadata.columns,
        r.empty_cells == 0,
        r.column_names@ == d.metadata.column_names@,
        r.machine_readable == d.metadata.format_quality.machine_readable,
        r.open_format == d.metadata.format_quality.open_format,
{
    ExtractedFileData {
        title: d.title,
        source_url: d.source_url,
        download_url: d.download_url,
        file_type: d.file_type,
        file_size_bytes: match d.file_size_bytes {
            Some(n) => n,
            None => 0,
        },
        rows: d.metadata.rows,
        columns: d.metadata.columns,
        empty_cells: 0,
        column_names: d.metadata.column_names,
        machine_readable: d.metadata.format_quality.machine_readable,
        open_format: d.metadata.format_quality.open_format,
    }
}

// ──────────────────────────────────────────────
// File sizes
// ──────────────────────────────────────────────

pub const KB: u64 = 1024;
pub const MB: u64 = 1048576;
pub const GB: u64 = 1073741824;

/// Smallest byte count whose conversion to a double-precision float can lose
/// precision (2^53).
pub const F64_EXACT_LIMIT: u64 = 9007199254740992;

/// `n / d` rounded to the nearest integer, ties to the even neighbour.
pub open spec fn div_round_half_even(n: nat, d: nat) -> nat
    recommends
        d > 0,
{
    let q = n / d;
    let r = n % d;
    if 2 * r < d {
        q
    } else if 2 * r > d {
        q + 1
    } else if q % 2 == 0 {
        q
    } else {
        q + 1
    }
}

/// Spacing of the double-precision floats around `b` (a power of two, 1 below 2^53).
pub open spec fn f64_spacing(b: nat) -> nat
    decreases b,
{
    if b < F64_EXACT_LIMIT {
        1
    } else {
        2 * f64_spacing(b / 2)
    }
}

/// The value of `b as f64`: `b` rounded to the nearest double, ties to even.
pub open spec fn as_f64(b: nat) -> nat {
    let g = f64_spacing(b);
    div_round_half_even(b, g) * g
}

/// Tenths in `bytes / unit` printed with one decimal place.
pub open spec fn tenths_of(value: nat, unit: nat) -> nat {
    div_round_half_even(value * 10, unit)
}

/// `t / 10` and one decimal digit, the way `{:.1}` prints a value of `t` tenths.
pub open spec fn one_decimal(t: nat) -> Seq<char> {
    decimal(t / 10).push('.') + decimal(t % 10)
}

/// The human-readable size text: `G` and `M` with one decimal of the value in
/// gibibytes or mebibytes, `kb` with whole kibibytes, otherwise bytes and `B`.
pub open spec fn file_size_text(bytes: nat) -> Seq<char> {
    if bytes >= GB {
        one_decimal(tenths_of(as_f64(bytes), GB as nat)).push('G')
    } else if bytes >= MB {
        one_decimal(tenths_of(bytes, MB as nat)).push('M')
    } else if bytes >= KB {
        decimal(bytes / (KB as nat)) + seq!['k', 'b']
    } else {
        decimal(bytes).push('B')
    }
}

fn div_round_half_even_exec(n: u128, d: u128) -> (r: u128)
    requires
        d > 0,
        n / d < u128::MAX,
    ensures
        r == div_round_half_even(n as nat, d as nat),
{
    let q = n / d;
    let rem = n % d;
    if rem < d - rem {
        q
    } else if rem > d - rem {
        q + 1
    } else if q % 2 == 0 {
        q
    } else {
        q + 1
    }
}

/// `b` converted to the nearest double and back to an integer.
fn as_f64_exec(b: u64) -> (r: u128)
    ensures
        r == as_f64(b as nat),
        r <= 73786976294838206464u128,
{
    let mut m: u64 = b;
    let mut g: u64 = 1;
    while m >= F64_EXACT_LIMIT
        invariant
            1 <= g <= 4096,
            m == b / g,
            f64_spacing(b as nat) == g * f64_spacing(m as nat),
            g == 1 || g * F64_EXACT_LIMIT <= 2 * (b as nat),
        decreases m,
    {
        proof {
            vstd::arithmetic::div_mod::lemma_div_denominator(b as int, g as int, 2);
            assert(f64_spacing(m as nat) == 2 * f64_spacing((m / 2) as nat));
            vstd::arithmetic::mul::lemma_mul_is_associative(g as int, 2, f64_spacing((m / 2) as nat) as int);
            assert(b as nat >= (m as nat) * g) by {
                vstd::arithmetic::div_mod::lemma_fundamental_div_mod(b as int, g as int);
                vstd::arithmetic::mul::lemma_mul_is_commutative(g as int, m as int);
            }
            assert((g as nat) * F64_EXACT_LIMIT <= (m as nat) * (g as nat)) by (nonlinear_arith)
                requires m >= F64_EXACT_LIMIT;
            assert(g * 2 * F64_EXACT_LIMIT <= 2 * (b as nat));
            assert(g * 2 <= 4096) by (nonlinear_arith)
                requires g * 2 * F64_EXACT_LIMIT <= 2 * (b as nat), b <= u64::MAX;
        }
        m = m / 2;
        g = g * 2;
    }
    let q = div_round_half_even_exec(b as u128, g as u128);
    proof {
        assert(f64_spacing(m as nat) == 1);
        assert(f64_spacing(b as nat) == g) by (nonlinear_arith)
            requires f64_spacing(b as nat) == g * f64_spacing(m as nat), f64_spacing(m as nat) == 1;
        assert(q <= (b as nat) / (g as nat) + 1);
        assert(q * g <= F64_EXACT_LIMIT * 4096) by (nonlinear_arith)
            requires q <= F64_EXACT_LIMIT, g <= 4096;
    }
    q * (g as u128)
}

/// Format a byte count into a human-readable string (e.g., "1.3M", "928kb").
pub fn format_file_size(bytes: u64) -> (r: String)
    ensures
        r@ == file_size_text(bytes as nat),
{
    let mut s = String::new();
    if bytes >= GB {
        let v = as_f64_exec(bytes);
        let t = div_round_half_even_exec(v * 10, GB as u128);
        assert(t <= 700000000000u128);
        push_decimal(&mut s, (t / 10) as u64);
        push_char(&mut s, '.');
        push_decimal(&mut s, (t % 10) as u64);
        push_char(&mut s, 'G');
    } else if bytes >= MB {
        let t = div_round_half_even_exec((bytes as u128) * 10, MB as u128);
        assert(t <= 10240u128);
        push_decimal(&mut s, (t / 10) as u64);
        push_char(&mut s, '.');
        push_decimal(&mut s, (t % 10) as u64);
        push_char(&mut s, 'M');
    } else if bytes >= KB {
        push_decimal(&mut s, bytes / KB);
        push_char(&mut s, 'k');
        push_char(&mut s, 'b');
    } else {
        push_decimal(&mut s, bytes);
        push_char(&mut s, 'B');
    }
    proof {
        assert(s@ =~= file_size_text(bytes as nat));
    }
    s
}


// ──────────────────────────────────────────────
// File formats
// ──────────────────────────────────────────────

/// Flag for `extension` naming the format `name`.
pub open spec fn flag(extension: Seq<char>, name: Seq<char>) -> u8 {
    if extension == name { 1 } else { 0 }
}

/// The per-format flags: each set exactly when the extension names that format.
pub open spec fn formats_for(extension: Seq<char>) -> MachineReadableFormats {
    MachineReadableFormats {
        pdf: flag(extension, ".pdf"@),
        csv: flag(extension, ".csv"@),
        rdf: flag(extension, ".rdf"@),
        xml: flag(extension, ".xml"@),
    }
}

/// Open, non-proprietary formats.
pub open spec fn non_proprietary(extension: Seq<char>) -> bool {
    extension == ".pdf"@ || extension == ".csv"@ || extension == ".xml"@
        || extension == ".rdf"@ || extension == ".txt"@
}

fn flag_exec(extension: &str, name: &str) -> (r: u8)
    ensures
        r == flag(extension@, name@),
{
    if str_eq(extension, name) { 1 } else { 0 }
}

/// Determine per-file-type machine-readable format flags based on extension.
pub fn machine_readable_formats(extension: &str) -> (r: MachineReadableFormats)
    ensures
        r == formats_for(extension@),
        r.pdf + r.csv + r.rdf + r.xml <= 1,
{
    proof {
        reveal_strlit(".pdf");
        reveal_strlit(".csv");
        reveal_strlit(".rdf");
        reveal_strlit(".xml");
        assert(".pdf"@[1] != ".csv"@[1] && ".pdf"@[1] != ".rdf"@[1] && ".pdf"@[1] != ".xml"@[1]);
        assert(".csv"@[1] != ".rdf"@[1] && ".csv"@[1] != ".xml"@[1] && ".rdf"@[1] != ".xml"@[1]);
    }
    MachineReadableFormats {
        pdf: flag_exec(extension, ".pdf"),
        csv: flag_exec(extension, ".csv"),
        rdf: flag_exec(extension, ".rdf"),
        xml: flag_exec(extension, ".xml"),
    }
}

/// Determine if a file format is non-proprietary.
pub fn is_non_proprietary(extension: &str) -> (r: u8)
    ensures
        r == (if non_proprietary(extension@) { 1u8 } else { 0u8 }),
{
    if str_eq(extension, ".pdf") || str_eq(extension, ".csv") || str_eq(extension, ".xml")
        || str_eq(extension, ".rdf") || str_eq(extension, ".txt") {
        1
    } else {
        0
    }
}

/// The non-proprietary formats are exactly PDF, CSV, XML, RDF and plain text:
/// `is_non_proprietary` gives 1 for those extensions and 0 for every other.
pub proof fn law_non_proprietary_formats(extension: Seq<char>)
    ensures
        non_proprietary(extension) <==> (extension == ".pdf"@ || extension == ".csv"@ || extension == ".xml"@
            || extension == ".rdf"@ || extension == ".txt"@),
{
}

/// A detected dataset level marks the format non-proprietary (in openness and
/// in the five-star flags) exactly for PDF, CSV, XML, RDF and plain-text files.
pub proof fn law_detected_non_proprietary(r: DatasetLevel, extension: Seq<char>, mr: u8)
    requires
        default_dataset_level(r, extension, mr),
    ensures
        r.openness.non_proprietary == r.transparency.five_star.non_proprietary_format,
        r.openness.non_proprietary == 0 || r.openness.non_proprietary == 1,
        (r.openness.non_proprietary == 1) <==> (extension == ".pdf"@ || extension == ".csv"@ || extension == ".xml"@
            || extension == ".rdf"@ || extension == ".txt"@),
{
}

/// The lower-case form of a string, as `str::to_lowercase` computes it.
pub uninterp spec fn lowercase(s: Seq<char>) -> Seq<char>;

/// Every character is ASCII.
pub open spec fn is_ascii_text(s: Seq<char>) -> bool {
    forall|i: int| 0 <= i < s.len() ==> (#[trigger] s[i] as nat) < 128
}

/// An ASCII upper-case letter turned to lower case; any other character unchanged.
pub open spec fn ascii_lower_char(c: char) -> char {
    if 'A' <= c <= 'Z' {
        ((c as nat) + 32) as char
    } else {
        c
    }
}

/// An ASCII lower-case letter turned to upper case; any other character unchanged.
pub open spec fn ascii_upper_char(c: char) -> char {
    if 'a' <= c <= 'z' {
        ((c as nat) - 32) as char
    } else {
        c
    }
}

/// `str::to_lowercase`: the result is a function of the input's characters,
/// named `lowercase`; on ASCII text it lower-cases the letters A to Z and keeps
/// every other character (the Unicode case mapping it is documented to follow
/// does so on ASCII). What it does to other characters is not stated.
#[verifier::external_body]
pub(crate) fn to_lowercase(s: &str) -> (r: String)
    ensures
        r@ == lowercase(s@),
        is_ascii_text(s@) ==> r@ == s@.map_values(|c: char| ascii_lower_char(c)),
{
    s.to_lowercase()
}

/// The extension `.` + lower-cased file type under which a dataset's format is judged.
pub open spec fn extension_of_type(file_type: Seq<char>) -> Seq<char> {
    seq!['.'] + lowercase(file_type)
}

/// The dataset level that is assumed before a user reviews it, for a file with
/// the given extension and machine-readability flag.
pub open spec fn default_dataset_level(r: DatasetLevel, extension: Seq<char>, mr: u8) -> bool {
    let np: u8 = if non_proprietary(extension) { 1 } else { 0 };
    &&& r.openness.complete.descriptive == 0
    &&& r.openness.complete.downloadable == 1
    &&& r.openness.complete.machine_readable == mr
    &&& r.openness.complete.linked_data == 0
    &&& r.openness.primary == 0
    &&& r.openness.non_discriminatory == 1
    &&& r.openness.accessible == 1
    &&& r.openness.timely == 0
    &&& r.openness.non_proprietary == np
    &&& r.openness.license_free == 0
    &&& r.openness.machine_readable == formats_for(extension)
    &&& r.transparency.source@ == Seq::<char>::empty()
    &&& r.transparency.number_of_downloads == 0
    &&& r.transparency.understandability.faq == 0
    &&& r.transparency.understandability.textual_description == 0
    &&& r.transparency.understandability.category_tag == 0
    &&& r.transparency.meta_data == 0
    &&& r.transparency.five_star.available_online == 1
    &&& r.transparency.five_star.machine_readable == mr
    &&& r.transparency.five_star.non_proprietary_format == np
    &&& r.transparency.five_star.open_standard == 0
    &&& r.transparency.five_star.linked_data == 0
    &&& r.provenance.source@ == Seq::<char>::empty()
    &&& r.provenance.time_period@ == Seq::<char>::empty()
    &&& r.provenance.update_activity@ == Seq::<char>::empty()
    &&& r.provenance.last_update@ == Seq::<char>::empty()
    &&& r.provenance.collection_method@ == Seq::<char>::empty()
    &&& r.semantic_consistency.external_vocabulary == 0
}

/// The default dataset level for a file whose extension (with its dot) is
/// `extension` and whose machine-readability flag is `machine_readable`.
pub fn dataset_level_for_extension(extension: &str, machine_readable: u8) -> (r: DatasetLevel)
    ensures
        default_dataset_level(r, extension@, machine_readable),
{
    let np = is_non_proprietary(extension);
    DatasetLevel {
        openness: Openness {
            complete: OpennessComplete {
                descriptive: 0,
                downloadable: 1,
                machine_readable,
                linked_data: 0,
            },
            primary: 0,
            non_discriminatory: 1,
            accessible: 1,
            timely: 0,
            non_proprietary: np,
            license_free: 0,
            machine_readable: machine_readable_formats(extension),
        },
        transparency: Transparency {
            source: String::new(),
            number_of_downloads: 0,
            understandability: Understandability { faq: 0, textual_description: 0, category_tag: 0 },
            meta_data: 0,
            five_star: FiveStar {
                available_online: 1,
                machine_readable,
                non_proprietary_format: np,
                open_standard: 0,
                linked_data: 0,
            },
        },
        provenance: Provenance {
            source: String::new(),
            time_period: String::new(),
            update_activity: String::new(),
            last_update: String::new(),
            collection_method: String::new(),
        },
        semantic_consistency: SemanticConsistency { external_vocabulary: 0 },
    }
}

/// Build default DatasetLevel auto-detecting fields from the extracted file data.
pub fn auto_detect_dataset_level(data: &ExtractedFileData) -> (r: DatasetLevel)
    ensures
        default_dataset_level(r, extension_of_type(data.file_type@), data.machine_readable),
{
    let lower = to_lowercase(data.file_type.as_str());
    let mut ext = String::new();
    push_char(&mut ext, '.');
    push_str(&mut ext, lower.as_str());
    assert(ext@ =~= extension_of_type(data.file_type@));
    dataset_level_for_extension(ext.as_str(), data.machine_readable)
}

/// The data level that is assumed before a user reviews it.
pub open spec fn default_data_level(r: DataLevel, data: ExtractedFileData) -> bool {
    &&& r.granularity.time_dimension.day == 0
    &&& r.granularity.time_dimension.month == 0
    &&& r.granularity.time_dimension.year == 0
    &&& r.granularity.geo_dimension.union == 0
    &&& r.granularity.geo_dimension.upazila == 0
    &&& r.granularity.geo_dimension.zila == 0
    &&& r.data_level_completeness.number_of_empty_cells == data.empty_cells
    &&& r.data_volume.number_of_rows == (match data.rows { Some(n) => n, None => 0 })
    &&& r.data_volume.number_of_columns == (match data.columns { Some(n) => n, None => 0 })
    &&& r.data_volume.file_size@ == file_size_text(data.file_size_bytes as nat)
    &&& r.data_volume.download_link@ == data.download_url@
}

/// Build default DataLevel from extracted file data.
pub fn auto_detect_data_level(data: &ExtractedFileData) -> (r: DataLevel)
    ensures
        default_data_level(r, *data),
{
    DataLevel {
        granularity: Granularity {
            time_dimension: TimeDimension { day: 0, month: 0, year: 0 },
            geo_dimension: GeoDimension { union: 0, upazila: 0, zila: 0 },
        },
        data_level_completeness: DataLevelCompleteness { number_of_empty_cells: data.empty_cells },
        data_volume: DataVolume {
            number_of_rows: match data.rows { Some(n) => n, None => 0 },
            number_of_columns: match data.columns { Some(n) => n, None => 0 },
            file_size: format_file_size(data.file_size_bytes),
            download_link: data.download_url.clone(),
        },
    }
}

} // verus!
