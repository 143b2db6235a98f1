use vstd::prelude::*;

use crate::models::LlmAnalysis;
use crate::text::{chars_of, push_str, string_from_chars};
use crate::textops::{trim_chars, trimmed};
use crate::widgets::{byte_prefix_floor, truncate_floor};

verus! {

// ──────────────────────────────────────────────
// Locating the JSON object in a reply
// ──────────────────────────────────────────────

/// Index of the first occurrence of `c` in `s`.
pub open spec fn first_index_of(s: Seq<char>, c: char) -> Option<int> {
    if exists|i: int| 0 <= i < s.len() && s[i] == c {
        Some(choose|i: int| 0 <= i < s.len() && s[i] == c && forall|j: int| 0 <= j < i ==> s[j] != c)
    } else {
        None
    }
}

/// Where a scan of JSON text stands: how deep in braces it is, whether it is
/// inside a string, and whether the last character was a backslash there.
pub struct ScanState {
    pub depth: nat,
    pub in_string: bool,
    pub escaped: bool,
}

/// The state before the scan of an object.
pub open spec fn scan_start() -> ScanState {
    ScanState { depth: 0, in_string: false, escaped: false }
}

/// The scan state after the character `c`: braces outside strings nest,
/// quotes open and close strings, and a backslash in a string escapes the
/// next character.
pub open spec fn scan_step(st: ScanState, c: char) -> ScanState {
    if st.in_string {
        if st.escaped {
            ScanState { escaped: false, ..st }
        } else if c == '\\' {
            ScanState { escaped: true, ..st }
        } else if c == '"' {
            ScanState { in_string: false, ..st }
        } else {
            st
        }
    } else if c == '"' {
        ScanState { in_string: true, ..st }
    } else if c == '{' {
        ScanState { depth: st.depth + 1, ..st }
    } else if c == '}' {
        ScanState { depth: if st.depth > 0 { (st.depth - 1) as nat } else { 0 }, ..st }
    } else {
        st
    }
}

/// Scanning `s` from `i` in state `st`: the index of the `}` (outside any
/// string) that closes the outermost open brace, if the text has one.
pub open spec fn object_close(s: Seq<char>, i: int, st: ScanState) -> Option<int>
    decreases s.len() - i,
{
    if i < 0 || i >= s.len() {
        None
    } else if !st.in_string && s[i] == '}' && st.depth == 1 {
        Some(i)
    } else {
        object_close(s, i + 1, scan_step(st, s[i]))
    }
}

/// The first JSON object in the text: from its first `{` through the `}` that
/// closes it (braces and quotes inside strings do not count); the whole text
/// where it has no `{` or that brace is never closed.
pub open spec fn json_candidate(s: Seq<char>) -> Seq<char> {
    match first_index_of(s, '{') {
        Some(a) => match object_close(s, a, scan_start()) {
            Some(b) => s.subrange(a, b + 1),
            None => s,
        },
        None => s,
    }
}

proof fn lemma_first_exists(s: Seq<char>, c: char, k: int)
    requires
        0 <= k <= s.len(),
        forall|j: int| 0 <= j < k ==> s[j] != c,
        exists|i: int| k <= i < s.len() && s[i] == c,
    ensures
        exists|i: int| 0 <= i < s.len() && s[i] == c && forall|j: int| 0 <= j < i ==> s[j] != c,
    decreases s.len() - k,
{
    if s[k] == c {
        assert(0 <= k < s.len() && s[k] == c && forall|j: int| 0 <= j < k ==> s[j] != c);
    } else {
        lemma_first_exists(s, c, k + 1);
    }
}

proof fn lemma_close_after(s: Seq<char>, i: int, st: ScanState)
    ensures
        object_close(s, i, st) matches Some(b) ==> 0 <= i <= b < s.len() && s[b] == '}',
    decreases s.len() - i,
{
    if 0 <= i < s.len() && !(!st.in_string && s[i] == '}' && st.depth == 1) {
        lemma_close_after(s, i + 1, scan_step(st, s[i]));
    }
}

/// Scanning a piece cut out of `s` at `a` finds the same close as scanning `s`.
proof fn lemma_close_in_piece(s: Seq<char>, a: int, b: int, i: int, st: ScanState)
    requires
        0 <= a <= i,
        object_close(s, i, st) == Some(b),
    ensures
        object_close(s.subrange(a, b + 1), i - a, st) == Some(b - a),
    decreases s.len() - i,
{
    lemma_close_after(s, i, st);
    let t = s.subrange(a, b + 1);
    assert(t[i - a] == s[i]);
    if !(!st.in_string && s[i] == '}' && st.depth == 1) {
        lemma_close_after(s, i + 1, scan_step(st, s[i]));
        lemma_close_in_piece(s, a, b, i + 1, scan_step(st, s[i]));
    }
}

/// Cutting the JSON object out of a reply twice cuts nothing more: what was
/// cut out is already exactly its first object.
pub proof fn law_json_candidate_idempotent(s: Seq<char>)
    ensures
        json_candidate(json_candidate(s)) == json_candidate(s),
{
    match first_index_of(s, '{') {
        Some(a) => match object_close(s, a, scan_start()) {
            Some(b) => {
                lemma_first_exists(s, '{', 0);
                assert(0 <= a < s.len() && s[a] == '{');
                lemma_close_after(s, a, scan_start());
                let t = s.subrange(a, b + 1);
                assert(t[0] == '{');
                assert(0 <= 0 < t.len() && t[0] == '{' && forall|j: int| 0 <= j < 0 ==> t[j] != '{');
                let i = choose|i: int| 0 <= i < t.len() && t[i] == '{' && forall|j: int| 0 <= j < i ==> t[j] != '{';
                assert(i == 0);
                assert(first_index_of(t, '{') == Some(0int));
                lemma_close_in_piece(s, a, b, a, scan_start());
                assert(t.subrange(0, b - a + 1) =~= t);
            },
            None => {},
        },
        None => {},
    }
}

fn find_first(s: &[char], c: char) -> (r: Option<usize>)
    ensures
        match r {
            Some(i) => first_index_of(s@, c) == Some(i as int) && i < s@.len(),
            None => first_index_of(s@, c) is None,
        },
{
    let mut i: usize = 0;
    while i < s.len()
        invariant
            i <= s.len(),
            forall|j: int| 0 <= j < i ==> s@[j] != c,
        decreases s.len() - i,
    {
        if s[i] == c {
            proof {
                let w = choose|k: int| 0 <= k < s@.len() && s@[k] == c && forall|j: int| 0 <= j < k ==> s@[j] != c;
                assert(s@[i as int] == c);
                if w < i {
                } else if w > i {
                    assert(s@[i as int] != c);
                }
            }
            return Some(i);
        }
        i += 1;
    }
    None
}

/// Index of the `}` that closes the object opening at `a`, if any.
fn find_close(s: &[char], a: usize) -> (r: Option<usize>)
    requires
        a < s@.len(),
    ensures
        match r {
            Some(b) => object_close(s@, a as int, scan_start()) == Some(b as int) && a <= b < s@.len(),
            None => object_close(s@, a as int, scan_start()) is None,
        },
{
    let mut depth: usize = 0;
    let mut in_string = false;
    let mut escaped = false;
    let mut i: usize = a;
    while i < s.len()
        invariant
            a <= i <= s@.len(),
            depth <= i,
            object_close(s@, a as int, scan_start())
                == object_close(s@, i as int, ScanState { depth: depth as nat, in_string, escaped }),
        decreases s.len() - i,
    {
        let c = s[i];
        if !in_string && c == '}' && depth == 1 {
            return Some(i);
        }
        if in_string {
            if escaped {
                escaped = false;
            } else if c == '\\' {
                escaped = true;
            } else if c == '"' {
                in_string = false;
            }
        } else if c == '"' {
            in_string = true;
        } else if c == '{' {
            depth = depth + 1;
        } else if c == '}' {
            if depth > 0 {
                depth = depth - 1;
            }
        }
        i += 1;
    }
    None
}

/// Extract the first JSON object from text that may contain surrounding prose.
pub fn extract_json_from_text(text: &str) -> (r: String)
    ensures
        r@ == json_candidate(text@),
{
    let cs = chars_of(text);
    match find_first(cs.as_slice(), '{') {
        Some(a) => match find_close(cs.as_slice(), a) {
            Some(b) => {
                let part = &cs[a..b + 1];
                assert(part@ =~= text@.subrange(a as int, b + 1));
                string_from_chars(part)
            },
            None => string_from_chars(cs.as_slice()),
        },
        None => string_from_chars(cs.as_slice()),
    }
}

// ──────────────────────────────────────────────
// Reading the analysis out of the JSON object
// ──────────────────────────────────────────────

/// A member value of the reply's JSON object, as far as the analysis reads it:
/// an unsigned integer (what `as_u64` accepts), an object (each member with its
/// `as_u64` reading), or anything else.
#[derive(Debug, Clone)]
pub enum JsonMember {
    Unsigned(u64),
    Object(Vec<(String, Option<u64>)>),
    Other,
}

/// The parsed reply: the members of a JSON object, in order, each name at most
/// once; or some other JSON value.
#[derive(Debug, Clone)]
pub enum JsonDocument {
    Object(Vec<(String, JsonMember)>),
    Other,
}

/// The value of the member named `key`, if the document is an object that has one.
pub open spec fn member(doc: JsonDocument, key: Seq<char>) -> Option<JsonMember> {
    match doc {
        JsonDocument::Object(m) => {
            if exists|i: int| 0 <= i < m@.len() && m@[i].0@ == key {
                let i = choose|i: int| 0 <= i < m@.len() && m@[i].0@ == key && forall|j: int| 0 <= j < i ==> m@[j].0@ != key;
                Some(m@[i].1)
            } else {
                None
            }
        },
        JsonDocument::Other => None,
    }
}

/// An unsigned member read as a `u8` (`as u8`: the value modulo 256).
pub open spec fn u8_member(doc: JsonDocument, key: Seq<char>) -> Option<u8> {
    match member(doc, key) {
        Some(JsonMember::Unsigned(n)) => Some((n % 256) as u8),
        _ => None,
    }
}

/// An unsigned member read as a `u32` (`as u32`: the value modulo 2^32).
pub open spec fn u32_member(doc: JsonDocument, key: Seq<char>) -> Option<u32> {
    match member(doc, key) {
        Some(JsonMember::Unsigned(n)) => Some((n % 4294967296) as u32),
        _ => None,
    }
}

/// The language flags of an object member: the members with an unsigned value,
/// in order, each value modulo 256.
pub open spec fn language_flags(entries: Seq<(String, Option<u64>)>) -> Seq<(Seq<char>, u8)>
    decreases entries.len(),
{
    if entries.len() == 0 {
        Seq::empty()
    } else {
        let rest = language_flags(entries.drop_last());
        match entries.last().1 {
            Some(n) => rest.push((entries.last().0@, (n % 256) as u8)),
            None => rest,
        }
    }
}

pub open spec fn languages_member(doc: JsonDocument) -> Option<Seq<(Seq<char>, u8)>> {
    match member(doc, "languages"@) {
        Some(JsonMember::Object(entries)) => Some(language_flags(entries@)),
        _ => None,
    }
}

pub open spec fn pairs_view(v: Seq<(String, u8)>) -> Seq<(Seq<char>, u8)> {
    v.map_values(|e: (String, u8)| (e.0@, e.1))
}

/// The analysis that a parsed reply gives (all `None` without a reply).
pub open spec fn analysis_of(doc: Option<JsonDocument>, r: LlmAnalysis) -> bool {
    let d = match doc { Some(d) => d, None => JsonDocument::Other };
    &&& r.necessity_of_login == u8_member(d, "necessity_of_login"@)
    &&& r.multiple_language_support == u8_member(d, "multiple_language_support"@)
    &&& r.request_for_datasets == u8_member(d, "request_for_datasets"@)
    &&& match (r.languages, languages_member(d)) {
        (Some(l), Some(e)) => pairs_view(l@) == e,
        (None, None) => true,
        _ => false,
    }
    &&& r.browse_datasets_by_category == u8_member(d, "browse_datasets_by_category"@)
    &&& r.filter_sort_datasets == u8_member(d, "filter_sort_datasets"@)
    &&& r.search_for_dataset == u8_member(d, "search_for_dataset"@)
    &&& r.user_guideline == u8_member(d, "user_guideline"@)
    &&& r.number_of_category == u32_member(d, "number_of_category"@)
}

/// Each suggestion is read from the reply's member of its own name: the
/// member's unsigned value (cut to the field's width) where it has one, and no
/// suggestion otherwise; the languages come from an object member `languages`.
pub proof fn law_suggestions_read_by_name(d: JsonDocument, r: LlmAnalysis)
    requires
        analysis_of(Some(d), r),
    ensures
        r.necessity_of_login == match member(d, "necessity_of_login"@) {
            Some(JsonMember::Unsigned(n)) => Some((n % 256) as u8),
            _ => None,
        },
        r.multiple_language_support == match member(d, "multiple_language_support"@) {
            Some(JsonMember::Unsigned(n)) => Some((n % 256) as u8),
            _ => None,
        },
        r.request_for_datasets == match member(d, "request_for_datasets"@) {
            Some(JsonMember::Unsigned(n)) => Some((n % 256) as u8),
            _ => None,
        },
        r.browse_datasets_by_category == match member(d, "browse_datasets_by_category"@) {
            Some(JsonMember::Unsigned(n)) => Some((n % 256) as u8),
            _ => None,
        },
        r.filter_sort_datasets == match member(d, "filter_sort_datasets"@) {
            Some(JsonMember::Unsigned(n)) => Some((n % 256) as u8),
            _ => None,
        },
        r.search_for_dataset == match member(d, "search_for_dataset"@) {
            Some(JsonMember::Unsigned(n)) => Some((n % 256) as u8),
            _ => None,
        },
        r.user_guideline == match member(d, "user_guideline"@) {
            Some(JsonMember::Unsigned(n)) => Some((n % 256) as u8),
            _ => None,
        },
        r.number_of_category == match member(d, "number_of_category"@) {
            Some(JsonMember::Unsigned(n)) => Some((n % 4294967296) as u32),
            _ => None,
        },
        r.languages is Some <==> member(d, "languages"@) matches Some(JsonMember::Object(_)),
{
}

/// A reply that does not parse as JSON suggests nothing: every field is `None`.
pub proof fn law_unparsed_reply_suggests_nothing(r: LlmAnalysis)
    requires
        analysis_of(None, r),
    ensures
        r.necessity_of_login is None,
        r.multiple_language_support is None,
        r.request_for_datasets is None,
        r.languages is None,
        r.browse_datasets_by_category is None,
        r.filter_sort_datasets is None,
        r.search_for_dataset is None,
        r.user_guideline is None,
        r.number_of_category is None,
{
}

fn find_member<'a>(m: &'a Vec<(String, JsonMember)>, key: &str) -> (r: Option<&'a JsonMember>)
    ensures
        match r {
            Some(v) => member(JsonDocument::Object(*m), key@) == Some(*v),
            None => member(JsonDocument::Object(*m), key@) is None,
        },
{
    let mut i: usize = 0;
    while i < m.len()
        invariant
            i <= m.len(),
            forall|j: int| 0 <= j < i ==> m@[j].0@ != key@,
        decreases m.len() - i,
    {
        if crate::text::str_eq(m[i].0.as_str(), key) {
            proof {
                assert(m@[i as int].0@ == key@);
                assert(exists|k: int| 0 <= k < m@.len() && m@[k].0@ == key@);
                let w = choose|k: int| 0 <= k < m@.len() && m@[k].0@ == key@ && forall|j: int| 0 <= j < k ==> m@[j].0@ != key@;
                if w < i {
                    assert(m@[w].0@ != key@);
                } else if w > i {
                    assert(m@[i as int].0@ != key@);
                }
                assert(w == i);
                let d = JsonDocument::Object(*m);
                assert(d matches JsonDocument::Object(mm) && mm == *m);
                assert(member(d, key@) == Some(m@[i as int].1));
            }
            return Some(&m[i].1);
        }
        i += 1;
    }
    None
}

fn u8_field(doc: &JsonDocument, key: &str) -> (r: Option<u8>)
    ensures
        r == u8_member(*doc, key@),
{
    match doc {
        JsonDocument::Object(m) => match find_member(m, key) {
            Some(JsonMember::Unsigned(n)) => Some((*n % 256) as u8),
            _ => None,
        },
        JsonDocument::Other => None,
    }
}

fn u32_field(doc: &JsonDocument, key: &str) -> (r: Option<u32>)
    ensures
        r == u32_member(*doc, key@),
{
    match doc {
        JsonDocument::Object(m) => match find_member(m, key) {
            Some(JsonMember::Unsigned(n)) => Some((*n % 4294967296) as u32),
            _ => None,
        },
        JsonDocument::Other => None,
    }
}

fn language_flags_exec(entries: &Vec<(String, Option<u64>)>) -> (r: Vec<(String, u8)>)
    ensures
        pairs_view(r@) == language_flags(entries@),
{
    let mut out: Vec<(String, u8)> = Vec::new();
    let mut i: usize = 0;
    while i < entries.len()
        invariant
            i <= entries.len(),
            pairs_view(out@) == language_flags(entries@.take(i as int)),
        decreases entries.len() - i,
    {
        proof {
            assert(entries@.take(i + 1).drop_last() =~= entries@.take(i as int));
        }
        match entries[i].1 {
            Some(n) => {
                out.push((entries[i].0.clone(), (n % 256) as u8));
                assert(pairs_view(out@) =~= language_flags(entries@.take(i as int)).push((entries@[i as int].0@, (n % 256) as u8)));
            }
            None => {}
        }
        i += 1;
    }
    assert(entries@.take(entries.len() as int) =~= entries@);
    out
}

fn languages_field(doc: &JsonDocument) -> (r: Option<Vec<(String, u8)>>)
    ensures
        match (r, languages_member(*doc)) {
            (Some(l), Some(e)) => pairs_view(l@) == e,
            (None, None) => true,
            _ => false,
        },
{
    match doc {
        JsonDocument::Object(m) => match find_member(m, "languages") {
            Some(JsonMember::Object(entries)) => Some(language_flags_exec(entries)),
            _ => None,
        },
        JsonDocument::Other => None,
    }
}

/// Reads the platform-level suggestions out of the reply's parsed JSON object
/// (`None` where the reply did not parse as JSON).
pub fn analysis_from_json(doc: Option<&JsonDocument>) -> (r: LlmAnalysis)
    ensures
        analysis_of(match doc { Some(d) => Some(*d), None => None }, r),
{
    let other = JsonDocument::Other;
    let d: &JsonDocument = match doc {
        Some(d) => d,
        None => &other,
    };
    LlmAnalysis {
        necessity_of_login: u8_field(d, "necessity_of_login"),
        multiple_language_support: u8_field(d, "multiple_language_support"),
        request_for_datasets: u8_field(d, "request_for_datasets"),
        languages: languages_field(d),
        browse_datasets_by_category: u8_field(d, "browse_datasets_by_category"),
        filter_sort_datasets: u8_field(d, "filter_sort_datasets"),
        search_for_dataset: u8_field(d, "search_for_dataset"),
        user_guideline: u8_field(d, "user_guideline"),
        number_of_category: u32_field(d, "number_of_category"),
    }
}

// ──────────────────────────────────────────────
// Parsing the reply
// ──────────────────────────────────────────────

/// What `serde_json::from_str` parses from `text`, read as a `JsonDocument`:
/// `None` where parsing fails.
pub uninterp spec fn json_document(text: Seq<char>) -> Option<JsonDocument>;

/// `serde_json::from_str` into a `serde_json::Value`, then read as a
/// `JsonDocument` (`Value::as_u64` for the numbers). The claim is only that the
/// result is the function of the text named `json_document`; what JSON syntax
/// is accepted is not stated.
#[verifier::external_body]
fn parse_json_document(text: &str) -> (r: Option<JsonDocument>)
    ensures
        r == json_document(text@),
{
    let member = |v: serde_json::Value| match v {
        serde_json::Value::Object(o) => JsonMember::Object(o.into_iter().map(|(n, x)| (n, x.as_u64())).collect()),
        other => other.as_u64().map_or(JsonMember::Other, JsonMember::Unsigned),
    };
    match serde_json::from_str::<serde_json::Value>(text) {
        Ok(serde_json::Value::Object(m)) => Some(JsonDocument::Object(m.into_iter().map(|(k, v)| (k, member(v))).collect())),
        Ok(_) => Some(JsonDocument::Other),
        Err(_) => None,
    }
}

/// Reads the platform-level suggestions out of the model's reply: the JSON
/// object cut out of the reply, parsed, and read by `analysis_from_json`.
pub fn parse_llm_response(response: &str) -> (r: LlmAnalysis)
    ensures
        analysis_of(json_document(json_candidate(response@)), r),
{
    let json_text = extract_json_from_text(response);
    let doc = parse_json_document(json_text.as_str());
    match &doc {
        Some(d) => analysis_from_json(Some(d)),
        None => analysis_from_json(None),
    }
}

// ──────────────────────────────────────────────
// Prompts
// ──────────────────────────────────────────────

/// Most bytes of a page's HTML handed to the model.
pub const MAX_HTML_LENGTH: usize = 4000;

/// The HTML handed to the model: its first `MAX_HTML_LENGTH` bytes where it is
/// longer, cut back to the last character boundary.
pub open spec fn truncated_html(s: Seq<char>) -> Seq<char> {
    byte_prefix_floor(s, MAX_HTML_LENGTH as nat)
}

/// The question put to the model about a site, before the page's HTML.
pub const WEBSITE_PROMPT_HEAD: &'static str = "Analyze this government website HTML and answer these questions with ONLY a JSON object.
No explanation, just JSON.

HTML content:
";

/// The question put to the model about a site, after the page's HTML.
pub const WEBSITE_PROMPT_TAIL: &'static str = "

Answer these questions about the website:
1. Does the site require login to access data? (0=no, 1=yes)
2. Does the site support multiple languages? (0=no, 1=yes)
3. Is there a mechanism to request new datasets? (0=no, 1=yes)
4. Which languages are supported? List them.
5. Can users browse datasets by category? (0=no, 1=yes)
6. Are filter/sort options available? (0=no, 1=yes)
7. Is there a search feature? (0=no, 1=yes)
8. Are usage guidelines provided? (0=no, 1=yes)
9. How many dataset categories exist? (number)

Respond with ONLY this JSON format:
{
  \"necessity_of_login\": 0,
  \"multiple_language_support\": 0,
  \"request_for_datasets\": 0,
  \"languages\": {\"bangla\": 0, \"english\": 1},
  \"browse_datasets_by_category\": 0,
  \"filter_sort_datasets\": 0,
  \"search_for_dataset\": 0,
  \"user_guideline\": 0,
  \"number_of_category\": 1
}";

/// The prompt asking the model about a site, given the HTML of its root page.
pub fn website_prompt(html: &str) -> (r: String)
    ensures
        r@ == WEBSITE_PROMPT_HEAD@ + truncated_html(html@) + WEBSITE_PROMPT_TAIL@,
{
    let part = truncate_floor(html, MAX_HTML_LENGTH);
    let mut prompt = String::from_str(WEBSITE_PROMPT_HEAD);
    let middle = string_from_chars(part.as_slice());
    push_str(&mut prompt, middle.as_str());
    push_str(&mut prompt, WEBSITE_PROMPT_TAIL);
    prompt
}

/// `names` joined with `, `.
pub open spec fn joined(names: Seq<String>) -> Seq<char>
    decreases names.len(),
{
    if names.len() == 0 {
        Seq::empty()
    } else if names.len() == 1 {
        names[0]@
    } else {
        joined(names.drop_last()) + ", "@ + names.last()@
    }
}

/// The columns as the dataset prompt names them: joined, or `unknown`.
pub open spec fn columns_text(names: Seq<String>) -> Seq<char> {
    if names.len() == 0 { "unknown"@ } else { joined(names) }
}

/// The prompt asking the model to describe a data file.
pub open spec fn dataset_prompt_text(file_path: Seq<char>, file_type: Seq<char>, names: Seq<String>) -> Seq<char> {
    "This is a "@ + file_type + " data file at path \""@ + file_path + "\".\nThe columns are: "@
        + columns_text(names)
        + ".\nWrite a brief one-sentence description of what this dataset likely contains.\nRespond with ONLY the description, nothing else."@
}

pub fn dataset_prompt(file_path: &str, file_type: &str, column_names: &[String]) -> (r: String)
    ensures
        r@ == dataset_prompt_text(file_path@, file_type@, column_names@),
{
    let mut columns = String::new();
    if column_names.len() == 0 {
        push_str(&mut columns, "unknown");
    } else {
        let mut i: usize = 0;
        while i < column_names.len()
            invariant
                i <= column_names@.len(),
                column_names@.len() > 0,
                columns@ == joined(column_names@.take(i as int)),
            decreases column_names.len() - i,
        {
            assert(column_names@.take(i + 1).drop_last() =~= column_names@.take(i as int));
            if i > 0 {
                push_str(&mut columns, ", ");
            }
            push_str(&mut columns, column_names[i].as_str());
            proof {
                if i == 0 {
                    assert(columns@ =~= column_names@.take(1)[0]@);
                }
            }
            i += 1;
        }
        assert(column_names@.take(column_names@.len() as int) =~= column_names@);
    }
    let mut prompt = String::from_str("This is a ");
    push_str(&mut prompt, file_type);
    push_str(&mut prompt, " data file at path \"");
    push_str(&mut prompt, file_path);
    push_str(&mut prompt, "\".\nThe columns are: ");
    push_str(&mut prompt, columns.as_str());
    push_str(&mut prompt, ".\nWrite a brief one-sentence description of what this dataset likely contains.\nRespond with ONLY the description, nothing else.");
    prompt
}

/// The description the model gave: its reply without surrounding white space.
pub fn description_from_reply(reply: &str) -> (r: String)
    ensures
        r@ == trimmed(reply@),
{
    let cs = chars_of(reply);
    let t = trim_chars(cs.as_slice());
    string_from_chars(t.as_slice())
}

} // verus!
