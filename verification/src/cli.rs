use vstd::prelude::*;

use crate::downloader::has_double_dot;
use crate::models::{
    ascii_lower_char, is_ascii_text, lowercase, to_lowercase, DatasetLevel, Diversity, FiveStar, Openness, OpennessComplete,
    PlatformLevel, Provenance, SemanticConsistency, Transparency, Understandability,
    UserAccessibility, UserUsability,
};
use crate::text::{chars_of, decimal, digit_char, str_eq, string_from_chars};
use crate::textops::{contains_char, has_char_in, trim_chars, trimmed};

verus! {

// ──────────────────────────────────────────────
// Output file names
// ──────────────────────────────────────────────

/// A file name that stays in the working directory: not empty, without a path
/// separator or `..`, and not starting with a dot.
pub open spec fn safe_filename(s: Seq<char>) -> bool {
    &&& s.len() > 0
    &&& !has_char_in(s, '/')
    &&& !has_char_in(s, '\\')
    &&& !has_double_dot(s)
    &&& s[0] != '.'
}

fn contains_double_dot(s: &[char]) -> (r: bool)
    ensures
        r == has_double_dot(s@),
{
    let mut i: usize = 0;
    while i < s.len()
        invariant
            i <= s.len(),
            forall|j: int| 0 <= j < i && j + 1 < s.len() ==> !(s@[j] == '.' && #[trigger] s@[j + 1] == '.'),
        decreases s.len() - i,
    {
        if i + 1 < s.len() && s[i] == '.' && s[i + 1] == '.' {
            return true;
        }
        i += 1;
    }
    proof {
        if has_double_dot(s@) {
            let j = choose|j: int| 0 <= j < s@.len() - 1 && s@[j] == '.' && #[trigger] s@[j + 1] == '.';
            assert(!(s@[j] == '.' && s@[j + 1] == '.'));
        }
    }
    false
}

/// Whether `name` is safe as the output file name (no path traversal).
pub fn is_safe_filename(name: &str) -> (r: bool)
    ensures
        r == safe_filename(name@),
{
    let cs = chars_of(name);
    cs.len() > 0 && !contains_char(cs.as_slice(), '/') && !contains_char(cs.as_slice(), '\\')
        && !contains_double_dot(cs.as_slice()) && cs[0] != '.'
}

// ──────────────────────────────────────────────
// Typed answers
// ──────────────────────────────────────────────

/// A typed line as an answer: without its surrounding white space.
pub fn answer_text(line: &str) -> (r: String)
    ensures
        r@ == trimmed(line@),
{
    let cs = chars_of(line);
    let t = trim_chars(cs.as_slice());
    string_from_chars(t.as_slice())
}

/// The answer to a 0/1 question: `0` or `1`, or the default for an empty answer
/// where there is one; `None` asks again.
pub open spec fn binary_answer_of(input: Seq<char>, default: Option<u8>) -> Option<u8> {
    if input.len() == 0 && default is Some {
        default
    } else if input == seq!['0'] {
        Some(0u8)
    } else if input == seq!['1'] {
        Some(1u8)
    } else {
        None
    }
}

pub fn binary_answer(input: &str, default: Option<u8>) -> (r: Option<u8>)
    ensures
        r == binary_answer_of(input@, default),
{
    let cs = chars_of(input);
    if cs.len() == 0 && default.is_some() {
        default
    } else if cs.len() == 1 && cs[0] == '0' {
        assert(input@ =~= seq!['0']);
        Some(0)
    } else if cs.len() == 1 && cs[0] == '1' {
        assert(input@ =~= seq!['1']);
        Some(1)
    } else {
        proof {
            if input@ == seq!['0'] {
                assert(input@[0] == '0');
            }
            if input@ == seq!['1'] {
                assert(input@[0] == '1');
            }
        }
        None
    }
}

pub open spec fn is_digit(c: char) -> bool {
    '0' <= c && c <= '9'
}

pub open spec fn digit_value(c: char) -> nat {
    (c as u32 - '0' as u32) as nat
}

/// The value of a string of decimal digits.
pub open spec fn digits_value(d: Seq<char>) -> nat
    decreases d.len(),
{
    if d.len() == 0 {
        0
    } else {
        digits_value(d.drop_last()) * 10 + digit_value(d.last())
    }
}

pub open spec fn all_digits(d: Seq<char>) -> bool {
    forall|i: int| 0 <= i < d.len() ==> is_digit(#[trigger] d[i])
}

/// The digits of an unsigned number as `str::parse` reads it: after an optional `+`.
pub open spec fn unsigned_digits(s: Seq<char>) -> Seq<char> {
    if s.len() > 0 && s[0] == '+' { s.skip(1) } else { s }
}

/// The unsigned number `str::parse` reads from `s`, up to `max`: an optional
/// `+` and one or more decimal digits; `None` for anything else or a larger value.
pub open spec fn unsigned_value(s: Seq<char>, max: nat) -> Option<nat> {
    let d = unsigned_digits(s);
    if d.len() > 0 && all_digits(d) && digits_value(d) <= max {
        Some(digits_value(d))
    } else {
        None
    }
}

proof fn lemma_digits_grow(d: Seq<char>, i: int)
    requires
        0 <= i <= d.len(),
    ensures
        digits_value(d.take(i)) <= digits_value(d),
    decreases d.len() - i,
{
    if i < d.len() {
        lemma_digits_grow(d, i + 1);
        assert(d.take(i + 1).drop_last() =~= d.take(i));
    } else {
        assert(d.take(i) =~= d);
    }
}

fn parse_unsigned(s: &[char], max: u64) -> (r: Option<u64>)
    ensures
        match r {
            Some(v) => unsigned_value(s@, max as nat) == Some(v as nat),
            None => unsigned_value(s@, max as nat) is None,
        },
{
    let start: usize = if s.len() > 0 && s[0] == '+' { 1 } else { 0 };
    let ghost d = unsigned_digits(s@);
    assert(d =~= s@.skip(start as int));
    if start == s.len() {
        return None;
    }
    let mut acc: u128 = 0;
    let mut over = false;
    let mut i: usize = start;
    while i < s.len()
        invariant
            start <= i <= s.len(),
            d == s@.skip(start as int),
            d == unsigned_digits(s@),
            all_digits(d.take(i - start)),
            !over ==> acc == digits_value(d.take(i - start)) && acc <= max,
            over ==> digits_value(d.take(i - start)) > max,
        decreases s.len() - i,
    {
        let c = s[i];
        if !('0' <= c && c <= '9') {
            proof {
                assert(d[i - start] == c);
                assert(!is_digit(d[i - start]));
                assert(!all_digits(d));
            }
            return None;
        }
        let ghost k = i - start;
        proof {
            assert(d.take(k + 1).drop_last() =~= d.take(k));
            assert(d.take(k + 1).last() == c);
            assert(all_digits(d.take(k + 1)));
        }
        if !over {
            let dig = (c as u32 - '0' as u32) as u128;
            acc = acc * 10 + dig;
            if acc > max as u128 {
                over = true;
            }
        } else {
            proof {
                lemma_digits_grow(d.take(k + 1), k);
                assert(d.take(k + 1).take(k) =~= d.take(k));
            }
        }
        i += 1;
    }
    assert(d.take(s.len() - start) =~= d);
    if over {
        None
    } else {
        Some(acc as u64)
    }
}

proof fn lemma_digit_char_value(d: nat)
    requires
        d < 10,
    ensures
        is_digit(digit_char(d)),
        digit_value(digit_char(d)) == d,
{
}

proof fn lemma_decimal_digits(n: nat)
    ensures
        all_digits(decimal(n)),
        digits_value(decimal(n)) == n,
        decimal(n).len() > 0,
    decreases n,
{
    if n >= 10 {
        lemma_decimal_digits(n / 10);
        lemma_digit_char_value(n % 10);
        assert(decimal(n).drop_last() =~= decimal(n / 10));
        assert(decimal(n).last() == digit_char(n % 10));
        assert(digits_value(decimal(n)) == digits_value(decimal(n / 10)) * 10 + digit_value(digit_char(n % 10)));
        assert(n == (n / 10) * 10 + n % 10) by {
            vstd::arithmetic::div_mod::lemma_fundamental_div_mod(n as int, 10);
        }
        assert(all_digits(decimal(n))) by {
            assert forall|i: int| 0 <= i < decimal(n).len() implies is_digit(#[trigger] decimal(n)[i]) by {
                if i < decimal(n).len() - 1 {
                    assert(decimal(n)[i] == decimal(n / 10)[i]);
                }
            }
        }
    } else {
        lemma_digit_char_value(n);
        assert(decimal(n) =~= seq![digit_char(n)]);
        assert(decimal(n).drop_last() =~= Seq::<char>::empty());
        assert(digits_value(Seq::<char>::empty()) == 0);
        assert(digits_value(decimal(n)) == digits_value(decimal(n).drop_last()) * 10 + digit_value(decimal(n).last()));
    }
}

/// A number written out in decimal reads back as the same number (up to the bound).
pub proof fn law_decimal_reads_back(n: nat, max: nat)
    requires
        n <= max,
    ensures
        unsigned_value(decimal(n), max) == Some(n),
{
    lemma_decimal_digits(n);
    assert(decimal(n)[0] != '+');
    assert(unsigned_digits(decimal(n)) == decimal(n));
}

/// The answer to a numeric question: the default for an empty answer where
/// there is one, else the number read from the answer, up to `max`.
pub open spec fn number_answer_of(input: Seq<char>, default: Option<nat>, max: nat) -> Option<nat> {
    if input.len() == 0 && default is Some {
        default
    } else {
        unsigned_value(input, max)
    }
}

pub fn u32_answer(input: &str, default: Option<u32>) -> (r: Option<u32>)
    ensures
        match r {
            Some(v) => number_answer_of(input@, match default { Some(d) => Some(d as nat), None => None }, u32::MAX as nat) == Some(v as nat),
            None => number_answer_of(input@, match default { Some(d) => Some(d as nat), None => None }, u32::MAX as nat) is None,
        },
{
    let cs = chars_of(input);
    if cs.len() == 0 && default.is_some() {
        return default;
    }
    match parse_unsigned(cs.as_slice(), 4294967295) {
        Some(v) => Some(v as u32),
        None => None,
    }
}

pub fn u64_answer(input: &str, default: Option<u64>) -> (r: Option<u64>)
    ensures
        match r {
            Some(v) => number_answer_of(input@, match default { Some(d) => Some(d as nat), None => None }, u64::MAX as nat) == Some(v as nat),
            None => number_answer_of(input@, match default { Some(d) => Some(d as nat), None => None }, u64::MAX as nat) is None,
        },
{
    let cs = chars_of(input);
    if cs.len() == 0 && default.is_some() {
        return default;
    }
    parse_unsigned(cs.as_slice(), 18446744073709551615)
}

/// The answer to a text question: the suggestion for an empty answer where
/// there is a non-empty one, else the answer.
pub open spec fn text_answer_of(input: Seq<char>, default: Option<Seq<char>>) -> Seq<char> {
    match default {
        Some(d) => if d.len() > 0 && input.len() == 0 { d } else { input },
        None => input,
    }
}

pub fn text_answer(input: &str, default: Option<&str>) -> (r: String)
    ensures
        r@ == text_answer_of(input@, match default { Some(d) => Some(d@), None => None }),
{
    match default {
        Some(d) => {
            if !d.is_empty() && input.is_empty() {
                String::from_str(d)
            } else {
                String::from_str(input)
            }
        },
        None => String::from_str(input),
    }
}

/// Whether the answer accepts a suggestion: it is `y` in lower case.
pub fn accepts_suggestion(input: &str) -> (r: bool)
    ensures
        r == (lowercase(input@) == seq!['y']),
        is_ascii_text(input@) ==> (r <==> (input@ == seq!['y'] || input@ == seq!['Y'])),
{
    let lower = to_lowercase(input);
    let cs = chars_of(lower.as_str());
    let r = cs.len() == 1 && cs[0] == 'y';
    proof {
        if r {
            assert(lower@ =~= seq!['y']);
        }
        if lower@ == seq!['y'] {
            assert(lower@[0] == 'y');
        }
        if is_ascii_text(input@) {
            assert(lower@.len() == input@.len());
            assert(r <==> lower@ == seq!['y']);
            if input@.len() == 1 {
                let c = input@[0];
                vstd::utf8::char_u32_cast(c, c as u32);
                vstd::utf8::char_u32_cast('y', 'y' as u32);
                assert(lower@[0] == ascii_lower_char(c));
                assert(ascii_lower_char(c) == 'y' <==> (c == 'y' || c == 'Y'));
                if c == 'y' || c == 'Y' {
                    assert(lower@ =~= seq!['y']);
                } else {
                    assert(lower@ != seq!['y']) by {
                        if lower@ == seq!['y'] {
                            assert(lower@[0] == seq!['y'][0]);
                        }
                    }
                }
                if input@ == seq!['y'] || input@ == seq!['Y'] {
                    assert(c == 'y' || c == 'Y');
                }
                if c == 'y' {
                    assert(input@ =~= seq!['y']);
                }
                if c == 'Y' {
                    assert(input@ =~= seq!['Y']);
                }
            } else {
                assert(lower@ != seq!['y']);
                assert(input@ != seq!['y'] && input@ != seq!['Y']);
            }
        }
    }
    r
}

// ──────────────────────────────────────────────
// Languages
// ──────────────────────────────────────────────

/// The position of the first pair whose name is `name`, if any.
pub open spec fn language_index(v: Seq<(String, u8)>, name: Seq<char>) -> Option<int> {
    if exists|i: int| 0 <= i < v.len() && #[trigger] v[i].0@ == name {
        Some(choose|i: int| 0 <= i < v.len() && #[trigger] v[i].0@ == name && forall|j: int| 0 <= j < i ==> v[j].0@ != name)
    } else {
        None
    }
}

/// Records that `name` has support flag `value`: a name already listed keeps
/// its place and takes the new flag; a new name goes last.
pub fn record_language(languages: &mut Vec<(String, u8)>, name: String, value: u8)
    ensures
        match language_index(old(languages)@, name@) {
            Some(i) => final(languages)@ == old(languages)@.update(i, (old(languages)@[i].0, value)),
            None => final(languages)@ == old(languages)@.push((name, value)),
        },
{
    let mut i: usize = 0;
    while i < languages.len()
        invariant
            i <= languages@.len(),
            languages@ == old(languages)@,
            forall|j: int| 0 <= j < i ==> #[trigger] languages@[j].0@ != name@,
        decreases languages.len() - i,
    {
        if str_eq(languages[i].0.as_str(), name.as_str()) {
            proof {
                let v = old(languages)@;
                assert(v[i as int].0@ == name@);
                let w = choose|k: int| 0 <= k < v.len() && #[trigger] v[k].0@ == name@ && forall|j: int| 0 <= j < k ==> v[j].0@ != name@;
                if w < i {
                    assert(v[w].0@ != name@);
                }
                if w > i {
                    assert(v[i as int].0@ != name@);
                }
                assert(language_index(v, name@) == Some(i as int));
            }
            let (key, _) = languages.remove(i);
            languages.insert(i, (key, value));
            assert(languages@ =~= old(languages)@.update(i as int, (old(languages)@[i as int].0, value)));
            return;
        }
        i += 1;
    }
    languages.push((name, value));
}

/// The names of the language pairs.
pub open spec fn language_names(v: Seq<(String, u8)>) -> Seq<Seq<char>> {
    v.map_values(|e: (String, u8)| e.0@)
}

proof fn lemma_first_language(v: Seq<(String, u8)>, name: Seq<char>, k: int)
    requires
        0 <= k <= v.len(),
        forall|j: int| 0 <= j < k ==> v[j].0@ != name,
        exists|i: int| k <= i < v.len() && #[trigger] v[i].0@ == name,
    ensures
        exists|i: int| 0 <= i < v.len() && #[trigger] v[i].0@ == name && forall|j: int| 0 <= j < i ==> v[j].0@ != name,
    decreases v.len() - k,
{
    if v[k].0@ == name {
        assert(0 <= k < v.len() && v[k].0@ == name && forall|j: int| 0 <= j < k ==> v[j].0@ != name);
    } else {
        lemma_first_language(v, name, k + 1);
    }
}

/// Recording a language keeps each name listed once.
pub proof fn law_record_language_keeps_names_unique(before: Seq<(String, u8)>, after: Seq<(String, u8)>, name: String, value: u8)
    requires
        language_names(before).no_duplicates(),
        match language_index(before, name@) {
            Some(i) => after == before.update(i, (before[i].0, value)),
            None => after == before.push((name, value)),
        },
    ensures
        language_names(after).no_duplicates(),
{
    match language_index(before, name@) {
        Some(i) => {
            lemma_first_language(before, name@, 0);
            assert(0 <= i < before.len());
            assert forall|j: int| 0 <= j < before.len() implies #[trigger] language_names(after)[j] == language_names(before)[j] by {
                if j != i {
                    assert(after[j] == before[j]);
                }
            }
            assert(language_names(after) =~= language_names(before));
        },
        None => {
            assert(language_names(after) =~= language_names(before).push(name@));
            assert forall|a: int, b: int| 0 <= a < language_names(after).len() && 0 <= b < language_names(after).len() && a != b
                implies language_names(after)[a] != language_names(after)[b] by {
                if a == before.len() {
                    assert(before[b].0@ != name@);
                } else if b == before.len() {
                    assert(before[a].0@ != name@);
                }
            }
        },
    }
}

// ──────────────────────────────────────────────
// Assembling the collected answers
// ──────────────────────────────────────────────

/// The platform-level answers collected from the user.
pub struct PlatformAnswers {
    pub necessity_of_login: u8,
    pub multiple_language_support: u8,
    pub request_for_datasets: u8,
    pub languages: Vec<(String, u8)>,
    pub browse_datasets_by_category: u8,
    pub filter_sort_datasets: u8,
    pub search_for_dataset: u8,
    pub user_guideline: u8,
    pub number_of_category: u32,
}

/// The platform level made of the answers; the number of datasets is filled
/// in once the datasets are known.
pub fn platform_level_from_answers(a: PlatformAnswers) -> (r: PlatformLevel)
    ensures
        r.user_accessibility.necessity_of_login == a.necessity_of_login,
        r.user_accessibility.multiple_language_support == a.multiple_language_support,
        r.user_accessibility.request_for_datasets == a.request_for_datasets,
        r.user_accessibility.languages@ == a.languages@,
        r.user_usability.browse_datasets_by_category == a.browse_datasets_by_category,
        r.user_usability.filter_sort_datasets == a.filter_sort_datasets,
        r.user_usability.search_for_dataset == a.search_for_dataset,
        r.user_usability.user_guideline == a.user_guideline,
        r.diversity.number_of_dataset == 0,
        r.diversity.number_of_category == a.number_of_category,
{
    PlatformLevel {
        user_accessibility: UserAccessibility {
            necessity_of_login: a.necessity_of_login,
            multiple_language_support: a.multiple_language_support,
            request_for_datasets: a.request_for_datasets,
            languages: a.languages,
        },
        user_usability: UserUsability {
            browse_datasets_by_category: a.browse_datasets_by_category,
            filter_sort_datasets: a.filter_sort_datasets,
            search_for_dataset: a.search_for_dataset,
            user_guideline: a.user_guideline,
        },
        diversity: Diversity { number_of_dataset: 0, number_of_category: a.number_of_category },
    }
}

/// The dataset-level answers collected from the user.
pub struct DatasetAnswers {
    pub descriptive: u8,
    pub linked_data: u8,
    pub primary: u8,
    pub timely: u8,
    pub license_free: u8,
    pub non_discriminatory: u8,
    pub accessible: u8,
    pub number_of_downloads: u64,
    pub faq: u8,
    pub textual_description: u8,
    pub category_tag: u8,
    pub meta_data: u8,
    pub open_standard: u8,
    pub five_star_linked_data: u8,
    pub time_period: String,
    pub update_activity: String,
    pub last_update: String,
    pub collection_method: String,
    pub external_vocabulary: u8,
}

/// The source credited for a dataset: the detected one, or the site's name
/// where none was detected.
pub open spec fn source_of(auto_source: Seq<char>, site_name: Seq<char>) -> Seq<char> {
    if auto_source.len() > 0 { auto_source } else { site_name }
}

/// The dataset level made of the answers, with the flags that were detected
/// from the file (downloadable, machine readable, non-proprietary, available
/// online) kept from `auto`.
pub open spec fn dataset_level_of(auto: DatasetLevel, site_name: Seq<char>, a: DatasetAnswers, r: DatasetLevel) -> bool {
    let source = source_of(auto.transparency.source@, site_name);
    &&& r.openness.complete.descriptive == a.descriptive
    &&& r.openness.complete.downloadable == auto.openness.complete.downloadable
    &&& r.openness.complete.machine_readable == auto.openness.complete.machine_readable
    &&& r.openness.complete.linked_data == a.linked_data
    &&& r.openness.primary == a.primary
    &&& r.openness.non_discriminatory == a.non_discriminatory
    &&& r.openness.accessible == a.accessible
    &&& r.openness.timely == a.timely
    &&& r.openness.non_proprietary == auto.openness.non_proprietary
    &&& r.openness.license_free == a.license_free
    &&& r.openness.machine_readable == auto.openness.machine_readable
    &&& r.transparency.source@ == source
    &&& r.transparency.number_of_downloads == a.number_of_downloads
    &&& r.transparency.understandability.faq == a.faq
    &&& r.transparency.understandability.textual_description == a.textual_description
    &&& r.transparency.understandability.category_tag == a.category_tag
    &&& r.transparency.meta_data == a.meta_data
    &&& r.transparency.five_star.available_online == auto.transparency.five_star.available_online
    &&& r.transparency.five_star.machine_readable == auto.transparency.five_star.machine_readable
    &&& r.transparency.five_star.non_proprietary_format == auto.transparency.five_star.non_proprietary_format
    &&& r.transparency.five_star.open_standard == a.open_standard
    &&& r.transparency.five_star.linked_data == a.five_star_linked_data
    &&& r.provenance.source@ == source
    &&& r.provenance.time_period@ == a.time_period@
    &&& r.provenance.update_activity@ == a.update_activity@
    &&& r.provenance.last_update@ == a.last_update@
    &&& r.provenance.collection_method@ == a.collection_method@
    &&& r.semantic_consistency.external_vocabulary == a.external_vocabulary
}

/// Every answer lands in the field it was asked for, the flags detected from
/// the file are kept, and the source is the detected one or else the site's name.
pub proof fn law_answers_kept_in_their_fields(auto: DatasetLevel, site_name: Seq<char>, answers: DatasetAnswers, r: DatasetLevel)
    requires
        dataset_level_of(auto, site_name, answers, r),
    ensures
        r.openness.complete.descriptive == answers.descriptive,
        r.openness.complete.linked_data == answers.linked_data,
        r.openness.primary == answers.primary,
        r.openness.non_discriminatory == answers.non_discriminatory,
        r.openness.accessible == answers.accessible,
        r.openness.timely == answers.timely,
        r.openness.license_free == answers.license_free,
        r.transparency.number_of_downloads == answers.number_of_downloads,
        r.transparency.understandability.faq == answers.faq,
        r.transparency.understandability.textual_description == answers.textual_description,
        r.transparency.understandability.category_tag == answers.category_tag,
        r.transparency.meta_data == answers.meta_data,
        r.transparency.five_star.open_standard == answers.open_standard,
        r.transparency.five_star.linked_data == answers.five_star_linked_data,
        r.semantic_consistency.external_vocabulary == answers.external_vocabulary,
        r.provenance.time_period@ == answers.time_period@,
        r.provenance.update_activity@ == answers.update_activity@,
        r.provenance.last_update@ == answers.last_update@,
        r.provenance.collection_method@ == answers.collection_method@,
        r.openness.complete.downloadable == auto.openness.complete.downloadable,
        r.openness.complete.machine_readable == auto.openness.complete.machine_readable,
        r.openness.non_proprietary == auto.openness.non_proprietary,
        r.openness.machine_readable == auto.openness.machine_readable,
        r.transparency.five_star.available_online == auto.transparency.five_star.available_online,
        r.transparency.five_star.machine_readable == auto.transparency.five_star.machine_readable,
        r.transparency.five_star.non_proprietary_format == auto.transparency.five_star.non_proprietary_format,
        r.transparency.source@ == (if auto.transparency.source@.len() > 0 { auto.transparency.source@ } else { site_name }),
        r.provenance.source@ == r.transparency.source@,
{
}

pub fn transparency_source(auto_source: &str, site_name: &str) -> (r: String)
    ensures
        r@ == source_of(auto_source@, site_name@),
{
    if !auto_source.is_empty() {
        String::from_str(auto_source)
    } else {
        String::from_str(site_name)
    }
}

/// The dataset level of one dataset, from the detected values and the answers.
pub fn dataset_level_from_answers(auto: &DatasetLevel, site_name: &str, a: DatasetAnswers) -> (r: DatasetLevel)
    ensures
        dataset_level_of(*auto, site_name@, a, r),
{
    let source = transparency_source(auto.transparency.source.as_str(), site_name);
    let provenance_source = source.clone();
    DatasetLevel {
        openness: Openness {
            complete: OpennessComplete {
                descriptive: a.descriptive,
                downloadable: auto.openness.complete.downloadable,
                machine_readable: auto.openness.complete.machine_readable,
                linked_data: a.linked_data,
            },
            primary: a.primary,
            non_discriminatory: a.non_discriminatory,
            accessible: a.accessible,
            timely: a.timely,
            non_proprietary: auto.openness.non_proprietary,
            license_free: a.license_free,
            machine_readable: auto.openness.machine_readable,
        },
        transparency: Transparency {
            source,
            number_of_downloads: a.number_of_downloads,
            understandability: Understandability {
                faq: a.faq,
                textual_description: a.textual_description,
                category_tag: a.category_tag,
            },
            meta_data: a.meta_data,
            five_star: FiveStar {
                available_online: auto.transparency.five_star.available_online,
                machine_readable: auto.transparency.five_star.machine_readable,
                non_proprietary_format: auto.transparency.five_star.non_proprietary_format,
                open_standard: a.open_standard,
                linked_data: a.five_star_linked_data,
            },
        },
        provenance: Provenance {
            source: provenance_source,
            time_period: a.time_period,
            update_activity: a.update_activity,
            last_update: a.last_update,
            collection_method: a.collection_method,
        },
        semantic_consistency: SemanticConsistency { external_vocabulary: a.external_vocabulary },
    }
}

} // verus!
