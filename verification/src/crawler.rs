use vstd::prelude::*;

use crate::models::{lowercase, to_lowercase, DiscoveredFile};
use crate::text::{chars_of, str_eq, string_from_chars};
use crate::textops::{contains_char, has_char_in, trim_chars, trimmed};
use crate::urls::{url_is_valid, url_join, url_joined, url_parses, url_path, url_path_of};

verus! {

// ──────────────────────────────────────────────
// Data file extensions
// ──────────────────────────────────────────────

/// Recognized data file extensions, in the order they are tried.
pub open spec fn data_extensions() -> Seq<Seq<char>> {
    seq![".pdf"@, ".xlsx"@, ".xls"@, ".csv"@, ".xml"@, ".rdf"@, ".docx"@, ".doc"@, ".pptx"@, ".ppt"@, ".txt"@]
}

fn data_extension_at(i: usize) -> (r: &'static str)
    requires
        i < 11,
    ensures
        r@ == data_extensions()[i as int],
{
    if i == 0 { ".pdf" }
    else if i == 1 { ".xlsx" }
    else if i == 2 { ".xls" }
    else if i == 3 { ".csv" }
    else if i == 4 { ".xml" }
    else if i == 5 { ".rdf" }
    else if i == 6 { ".docx" }
    else if i == 7 { ".doc" }
    else if i == 8 { ".pptx" }
    else if i == 9 { ".ppt" }
    else { ".txt" }
}

pub open spec fn ends_with(s: Seq<char>, suffix: Seq<char>) -> bool {
    suffix.len() <= s.len() && s.skip(s.len() - suffix.len()) == suffix
}

/// The first recognized extension that `path` ends with, trying them from the index `from` on.
pub open spec fn first_matching_extension(path: Seq<char>, from: nat) -> Option<Seq<char>>
    decreases 11 - from,
{
    if from >= 11 {
        None
    } else if ends_with(path, data_extensions()[from as int]) {
        Some(data_extensions()[from as int])
    } else {
        first_matching_extension(path, from + 1)
    }
}

/// The path that is matched against the extensions: the lower-cased URL path,
/// or the whole lower-cased text where it is no URL.
pub open spec fn matched_path(url: Seq<char>) -> Seq<char> {
    match url_path_of(url) {
        Some(p) => lowercase(p),
        None => lowercase(url),
    }
}

/// The data file extension of a URL, if its path has one.
pub open spec fn data_extension(url: Seq<char>) -> Option<Seq<char>> {
    first_matching_extension(matched_path(url), 0)
}

fn ends_with_exec(s: &[char], suffix: &[char]) -> (r: bool)
    ensures
        r == ends_with(s@, suffix@),
{
    if suffix.len() > s.len() {
        return false;
    }
    let off = s.len() - suffix.len();
    let mut i: usize = 0;
    while i < suffix.len()
        invariant
            off + suffix.len() == s.len(),
            i <= suffix.len(),
            forall|j: int| 0 <= j < i ==> s@[off + j] == suffix@[j],
        decreases suffix.len() - i,
    {
        if s[off + i] != suffix[i] {
            assert(s@.skip(off as int)[i as int] != suffix@[i as int]);
            return false;
        }
        i += 1;
    }
    assert(s@.skip(off as int) =~= suffix@);
    true
}

/// Check if a URL path ends with a recognized data file extension.
/// Returns the extension (with dot) if found.
pub fn get_data_extension(url_str: &str) -> (r: Option<&'static str>)
    ensures
        match r {
            Some(e) => data_extension(url_str@) == Some(e@),
            None => data_extension(url_str@) is None,
        },
{
    let lowered = match url_path(url_str) {
        Some(p) => to_lowercase(p.as_str()),
        None => to_lowercase(url_str),
    };
    let path = chars_of(lowered.as_str());
    let mut i: usize = 0;
    while i < 11
        invariant
            i <= 11,
            path@ == matched_path(url_str@),
            first_matching_extension(path@, 0) == first_matching_extension(path@, i as nat),
        decreases 11 - i,
    {
        let ext = data_extension_at(i);
        let ecs = chars_of(ext);
        if ends_with_exec(path.as_slice(), ecs.as_slice()) {
            return Some(ext);
        }
        i += 1;
    }
    None
}

// ──────────────────────────────────────────────
// Links in a page
// ──────────────────────────────────────────────

/// The attributes of an `<a href>` element that are read: `href`, `data-href`, `download`.
#[derive(Debug, Clone)]
pub struct Anchor {
    pub href: Option<String>,
    pub data_href: Option<String>,
    pub download: Option<String>,
}

pub type AnchorView = (Option<Seq<char>>, Option<Seq<char>>, Option<Seq<char>>);

pub open spec fn opt_view(o: Option<String>) -> Option<Seq<char>> {
    match o {
        Some(s) => Some(s@),
        None => None,
    }
}

pub open spec fn anchor_view(a: Anchor) -> AnchorView {
    (opt_view(a.href), opt_view(a.data_href), opt_view(a.download))
}

pub open spec fn anchors_view(v: Seq<Anchor>) -> Seq<AnchorView> {
    v.map_values(|a: Anchor| anchor_view(a))
}

/// The `href`, `data-href` and `download` attributes of each element that the
/// `scraper` selector `a[href]` selects in the parsed document, in document order.
pub uninterp spec fn html_anchors(html: Seq<char>) -> Seq<AnchorView>;

/// `scraper::Html::parse_document`, then `select` with the selector `a[href]`
/// and `attr` for the three attributes. The claim is only that the result is the
/// function of the HTML text named `html_anchors`.
#[verifier::external_body]
fn anchors_of(html: &str) -> (r: Vec<Anchor>)
    ensures
        anchors_view(r@) == html_anchors(html@),
{
    let document = scraper::Html::parse_document(html);
    let selector = scraper::Selector::parse("a[href]").unwrap();
    document
        .select(&selector)
        .map(|e| Anchor {
            href: e.value().attr("href").map(|s| s.to_string()),
            data_href: e.value().attr("data-href").map(|s| s.to_string()),
            download: e.value().attr("download").map(|s| s.to_string()),
        })
        .collect()
}

/// A discovered file as (source page, download URL, extension).
pub type FileView = (Seq<char>, Seq<char>, Seq<char>);

pub open spec fn file_view(f: DiscoveredFile) -> FileView {
    (f.source_page_url@, f.download_url@, f.file_extension@)
}

pub open spec fn files_view(v: Seq<DiscoveredFile>) -> Seq<FileView> {
    v.map_values(|f: DiscoveredFile| file_view(f))
}

pub open spec fn strs_view(v: Seq<String>) -> Seq<Seq<char>> {
    v.map_values(|s: String| s@)
}

pub open spec fn starts_with_http(s: Seq<char>) -> bool {
    s.len() >= 4 && s[0] == 'h' && s[1] == 't' && s[2] == 't' && s[3] == 'p'
}

/// The candidate link texts of an anchor: its trimmed `href` and `data-href`
/// when not empty, and its trimmed `download` when that is a full `http` URL
/// with a dot.
pub open spec fn candidates(a: AnchorView) -> Seq<Seq<char>> {
    let c1: Seq<Seq<char>> = match a.0 {
        Some(h) => if trimmed(h).len() > 0 { seq![trimmed(h)] } else { Seq::empty() },
        None => Seq::empty(),
    };
    let c2: Seq<Seq<char>> = match a.1 {
        Some(h) => if trimmed(h).len() > 0 { c1.push(trimmed(h)) } else { c1 },
        None => c1,
    };
    match a.2 {
        Some(d) => {
            let t = trimmed(d);
            if t.len() > 0 && has_char_in(t, '.') && starts_with_http(t) { c2.push(t) } else { c2 }
        },
        None => c2,
    }
}

/// Discovery state: files found so far, and URLs seen so far.
pub type Discovery = (Seq<FileView>, Seq<Seq<char>>);

/// Records `url` with extension `ext` unless it was seen before.
pub open spec fn discover(st: Discovery, base: Seq<char>, url: Seq<char>, ext: Seq<char>) -> Discovery {
    if st.1.contains(url) { st } else { (st.0.push((base, url, ext)), st.1.push(url)) }
}

/// Resolves each candidate against the base and records those with a data extension.
pub open spec fn discover_candidates(st: Discovery, base: Seq<char>, cands: Seq<Seq<char>>) -> Discovery
    decreases cands.len(),
{
    if cands.len() == 0 {
        st
    } else {
        let prev = discover_candidates(st, base, cands.drop_last());
        match url_joined(base, cands.last()) {
            Some(u) => match data_extension(u) {
                Some(e) => discover(prev, base, u, e),
                None => prev,
            },
            None => prev,
        }
    }
}

/// The fallback for an anchor with a `download` attribute: its resolved
/// `href`, when that has no data extension, taken with the extension that the
/// `download` text has.
pub open spec fn discover_download_hint(st: Discovery, base: Seq<char>, a: AnchorView) -> Discovery {
    match (a.2, a.0) {
        (Some(d), Some(h)) => {
            let t = trimmed(h);
            if t.len() == 0 {
                st
            } else {
                match url_joined(base, t) {
                    Some(u) => if data_extension(u) is None {
                        match data_extension(d) {
                            Some(e) => discover(st, base, u, e),
                            None => st,
                        }
                    } else {
                        st
                    },
                    None => st,
                }
            }
        },
        _ => st,
    }
}

pub open spec fn discover_anchor(st: Discovery, base: Seq<char>, a: AnchorView) -> Discovery {
    discover_download_hint(discover_candidates(st, base, candidates(a)), base, a)
}

/// The discovery state after all anchors, in order.
pub open spec fn discover_anchors(st: Discovery, base: Seq<char>, anchors: Seq<AnchorView>) -> Discovery
    decreases anchors.len(),
{
    if anchors.len() == 0 {
        st
    } else {
        discover_anchor(discover_anchors(st, base, anchors.drop_last()), base, anchors.last())
    }
}

fn seen_contains(seen: &Vec<String>, url: &str) -> (r: bool)
    ensures
        r == strs_view(seen@).contains(url@),
{
    let mut i: usize = 0;
    while i < seen.len()
        invariant
            i <= seen.len(),
            forall|j: int| 0 <= j < i ==> seen@[j]@ != url@,
        decreases seen.len() - i,
    {
        if str_eq(seen[i].as_str(), url) {
            assert(strs_view(seen@)[i as int] == url@);
            return true;
        }
        i += 1;
    }
    proof {
        if strs_view(seen@).contains(url@) {
            let j = choose|j: int| 0 <= j < strs_view(seen@).len() && strs_view(seen@)[j] == url@;
            assert(seen@[j]@ != url@);
        }
    }
    false
}

fn discover_exec(files: &mut Vec<DiscoveredFile>, seen: &mut Vec<String>, base: &str, url: String, ext: &str)
    ensures
        (files_view(final(files)@), strs_view(final(seen)@))
            == discover((files_view(old(files)@), strs_view(old(seen)@)), base@, url@, ext@),
{
    if !seen_contains(seen, url.as_str()) {
        let ghost fprev = files@;
        let ghost sprev = seen@;
        seen.push(url.clone());
        files.push(DiscoveredFile {
            source_page_url: String::from_str(base),
            download_url: url,
            file_extension: String::from_str(ext),
        });
        assert(files_view(files@) =~= files_view(fprev).push((base@, url@, ext@)));
        assert(strs_view(seen@) =~= strs_view(sprev).push(url@));
    }
}

fn trimmed_text(s: &str) -> (r: Vec<char>)
    ensures
        r@ == trimmed(s@),
{
    let cs = chars_of(s);
    trim_chars(cs.as_slice())
}

fn candidates_exec(a: &Anchor) -> (r: Vec<Vec<char>>)
    ensures
        r@.len() == candidates(anchor_view(*a)).len(),
        forall|i: int| 0 <= i < r@.len() ==> #[trigger] r@[i]@ == candidates(anchor_view(*a))[i],
{
    let mut out: Vec<Vec<char>> = Vec::new();
    let ghost av = anchor_view(*a);
    match &a.href {
        Some(h) => {
            let t = trimmed_text(h.as_str());
            if t.len() > 0 {
                out.push(t);
            }
        }
        None => {}
    }
    let ghost c1 = out@.map_values(|v: Vec<char>| v@);
    assert(c1 =~= (match av.0 {
        Some(h) => if trimmed(h).len() > 0 { seq![trimmed(h)] } else { Seq::<Seq<char>>::empty() },
        None => Seq::<Seq<char>>::empty(),
    }));
    match &a.data_href {
        Some(h) => {
            let t = trimmed_text(h.as_str());
            if t.len() > 0 {
                out.push(t);
            }
        }
        None => {}
    }
    let ghost c2 = out@.map_values(|v: Vec<char>| v@);
    assert(c2 =~= (match av.1 {
        Some(h) => if trimmed(h).len() > 0 { c1.push(trimmed(h)) } else { c1 },
        None => c1,
    }));
    match &a.download {
        Some(d) => {
            let t = trimmed_text(d.as_str());
            if t.len() > 0 && contains_char(t.as_slice(), '.') && t.len() >= 4 && t[0] == 'h' && t[1] == 't'
                && t[2] == 't' && t[3] == 'p' {
                out.push(t);
            }
        }
        None => {}
    }
    assert(out@.map_values(|v: Vec<char>| v@) =~= candidates(av));
    out
}

/// Records the data files that an anchor's links point to (and, for an anchor
/// with a `download` attribute, the hinted file).
fn discover_anchor_exec(files: &mut Vec<DiscoveredFile>, seen: &mut Vec<String>, base: &str, a: &Anchor)
    ensures
        (files_view(final(files)@), strs_view(final(seen)@))
            == discover_anchor((files_view(old(files)@), strs_view(old(seen)@)), base@, anchor_view(*a)),
{
    let cands = candidates_exec(a);
    let ghost av = anchor_view(*a);
    let ghost st0 = (files_view(files@), strs_view(seen@));
    let mut i: usize = 0;
    while i < cands.len()
        invariant
            i <= cands.len(),
            cands@.len() == candidates(av).len(),
            forall|k: int| 0 <= k < cands@.len() ==> #[trigger] cands@[k]@ == candidates(av)[k],
            (files_view(files@), strs_view(seen@)) == discover_candidates(st0, base@, candidates(av).take(i as int)),
        decreases cands.len() - i,
    {
        proof {
            assert(candidates(av).take(i + 1).drop_last() =~= candidates(av).take(i as int));
        }
        let c = string_from_chars(cands[i].as_slice());
        match url_join(base, c.as_str()) {
            Some(u) => match get_data_extension(u.as_str()) {
                Some(e) => discover_exec(files, seen, base, u, e),
                None => {}
            },
            None => {}
        }
        i += 1;
    }
    assert(candidates(av).take(cands.len() as int) =~= candidates(av));
    if a.download.is_some() {
        match &a.href {
            Some(h) => {
                let t = trimmed_text(h.as_str());
                if t.len() > 0 {
                    let ts = string_from_chars(t.as_slice());
                    match url_join(base, ts.as_str()) {
                        Some(u) => {
                            if get_data_extension(u.as_str()).is_none() {
                                match &a.download {
                                    Some(d) => match get_data_extension(d.as_str()) {
                                        Some(e) => discover_exec(files, seen, base, u, e),
                                        None => {}
                                    },
                                    None => {}
                                }
                            }
                        }
                        None => {}
                    }
                }
            }
            None => {}
        }
    }
}

/// The data files that the anchors point to, resolved against `base_url`,
/// skipping (and adding to `seen`) URLs seen before.
pub fn file_links_from_anchors(anchors: &[Anchor], base_url: &str, seen: &mut Vec<String>) -> (r: Vec<DiscoveredFile>)
    ensures
        (files_view(r@), strs_view(final(seen)@))
            == discover_anchors((Seq::empty(), strs_view(old(seen)@)), base_url@, anchors_view(anchors@)),
{
    let mut files: Vec<DiscoveredFile> = Vec::new();
    let ghost st0: Discovery = (Seq::empty(), strs_view(seen@));
    assert(files_view(files@) =~= Seq::<FileView>::empty());
    let mut i: usize = 0;
    while i < anchors.len()
        invariant
            i <= anchors.len(),
            (files_view(files@), strs_view(seen@)) == discover_anchors(st0, base_url@, anchors_view(anchors@).take(i as int)),
        decreases anchors.len() - i,
    {
        proof {
            assert(anchors_view(anchors@).take(i + 1).drop_last() =~= anchors_view(anchors@).take(i as int));
        }
        discover_anchor_exec(&mut files, seen, base_url, &anchors[i]);
        i += 1;
    }
    assert(anchors_view(anchors@).take(anchors.len() as int) =~= anchors_view(anchors@));
    files
}

/// Extract file download links from HTML content.
/// Checks href, download attributes, and data-href for comprehensive discovery;
/// nothing is found (and `seen` is left as it is) when `base_url` is no URL.
pub fn extract_file_links(html: &str, base_url: &str, seen: &mut Vec<String>) -> (r: Vec<DiscoveredFile>)
    ensures
        url_parses(base_url@) ==> (files_view(r@), strs_view(final(seen)@))
            == discover_anchors((Seq::empty(), strs_view(old(seen)@)), base_url@, html_anchors(html@)),
        !url_parses(base_url@) ==> r@.len() == 0 && final(seen)@ == old(seen)@,
{
    if !url_is_valid(base_url) {
        return Vec::new();
    }
    let anchors = anchors_of(html);
    file_links_from_anchors(anchors.as_slice(), base_url, seen)
}

// ──────────────────────────────────────────────
// Deduplication
// ──────────────────────────────────────────────

/// The URLs of discovered files, in order.
pub open spec fn file_urls(files: Seq<FileView>) -> Seq<Seq<char>> {
    files.map_values(|f: FileView| f.1)
}

/// The seen URLs are the ones seen before followed by the discovered ones, and
/// none occurs twice.
pub open spec fn dedup_state(st: Discovery, seen: Seq<Seq<char>>) -> bool {
    st.1 == seen + file_urls(st.0) && st.1.no_duplicates()
}

proof fn lemma_discover_dedup(st: Discovery, seen: Seq<Seq<char>>, base: Seq<char>, url: Seq<char>, ext: Seq<char>)
    requires
        dedup_state(st, seen),
    ensures
        dedup_state(discover(st, base, url, ext), seen),
{
    if !st.1.contains(url) {
        assert(file_urls(st.0.push((base, url, ext))) =~= file_urls(st.0).push(url));
        assert(seen + file_urls(st.0).push(url) =~= (seen + file_urls(st.0)).push(url));
        let n = st.1.push(url);
        assert forall|i: int, j: int| 0 <= i < n.len() && 0 <= j < n.len() && i != j implies n[i] != n[j] by {
            if i < st.1.len() && j < st.1.len() {
            } else if i < st.1.len() {
                assert(st.1[i] == st.1[i]);
            } else {
                assert(st.1[j] == st.1[j]);
            }
        }
    }
}

proof fn lemma_candidates_dedup(st: Discovery, seen: Seq<Seq<char>>, base: Seq<char>, cands: Seq<Seq<char>>)
    requires
        dedup_state(st, seen),
    ensures
        dedup_state(discover_candidates(st, base, cands), seen),
    decreases cands.len(),
{
    if cands.len() > 0 {
        lemma_candidates_dedup(st, seen, base, cands.drop_last());
        let prev = discover_candidates(st, base, cands.drop_last());
        match url_joined(base, cands.last()) {
            Some(u) => match data_extension(u) {
                Some(e) => lemma_discover_dedup(prev, seen, base, u, e),
                None => {},
            },
            None => {},
        }
    }
}

proof fn lemma_anchor_dedup(st: Discovery, seen: Seq<Seq<char>>, base: Seq<char>, a: AnchorView)
    requires
        dedup_state(st, seen),
    ensures
        dedup_state(discover_anchor(st, base, a), seen),
{
    lemma_candidates_dedup(st, seen, base, candidates(a));
    let mid = discover_candidates(st, base, candidates(a));
    match (a.2, a.0) {
        (Some(d), Some(h)) => {
            let t = trimmed(h);
            if t.len() > 0 {
                match url_joined(base, t) {
                    Some(u) => if data_extension(u) is None {
                        match data_extension(d) {
                            Some(e) => lemma_discover_dedup(mid, seen, base, u, e),
                            None => {},
                        }
                    },
                    None => {},
                }
            }
        },
        _ => {},
    }
}

/// Each data file is discovered at most once: across all anchors, the URLs
/// found are distinct, none of them was seen before, and the seen list grows
/// by exactly them, so it still holds each URL once.
pub proof fn law_discovery_deduplicates(seen: Seq<Seq<char>>, base: Seq<char>, anchors: Seq<AnchorView>)
    requires
        seen.no_duplicates(),
    ensures
        dedup_state(discover_anchors((Seq::empty(), seen), base, anchors), seen),
    decreases anchors.len(),
{
    if anchors.len() == 0 {
        assert(seen + file_urls(Seq::<FileView>::empty()) =~= seen);
    } else {
        law_discovery_deduplicates(seen, base, anchors.drop_last());
        lemma_anchor_dedup(discover_anchors((Seq::empty(), seen), base, anchors.drop_last()), seen, base, anchors.last());
    }
}

// ──────────────────────────────────────────────
// Every link is looked at
// ──────────────────────────────────────────────

proof fn lemma_discover_keeps(st: Discovery, base: Seq<char>, url: Seq<char>, ext: Seq<char>)
    ensures
        forall|x: Seq<char>| st.1.contains(x) ==> #[trigger] discover(st, base, url, ext).1.contains(x),
        discover(st, base, url, ext).1.contains(url),
{
    let n = discover(st, base, url, ext).1;
    if !st.1.contains(url) {
        assert(n[st.1.len() as int] == url);
        assert forall|x: Seq<char>| st.1.contains(x) implies #[trigger] n.contains(x) by {
            let i = choose|i: int| 0 <= i < st.1.len() && st.1[i] == x;
            assert(n[i] == x);
        }
    }
}

proof fn lemma_candidates_keep(st: Discovery, base: Seq<char>, cands: Seq<Seq<char>>)
    ensures
        forall|x: Seq<char>| st.1.contains(x) ==> #[trigger] discover_candidates(st, base, cands).1.contains(x),
    decreases cands.len(),
{
    if cands.len() > 0 {
        lemma_candidates_keep(st, base, cands.drop_last());
        let prev = discover_candidates(st, base, cands.drop_last());
        match url_joined(base, cands.last()) {
            Some(u) => match data_extension(u) {
                Some(e) => lemma_discover_keeps(prev, base, u, e),
                None => {},
            },
            None => {},
        }
    }
}

proof fn lemma_candidate_found(st: Discovery, base: Seq<char>, cands: Seq<Seq<char>>, k: int, u: Seq<char>, e: Seq<char>)
    requires
        0 <= k < cands.len(),
        url_joined(base, cands[k]) == Some(u),
        data_extension(u) == Some(e),
    ensures
        discover_candidates(st, base, cands).1.contains(u),
    decreases cands.len(),
{
    let prev = discover_candidates(st, base, cands.drop_last());
    if k == cands.len() - 1 {
        lemma_discover_keeps(prev, base, u, e);
    } else {
        assert(cands.drop_last()[k] == cands[k]);
        lemma_candidate_found(st, base, cands.drop_last(), k, u, e);
        match url_joined(base, cands.last()) {
            Some(v) => match data_extension(v) {
                Some(f) => lemma_discover_keeps(prev, base, v, f),
                None => {},
            },
            None => {},
        }
    }
}

proof fn lemma_anchor_keeps(st: Discovery, base: Seq<char>, a: AnchorView)
    ensures
        forall|x: Seq<char>| st.1.contains(x) ==> #[trigger] discover_anchor(st, base, a).1.contains(x),
{
    lemma_candidates_keep(st, base, candidates(a));
    lemma_hint_keeps(discover_candidates(st, base, candidates(a)), base, a);
}

proof fn lemma_hint_keeps(mid: Discovery, base: Seq<char>, a: AnchorView)
    ensures
        forall|x: Seq<char>| mid.1.contains(x) ==> #[trigger] discover_download_hint(mid, base, a).1.contains(x),
{
    match (a.2, a.0) {
        (Some(d), Some(h)) => {
            let t = trimmed(h);
            if t.len() > 0 {
                match url_joined(base, t) {
                    Some(u) => if data_extension(u) is None {
                        match data_extension(d) {
                            Some(e) => lemma_discover_keeps(mid, base, u, e),
                            None => {},
                        }
                    },
                    None => {},
                }
            }
        },
        _ => {},
    }
}

proof fn lemma_anchors_keep(st: Discovery, base: Seq<char>, anchors: Seq<AnchorView>, k: int)
    requires
        0 <= k <= anchors.len(),
    ensures
        forall|x: Seq<char>| discover_anchors(st, base, anchors.take(k)).1.contains(x)
            ==> #[trigger] discover_anchors(st, base, anchors).1.contains(x),
    decreases anchors.len(),
{
    if k == anchors.len() {
        assert(anchors.take(k) =~= anchors);
    } else {
        assert(anchors.drop_last().take(k) =~= anchors.take(k));
        lemma_anchors_keep(st, base, anchors.drop_last(), k);
        lemma_anchor_keeps(discover_anchors(st, base, anchors.drop_last()), base, anchors.last());
    }
}

/// The links of an anchor that are looked at: its trimmed `href` and its
/// trimmed `data-href`, each when not empty.
proof fn lemma_links_are_candidates(a: AnchorView, link: Seq<char>)
    requires
        a.0 == Some(link) || a.1 == Some(link),
        trimmed(link).len() > 0,
    ensures
        candidates(a).contains(trimmed(link)),
{
    let t = trimmed(link);
    let c = candidates(a);
    if a.0 == Some(link) {
        assert(c[0] == t);
    } else {
        let c1: Seq<Seq<char>> = match a.0 {
            Some(h) => if trimmed(h).len() > 0 { seq![trimmed(h)] } else { Seq::empty() },
            None => Seq::empty(),
        };
        assert(c[c1.len() as int] == t);
    }
}

/// Every data-file link of every anchor is discovered: where an anchor's
/// `href` or `data-href` (trimmed, not empty) resolves against the base to a
/// URL with a data extension, that URL is among those seen after the page, and
/// among the files found on it unless it was seen before.
pub proof fn law_anchor_links_discovered(
    seen: Seq<Seq<char>>,
    base: Seq<char>,
    anchors: Seq<AnchorView>,
    k: int,
    link: Seq<char>,
    u: Seq<char>,
    e: Seq<char>,
)
    requires
        seen.no_duplicates(),
        0 <= k < anchors.len(),
        anchors[k].0 == Some(link) || anchors[k].1 == Some(link),
        trimmed(link).len() > 0,
        url_joined(base, trimmed(link)) == Some(u),
        data_extension(u) == Some(e),
    ensures
        discover_anchors((Seq::empty(), seen), base, anchors).1.contains(u),
        !seen.contains(u) ==> file_urls(discover_anchors((Seq::empty(), seen), base, anchors).0).contains(u),
{
    let st0: Discovery = (Seq::empty(), seen);
    let a = anchors[k];
    lemma_links_are_candidates(a, link);
    let c = candidates(a);
    let i = choose|i: int| 0 <= i < c.len() && c[i] == trimmed(link);
    let before = discover_anchors(st0, base, anchors.take(k));
    assert(anchors.take(k + 1).drop_last() =~= anchors.take(k));
    assert(anchors.take(k + 1).last() == a);
    lemma_candidate_found(before, base, c, i, u, e);
    lemma_hint_keeps(discover_candidates(before, base, c), base, a);
    assert(discover_anchors(st0, base, anchors.take(k + 1)) == discover_anchor(before, base, a));
    lemma_anchors_keep(st0, base, anchors, k + 1);
    let st = discover_anchors(st0, base, anchors);
    assert(st.1.contains(u));
    law_discovery_deduplicates(seen, base, anchors);
    if !seen.contains(u) {
        let j = choose|j: int| 0 <= j < st.1.len() && st.1[j] == u;
        if j < seen.len() {
            assert(seen[j] == u);
        }
        assert(file_urls(st.0)[j - seen.len()] == u);
    }
}

} // verus!
