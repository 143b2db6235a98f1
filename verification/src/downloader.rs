use vstd::prelude::*;

use crate::text::{chars_of, push_str, string_from_chars};
use crate::crawler::{file_urls, file_view, files_view, FileView};
use crate::models::DiscoveredFile;
use crate::urls::{url_path, url_path_of};

verus! {

/// Maximum allowed file size for downloads (500 MB).
pub const MAX_FILE_SIZE: u64 = 524288000;

/// Whether a download of `size` bytes is within the allowed maximum.
pub fn download_size_allowed(size: u64) -> (r: bool)
    ensures
        r == (size <= MAX_FILE_SIZE),
{
    size <= MAX_FILE_SIZE
}

// ──────────────────────────────────────────────
// Deduplication
// ──────────────────────────────────────────────

/// The files to download: the first file of each download URL, in order.
pub open spec fn unique_by_url(v: Seq<FileView>) -> Seq<FileView>
    decreases v.len(),
{
    if v.len() == 0 {
        Seq::empty()
    } else {
        let prev = unique_by_url(v.drop_last());
        if file_urls(prev).contains(v.last().1) { prev } else { prev.push(v.last()) }
    }
}

fn url_listed(files: &Vec<DiscoveredFile>, url: &str) -> (r: bool)
    ensures
        r == file_urls(files_view(files@)).contains(url@),
{
    let mut i: usize = 0;
    while i < files.len()
        invariant
            i <= files@.len(),
            forall|j: int| 0 <= j < i ==> files@[j].download_url@ != url@,
        decreases files.len() - i,
    {
        if crate::text::str_eq(files[i].download_url.as_str(), url) {
            assert(file_urls(files_view(files@))[i as int] == url@);
            return true;
        }
        i += 1;
    }
    proof {
        if file_urls(files_view(files@)).contains(url@) {
            let j = choose|j: int| 0 <= j < file_urls(files_view(files@)).len() && file_urls(files_view(files@))[j] == url@;
            assert(files@[j].download_url@ != url@);
        }
    }
    false
}

/// The files to download, each download URL once (its first file kept).
pub fn unique_downloads(files: &[DiscoveredFile]) -> (r: Vec<DiscoveredFile>)
    ensures
        files_view(r@) == unique_by_url(files_view(files@)),
{
    let mut out: Vec<DiscoveredFile> = Vec::new();
    let mut i: usize = 0;
    assert(files_view(out@) =~= unique_by_url(files_view(files@).take(0)));
    while i < files.len()
        invariant
            i <= files@.len(),
            files_view(out@) == unique_by_url(files_view(files@).take(i as int)),
        decreases files.len() - i,
    {
        let ghost prefix = files_view(files@).take(i as int);
        assert(files_view(files@).take(i + 1).drop_last() =~= prefix);
        assert(files_view(files@).take(i + 1).last() == file_view(files@[i as int]));
        if !url_listed(&out, files[i].download_url.as_str()) {
            let f = DiscoveredFile {
                source_page_url: files[i].source_page_url.clone(),
                download_url: files[i].download_url.clone(),
                file_extension: files[i].file_extension.clone(),
            };
            let ghost before = out@;
            out.push(f);
            assert(files_view(out@) =~= files_view(before).push(file_view(f)));
        }
        i += 1;
    }
    assert(files_view(files@).take(files@.len() as int) =~= files_view(files@));
    out
}

/// No download URL is fetched twice.
pub proof fn law_unique_downloads_distinct(v: Seq<FileView>)
    ensures
        file_urls(unique_by_url(v)).no_duplicates(),
    decreases v.len(),
{
    if v.len() > 0 {
        law_unique_downloads_distinct(v.drop_last());
        let prev = unique_by_url(v.drop_last());
        if !file_urls(prev).contains(v.last().1) {
            let u = file_urls(prev.push(v.last()));
            assert(u =~= file_urls(prev).push(v.last().1));
            assert forall|a: int, b: int| 0 <= a < u.len() && 0 <= b < u.len() && a != b implies u[a] != u[b] by {
                if a == prev.len() {
                    assert(file_urls(prev)[b] == u[b]);
                } else if b == prev.len() {
                    assert(file_urls(prev)[a] == u[a]);
                }
            }
        }
    }
}

// ──────────────────────────────────────────────
// Percent decoding
// ──────────────────────────────────────────────

/// The value of a hexadecimal digit character, if it is one.
pub open spec fn hex_digit(c: char) -> Option<nat> {
    if '0' <= c <= '9' {
        Some(((c as int) - ('0' as int)) as nat)
    } else if 'a' <= c <= 'f' {
        Some(((c as int) - ('a' as int) + 10) as nat)
    } else if 'A' <= c <= 'F' {
        Some(((c as int) - ('A' as int) + 10) as nat)
    } else {
        None
    }
}

/// The value of a non-empty run of hexadecimal digits, if all are digits.
pub open spec fn hex_digits_value(d: Seq<char>) -> Option<nat>
    decreases d.len(),
{
    if d.len() == 0 {
        Some(0)
    } else {
        match (hex_digits_value(d.drop_last()), hex_digit(d.last())) {
            (Some(h), Some(l)) => Some(h * 16 + l),
            _ => None,
        }
    }
}

/// `u8::from_str_radix(s, 16)`: an optional `+` followed by at least one hex
/// digit, with a value below 256.
pub open spec fn parse_hex_byte(s: Seq<char>) -> Option<u8> {
    let digits = if s.len() > 0 && s[0] == '+' { s.drop_first() } else { s };
    if digits.len() == 0 {
        None
    } else {
        match hex_digits_value(digits) {
            Some(v) => if v < 256 { Some(v as u8) } else { None },
            None => None,
        }
    }
}

/// The up-to-two characters that follow a `%` at the front of `s`.
pub open spec fn escape_digits(s: Seq<char>) -> Seq<char> {
    if s.len() >= 3 { s.subrange(1, 3) } else { s.drop_first() }
}

/// Percent-decoding: each `%` and the (up to two) characters after it become
/// the character whose code is their hexadecimal value, when they parse as a
/// byte; otherwise they are kept as they are.
pub open spec fn url_decoded(s: Seq<char>) -> Seq<char>
    decreases s.len(),
{
    if s.len() == 0 {
        Seq::empty()
    } else if s[0] == '%' {
        let hex = escape_digits(s);
        let rest = s.skip(1 + hex.len() as int);
        match parse_hex_byte(hex) {
            Some(b) => seq![b as char] + url_decoded(rest),
            None => seq!['%'] + hex + url_decoded(rest),
        }
    } else {
        seq![s[0]] + url_decoded(s.drop_first())
    }
}

fn hex_digit_exec(c: char) -> (r: Option<u32>)
    ensures
        match r {
            Some(v) => hex_digit(c) == Some(v as nat) && v < 16,
            None => hex_digit(c) is None,
        },
{
    if '0' <= c && c <= '9' {
        Some((c as u32) - ('0' as u32))
    } else if 'a' <= c && c <= 'f' {
        Some((c as u32) - ('a' as u32) + 10)
    } else if 'A' <= c && c <= 'F' {
        Some((c as u32) - ('A' as u32) + 10)
    } else {
        None
    }
}

fn parse_hex_byte_exec(s: &[char]) -> (r: Option<u8>)
    requires
        s.len() <= 2,
    ensures
        r == parse_hex_byte(s@),
{
    let start: usize = if s.len() > 0 && s[0] == '+' { 1 } else { 0 };
    let ghost digits = if s@.len() > 0 && s@[0] == '+' { s@.drop_first() } else { s@ };
    assert(digits =~= s@.skip(start as int));
    if start == s.len() {
        return None;
    }
    let mut v: u32 = 0;
    let mut i: usize = start;
    while i < s.len()
        invariant
            start <= i <= s.len() <= 2,
            digits =~= s@.skip(start as int),
            digits == (if s@.len() > 0 && s@[0] == '+' { s@.drop_first() } else { s@ }),
            hex_digits_value(s@.subrange(start as int, i as int)) == Some(v as nat),
            i == start ==> v == 0,
            i == start + 1 ==> v < 16,
            v < 256,
        decreases s.len() - i,
    {
        assert(s@.subrange(start as int, i + 1).drop_last() =~= s@.subrange(start as int, i as int));
        match hex_digit_exec(s[i]) {
            Some(d) => {
                v = v * 16 + d;
            }
            None => {
                proof {
                    assert(s@.subrange(start as int, i + 1) =~= s@.subrange(start as int, s.len() as int).take(i + 1 - start));
                    lemma_hex_none_extends(s@.subrange(start as int, i + 1), s@.subrange(start as int, s.len() as int));
                }
                assert(s@.subrange(start as int, s.len() as int) =~= digits);
                assert(hex_digits_value(digits) is None);
                assert(digits.len() > 0);
                return None;
            }
        }
        i += 1;
    }
    assert(s@.subrange(start as int, s.len() as int) =~= digits);
    Some(v as u8)
}

proof fn lemma_hex_none_extends(a: Seq<char>, b: Seq<char>)
    requires
        hex_digits_value(a) is None,
        a.len() <= b.len(),
        a == b.take(a.len() as int),
    ensures
        hex_digits_value(b) is None,
    decreases b.len(),
{
    if a.len() < b.len() {
        assert(b.drop_last().take(a.len() as int) =~= a);
        lemma_hex_none_extends(a, b.drop_last());
    } else {
        assert(a =~= b);
    }
}

/// Simple URL decoding for common percent-encoded characters.
pub fn urldecode(s: &str) -> (r: String)
    ensures
        r@ == url_decoded(s@),
{
    let cs = chars_of(s);
    let mut out: Vec<char> = Vec::new();
    let mut i: usize = 0;
    assert(cs@.skip(0) =~= cs@);
    assert(out@ + url_decoded(cs@) =~= url_decoded(cs@));
    while i < cs.len()
        invariant
            i <= cs.len(),
            out@ + url_decoded(cs@.skip(i as int)) == url_decoded(cs@),
        decreases cs.len() - i,
    {
        let ghost rest = cs@.skip(i as int);
        if cs[i] == '%' {
            let end: usize = if cs.len() - i >= 3 { i + 3 } else { cs.len() };
            let hex = &cs[i + 1..end];
            let ghost h = escape_digits(rest);
            assert(hex@ =~= h);
            assert(rest.skip(1 + h.len() as int) =~= cs@.skip(end as int));
            match parse_hex_byte_exec(hex) {
                Some(b) => {
                    out.push(b as char);
                }
                None => {
                    out.push('%');
                    let mut j: usize = i + 1;
                    let ghost before = out@;
                    while j < end
                        invariant
                            i + 1 <= j <= end <= cs.len(),
                            out@ == before + cs@.subrange(i + 1, j as int),
                        decreases end - j,
                    {
                        out.push(cs[j]);
                        assert(cs@.subrange(i + 1, j + 1) =~= cs@.subrange(i + 1, j as int).push(cs@[j as int]));
                        j += 1;
                    }
                    assert(cs@.subrange(i + 1, end as int) =~= h);
                }
            }
            proof {
                assert(out@ + url_decoded(cs@.skip(end as int)) =~= url_decoded(cs@)) by {
                    assert(url_decoded(rest) == (match parse_hex_byte(h) {
                        Some(b) => seq![b as char] + url_decoded(rest.skip(1 + h.len() as int)),
                        None => seq!['%'] + h + url_decoded(rest.skip(1 + h.len() as int)),
                    }));
                }
            }
            i = end;
        } else {
            out.push(cs[i]);
            proof {
                assert(rest.drop_first() =~= cs@.skip(i + 1));
                assert(url_decoded(rest) == seq![rest[0]] + url_decoded(rest.drop_first()));
                assert(out@ + url_decoded(cs@.skip(i + 1)) =~= url_decoded(cs@));
            }
            i += 1;
        }
    }
    proof {
        assert(cs@.skip(cs.len() as int) =~= Seq::<char>::empty());
        assert(out@ + url_decoded(Seq::<char>::empty()) =~= out@);
        assert(cs@.skip(0) =~= cs@);
    }
    string_from_chars(out.as_slice())
}


// ──────────────────────────────────────────────
// Local file names
// ──────────────────────────────────────────────

/// Whether `char::is_alphanumeric` holds of `c`.
pub uninterp spec fn alphanumeric(c: char) -> bool;

/// An ASCII letter or digit.
pub open spec fn ascii_alphanumeric(c: char) -> bool {
    ('0' <= c <= '9') || ('a' <= c <= 'z') || ('A' <= c <= 'Z')
}

/// `char::is_alphanumeric`: the answer is the function of `c` named
/// `alphanumeric`, and it holds of ASCII letters and digits (alphabetic and
/// numeric characters, as documented); the Unicode tables it consults for
/// other characters are not restated.
#[verifier::external_body]
pub(crate) fn char_is_alphanumeric(c: char) -> (r: bool)
    ensures
        r == alphanumeric(c),
        ascii_alphanumeric(c) ==> r,
{
    c.is_alphanumeric()
}

/// The hyphenated form of a UUID: 36 characters, hyphens at positions 8, 13,
/// 18 and 23, lower-case hexadecimal digits elsewhere.
pub open spec fn uuid_text(id: Seq<char>) -> bool {
    &&& id.len() == 36
    &&& forall|i: int| 0 <= i < 36 ==> {
        let c = #[trigger] id[i];
        if i == 8 || i == 13 || i == 18 || i == 23 {
            c == '-'
        } else {
            ('0' <= c <= '9') || ('a' <= c <= 'f')
        }
    }
}

/// The part of a path after its last `/` (all of it if it has none).
pub open spec fn last_segment(p: Seq<char>) -> Seq<char>
    decreases p.len(),
{
    if p.len() == 0 {
        Seq::empty()
    } else if p.last() == '/' {
        Seq::empty()
    } else {
        last_segment(p.drop_last()).push(p.last())
    }
}

pub open spec fn has_char(s: Seq<char>, c: char) -> bool {
    exists|i: int| 0 <= i < s.len() && s[i] == c
}

pub open spec fn has_double_dot(s: Seq<char>) -> bool {
    exists|i: int| 0 <= i < s.len() - 1 && s[i] == '.' && #[trigger] s[i + 1] == '.'
}

/// A decoded URL segment that may serve as a local file name: not empty, with
/// a dot, and without `..`, `/` or `\`.
pub open spec fn acceptable_segment(d: Seq<char>) -> bool {
    &&& d.len() > 0
    &&& has_char(d, '.')
    &&& !has_double_dot(d)
    &&& !has_char(d, '/')
    &&& !has_char(d, '\\')
}

/// Characters that are kept in a local file name.
pub open spec fn safe_filename_char(c: char) -> bool {
    alphanumeric(c) || c == '.' || c == '-' || c == '_'
}

/// Every character that is not safe replaced by `_`.
pub open spec fn sanitized(d: Seq<char>) -> Seq<char> {
    Seq::new(d.len(), |i: int| if safe_filename_char(d[i]) { d[i] } else { '_' })
}

/// The local file name taken from a URL's last path segment, if there is a usable one.
pub open spec fn name_from_url(url: Seq<char>) -> Option<Seq<char>> {
    match url_path_of(url) {
        Some(p) => {
            let d = url_decoded(last_segment(p));
            if acceptable_segment(d) { Some(sanitized(d)) } else { None }
        },
        None => None,
    }
}

/// The local file name for `url`: the name from the URL, or else `fallback_id`
/// followed by `extension`.
pub open spec fn chosen_filename(url: Seq<char>, extension: Seq<char>, fallback_id: Seq<char>) -> Seq<char> {
    match name_from_url(url) {
        Some(n) => n,
        None => fallback_id + extension,
    }
}

fn last_segment_exec(p: &[char]) -> (r: Vec<char>)
    ensures
        r@ == last_segment(p@),
{
    let mut start: usize = p.len();
    assert(p@.take(start as int) =~= p@);
    assert(last_segment(p@) + p@.skip(start as int) =~= last_segment(p@));
    while start > 0 && p[start - 1] != '/'
        invariant
            start <= p.len(),
            last_segment(p@) == last_segment(p@.take(start as int)) + p@.skip(start as int),
        decreases start,
    {
        proof {
            let t = p@.take(start as int);
            assert(t.drop_last() =~= p@.take(start - 1));
            assert(p@.skip(start - 1) =~= seq![p@[start - 1]] + p@.skip(start as int));
            assert(last_segment(t) == last_segment(t.drop_last()).push(t.last()));
            assert(last_segment(p@.take(start - 1)) + p@.skip(start - 1) =~=
                last_segment(t) + p@.skip(start as int));
        }
        start -= 1;
    }
    proof {
        let t = p@.take(start as int);
        assert(last_segment(t) =~= Seq::<char>::empty());
    }
    let mut r: Vec<char> = Vec::new();
    let mut i = start;
    while i < p.len()
        invariant
            start <= i <= p.len(),
            r@ == p@.subrange(start as int, i as int),
        decreases p.len() - i,
    {
        r.push(p[i]);
        assert(p@.subrange(start as int, i + 1) =~= p@.subrange(start as int, i as int).push(p@[i as int]));
        i += 1;
    }
    assert(p@.subrange(start as int, p.len() as int) =~= p@.skip(start as int));
    assert(Seq::<char>::empty() + p@.skip(start as int) =~= p@.skip(start as int));
    r
}

fn acceptable_segment_exec(d: &[char]) -> (r: bool)
    ensures
        r == acceptable_segment(d@),
{
    if d.len() == 0 {
        return false;
    }
    let mut has_dot = false;
    let mut i: usize = 0;
    while i < d.len()
        invariant
            d.len() > 0,
            i <= d.len(),
            has_dot == (exists|j: int| 0 <= j < i && d@[j] == '.'),
            forall|j: int| 0 <= j < i ==> d@[j] != '/' && d@[j] != '\\',
            forall|j: int| 0 <= j < i && j + 1 < d.len() ==> !(d@[j] == '.' && #[trigger] d@[j + 1] == '.'),
        decreases d.len() - i,
    {
        let c = d[i];
        if c == '/' || c == '\\' {
            assert(d@[i as int] == c);
            return false;
        }
        if c == '.' {
            if i + 1 < d.len() && d[i + 1] == '.' {
                assert(has_double_dot(d@));
                return false;
            }
            has_dot = true;
        }
        i += 1;
    }
    proof {
        if has_char(d@, '/') {
            let j = choose|j: int| 0 <= j < d@.len() && d@[j] == '/';
            assert(d@[j] != '/');
        }
        if has_char(d@, '\\') {
            let j = choose|j: int| 0 <= j < d@.len() && d@[j] == '\\';
            assert(d@[j] != '\\');
        }
        if has_double_dot(d@) {
            let j = choose|j: int| 0 <= j < d@.len() - 1 && d@[j] == '.' && #[trigger] d@[j + 1] == '.';
            assert(!(d@[j] == '.' && d@[j + 1] == '.'));
        }
    }
    has_dot
}

fn sanitize_exec(d: &[char]) -> (r: Vec<char>)
    ensures
        r@ == sanitized(d@),
{
    let mut r: Vec<char> = Vec::new();
    let mut i: usize = 0;
    while i < d.len()
        invariant
            i <= d.len(),
            r@ == sanitized(d@).take(i as int),
        decreases d.len() - i,
    {
        let c = d[i];
        let keep = char_is_alphanumeric(c) || c == '.' || c == '-' || c == '_';
        r.push(if keep { c } else { '_' });
        assert(sanitized(d@).take(i + 1) =~= sanitized(d@).take(i as int).push(sanitized(d@)[i as int]));
        i += 1;
    }
    assert(sanitized(d@).take(d.len() as int) =~= sanitized(d@));
    r
}

/// The local file name taken from `url` (its decoded, sanitized last path
/// segment), if it has a usable one.
pub fn filename_from_url(url: &str) -> (r: Option<String>)
    ensures
        match r {
            Some(n) => name_from_url(url@) == Some(n@),
            None => name_from_url(url@) is None,
        },
{
    let path = match url_path(url) {
        Some(p) => p,
        None => return None,
    };
    let pcs = chars_of(path.as_str());
    let seg = last_segment_exec(pcs.as_slice());
    let seg_text = string_from_chars(seg.as_slice());
    let decoded = urldecode(seg_text.as_str());
    let dcs = chars_of(decoded.as_str());
    if acceptable_segment_exec(dcs.as_slice()) {
        let safe = sanitize_exec(dcs.as_slice());
        Some(string_from_chars(safe.as_slice()))
    } else {
        None
    }
}

/// Generate a safe local filename from a URL: the sanitised last segment of
/// its path, which cannot leave the download directory, or else
/// `fallback_id` (a fresh random identifier) followed by `extension`.
pub fn filename_or_fallback(url: &str, extension: &str, fallback_id: &str) -> (r: String)
    ensures
        r@ == chosen_filename(url@, extension@, fallback_id@),
{
    match filename_from_url(url) {
        Some(n) => n,
        None => {
            let mut s = String::new();
            push_str(&mut s, fallback_id);
            push_str(&mut s, extension);
            assert(s@ =~= fallback_id@ + extension@);
            s
        }
    }
}

// ──────────────────────────────────────────────
// Laws
// ──────────────────────────────────────────────

/// Text without `%` decodes to itself.
pub proof fn law_urldecode_plain(s: Seq<char>)
    requires
        !has_char(s, '%'),
    ensures
        url_decoded(s) == s,
    decreases s.len(),
{
    if s.len() > 0 {
        assert(s[0] != '%');
        assert(!has_char(s.drop_first(), '%')) by {
            if has_char(s.drop_first(), '%') {
                let i = choose|i: int| 0 <= i < s.drop_first().len() && s.drop_first()[i] == '%';
                assert(s[i + 1] == '%');
            }
        }
        law_urldecode_plain(s.drop_first());
        assert(seq![s[0]] + s.drop_first() =~= s);
    }
}

/// The upper-case hexadecimal digit for a value below 16.
pub open spec fn hex_upper(d: nat) -> char {
    if d < 10 {
        (('0' as nat) + d) as char
    } else {
        (('A' as nat) + d - 10) as char
    }
}

/// Every character written as `%` and two upper-case hexadecimal digits of
/// its code, as `format!("%{:02X}", b)` writes a byte.
pub open spec fn percent_encoded(s: Seq<char>) -> Seq<char>
    decreases s.len(),
{
    if s.len() == 0 {
        Seq::empty()
    } else {
        let c = s[0] as nat;
        seq!['%', hex_upper(c / 16), hex_upper(c % 16)] + percent_encoded(s.drop_first())
    }
}

proof fn lemma_hex_upper(d: nat)
    requires
        d < 16,
    ensures
        hex_digit(hex_upper(d)) == Some(d),
        hex_upper(d) != '+',
{
}

/// Decoding undoes percent-encoding of ASCII text: every `%XX` escape turns
/// back into the character it was written for.
pub proof fn law_urldecode_roundtrip(s: Seq<char>)
    requires
        forall|i: int| 0 <= i < s.len() ==> (s[i] as nat) < 128,
    ensures
        url_decoded(percent_encoded(s)) == s,
    decreases s.len(),
{
    if s.len() > 0 {
        let c = s[0] as nat;
        let e = percent_encoded(s);
        let rest = percent_encoded(s.drop_first());
        lemma_hex_upper(c / 16);
        lemma_hex_upper(c % 16);
        assert(e.len() >= 3);
        let hex = escape_digits(e);
        assert(hex =~= seq![hex_upper(c / 16), hex_upper(c % 16)]);
        assert(e.skip(3) =~= rest);
        assert(hex.drop_last() =~= seq![hex_upper(c / 16)]);
        assert(hex.drop_last().drop_last() =~= Seq::<char>::empty());
        assert(hex_digits_value(hex.drop_last().drop_last()) == Some(0nat));
        assert(hex.drop_last().last() == hex_upper(c / 16));
        assert(hex_digits_value(hex.drop_last()) == Some(c / 16));
        assert(hex.last() == hex_upper(c % 16));
        assert(hex_digits_value(hex) == Some((c / 16) * 16 + c % 16));
        assert((c / 16) * 16 + c % 16 == c);
        assert(parse_hex_byte(hex) == Some(c as u8));
        assert((c as u8) as nat == c);
        vstd::utf8::char_u32_cast(s[0], s[0] as u32);
        assert((c as u8) as char == s[0]);
        law_urldecode_roundtrip(s.drop_first());
        assert(seq![s[0]] + s.drop_first() =~= s);
    }
}

/// A generated file name cannot leave the download directory: a name taken
/// from the URL never can, and a fallback name (identifier and extension)
/// cannot where the extension holds no `/`, `\` or `..`.
pub proof fn law_generated_name_safe(url: Seq<char>, extension: Seq<char>, id: Seq<char>)
    requires
        uuid_text(id),
        !has_char(extension, '/'),
        !has_char(extension, '\\'),
        !has_double_dot(extension),
    ensures
        ({
            let n = chosen_filename(url, extension, id);
            &&& !has_char(n, '/')
            &&& !has_char(n, '\\')
            &&& !has_double_dot(n)
        }),
{
    if name_from_url(url) is Some {
        law_url_filename_safe(url);
    } else {
        let n = id + extension;
        if has_char(n, '/') {
            let i = choose|i: int| 0 <= i < n.len() && n[i] == '/';
            if i >= 36 {
                assert(n[i] == extension[i - 36]);
            } else {
                assert(n[i] == id[i]);
            }
        }
        if has_char(n, '\\') {
            let i = choose|i: int| 0 <= i < n.len() && n[i] == '\\';
            if i >= 36 {
                assert(n[i] == extension[i - 36]);
            } else {
                assert(n[i] == id[i]);
            }
        }
        if has_double_dot(n) {
            let i = choose|i: int| 0 <= i < n.len() - 1 && n[i] == '.' && #[trigger] n[i + 1] == '.';
            if i >= 36 {
                let j = i - 36;
                assert(n[i] == extension[j]);
                assert(n[i + 1] == extension[j + 1]);
                assert(extension[j] == '.' && extension[j + 1] == '.');
            } else {
                assert(n[i] == id[i]);
                assert(id[i] == '.');
            }
        }
    }
}

/// A character that a generated file name may hold: an alphanumeric one
/// (`char::is_alphanumeric`, which holds of every ASCII letter and digit),
/// or `.`, `-`, `_`.
pub open spec fn name_char(c: char) -> bool {
    alphanumeric(c) || ascii_alphanumeric(c) || c == '.' || c == '-' || c == '_'
}

/// Every character of a generated file name is alphanumeric or `.`, `-`, `_`,
/// where the extension's characters are ASCII letters, digits or dots (as the
/// recognised data extensions are).
pub proof fn law_generated_name_chars(url: Seq<char>, extension: Seq<char>, id: Seq<char>)
    requires
        uuid_text(id),
        forall|i: int| 0 <= i < extension.len() ==> ascii_alphanumeric(#[trigger] extension[i]) || extension[i] == '.',
    ensures
        forall|i: int| 0 <= i < chosen_filename(url, extension, id).len()
            ==> name_char(#[trigger] chosen_filename(url, extension, id)[i]),
{
    let n = chosen_filename(url, extension, id);
    if name_from_url(url) is Some {
        let p = url_path_of(url)->0;
        let d = url_decoded(last_segment(p));
        assert forall|i: int| 0 <= i < n.len() implies name_char(#[trigger] n[i]) by {
            assert(n[i] == sanitized(d)[i]);
        }
    } else {
        assert forall|i: int| 0 <= i < n.len() implies name_char(#[trigger] n[i]) by {
            if i < 36 {
                assert(n[i] == id[i]);
            } else {
                assert(n[i] == extension[i - 36]);
            }
        }
    }
}

/// A file name taken from a URL cannot leave the download directory: it is not
/// empty, has a dot, and holds no `/`, no `\` and no `..`.
pub proof fn law_url_filename_safe(url: Seq<char>)
    requires
        name_from_url(url) is Some,
    ensures
        ({
            let n = name_from_url(url)->0;
            &&& n.len() > 0
            &&& has_char(n, '.')
            &&& !has_char(n, '/')
            &&& !has_char(n, '\\')
            &&& !has_double_dot(n)
        }),
{
    let p = url_path_of(url)->0;
    let d = url_decoded(last_segment(p));
    let n = sanitized(d);
    assert(acceptable_segment(d));
    let k = choose|i: int| 0 <= i < d.len() && d[i] == '.';
    assert(n[k] == '.');
    if has_char(n, '/') {
        let i = choose|i: int| 0 <= i < n.len() && n[i] == '/';
        assert(d[i] == '/');
    }
    if has_char(n, '\\') {
        let i = choose|i: int| 0 <= i < n.len() && n[i] == '\\';
        assert(d[i] == '\\');
    }
    if has_double_dot(n) {
        let i = choose|i: int| 0 <= i < n.len() - 1 && n[i] == '.' && #[trigger] n[i + 1] == '.';
        assert(d[i] == '.' && d[i + 1] == '.');
    }
}

} // verus!
