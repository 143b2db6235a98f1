use vstd::prelude::*;
use vstd::utf8::*;

use crate::models::{ascii_upper_char, is_ascii_text, Dataset, DatasetMetadata, FormatQuality};
use crate::readers::{
    csv_header_fields, csv_headers, csv_read_record, csv_record_at, open_csv, open_xml, xml_event_at,
    xml_next,
};
use crate::text::{chars_of, push_str, str_eq, string_from_chars};
use crate::textops::{contains_char, has_char_in, split_and_trim, split_trimmed, strings_view};

verus! {

// ──────────────────────────────────────────────
// Format classification
// ──────────────────────────────────────────────

/// (machine readable, open format) flags of an extension.
pub open spec fn format_flags(extension: Seq<char>) -> (u8, u8) {
    if extension == ".csv"@ || extension == ".xml"@ || extension == ".txt"@ {
        (1, 1)
    } else if extension == ".xlsx"@ || extension == ".xls"@ {
        (1, 0)
    } else {
        (0, 0)
    }
}

/// Classify format quality based on file extension.
pub fn classify_format(extension: &str) -> (r: (u8, u8))
    ensures
        r == format_flags(extension@),
        r.1 <= r.0 <= 1,
{
    if str_eq(extension, ".csv") || str_eq(extension, ".xml") || str_eq(extension, ".txt") {
        (1, 1)
    } else if str_eq(extension, ".xlsx") || str_eq(extension, ".xls") {
        (1, 0)
    } else {
        (0, 0)
    }
}

/// The format flags of every extension: CSV, XML and plain text are machine
/// readable and open; Excel workbooks (`.xlsx`, `.xls`) are machine readable
/// but not open; nothing else is either. An open format is always machine
/// readable.
pub proof fn law_format_flags(extension: Seq<char>)
    ensures
        (format_flags(extension).0 == 1) <==> (extension == ".csv"@ || extension == ".xml"@ || extension == ".txt"@
            || extension == ".xlsx"@ || extension == ".xls"@),
        (format_flags(extension).1 == 1) <==> (extension == ".csv"@ || extension == ".xml"@ || extension == ".txt"@),
        format_flags(extension).0 == 0 || format_flags(extension).0 == 1,
        format_flags(extension).1 == 0 || format_flags(extension).1 == 1,
        format_flags(extension).1 <= format_flags(extension).0,
{
}

/// (data rows, columns, column names) measured on a file.
pub type FileShape = (Option<u64>, Option<u64>, Vec<String>);

pub open spec fn shape_view(r: FileShape) -> (Option<u64>, Option<u64>, Seq<Seq<char>>) {
    (r.0, r.1, strings_view(r.2@))
}

pub open spec fn no_shape() -> (Option<u64>, Option<u64>, Seq<Seq<char>>) {
    (None, None, Seq::empty())
}

// ──────────────────────────────────────────────
// Text files
// ──────────────────────────────────────────────

pub open spec fn count_newlines(s: Seq<char>) -> nat
    decreases s.len(),
{
    if s.len() == 0 {
        0
    } else {
        count_newlines(s.drop_last()) + if s.last() == '\n' { 1nat } else { 0nat }
    }
}

/// Number of lines (`str::lines`): a final line without a newline counts, an
/// empty text has none.
pub open spec fn line_count(s: Seq<char>) -> nat {
    if s.len() == 0 {
        0
    } else if s.last() == '\n' {
        count_newlines(s)
    } else {
        count_newlines(s) + 1
    }
}

/// The first line (`str::lines().next()`): the text before the first newline,
/// without a carriage return right before that newline.
pub open spec fn first_line(s: Seq<char>) -> Seq<char> {
    if has_char_in(s, '\n') {
        let i = choose|i: int| 0 <= i < s.len() && s[i] == '\n' && forall|j: int| 0 <= j < i ==> s[j] != '\n';
        if i > 0 && s[i - 1] == '\r' { s.take(i - 1) } else { s.take(i) }
    } else {
        s
    }
}

/// What a text file shows: its line count, and when its first line holds a tab
/// (else a comma), the trimmed fields of the first line as column names and the
/// other lines as rows.
pub open spec fn txt_shape(s: Seq<char>) -> (Option<u64>, Option<u64>, Seq<Seq<char>>) {
    let n = line_count(s);
    if n == 0 {
        (Some(0), None, Seq::empty())
    } else {
        let fl = first_line(s);
        if !has_char_in(fl, '\t') && !has_char_in(fl, ',') {
            (Some(n as u64), None, Seq::empty())
        } else {
            let sep = if has_char_in(fl, '\t') { '\t' } else { ',' };
            let headers = split_trimmed(fl, sep);
            (Some(if n > 1 { (n - 1) as u64 } else { 0 }), Some(headers.len() as u64), headers)
        }
    }
}

proof fn lemma_newlines_bound(s: Seq<char>)
    ensures
        count_newlines(s) <= s.len(),
    decreases s.len(),
{
    if s.len() > 0 {
        lemma_newlines_bound(s.drop_last());
    }
}

/// Extract basic metadata from a text file's content.
pub fn extract_txt_metadata(content: &str) -> (r: FileShape)
    ensures
        shape_view(r) == txt_shape(content@),
{
    let cs = chars_of(content);
    let mut newlines: u64 = 0;
    let mut first_nl: Option<usize> = None;
    let mut i: usize = 0;
    assert(cs@.take(0) =~= Seq::<char>::empty());
    while i < cs.len()
        invariant
            i <= cs.len(),
            newlines == count_newlines(cs@.take(i as int)),
            newlines <= i,
            match first_nl {
                Some(k) => k < i && cs@[k as int] == '\n' && forall|j: int| 0 <= j < k ==> cs@[j] != '\n',
                None => forall|j: int| 0 <= j < i ==> cs@[j] != '\n',
            },
        decreases cs.len() - i,
    {
        assert(cs@.take(i + 1).drop_last() =~= cs@.take(i as int));
        if cs[i] == '\n' {
            newlines = newlines + 1;
            if first_nl.is_none() {
                first_nl = Some(i);
            }
        }
        i += 1;
    }
    assert(cs@.take(cs.len() as int) =~= cs@);
    let n: u64 = if cs.len() == 0 {
        0
    } else if cs[cs.len() - 1] == '\n' {
        newlines
    } else {
        proof {
            lemma_newlines_bound(cs@.drop_last());
            assert(count_newlines(cs@) == count_newlines(cs@.drop_last()));
        }
        newlines + 1
    };
    if n == 0 {
        return (Some(0), None, Vec::new());
    }
    let fl: Vec<char> = match first_nl {
        Some(k) => {
            let end = if k > 0 && cs[k - 1] == '\r' { k - 1 } else { k };
            let mut v: Vec<char> = Vec::new();
            let mut j: usize = 0;
            while j < end
                invariant
                    j <= end <= k < cs.len(),
                    v@ == cs@.take(j as int),
                decreases end - j,
            {
                v.push(cs[j]);
                assert(cs@.take(j + 1) =~= cs@.take(j as int).push(cs@[j as int]));
                j += 1;
            }
            proof {
                assert(has_char_in(cs@, '\n'));
                let w = choose|i: int| 0 <= i < cs@.len() && cs@[i] == '\n' && forall|j: int| 0 <= j < i ==> cs@[j] != '\n';
                if w < k {
                    assert(cs@[w] != '\n');
                } else if w > k {
                    assert(cs@[k as int] != '\n');
                }
            }
            v
        }
        None => {
            proof {
                if has_char_in(cs@, '\n') {
                    let w = choose|i: int| 0 <= i < cs@.len() && cs@[i] == '\n';
                    assert(cs@[w] != '\n');
                }
            }
            cs
        }
    };
    assert(fl@ == first_line(content@));
    let has_tab = contains_char(fl.as_slice(), '\t');
    let has_comma = contains_char(fl.as_slice(), ',');
    if !has_tab && !has_comma {
        return (Some(n), None, Vec::new());
    }
    let sep = if has_tab { '\t' } else { ',' };
    let headers = split_and_trim(fl.as_slice(), sep);
    let rows: u64 = if n > 1 { n - 1 } else { 0 };
    let cols = headers.len() as u64;
    proof {
        assert(strings_view(headers@).len() == headers@.len());
    }
    (Some(rows), Some(cols), headers)
}

// ──────────────────────────────────────────────
// CSV files
// ──────────────────────────────────────────────

/// Shape of a CSV file from its header fields (when the header row could be
/// read) and the outcome of reading each further record (`true` for a good one).
pub open spec fn csv_shape(headers: Seq<Seq<char>>, records: Seq<bool>) -> (Option<u64>, Option<u64>, Seq<Seq<char>>) {
    let good = records.filter(|b: bool| b).len();
    (
        if good > 0 { Some(good as u64) } else { None },
        if headers.len() == 0 { None } else { Some(headers.len() as u64) },
        headers,
    )
}

/// The CSV shape for the given header fields and record outcomes.
pub fn csv_metadata_from_records(headers: Vec<String>, records: &[bool]) -> (r: FileShape)
    requires
        records@.len() <= u64::MAX,
    ensures
        shape_view(r) == csv_shape(strings_view(headers@), records@),
{
    let mut good: u64 = 0;
    let mut i: usize = 0;
    while i < records.len()
        invariant
            i <= records.len() <= u64::MAX,
            good == records@.take(i as int).filter(|b: bool| b).len(),
            good <= i,
        decreases records.len() - i,
    {
        proof {
            assert(records@.take(i + 1).drop_last() =~= records@.take(i as int));
            reveal_with_fuel(Seq::filter, 1);
        }
        if records[i] {
            good = good + 1;
        }
        i += 1;
    }
    assert(records@.take(records.len() as int) =~= records@);
    let cols = if headers.len() == 0 { None } else { Some(headers.len() as u64) };
    (if good > 0 { Some(good) } else { None }, cols, headers)
}

/// Outcomes of reading the records of `bytes` from the `i`-th on, until the
/// end, and no further than the `bound`-th.
pub open spec fn csv_records_from(bytes: Seq<u8>, i: nat, bound: nat) -> Seq<bool>
    decreases bound - i,
{
    if i >= bound {
        Seq::empty()
    } else {
        match csv_record_at(bytes, i) {
            Some(ok) => seq![ok] + csv_records_from(bytes, i + 1, bound),
            None => Seq::empty(),
        }
    }
}

/// The shape the `csv` crate reads from `bytes`: the header fields (none where
/// they cannot be read), and the records until the end; every record takes at
/// least one byte, so no more than one per byte (and one more) are read.
pub open spec fn csv_file_shape(bytes: Seq<u8>) -> (Option<u64>, Option<u64>, Seq<Seq<char>>) {
    csv_shape(
        match csv_header_fields(bytes) {
            Some(h) => h,
            None => Seq::empty(),
        },
        csv_records_from(bytes, 0, bytes.len() + 1),
    )
}

/// Extract metadata from a CSV file's bytes, read with the `csv` crate.
pub fn extract_csv_metadata(bytes: &[u8]) -> (r: FileShape)
    ensures
        shape_view(r) == csv_file_shape(bytes@),
{
    let mut reader = open_csv(bytes);
    let headers = match csv_headers(&mut reader) {
        Some(h) => h,
        None => {
            let v: Vec<String> = Vec::new();
            assert(strings_view(v@) =~= Seq::<Seq<char>>::empty());
            v
        },
    };
    let ghost bound: nat = bytes@.len() + 1;
    let mut records: Vec<bool> = Vec::new();
    assert(records@ + csv_records_from(bytes@, 0, bound) =~= csv_records_from(bytes@, 0, bound));
    while records.len() <= bytes.len()
        invariant
            reader.bytes() == bytes@,
            reader.headers_read(),
            reader.records() == records@.len(),
            strings_view(headers@) == match csv_header_fields(bytes@) {
                Some(h) => h,
                None => Seq::empty(),
            },
            records@.len() <= bound,
            bound == bytes@.len() + 1,
            records@ + csv_records_from(bytes@, records@.len(), bound) == csv_records_from(bytes@, 0, bound),
        decreases bound - records@.len(),
    {
        let ghost k = records@.len();
        match csv_read_record(&mut reader) {
            Some(ok) => {
                assert(csv_records_from(bytes@, k, bound) == seq![ok] + csv_records_from(bytes@, k + 1, bound));
                records.push(ok);
                assert(records@ + csv_records_from(bytes@, k + 1, bound) =~= csv_records_from(bytes@, 0, bound));
            },
            None => {
                assert(csv_records_from(bytes@, k, bound) =~= Seq::<bool>::empty());
                assert(records@ =~= csv_records_from(bytes@, 0, bound));
                return csv_metadata_from_records(headers, records.as_slice());
            },
        }
    }
    assert(csv_records_from(bytes@, records@.len(), bound) =~= Seq::<bool>::empty());
    assert(records@ =~= csv_records_from(bytes@, 0, bound));
    csv_metadata_from_records(headers, records.as_slice())
}

// ──────────────────────────────────────────────
// XML files
// ──────────────────────────────────────────────

/// Maximum number of XML events to process before stopping.
pub const MAX_XML_ELEMENTS: u64 = 100000;

/// An XML event as far as the metadata reads it.
#[derive(Debug, Clone)]
pub enum XmlItem {
    Start(String),
    End,
    EndDocument,
    Error,
    Other,
}

/// Walking state: element names seen (each once), depth, records seen.
pub struct XmlWalk {
    pub names: Seq<Seq<char>>,
    pub depth: nat,
    pub records: nat,
}

pub open spec fn xml_step(w: XmlWalk, e: XmlItem) -> XmlWalk {
    match e {
        XmlItem::Start(n) => XmlWalk {
            names: if w.names.contains(n@) { w.names } else { w.names.push(n@) },
            depth: w.depth + 1,
            records: if w.depth + 1 == 2 { w.records + 1 } else { w.records },
        },
        XmlItem::End => XmlWalk {
            names: w.names,
            depth: if w.depth > 0 { (w.depth - 1) as nat } else { 0 },
            records: w.records,
        },
        _ => w,
    }
}

/// The walking state after the given events.
pub open spec fn xml_walk(events: Seq<XmlItem>) -> XmlWalk
    decreases events.len(),
{
    if events.len() == 0 {
        XmlWalk { names: Seq::empty(), depth: 0, records: 0 }
    } else {
        xml_step(xml_walk(events.drop_last()), events.last())
    }
}

/// Shape of an XML file from its events: elements at depth two are the rows,
/// the distinct element names the columns.
pub open spec fn xml_shape(events: Seq<XmlItem>) -> (Option<u64>, Option<u64>, Seq<Seq<char>>) {
    let w = xml_walk(events);
    (
        if w.records > 0 { Some(w.records as u64) } else { None },
        if w.names.len() > 0 { Some(w.names.len() as u64) } else { None },
        w.names,
    )
}

proof fn lemma_walk_bounds(events: Seq<XmlItem>)
    ensures
        xml_walk(events).depth <= events.len(),
        xml_walk(events).records <= events.len(),
        xml_walk(events).names.len() <= events.len(),
        xml_walk(events).names.no_duplicates(),
    decreases events.len(),
{
    if events.len() > 0 {
        lemma_walk_bounds(events.drop_last());
    }
}

fn contains_name(names: &Vec<String>, n: &str) -> (r: bool)
    ensures
        r == strings_view(names@).contains(n@),
{
    let mut i: usize = 0;
    while i < names.len()
        invariant
            i <= names.len(),
            forall|j: int| 0 <= j < i ==> names@[j]@ != n@,
        decreases names.len() - i,
    {
        if str_eq(names[i].as_str(), n) {
            assert(strings_view(names@)[i as int] == n@);
            return true;
        }
        i += 1;
    }
    proof {
        if strings_view(names@).contains(n@) {
            let j = choose|j: int| 0 <= j < strings_view(names@).len() && strings_view(names@)[j] == n@;
            assert(names@[j]@ != n@);
        }
    }
    false
}

/// The XML shape for the given events.
pub fn xml_metadata_from_events(events: &[XmlItem]) -> (r: FileShape)
    requires
        events@.len() <= MAX_XML_ELEMENTS,
    ensures
        shape_view(r) == xml_shape(events@),
{
    let mut names: Vec<String> = Vec::new();
    let mut depth: u64 = 0;
    let mut records: u64 = 0;
    let mut i: usize = 0;
    assert(events@.take(0) =~= Seq::<XmlItem>::empty());
    while i < events.len()
        invariant
            i <= events.len() <= MAX_XML_ELEMENTS,
            strings_view(names@) == xml_walk(events@.take(i as int)).names,
            depth == xml_walk(events@.take(i as int)).depth,
            records == xml_walk(events@.take(i as int)).records,
        decreases events.len() - i,
    {
        proof {
            assert(events@.take(i + 1).drop_last() =~= events@.take(i as int));
            lemma_walk_bounds(events@.take(i as int));
        }
        match &events[i] {
            XmlItem::Start(n) => {
                depth = depth + 1;
                if !contains_name(&names, n.as_str()) {
                    let ghost prev = names@;
                    names.push(n.clone());
                    assert(strings_view(names@) =~= strings_view(prev).push(n@));
                }
                if depth == 2 {
                    records = records + 1;
                }
            }
            XmlItem::End => {
                if depth > 0 {
                    depth = depth - 1;
                }
            }
            _ => {}
        }
        i += 1;
    }
    assert(events@.take(events.len() as int) =~= events@);
    let rows = if records > 0 { Some(records) } else { None };
    let cols = if names.len() > 0 { Some(names.len() as u64) } else { None };
    (rows, cols, names)
}

/// An event that ends the reading: the end of the document, or an error.
pub open spec fn xml_stops(e: XmlItem) -> bool {
    e is Error || e is EndDocument
}

/// The events of `bytes` from the `i`-th on that the metadata reads: those
/// before the first end of document or error, no further than the
/// `MAX_XML_ELEMENTS`-th event.
pub open spec fn xml_events_from(bytes: Seq<u8>, i: nat) -> Seq<XmlItem>
    decreases MAX_XML_ELEMENTS - i,
{
    if i >= MAX_XML_ELEMENTS {
        Seq::empty()
    } else if xml_stops(xml_event_at(bytes, i)) {
        Seq::empty()
    } else {
        seq![xml_event_at(bytes, i)] + xml_events_from(bytes, i + 1)
    }
}

/// The events of an XML document that the metadata reads.
pub open spec fn xml_events_read(bytes: Seq<u8>) -> Seq<XmlItem> {
    xml_events_from(bytes, 0)
}

/// Reads the events of an XML document that the metadata looks at: at most
/// `MAX_XML_ELEMENTS` events, stopping at the end of the document or at an error
/// (neither of which is kept).
pub fn read_xml_events(bytes: &[u8]) -> (r: Vec<XmlItem>)
    ensures
        r@ == xml_events_read(bytes@),
        r@.len() <= MAX_XML_ELEMENTS,
        forall|i: int| 0 <= i < r@.len() ==> !xml_stops(#[trigger] r@[i]),
{
    let mut reader = open_xml(bytes);
    let mut events: Vec<XmlItem> = Vec::new();
    let mut count: u64 = 0;
    assert(events@ + xml_events_from(bytes@, 0) =~= xml_events_read(bytes@));
    while count < MAX_XML_ELEMENTS
        invariant
            events@.len() <= count <= MAX_XML_ELEMENTS,
            reader.bytes() == bytes@,
            reader.read() == count,
            events@ + xml_events_from(bytes@, count as nat) == xml_events_read(bytes@),
            forall|i: int| 0 <= i < events@.len() ==> !xml_stops(#[trigger] events@[i]),
        decreases MAX_XML_ELEMENTS - count,
    {
        let ghost k = count as nat;
        let e = xml_next(&mut reader);
        count = count + 1;
        match e {
            XmlItem::Error => {
                assert(xml_events_from(bytes@, k) =~= Seq::<XmlItem>::empty());
                assert(events@ =~= xml_events_read(bytes@));
                return events;
            },
            XmlItem::EndDocument => {
                assert(xml_events_from(bytes@, k) =~= Seq::<XmlItem>::empty());
                assert(events@ =~= xml_events_read(bytes@));
                return events;
            },
            other => {
                assert(xml_events_from(bytes@, k) == seq![other] + xml_events_from(bytes@, k + 1));
                events.push(other);
                assert(events@ + xml_events_from(bytes@, k + 1) =~= xml_events_read(bytes@));
            },
        }
    }
    assert(xml_events_from(bytes@, count as nat) =~= Seq::<XmlItem>::empty());
    assert(events@ =~= xml_events_read(bytes@));
    events
}

/// Extract basic metadata from an XML file's bytes.
pub fn extract_xml_metadata(bytes: &[u8]) -> (r: FileShape)
    ensures
        shape_view(r) == xml_shape(xml_events_read(bytes@)),
{
    let events = read_xml_events(bytes);
    xml_metadata_from_events(events.as_slice())
}

// ──────────────────────────────────────────────
// Spreadsheets
// ──────────────────────────────────────────────

/// Shape of a spreadsheet from its first sheet's height, width and first row
/// (the header row, not counted as a data row).
pub open spec fn sheet_shape(height: nat, width: nat, first_row: Option<Seq<Seq<char>>>) -> (Option<u64>, Option<u64>, Seq<Seq<char>>) {
    (
        if height > 1 { Some((height - 1) as u64) } else if height == 1 { Some(0) } else { None },
        Some(width as u64),
        if height > 0 {
            match first_row { Some(r) => r, None => Seq::empty() }
        } else {
            Seq::empty()
        },
    )
}

/// The shape of a file on which nothing could be measured.
pub fn no_shape_exec() -> (r: FileShape)
    ensures
        shape_view(r) == no_shape(),
{
    let v: Vec<String> = Vec::new();
    assert(strings_view(v@) =~= Seq::<Seq<char>>::empty());
    (None, None, v)
}

/// The spreadsheet shape for a sheet of the given size and first row.
pub fn sheet_metadata(height: usize, width: usize, first_row: Option<Vec<String>>) -> (r: FileShape)
    ensures
        shape_view(r) == sheet_shape(height as nat, width as nat, match first_row { Some(v) => Some(strings_view(v@)), None => None }),
{
    let rows = if height > 1 { Some((height - 1) as u64) } else if height == 1 { Some(0) } else { None };
    let headers = if height > 0 {
        match first_row {
            Some(v) => v,
            None => Vec::new(),
        }
    } else {
        Vec::new()
    };
    (rows, Some(width as u64), headers)
}

/// The size and first row (each cell as its text) of a spreadsheet's first
/// sheet, as read from the file.
pub struct SheetData {
    pub height: usize,
    pub width: usize,
    pub first_row: Option<Vec<String>>,
}

/// The shape measured on a spreadsheet: nothing where its first sheet could
/// not be read.
pub open spec fn excel_shape(sheet: Option<SheetData>) -> (Option<u64>, Option<u64>, Seq<Seq<char>>) {
    match sheet {
        None => no_shape(),
        Some(d) => sheet_shape(
            d.height as nat,
            d.width as nat,
            match d.first_row { Some(v) => Some(strings_view(v@)), None => None },
        ),
    }
}

/// Whether files with this extension are read as spreadsheets.
pub fn is_spreadsheet_extension(extension: &str) -> (r: bool)
    ensures
        r == (extension@ == ".xlsx"@ || extension@ == ".xls"@),
{
    str_eq(extension, ".xlsx") || str_eq(extension, ".xls")
}

/// Extract metadata from a spreadsheet, given what was read of its first
/// sheet (`None` where the workbook or the sheet could not be read).
pub fn extract_excel_metadata(sheet: Option<SheetData>) -> (r: FileShape)
    ensures
        shape_view(r) == excel_shape(sheet),
{
    match sheet {
        Some(d) => sheet_metadata(d.height, d.width, d.first_row),
        None => no_shape_exec(),
    }
}

// ──────────────────────────────────────────────
// Whole files
// ──────────────────────────────────────────────

/// The file stem that `std::path::Path::file_stem` gives for `path` (lossily
/// converted to text), or `None` where it gives none.
pub uninterp spec fn path_stem(path: Seq<char>) -> Option<Seq<char>>;

/// The upper-case form of a string, as `str::to_uppercase` computes it.
pub uninterp spec fn uppercase(s: Seq<char>) -> Seq<char>;

/// `Path::file_stem` with `OsStr::to_string_lossy`; the claim is only that the
/// result is the function of the path text named `path_stem`.
#[verifier::external_body]
fn file_stem(path: &str) -> (r: Option<String>)
    ensures
        match r {
            Some(s) => path_stem(path@) == Some(s@),
            None => path_stem(path@) is None,
        },
{
    std::path::Path::new(path).file_stem().map(|s| s.to_string_lossy().to_string())
}

/// `str::to_uppercase`: the result is the function of the input's characters
/// named `uppercase`; on ASCII text it upper-cases the letters a to z and keeps
/// every other character (the Unicode case mapping it is documented to follow
/// does so on ASCII). What it does to other characters is not stated.
#[verifier::external_body]
fn to_uppercase(s: &str) -> (r: String)
    ensures
        r@ == uppercase(s@),
        is_ascii_text(s@) ==> r@ == s@.map_values(|c: char| ascii_upper_char(c)),
{
    s.to_uppercase()
}

/// `std::str::from_utf8`: the text the bytes encode, exactly when they are
/// valid UTF-8 (as the standard library documents).
#[verifier::external_body]
fn utf8_text(bytes: &[u8]) -> (r: Option<String>)
    ensures
        r is Some <==> valid_utf8(bytes@),
        r matches Some(t) ==> t@ == decode_utf8(bytes@),
{
    std::str::from_utf8(bytes).ok().map(|t| t.to_string())
}

/// Number of leading `.` characters.
pub open spec fn leading_dots(s: Seq<char>) -> nat
    decreases s.len(),
{
    if s.len() > 0 && s[0] == '.' { 1 + leading_dots(s.drop_first()) } else { 0 }
}

/// The file type shown for an extension: without its leading dots, upper-cased.
pub open spec fn file_type_of(extension: Seq<char>) -> Seq<char> {
    uppercase(extension.skip(leading_dots(extension) as int))
}

/// The description given to a dataset before any other is known.
pub open spec fn placeholder_description(file_type: Seq<char>, source_url: Seq<char>) -> Seq<char> {
    "Data file ("@ + file_type + ") extracted from "@ + source_url
}

/// What the extraction measures on a file, by extension (`None` content: the
/// file could not be read).
pub open spec fn shape_measured(
    extension: Seq<char>,
    content: Option<Seq<u8>>,
    first_sheet: Option<SheetData>,
    r: (Option<u64>, Option<u64>, Seq<Seq<char>>),
) -> bool {
    if extension == ".csv"@ {
        match content {
            Some(b) => r == csv_file_shape(b),
            None => r == no_shape(),
        }
    } else if extension == ".xlsx"@ || extension == ".xls"@ {
        r == excel_shape(first_sheet)
    } else {
        match content {
            None => r == no_shape(),
            Some(b) => if extension == ".xml"@ {
                r == xml_shape(xml_events_read(b))
            } else if extension == ".txt"@ {
                if valid_utf8(b) { r == txt_shape(decode_utf8(b)) } else { r == no_shape() }
            } else {
                r == no_shape()
            },
        }
    }
}

fn skip_leading_dots(s: &[char]) -> (r: usize)
    ensures
        r == leading_dots(s@),
        r <= s.len(),
{
    let mut i: usize = 0;
    assert(s@.skip(0) =~= s@);
    while i < s.len() && s[i] == '.'
        invariant
            i <= s.len(),
            leading_dots(s@) == i + leading_dots(s@.skip(i as int)),
        decreases s.len() - i,
    {
        assert(s@.skip(i as int).drop_first() =~= s@.skip(i + 1));
        i += 1;
    }
    if i < s.len() {
        assert(s@.skip(i as int)[0] == s@[i as int]);
    } else {
        assert(s@.skip(i as int).len() == 0);
    }
    i
}

/// Extract metadata from a downloaded file, given its path, its content
/// (`None` where it could not be read) and what is known of where it came from.
pub fn extract_metadata(
    file_path: &str,
    content: Option<&[u8]>,
    first_sheet: Option<SheetData>,
    download_url: &str,
    source_url: &str,
    extension: &str,
    file_size: u64,
) -> (r: Dataset)
    ensures
        r.title@ == (match path_stem(file_path@) { Some(t) => t, None => "Unknown"@ }),
        r.source_url@ == source_url@,
        r.download_url@ == download_url@,
        r.file_type@ == file_type_of(extension@),
        r.file_size_bytes == Some(file_size),
        r.metadata.description@ == placeholder_description(file_type_of(extension@), source_url@),
        (r.metadata.format_quality.machine_readable, r.metadata.format_quality.open_format)
            == format_flags(extension@),
        shape_measured(
            extension@,
            match content { Some(b) => Some(b@), None => None },
            first_sheet,
            (r.metadata.rows, r.metadata.columns, strings_view(r.metadata.column_names@)),
        ),
{
    let title = match file_stem(file_path) {
        Some(t) => t,
        None => String::from_str("Unknown"),
    };
    let shape: FileShape = if str_eq(extension, ".csv") {
        match content {
            Some(b) => extract_csv_metadata(b),
            None => no_shape_exec(),
        }
    } else if is_spreadsheet_extension(extension) {
        extract_excel_metadata(first_sheet)
    } else if str_eq(extension, ".xml") {
        match content {
            Some(b) => extract_xml_metadata(b),
            None => no_shape_exec(),
        }
    } else if str_eq(extension, ".txt") {
        match content {
            Some(b) => match utf8_text(b) {
                Some(t) => extract_txt_metadata(t.as_str()),
                None => no_shape_exec(),
            },
            None => no_shape_exec(),
        }
    } else {
        no_shape_exec()
    };
    let (machine_readable, open_format) = classify_format(extension);
    let ecs = chars_of(extension);
    let start = skip_leading_dots(ecs.as_slice());
    let bare = string_from_chars(&ecs.as_slice()[start..ecs.len()]);
    assert(bare@ =~= extension@.skip(leading_dots(extension@) as int));
    let file_type = to_uppercase(bare.as_str());
    let mut description = String::from_str("Data file (");
    push_str(&mut description, file_type.as_str());
    push_str(&mut description, ") extracted from ");
    push_str(&mut description, source_url);
    proof {
        assert(description@ =~= placeholder_description(file_type@, source_url@));
    }
    Dataset {
        title,
        source_url: String::from_str(source_url),
        download_url: String::from_str(download_url),
        file_type,
        file_size_bytes: Some(file_size),
        metadata: DatasetMetadata {
            description,
            rows: shape.0,
            columns: shape.1,
            column_names: shape.2,
            format_quality: FormatQuality { machine_readable, open_format },
        },
    }
}

} // verus!
