use vstd::prelude::*;

use std::io::Cursor;

use crate::extractor::XmlItem;
use crate::textops::strings_view;

verus! {

// The readers of the `csv` and `xml` crates are read one call
// after another. Each is held here in a cursor that also records, as ghost
// state, the bytes it reads and how far it has read them; what each call
// gives is named as a function of those. Only this module makes and advances
// cursors, so the ghost state always describes the reader it is held with.

// ──────────────────────────────────────────────
// Outside types
// ──────────────────────────────────────────────

#[verifier::external_type_specification]
#[verifier::external_body]
#[verifier::reject_recursive_types(R)]
pub struct ExCsvReader<R>(csv::Reader<R>);

/// An `xml::reader::EventReader` over a byte slice, kept opaque; only the
/// wrappers below read from it.
#[verifier::external_body]
pub struct XmlEventSource<'a> {
    reader: xml::reader::EventReader<&'a [u8]>,
}

#[verifier::external_type_specification]
#[verifier::external_body]
#[verifier::reject_recursive_types(T)]
pub struct ExCursor<T>(Cursor<T>);

// ──────────────────────────────────────────────
// CSV
// ──────────────────────────────────────────────

/// The header fields that `csv::Reader::headers` gives as the first call on a
/// new reader (with headers) over `bytes`; `None` where it fails.
pub uninterp spec fn csv_header_fields(bytes: Seq<u8>) -> Option<Seq<Seq<char>>>;

/// What the `i`-th call (counting from 0) of `csv::Reader::read_record` gives
/// after the headers on a new reader over `bytes`: `None` at the end,
/// `Some(true)` for a record read, `Some(false)` for one that failed.
pub uninterp spec fn csv_record_at(bytes: Seq<u8>, i: nat) -> Option<bool>;

/// A CSV reader over `bytes`, with whether its headers were read and how many
/// records were read since.
pub struct CsvCursor<'a> {
    reader: csv::Reader<&'a [u8]>,
    bytes: Ghost<Seq<u8>>,
    headers_read: Ghost<bool>,
    records: Ghost<nat>,
}

impl<'a> CsvCursor<'a> {
    pub closed spec fn bytes(&self) -> Seq<u8> {
        self.bytes@
    }

    pub closed spec fn headers_read(&self) -> bool {
        self.headers_read@
    }

    pub closed spec fn records(&self) -> nat {
        self.records@
    }
}

/// `csv::ReaderBuilder::new().has_headers(true).from_reader(bytes)`.
#[verifier::external_body]
fn new_csv_reader<'a>(bytes: &'a [u8]) -> (r: csv::Reader<&'a [u8]>) {
    csv::ReaderBuilder::new().has_headers(true).from_reader(bytes)
}

/// A new CSV reader (with headers) over `bytes`.
pub(crate) fn open_csv<'a>(bytes: &'a [u8]) -> (r: CsvCursor<'a>)
    ensures
        r.bytes() == bytes@,
        !r.headers_read(),
        r.records() == 0,
{
    CsvCursor { reader: new_csv_reader(bytes), bytes: Ghost(bytes@), headers_read: Ghost(false), records: Ghost(0) }
}

/// `csv::Reader::headers`, as the first call on the reader: the claim is that
/// the fields are those named `csv_header_fields` of the reader's bytes.
#[verifier::external_body]
pub(crate) fn csv_headers(cursor: &mut CsvCursor) -> (r: Option<Vec<String>>)
    requires
        !old(cursor).headers_read(),
        old(cursor).records() == 0,
    ensures
        match r {
            Some(h) => csv_header_fields(old(cursor).bytes()) == Some(strings_view(h@)),
            None => csv_header_fields(old(cursor).bytes()) is None,
        },
        final(cursor).bytes() == old(cursor).bytes(),
        final(cursor).headers_read(),
        final(cursor).records() == 0,
{
    cursor.reader.headers().ok().map(|h| h.iter().map(|s| s.to_string()).collect())
}

/// `csv::Reader::read_record` into a fresh record: the claim is that the
/// outcome is the one named `csv_record_at` for the records read so far.
#[verifier::external_body]
pub(crate) fn csv_read_record(cursor: &mut CsvCursor) -> (r: Option<bool>)
    requires
        old(cursor).headers_read(),
    ensures
        r == csv_record_at(old(cursor).bytes(), old(cursor).records()),
        final(cursor).bytes() == old(cursor).bytes(),
        final(cursor).headers_read(),
        final(cursor).records() == old(cursor).records() + 1,
{
    match cursor.reader.read_record(&mut csv::StringRecord::new()) {
        Ok(true) => Some(true),
        Ok(false) => None,
        Err(_) => Some(false),
    }
}

// ──────────────────────────────────────────────
// XML
// ──────────────────────────────────────────────

/// The `i`-th event (counting from 0) that `xml::reader::EventReader::next`
/// gives on a new reader over `bytes`, told apart as an `XmlItem`.
pub uninterp spec fn xml_event_at(bytes: Seq<u8>, i: nat) -> XmlItem;

/// An XML event reader over `bytes` that has given `read` events.
pub struct XmlCursor<'a> {
    source: XmlEventSource<'a>,
    bytes: Ghost<Seq<u8>>,
    read: Ghost<nat>,
}

impl<'a> XmlCursor<'a> {
    pub closed spec fn bytes(&self) -> Seq<u8> {
        self.bytes@
    }

    pub closed spec fn read(&self) -> nat {
        self.read@
    }
}

/// `xml::reader::EventReader::new(bytes)`.
#[verifier::external_body]
fn new_event_source<'a>(bytes: &'a [u8]) -> (r: XmlEventSource<'a>) {
    XmlEventSource { reader: xml::reader::EventReader::new(bytes) }
}

/// A new XML event reader over `bytes`.
pub(crate) fn open_xml<'a>(bytes: &'a [u8]) -> (r: XmlCursor<'a>)
    ensures
        r.bytes() == bytes@,
        r.read() == 0,
{
    XmlCursor { source: new_event_source(bytes), bytes: Ghost(bytes@), read: Ghost(0) }
}

/// `xml::reader::EventReader::next`, each event told apart by its kind (a start
/// tag keeps its local name): the claim is that it is the event named
/// `xml_event_at` for the events read so far.
#[verifier::external_body]
pub(crate) fn xml_next(cursor: &mut XmlCursor) -> (r: XmlItem)
    ensures
        r == xml_event_at(old(cursor).bytes(), old(cursor).read()),
        final(cursor).bytes() == old(cursor).bytes(),
        final(cursor).read() == old(cursor).read() + 1,
{
    match cursor.source.reader.next() {
        Ok(xml::reader::XmlEvent::StartElement { name, .. }) => XmlItem::Start(name.local_name),
        Ok(xml::reader::XmlEvent::EndElement { .. }) => XmlItem::End,
        Ok(xml::reader::XmlEvent::EndDocument) => XmlItem::EndDocument,
        Ok(_) => XmlItem::Other,
        Err(_) => XmlItem::Error,
    }
}

} // verus!
