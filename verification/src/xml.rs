//! The results as XML.
//!
//! The document is written through the writer of `quick_xml`, into
//! memory. What that writer does is not proved here: each call of it
//! stands in a function of its own whose contract says what the call
//! writes, and what is proved is what the document holds given those
//! contracts. They speak only of a writer as this module makes it: one
//! without indentation that writes at the end of its buffer.

use crate::duration::duration_text;
use crate::result::TimeResult;
use crate::text::{decimal, push_decimal};
use vstd::prelude::*;
use vstd::utf8::{
    decode_utf8, encode_utf8, encode_utf8_decode_utf8, encode_utf8_valid_utf8, valid_utf8,
};

verus! {

/// The XML writer of `quick_xml`.
#[verifier::external_type_specification]
#[verifier::external_body]
#[verifier::reject_recursive_types(W)]
pub struct ExWriter<W>(quick_xml::writer::Writer<W>);

/// The cursor of `std::io`: a buffer in memory that is written like a file.
#[verifier::external_type_specification]
#[verifier::external_body]
#[verifier::reject_recursive_types(T)]
pub struct ExCursor<T>(std::io::Cursor<T>);

/// The error of `std::io`.
#[verifier::external_type_specification]
#[verifier::external_body]
pub struct ExIoError(std::io::Error);

/// The error of `String::from_utf8`.
#[verifier::external_type_specification]
#[verifier::external_body]
pub struct ExFromUtf8Error(std::string::FromUtf8Error);

/// The bytes in the buffer of a writer into memory.
pub uninterp spec fn written(w: quick_xml::writer::Writer<std::io::Cursor<Vec<u8>>>) -> Seq<u8>;

/// Whether a writer into memory is as `Writer::new` on a new cursor makes
/// it and as writing leaves it: it was made without indentation, and its
/// cursor stands at the end of its buffer, so that what it writes comes
/// after what the buffer holds.
pub uninterp spec fn plain(w: quick_xml::writer::Writer<std::io::Cursor<Vec<u8>>>) -> bool;

/// Whether `after` is the writer `before` once it has written `text`: a
/// plain writer whose buffer holds what it held and then the bytes of the
/// text.
pub open spec fn wrote(
    before: quick_xml::writer::Writer<std::io::Cursor<Vec<u8>>>,
    after: quick_xml::writer::Writer<std::io::Cursor<Vec<u8>>>,
    text: Seq<char>,
) -> bool {
    plain(after) && written(after) == written(before) + encode_utf8(text)
}

/// What stands for `c` in the text of an element and in the value of an
/// attribute: a name for each of `<`, `>`, `&`, `'` and `"`, and the
/// character itself for any other.
pub open spec fn escaped_char(c: char) -> Seq<char> {
    if c == '<' {
        "&lt;"@
    } else if c == '>' {
        "&gt;"@
    } else if c == '&' {
        "&amp;"@
    } else if c == '\'' {
        "&apos;"@
    } else if c == '"' {
        "&quot;"@
    } else {
        seq![c]
    }
}

/// `text` with each character replaced by what stands for it.
pub open spec fn escaped(text: Seq<char>) -> Seq<char>
    decreases text.len(),
{
    if text.len() == 0 {
        Seq::empty()
    } else {
        escaped(text.drop_last()) + escaped_char(text.last())
    }
}

/// The tag that opens the element `name`.
pub open spec fn start_tag(name: Seq<char>) -> Seq<char> {
    seq!['<'] + name + seq!['>']
}

/// The tag that closes the element `name`.
pub open spec fn end_tag(name: Seq<char>) -> Seq<char> {
    seq!['<', '/'] + name + seq!['>']
}

/// The element `name` with the text `text` in it.
pub open spec fn text_element(name: Seq<char>, text: Seq<char>) -> Seq<char> {
    start_tag(name) + escaped(text) + end_tag(name)
}

/// The element `name` with the attribute `type` of the value `kind` and
/// the text `text` in it.
pub open spec fn typed_text_element(name: Seq<char>, kind: Seq<char>, text: Seq<char>) -> Seq<
    char,
> {
    seq!['<'] + name + " type=\""@ + escaped(kind) + "\">"@ + escaped(text) + end_tag(name)
}

/// `Writer::new` on a new cursor over an empty buffer: a plain writer
/// whose buffer is empty.
#[verifier::external_body]
fn new_writer() -> (w: quick_xml::writer::Writer<std::io::Cursor<Vec<u8>>>)
    ensures
        plain(w),
        written(w) == Seq::<u8>::empty(),
{
    quick_xml::writer::Writer::new(std::io::Cursor::new(Vec::new()))
}

/// `Writer::write_event` with the start of an element, on a plain
/// writer: where it succeeds, the writer is plain still and has written
/// the bytes of `<`, the name and `>` after what its buffer held.
#[verifier::external_body]
fn write_start(
    w: &mut quick_xml::writer::Writer<std::io::Cursor<Vec<u8>>>,
    name: &str,
) -> (r: Result<(), std::io::Error>)
    requires
        plain(*old(w)),
    ensures
        r is Ok ==> plain(*final(w)) && written(*final(w)) == written(*old(w)) + encode_utf8(
            start_tag(name@),
        ),
{
    w.write_event(quick_xml::events::Event::Start(quick_xml::events::BytesStart::new(name)))
}

/// `Writer::write_event` with the end of an element, on a plain writer:
/// where it succeeds, the writer is plain still and has written the bytes
/// of `</`, the name and `>` after what its buffer held.
#[verifier::external_body]
fn write_end(
    w: &mut quick_xml::writer::Writer<std::io::Cursor<Vec<u8>>>,
    name: &str,
) -> (r: Result<(), std::io::Error>)
    requires
        plain(*old(w)),
    ensures
        r is Ok ==> plain(*final(w)) && written(*final(w)) == written(*old(w)) + encode_utf8(
            end_tag(name@),
        ),
{
    w.write_event(quick_xml::events::Event::End(quick_xml::events::BytesEnd::new(name)))
}

/// `Writer::create_element` and `ElementWriter::write_text_content`, on
/// a plain writer: where they succeed, the writer is plain still and has
/// written the bytes of the element with the text in it, the text
/// escaped, after what its buffer held.
#[verifier::external_body]
fn write_text(
    w: &mut quick_xml::writer::Writer<std::io::Cursor<Vec<u8>>>,
    name: &str,
    text: &str,
) -> (r: Result<(), std::io::Error>)
    requires
        plain(*old(w)),
    ensures
        r is Ok ==> plain(*final(w)) && written(*final(w)) == written(*old(w)) + encode_utf8(
            text_element(name@, text@),
        ),
{
    w.create_element(name).write_text_content(quick_xml::events::BytesText::new(text)).map(|_| ())
}

/// The same with `ElementWriter::with_attribute` for the attribute
/// `type`, on a plain writer: where they succeed, the writer is plain
/// still and has written the bytes of the element with the attribute and
/// the text, the value and the text escaped, after what its buffer held.
#[verifier::external_body]
fn write_typed_text(
    w: &mut quick_xml::writer::Writer<std::io::Cursor<Vec<u8>>>,
    name: &str,
    kind: &str,
    text: &str,
) -> (r: Result<(), std::io::Error>)
    requires
        plain(*old(w)),
    ensures
        r is Ok ==> plain(*final(w)) && written(*final(w)) == written(*old(w)) + encode_utf8(
            typed_text_element(name@, kind@, text@),
        ),
{
    w.create_element(name).with_attribute(("type", kind)).write_text_content(
        quick_xml::events::BytesText::new(text),
    ).map(|_| ())
}

/// `Writer::into_inner`, and `Cursor::into_inner` on what it gives: the
/// buffer of the writer.
#[verifier::external_body]
fn into_bytes(w: quick_xml::writer::Writer<std::io::Cursor<Vec<u8>>>) -> (bytes: Vec<u8>)
    ensures
        bytes@ == written(w),
{
    w.into_inner().into_inner()
}

/// `String::from_utf8`: the text that the bytes spell, or an error where
/// they spell none.
#[verifier::external_body]
fn string_from_utf8(bytes: Vec<u8>) -> (r: Result<String, std::string::FromUtf8Error>)
    ensures
        r is Ok == valid_utf8(bytes@),
        r matches Ok(s) ==> s@ == decode_utf8(bytes@),
{
    String::from_utf8(bytes)
}

/// Why the results could not be turned into XML.
#[derive(Debug)]
pub enum XmlConversionError {
    /// Writing failed.
    Io(std::io::Error),
    /// What was written is no text.
    FromUtf8(std::string::FromUtf8Error),
}

/// One result as the document shows it. The addresses and the percentage
/// are held as the text that is to be shown.
#[derive(Debug, Clone, PartialEq, Eq)]
pub struct XmlResultEntry {
    pub name: String,
    pub ip: String,
    pub last_resolved_ip: String,
    pub total_requests: i32,
    pub successful_requests: i32,
    pub successful_requests_percentage: String,
    pub first_duration: TimeResult,
    pub average_duration: TimeResult,
}

/// `n` in decimal, with a minus sign before it where it is negative.
pub open spec fn signed_decimal(n: int) -> Seq<char> {
    if n < 0 {
        seq!['-'] + decimal((-n) as nat)
    } else {
        decimal(n as nat)
    }
}

/// `succeeded` or `failed`.
pub open spec fn type_text(time: TimeResult) -> Seq<char> {
    if time is Succeeded {
        "succeeded"@
    } else {
        "failed"@
    }
}

/// What a duration is shown as: the duration in its largest fitting
/// unit, or the text of the error.
pub open spec fn time_text(time: TimeResult) -> Seq<char> {
    match time {
        TimeResult::Succeeded(d) => duration_text(d@),
        TimeResult::Failed(error) => error@,
    }
}

/// The counts of an entry as XML.
pub open spec fn requests_xml(e: XmlResultEntry) -> Seq<char> {
    start_tag("SuccessfulRequests"@) + text_element(
        "TotalRequests"@,
        signed_decimal(e.total_requests as int),
    ) + text_element("SuccessfulRequests"@, signed_decimal(e.successful_requests as int))
        + text_element("SuccessfulRequestsPercentage"@, e.successful_requests_percentage@)
        + end_tag("SuccessfulRequests"@)
}

/// The name and the addresses of an entry as XML.
pub open spec fn identity_xml(e: XmlResultEntry) -> Seq<char> {
    text_element("Name"@, e.name@) + text_element("Ip"@, e.ip@) + text_element(
        "LastResolvedIp"@,
        e.last_resolved_ip@,
    )
}

/// The durations of an entry as XML.
pub open spec fn durations_xml(e: XmlResultEntry) -> Seq<char> {
    typed_text_element(
        "FirstDuration"@,
        type_text(e.first_duration),
        time_text(e.first_duration),
    ) + typed_text_element(
        "AverageDuration"@,
        type_text(e.average_duration),
        time_text(e.average_duration),
    )
}

/// An entry as XML.
pub open spec fn entry_xml(e: XmlResultEntry) -> Seq<char> {
    start_tag("ResultEntry"@) + identity_xml(e) + requests_xml(e) + durations_xml(e) + end_tag(
        "ResultEntry"@,
    )
}

/// The entries as XML, one after the other.
pub open spec fn entries_xml(es: Seq<XmlResultEntry>) -> Seq<char>
    decreases es.len(),
{
    if es.len() == 0 {
        Seq::empty()
    } else {
        entries_xml(es.drop_last()) + entry_xml(es.last())
    }
}

/// The whole document: the entries inside one element.
pub open spec fn document_xml(es: Seq<XmlResultEntry>) -> Seq<char> {
    start_tag("DnsBenchResultEntries"@) + entries_xml(es) + end_tag("DnsBenchResultEntries"@)
}

/// `n` in decimal, with a minus sign before it where it is negative.
fn signed_decimal_text(n: i32) -> (s: String)
    ensures
        s@ == signed_decimal(n as int),
{
    let mut s = String::new();
    if n < 0 {
        s.push('-');
        push_decimal(&mut s, (-(n as i64)) as u128);
        assert(s@ =~= signed_decimal(n as int));
    } else {
        push_decimal(&mut s, n as u128);
        assert(s@ =~= signed_decimal(n as int));
    }
    s
}

impl XmlResultEntry {
    /// Writes the name and the addresses.
    fn write_identity(&self, writer: &mut quick_xml::writer::Writer<std::io::Cursor<Vec<u8>>>) -> (r:
        Result<(), std::io::Error>)
        requires
            plain(*old(writer)),
        ensures
            r is Ok ==> wrote(*old(writer), *final(writer), identity_xml(*self)),
    {
        let ghost start = written(*writer);
        if let Err(e) = write_text(writer, "Name", self.name.as_str()) {
            return Err(e);
        }
        if let Err(e) = write_text(writer, "Ip", self.ip.as_str()) {
            return Err(e);
        }
        if let Err(e) = write_text(writer, "LastResolvedIp", self.last_resolved_ip.as_str()) {
            return Err(e);
        }
        proof {
            let name = text_element("Name"@, self.name@);
            let ip = text_element("Ip"@, self.ip@);
            let last = text_element("LastResolvedIp"@, self.last_resolved_ip@);
            lemma_written_in_turn(start, name, ip);
            lemma_written_in_turn(start, name + ip, last);
        }
        Ok(())
    }

    /// Writes the counts.
    fn write_requests(&self, writer: &mut quick_xml::writer::Writer<std::io::Cursor<Vec<u8>>>) -> (r:
        Result<(), std::io::Error>)
        requires
            plain(*old(writer)),
        ensures
            r is Ok ==> wrote(*old(writer), *final(writer), requests_xml(*self)),
    {
        let ghost start = written(*writer);
        let total = signed_decimal_text(self.total_requests);
        let successful = signed_decimal_text(self.successful_requests);
        if let Err(e) = write_start(writer, "SuccessfulRequests") {
            return Err(e);
        }
        if let Err(e) = write_text(writer, "TotalRequests", total.as_str()) {
            return Err(e);
        }
        if let Err(e) = write_text(writer, "SuccessfulRequests", successful.as_str()) {
            return Err(e);
        }
        if let Err(e) = write_text(
            writer,
            "SuccessfulRequestsPercentage",
            self.successful_requests_percentage.as_str(),
        ) {
            return Err(e);
        }
        if let Err(e) = write_end(writer, "SuccessfulRequests") {
            return Err(e);
        }
        proof {
            let open = start_tag("SuccessfulRequests"@);
            let all = text_element("TotalRequests"@, signed_decimal(self.total_requests as int));
            let good = text_element(
                "SuccessfulRequests"@,
                signed_decimal(self.successful_requests as int),
            );
            let share = text_element(
                "SuccessfulRequestsPercentage"@,
                self.successful_requests_percentage@,
            );
            let close = end_tag("SuccessfulRequests"@);
            lemma_written_in_turn(start, open, all);
            lemma_written_in_turn(start, open + all, good);
            lemma_written_in_turn(start, open + all + good, share);
            lemma_written_in_turn(start, open + all + good + share, close);
        }
        Ok(())
    }

    /// Writes the durations.
    fn write_durations(&self, writer: &mut quick_xml::writer::Writer<std::io::Cursor<Vec<u8>>>) -> (r:
        Result<(), std::io::Error>)
        requires
            plain(*old(writer)),
        ensures
            r is Ok ==> wrote(*old(writer), *final(writer), durations_xml(*self)),
    {
        let ghost start = written(*writer);
        let first = self.first_duration.to_text();
        let average = self.average_duration.to_text();
        if let Err(e) = write_typed_text(
            writer,
            "FirstDuration",
            self.first_duration.get_xml_type_str(),
            first.as_str(),
        ) {
            return Err(e);
        }
        if let Err(e) = write_typed_text(
            writer,
            "AverageDuration",
            self.average_duration.get_xml_type_str(),
            average.as_str(),
        ) {
            return Err(e);
        }
        proof {
            lemma_written_in_turn(
                start,
                typed_text_element(
                    "FirstDuration"@,
                    type_text(self.first_duration),
                    time_text(self.first_duration),
                ),
                typed_text_element(
                    "AverageDuration"@,
                    type_text(self.average_duration),
                    time_text(self.average_duration),
                ),
            );
        }
        Ok(())
    }

    /// Writes the entry. Where nothing fails, the writer has written the
    /// entry after what its buffer held.
    fn write_as_xml(
        &self,
        writer: &mut quick_xml::writer::Writer<std::io::Cursor<Vec<u8>>>,
    ) -> (r: Result<(), std::io::Error>)
        requires
            plain(*old(writer)),
        ensures
            r is Ok ==> wrote(*old(writer), *final(writer), entry_xml(*self)),
    {
        let ghost start = written(*writer);
        if let Err(e) = write_start(writer, "ResultEntry") {
            return Err(e);
        }
        if let Err(e) = self.write_identity(writer) {
            return Err(e);
        }
        if let Err(e) = self.write_requests(writer) {
            return Err(e);
        }
        if let Err(e) = self.write_durations(writer) {
            return Err(e);
        }
        if let Err(e) = write_end(writer, "ResultEntry") {
            return Err(e);
        }
        proof {
            let open = start_tag("ResultEntry"@);
            lemma_written_in_turn(start, open, identity_xml(*self));
            lemma_written_in_turn(start, open + identity_xml(*self), requests_xml(*self));
            lemma_written_in_turn(
                start,
                open + identity_xml(*self) + requests_xml(*self),
                durations_xml(*self),
            );
            lemma_written_in_turn(
                start,
                open + identity_xml(*self) + requests_xml(*self) + durations_xml(*self),
                end_tag("ResultEntry"@),
            );
        }
        Ok(())
    }
}

/// The document that shows the entries, in their order.
///
/// Writing into memory is not known here to succeed. Where it does, the
/// text returned is the document. Where it does not, the error is that of
/// the writing: what was written is text, so reading it as text does not
/// fail.
pub fn convert_result_entries_to_xml_string(result_entries: Vec<XmlResultEntry>) -> (r: Result<
    String,
    XmlConversionError,
>)
    ensures
        r matches Ok(s) ==> s@ == document_xml(result_entries@),
        r matches Err(e) ==> e is Io,
{
    let mut writer = new_writer();
    let written = write_document(&mut writer, &result_entries);
    let text = string_from_utf8(into_bytes(writer));
    proof {
        if written is Ok {
            let document = document_xml(result_entries@);
            assert(Seq::<u8>::empty() + encode_utf8(document) =~= encode_utf8(document));
            encode_utf8_valid_utf8(document);
            encode_utf8_decode_utf8(document);
        }
    }
    conversion_result(written, text)
}

/// Writes the document. Where nothing fails, the writer has written the
/// document after what its buffer held.
fn write_document(
    writer: &mut quick_xml::writer::Writer<std::io::Cursor<Vec<u8>>>,
    result_entries: &Vec<XmlResultEntry>,
) -> (r: Result<(), std::io::Error>)
    requires
        plain(*old(writer)),
    ensures
        r is Ok ==> wrote(*old(writer), *final(writer), document_xml(result_entries@)),
{
    let ghost start = written(*writer);
    let ghost open = start_tag("DnsBenchResultEntries"@);
    if let Err(e) = write_start(writer, "DnsBenchResultEntries") {
        return Err(e);
    }
    let mut i: usize = 0;
    assert(open + entries_xml(result_entries@.take(0)) =~= open);
    while i < result_entries.len()
        invariant
            i <= result_entries.len(),
            plain(*writer),
            written(*writer) == start + encode_utf8(
                open + entries_xml(result_entries@.take(i as int)),
            ),
        decreases result_entries.len() - i,
    {
        assert(result_entries@.take(i + 1).drop_last() =~= result_entries@.take(i as int));
        if let Err(e) = result_entries[i].write_as_xml(writer) {
            return Err(e);
        }
        proof {
            let before = open + entries_xml(result_entries@.take(i as int));
            lemma_written_in_turn(start, before, entry_xml(result_entries@[i as int]));
            assert(before + entry_xml(result_entries@[i as int]) =~= open + entries_xml(
                result_entries@.take(i + 1),
            ));
        }
        i += 1;
    }
    assert(result_entries@.take(i as int) =~= result_entries@);
    if let Err(e) = write_end(writer, "DnsBenchResultEntries") {
        return Err(e);
    }
    proof {
        lemma_written_in_turn(
            start,
            open + entries_xml(result_entries@),
            end_tag("DnsBenchResultEntries"@),
        );
    }
    Ok(())
}

/// The bytes of two texts, one after the other, are the bytes of the two
/// texts as one.
proof fn lemma_encode_concat(x: Seq<char>, y: Seq<char>)
    ensures
        encode_utf8(x + y) == encode_utf8(x) + encode_utf8(y),
    decreases x.len(),
{
    if x.len() == 0 {
        assert(x + y =~= y);
        assert(encode_utf8(x) + encode_utf8(y) =~= encode_utf8(y));
    } else {
        lemma_encode_concat(x.drop_first(), y);
        assert((x + y).drop_first() =~= x.drop_first() + y);
        assert(encode_utf8(x + y) =~= encode_utf8(x) + encode_utf8(y));
    }
}

/// What holds the bytes of one text and then those of another after
/// `held`, holds the bytes of the two texts as one after `held`.
proof fn lemma_written_in_turn(held: Seq<u8>, x: Seq<char>, y: Seq<char>)
    ensures
        held + encode_utf8(x) + encode_utf8(y) == held + encode_utf8(x + y),
{
    lemma_encode_concat(x, y);
    assert(held + encode_utf8(x) + encode_utf8(y) =~= held + (encode_utf8(x) + encode_utf8(y)));
}

/// What the conversion gives, given what came of writing the document
/// and what came of reading the bytes written as text: the error of the
/// writing, where it failed; else the text, or the error of the reading.
pub open spec fn conversion_of(
    written: Result<(), std::io::Error>,
    text: Result<String, std::string::FromUtf8Error>,
) -> Result<String, XmlConversionError> {
    match written {
        Err(e) => Err(XmlConversionError::Io(e)),
        Ok(_) => match text {
            Ok(s) => Ok(s),
            Err(e) => Err(XmlConversionError::FromUtf8(e)),
        },
    }
}

/// What the conversion gives, given what came of writing the document
/// and what came of reading the bytes written as text. A failure of the
/// writing comes first: what was written then is not looked at.
pub fn conversion_result(
    written: Result<(), std::io::Error>,
    text: Result<String, std::string::FromUtf8Error>,
) -> (r: Result<String, XmlConversionError>)
    ensures
        r == conversion_of(written, text),
{
    match written {
        Err(e) => Err(XmlConversionError::Io(e)),
        Ok(_) => match text {
            Ok(s) => Ok(s),
            Err(e) => Err(XmlConversionError::FromUtf8(e)),
        },
    }
}

} // verus!
