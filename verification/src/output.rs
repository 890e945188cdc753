//! Rendering a batch of secrets as the bytes of a text, JSON or CSV file.
//!
//! Nothing here opens or writes a file. Each renderer returns the complete
//! contents for the caller to write out, so nothing is ever half written.
//! What the JSON and CSV files hold is stated byte for byte, and each reads
//! back as the batch it was rendered from.

use crate::csv_reader::{csv_read, lemma_csv_round_trip};
use crate::json_reader::{json_read, lemma_json_round_trip};
use vstd::prelude::*;
use vstd::utf8::encode_utf8;

verus! {

/// The file format to render a batch in.
#[derive(Clone, Copy, Debug, PartialEq, Eq, Structural)]
pub enum OutputFormat {
    /// One secret per line.
    Text,
    /// A pretty-printed JSON array of strings.
    Json,
    /// One single-field CSV record per secret.
    Csv,
}

/// What a serializer reports when it gives up on a batch. The renderers of
/// this module hand the serializers nothing they can give up on, and their
/// contracts say so; the type is here because the serializers' own
/// interfaces speak of failure.
#[derive(Debug)]
pub struct OutputError {
    /// The format that was being rendered.
    pub format: OutputFormat,
    /// What the serializer reported.
    pub reason: String,
}

/// `serde_json::Error`, opaque to the proofs.
#[verifier::external_type_specification]
#[verifier::external_body]
pub struct ExJsonError(serde_json::Error);

/// `csv::Error`, opaque to the proofs.
#[verifier::external_type_specification]
#[verifier::external_body]
pub struct ExCsvError(csv::Error);

/// A `csv::Writer` that writes into a byte vector. The proofs see it only
/// through `csv_written`.
#[verifier::external_body]
pub struct CsvStream {
    writer: csv::Writer<Vec<u8>>,
}


/// Every byte that the writer of `stream` has produced so far, whether it
/// still buffers it or has passed it on to its byte vector.
pub uninterp spec fn csv_written(stream: CsvStream) -> Seq<u8>;

/// The UTF-8 bytes of each secret of `batch`, in order.
pub open spec fn utf8_of_each(batch: Seq<Seq<char>>) -> Seq<Seq<u8>> {
    Seq::new(batch.len(), |i: int| encode_utf8(batch[i]))
}

/// The bytes that force a CSV field into quotes: the delimiter, the quote,
/// and the two characters that end a line.
pub open spec fn csv_is_special(byte: u8) -> bool {
    byte == 0x2c || byte == 0x22 || byte == 0x0d || byte == 0x0a
}

/// Whether a CSV field has to be quoted.
pub open spec fn csv_needs_quotes(field: Seq<u8>) -> bool {
    exists|i: int| 0 <= i < field.len() && csv_is_special(#[trigger] field[i])
}

/// `field` with every quote doubled.
pub open spec fn csv_double_quotes(field: Seq<u8>) -> Seq<u8>
    decreases field.len(),
{
    if field.len() == 0 {
        Seq::empty()
    } else if field.first() == 0x22 {
        seq![0x22u8, 0x22u8] + csv_double_quotes(field.drop_first())
    } else {
        seq![field.first()] + csv_double_quotes(field.drop_first())
    }
}

/// The CSV record that holds `field` and nothing else, line feed included.
/// An empty field is written as a pair of quotes, so that the record is not
/// an empty line.
pub open spec fn csv_record(field: Seq<u8>) -> Seq<u8> {
    if field.len() == 0 {
        seq![0x22u8, 0x22u8, 0x0au8]
    } else if csv_needs_quotes(field) {
        seq![0x22u8] + csv_double_quotes(field) + seq![0x22u8, 0x0au8]
    } else {
        field.push(0x0au8)
    }
}

/// The lowercase hexadecimal digit for `n`, which is below sixteen.
pub open spec fn json_hex_digit(n: int) -> u8 {
    if n < 10 {
        (0x30 + n) as u8
    } else {
        (0x61 + (n - 10)) as u8
    }
}

/// What one byte of a string becomes inside a JSON string. The quote and
/// the backslash get a backslash in front; backspace, tab, line feed, form
/// feed and carriage return get their short escapes; every other byte below
/// 0x20 becomes `\u00` and two hexadecimal digits; all else stays as it is.
pub open spec fn json_escape_byte(byte: u8) -> Seq<u8> {
    if byte == 0x22 {
        seq![0x5cu8, 0x22u8]
    } else if byte == 0x5c {
        seq![0x5cu8, 0x5cu8]
    } else if byte == 0x08 {
        seq![0x5cu8, 0x62u8]
    } else if byte == 0x09 {
        seq![0x5cu8, 0x74u8]
    } else if byte == 0x0a {
        seq![0x5cu8, 0x6eu8]
    } else if byte == 0x0c {
        seq![0x5cu8, 0x66u8]
    } else if byte == 0x0d {
        seq![0x5cu8, 0x72u8]
    } else if byte < 0x20 {
        seq![
            0x5cu8,
            0x75u8,
            0x30u8,
            0x30u8,
            json_hex_digit(byte as int / 16),
            json_hex_digit(byte as int % 16),
        ]
    } else {
        seq![byte]
    }
}

/// `bytes` with every byte escaped as a JSON string requires.
pub open spec fn json_escape(bytes: Seq<u8>) -> Seq<u8>
    decreases bytes.len(),
{
    if bytes.len() == 0 {
        Seq::empty()
    } else {
        json_escape_byte(bytes.first()) + json_escape(bytes.drop_first())
    }
}

/// The JSON string for `secret`: its UTF-8, escaped, between two quotes.
pub open spec fn json_string(secret: Seq<char>) -> Seq<u8> {
    seq![0x22u8] + json_escape(encode_utf8(secret)) + seq![0x22u8]
}

/// The elements of a pretty-printed array: each on a line of its own,
/// indented by two spaces, with a comma after every element but the last.
pub open spec fn json_elements(batch: Seq<Seq<char>>) -> Seq<u8>
    decreases batch.len(),
{
    if batch.len() == 0 {
        Seq::empty()
    } else {
        seq![0x0au8, 0x20u8, 0x20u8] + json_string(batch.first()) + (if batch.len() == 1 {
            Seq::empty()
        } else {
            seq![0x2cu8] + json_elements(batch.drop_first())
        })
    }
}

/// The JSON file for `batch`: `[]` for an empty batch, otherwise an opening
/// bracket, the elements, a line feed and the closing bracket.
pub open spec fn json_pretty(batch: Seq<Seq<char>>) -> Seq<u8> {
    if batch.len() == 0 {
        seq![0x5bu8, 0x5du8]
    } else {
        seq![0x5bu8] + json_elements(batch) + seq![0x0au8, 0x5du8]
    }
}

/// The text file for `batch`: each secret in UTF-8, followed by a line feed.
pub open spec fn text_bytes(batch: Seq<Seq<char>>) -> Seq<u8>
    decreases batch.len(),
{
    if batch.len() == 0 {
        Seq::empty()
    } else {
        text_bytes(batch.drop_last()) + encode_utf8(batch.last()).push(0x0au8)
    }
}

/// The CSV file for `batch`: one single-field record per secret.
pub open spec fn csv_bytes(batch: Seq<Seq<char>>) -> Seq<u8>
    decreases batch.len(),
{
    if batch.len() == 0 {
        Seq::empty()
    } else {
        csv_bytes(batch.drop_last()) + csv_record(encode_utf8(batch.last()))
    }
}

/// The file for `batch` in `format`.
pub open spec fn rendering(batch: Seq<Seq<char>>, format: OutputFormat) -> Seq<u8> {
    match format {
        OutputFormat::Text => text_bytes(batch),
        OutputFormat::Json => json_pretty(batch),
        OutputFormat::Csv => csv_bytes(batch),
    }
}

/// One call of `serde_json::to_writer_pretty`, with a byte vector as the
/// writer and a list of strings as the value.
///
/// Trusted: the call succeeds, and what it appends to `sink` is the
/// pretty-printed JSON array of `secrets`. The serializer fails only when
/// its writer fails or when the value refuses to be serialized; a byte
/// vector takes every write and a list of strings always serializes.
#[verifier::external_body]
fn json_to_writer_pretty(sink: &mut Vec<u8>, secrets: &Vec<String>) -> (r: Result<
    (),
    serde_json::Error,
>)
    ensures
        r is Ok && final(sink)@ == old(sink)@ + json_pretty(secrets.deep_view()),
{
    serde_json::to_writer_pretty(sink, secrets)
}

/// What `serde_json::Error` prints as.
#[verifier::external_body]
fn json_error_text(error: &serde_json::Error) -> String {
    error.to_string()
}

/// What `csv::Error` prints as.
#[verifier::external_body]
fn csv_error_text(error: &csv::Error) -> String {
    error.to_string()
}

/// `csv::Writer::from_writer` on an empty byte vector.
///
/// Trusted: a new writer, in the default configuration, has produced nothing.
#[verifier::external_body]
fn csv_from_writer() -> (stream: CsvStream)
    ensures
        csv_written(stream) == Seq::<u8>::empty(),
{
    CsvStream { writer: csv::Writer::from_writer(Vec::new()) }
}

/// One call of `csv::Writer::write_record` with a record of one field.
///
/// Trusted: the call succeeds, and the writer has produced one more record.
/// In the default configuration that record is the field, put in quotes
/// with its own quotes doubled if it holds a comma, a quote, a carriage
/// return or a line feed, written as two quotes if it is empty, and ended
/// by a line feed. The writer fails only when its sink fails or when
/// records differ in their number of fields; the sink is a byte vector and
/// every record written through here has one field.
#[verifier::external_body]
fn csv_write_record(stream: &mut CsvStream, field: &String) -> (r: Result<(), csv::Error>)
    ensures
        r is Ok && csv_written(*final(stream)) == csv_written(*old(stream)) + csv_record(
            encode_utf8(field@),
        ),
{
    stream.writer.write_record(&[field])
}

/// One call of `csv::Writer::into_inner`, which flushes the writer and gives
/// back its sink.
///
/// Trusted: the call succeeds, and the sink holds everything the writer has
/// produced, in order. It fails only when the flush into the sink fails,
/// and a byte vector takes every write.
#[verifier::external_body]
fn csv_into_inner(stream: CsvStream) -> (r: Result<Vec<u8>, csv::Error>)
    ensures
        r is Ok && r->Ok_0@ == csv_written(stream),
{
    match stream.writer.into_inner() {
        Ok(bytes) => Ok(bytes),
        Err(e) => Err(csv::Error::from(e.into_error())),
    }
}

impl OutputError {
    /// The error for a failure of the JSON serializer.
    pub fn from_json(error: serde_json::Error) -> (e: OutputError)
        ensures
            e.format == OutputFormat::Json,
    {
        OutputError { format: OutputFormat::Json, reason: json_error_text(&error) }
    }

    /// The error for a failure of the CSV writer.
    pub fn from_csv(error: csv::Error) -> (e: OutputError)
        ensures
            e.format == OutputFormat::Csv,
    {
        OutputError { format: OutputFormat::Csv, reason: csv_error_text(&error) }
    }
}

/// Renders `batch` as text: one secret per line, in order, each line ended by
/// a line feed, with nothing escaped.
pub fn render_text(batch: &Vec<String>) -> (bytes: Vec<u8>)
    ensures
        bytes@ == text_bytes(batch.deep_view()),
{
    let mut bytes: Vec<u8> = Vec::new();
    let mut i: usize = 0;
    while i < batch.len()
        invariant
            i <= batch@.len(),
            bytes@ == text_bytes(batch.deep_view().take(i as int)),
        decreases batch@.len() - i,
    {
        proof {
            let next = batch.deep_view().take(i + 1);
            assert(next.drop_last() == batch.deep_view().take(i as int));
            assert(next.last() == batch@[i as int]@);
        }
        bytes.extend_from_slice(batch[i].as_str().as_bytes());
        bytes.push(0x0au8);
        i += 1;
    }
    assert(batch.deep_view().take(i as int) == batch.deep_view());
    bytes
}

/// Renders `batch` as JSON: an array of strings, pretty-printed with an
/// indentation of two spaces, in order, every string escaped as JSON
/// requires.
///
/// The result is always `Ok`: the serializer reports errors through its
/// interface, but has none to report when it writes strings into memory.
pub fn render_json(batch: &Vec<String>) -> (r: Result<Vec<u8>, OutputError>)
    ensures
        r matches Ok(bytes) && bytes@ == json_pretty(batch.deep_view()),
        r matches Ok(bytes) && json_read(bytes@) == Some(utf8_of_each(batch.deep_view())),
{
    proof {
        lemma_json_round_trip(batch.deep_view());
    }
    let mut bytes: Vec<u8> = Vec::new();
    match json_to_writer_pretty(&mut bytes, batch) {
        Ok(()) => Ok(bytes),
        Err(e) => Err(OutputError::from_json(e)),
    }
}

/// Renders `batch` as CSV: one record per secret, in order, each record a
/// single field that is quoted where CSV requires it.
///
/// The result is always `Ok`: the writer reports errors through its
/// interface, but has none to report when it writes single fields into
/// memory.
pub fn render_csv(batch: &Vec<String>) -> (r: Result<Vec<u8>, OutputError>)
    ensures
        r matches Ok(bytes) && bytes@ == csv_bytes(batch.deep_view()),
        r matches Ok(bytes) && csv_read(bytes@) == Some(utf8_of_each(batch.deep_view())),
{
    proof {
        lemma_csv_round_trip(batch.deep_view());
    }
    let mut stream = csv_from_writer();
    let mut i: usize = 0;
    while i < batch.len()
        invariant
            i <= batch@.len(),
            csv_written(stream) == csv_bytes(batch.deep_view().take(i as int)),
        decreases batch@.len() - i,
    {
        proof {
            let next = batch.deep_view().take(i + 1);
            assert(next.drop_last() == batch.deep_view().take(i as int));
            assert(next.last() == batch@[i as int]@);
        }
        match csv_write_record(&mut stream, &batch[i]) {
            Ok(()) => {},
            Err(e) => {
                return Err(OutputError::from_csv(e));
            },
        }
        i += 1;
    }
    assert(batch.deep_view().take(i as int) == batch.deep_view());
    match csv_into_inner(stream) {
        Ok(bytes) => Ok(bytes),
        Err(e) => Err(OutputError::from_csv(e)),
    }
}

/// Renders `batch` in `format`. The result is always `Ok`, and holds the
/// complete contents of the file.
pub fn render(batch: &Vec<String>, format: OutputFormat) -> (r: Result<Vec<u8>, OutputError>)
    ensures
        r matches Ok(bytes) && bytes@ == rendering(batch.deep_view(), format),
{
    match format {
        OutputFormat::Text => Ok(render_text(batch)),
        OutputFormat::Json => render_json(batch),
        OutputFormat::Csv => render_csv(batch),
    }
}

} // verus!
