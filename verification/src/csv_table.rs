//! Tables of text fields as CSV bytes.
//!
//! The writing is the `csv` crate's, with a comma between fields, a line
//! feed after each record, and quotes where a field needs them. Records may
//! differ in their number of fields.

use vstd::prelude::*;
use vstd::utf8::encode_utf8;

verus! {

/// A `csv::Writer` that writes into a byte vector. What it holds is known
/// only by [`csv_written`] and [`csv_open_fields`].
#[verifier::external_body]
pub struct CsvSink {
    writer: csv::Writer<Vec<u8>>,
}

#[verifier::external_type_specification]
#[verifier::external_body]
pub struct ExCsvError(csv::Error);

/// The bytes that a sink has taken so far, those that its writer still
/// buffers included.
pub uninterp spec fn csv_written(sink: CsvSink) -> Seq<u8>;

/// The number of fields that a sink has taken of a record that it has not
/// completed.
pub uninterp spec fn csv_open_fields(sink: CsvSink) -> nat;

/// The fields of a record, each as a sequence of characters.
pub open spec fn record_texts(record: Seq<String>) -> Seq<Seq<char>> {
    Seq::new(record.len(), |i: int| record[i]@)
}

/// The records of a table, each as its fields.
pub open spec fn table_texts(rows: Seq<Vec<String>>) -> Seq<Seq<Seq<char>>> {
    Seq::new(rows.len(), |i: int| record_texts(rows[i]@))
}

/// `c` is a comma, a double quote, a carriage return or a line feed: a
/// field that holds one is written in quotes.
pub open spec fn is_special(c: char) -> bool {
    c == ',' || c == '"' || c == '\r' || c == '\n'
}

/// `field` holds a character that calls for quotes.
pub open spec fn needs_quotes(field: Seq<char>) -> bool {
    exists|i: int| 0 <= i < field.len() && is_special(#[trigger] field[i])
}

/// `field` with every double quote written twice.
pub open spec fn double_quotes(field: Seq<char>) -> Seq<char>
    decreases field.len(),
{
    if field.len() == 0 {
        Seq::empty()
    } else if field.last() == '"' {
        double_quotes(field.drop_last()).push('"').push('"')
    } else {
        double_quotes(field.drop_last()).push(field.last())
    }
}

/// A field as it is written: as it stands, or, where it needs quotes,
/// between two quotes and with its own quotes doubled.
pub open spec fn csv_field(field: Seq<char>) -> Seq<char> {
    if needs_quotes(field) {
        seq!['"'] + double_quotes(field) + seq!['"']
    } else {
        field
    }
}

/// The fields as they are written, with a comma between each two
/// neighbours.
pub open spec fn csv_fields(fields: Seq<Seq<char>>) -> Seq<char>
    decreases fields.len(),
{
    if fields.len() == 0 {
        Seq::empty()
    } else if fields.len() == 1 {
        csv_field(fields[0])
    } else {
        csv_fields(fields.drop_last()) + seq![','] + csv_field(fields.last())
    }
}

/// One record as it is written: its fields, then a line feed. A record that
/// would stand as an empty line, having no field or one empty field, is
/// written as two quotes.
pub open spec fn csv_record(fields: Seq<Seq<char>>) -> Seq<char> {
    if csv_fields(fields).len() == 0 {
        seq!['"', '"', '\n']
    } else {
        csv_fields(fields).push('\n')
    }
}

/// The records as they are written, one after another.
pub open spec fn csv_text(rows: Seq<Seq<Seq<char>>>) -> Seq<char>
    decreases rows.len(),
{
    if rows.len() == 0 {
        Seq::empty()
    } else {
        csv_text(rows.drop_last()) + csv_record(rows.last())
    }
}

/// The UTF-8 bytes of two texts, one after the other, are those of the
/// first followed by those of the second.
pub proof fn encode_utf8_of_concat(a: Seq<char>, b: Seq<char>)
    ensures
        encode_utf8(a + b) == encode_utf8(a) + encode_utf8(b),
    decreases a.len(),
{
    if a.len() == 0 {
        assert(a + b =~= b);
        assert(encode_utf8(a) + encode_utf8(b) =~= encode_utf8(b));
    } else {
        encode_utf8_of_concat(a.drop_first(), b);
        assert((a + b).drop_first() =~= a.drop_first() + b);
        assert(encode_utf8(a + b) =~= encode_utf8(a) + encode_utf8(b));
    }
}

/// `csv::WriterBuilder::new`, `flexible(true)` and `from_writer` on an empty
/// `Vec<u8>`: a sink that has taken nothing yet, and that takes records of
/// any number of fields.
#[verifier::external_body]
fn csv_sink_new() -> (sink: CsvSink)
    ensures
        csv_written(sink) == Seq::<u8>::empty(),
        csv_open_fields(sink) == 0,
{
    CsvSink { writer: csv::WriterBuilder::new().flexible(true).from_writer(Vec::new()) }
}

/// `csv::Writer::write_record`, between two records, on a writer that is
/// flexible and has the default settings otherwise. The record is accepted
/// and adds its bytes to those written: the UTF-8 form of its fields, quoted
/// where a field holds a comma, a quote, a carriage return or a line feed,
/// with commas between them and a line feed at the end. A `Vec<u8>` takes
/// every write, so nothing fails.
#[verifier::external_body]
fn csv_write_record(sink: &mut CsvSink, record: &Vec<String>) -> (result: Result<(), csv::Error>)
    requires
        csv_open_fields(*old(sink)) == 0,
    ensures
        result is Ok,
        csv_written(*final(sink)) == csv_written(*old(sink)) + encode_utf8(
            csv_record(record_texts(record@)),
        ),
        csv_open_fields(*final(sink)) == 0,
{
    sink.writer.write_record(record)
}

/// `csv::Writer::into_inner`: the bytes written, after a flush into the
/// `Vec<u8>`, which cannot fail.
#[verifier::external_body]
fn csv_into_bytes(sink: CsvSink) -> (bytes: Vec<u8>)
    ensures
        bytes@ == csv_written(sink),
{
    sink.writer.into_inner().unwrap()
}

/// The CSV form of `data` in UTF-8, one record for each row, whatever the
/// rows' lengths.
pub fn write_csv(data: &[Vec<String>]) -> (bytes: Vec<u8>)
    ensures
        bytes@ == encode_utf8(csv_text(table_texts(data@))),
{
    let ghost table = table_texts(data@);
    let mut sink = csv_sink_new();
    let mut i: usize = 0;
    proof {
        assert(csv_text(table.take(0)) =~= Seq::<char>::empty());
    }
    while i < data.len()
        invariant
            i <= data@.len(),
            table == table_texts(data@),
            csv_open_fields(sink) == 0,
            csv_written(sink) == encode_utf8(csv_text(table.take(i as int))),
        decreases data@.len() - i,
    {
        let outcome = csv_write_record(&mut sink, &data[i]);
        proof {
            assert(table.take(i + 1).drop_last() =~= table.take(i as int));
            assert(table.take(i + 1).last() == record_texts(data@[i as int]@));
            encode_utf8_of_concat(
                csv_text(table.take(i as int)),
                csv_record(record_texts(data@[i as int]@)),
            );
        }
        match outcome {
            Ok(()) => {},
            Err(_) => unreached(),
        }
        i += 1;
    }
    proof {
        assert(table.take(i as int) =~= table);
    }
    csv_into_bytes(sink)
}

} // verus!
