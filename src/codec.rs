use vstd::prelude::*;

use vstd::utf8::{decode_utf8, valid_utf8};

verus! {

/// The csv crate's error, carried without looking inside.
#[verifier::external_type_specification]
#[verifier::external_body]
pub struct ExCsvError(csv::Error);

/// The characters of each string, in order.
pub open spec fn strings_view(v: Seq<String>) -> Seq<Seq<char>> {
    v.map_values(|s: String| s@)
}

/// The fields' characters of each record, in order.
pub open spec fn records_view(v: Seq<Vec<String>>) -> Seq<Seq<Seq<char>>> {
    v.map_values(|r: Vec<String>| strings_view(r@))
}

/// The records that the csv crate's reader (no header row, default dialect) finds
/// in `input`, each as the text of its fields; `None` where it reports an error.
pub uninterp spec fn csv_records_of(input: Seq<u8>) -> Option<Seq<Seq<Seq<char>>>>;

/// The bytes that the csv crate's writer (default dialect) emits for one record,
/// its terminator included.
pub uninterp spec fn csv_record_bytes(fields: Seq<Seq<char>>) -> Seq<u8>;

/// The CSV text of `records`, one after the other.
pub open spec fn csv_text(records: Seq<Seq<Seq<char>>>) -> Seq<u8>
    decreases records.len(),
{
    if records.len() == 0 {
        Seq::empty()
    } else {
        csv_text(records.drop_last()) + csv_record_bytes(records.last())
    }
}

/// Relies on `csv::Reader::records` over a reader built with `has_headers(false)`:
/// reads every record of `input`, or fails on malformed CSV or text that is not UTF-8.
#[verifier::external_body]
pub(crate) fn read_csv_records(input: &[u8]) -> (r: Result<Vec<Vec<String>>, csv::Error>)
    ensures
        match r {
            Ok(records) => csv_records_of(input@) == Some(records_view(records@)),
            Err(_) => csv_records_of(input@) is None,
        },
{
    let mut reader = csv::ReaderBuilder::new().has_headers(false).from_reader(input);
    reader.records().map(|rec| rec.map(|rec| rec.iter().map(String::from).collect())).collect()
}

/// Relies on `csv::Writer::write_record` and `csv::Writer::into_inner` over a writer
/// into memory built with `has_headers(false)`: the bytes of one record. A fresh
/// writer into a `Vec` neither meets an I/O error nor a second record of another
/// length, so it succeeds; it copies the fields' UTF-8 bytes and adds only ASCII
/// quotes, delimiters and the terminator, so the bytes are UTF-8.
#[verifier::external_body]
pub(crate) fn write_csv_record(fields: &Vec<String>) -> (r: Result<Vec<u8>, csv::Error>)
    ensures
        r is Ok,
        r->Ok_0@ == csv_record_bytes(strings_view(fields@)),
        valid_utf8(r->Ok_0@),
{
    let mut writer = csv::WriterBuilder::new().has_headers(false).from_writer(Vec::new());
    writer.write_record(fields)?;
    writer.into_inner().map_err(|e| csv::Error::from(e.into_error()))
}

/// Relies on `String::from_utf8`: the decoded text where `bytes` is valid UTF-8.
#[verifier::external_body]
pub(crate) fn utf8_to_string(bytes: Vec<u8>) -> (r: Option<String>)
    ensures
        match r {
            Some(s) => valid_utf8(bytes@) && s@ == decode_utf8(bytes@),
            None => !valid_utf8(bytes@),
        },
{
    String::from_utf8(bytes).ok()
}

} // verus!
