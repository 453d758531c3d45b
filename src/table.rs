use vstd::prelude::*;

use crate::codec::{
    csv_records_of, csv_text, read_csv_records, records_view, strings_view,
    utf8_to_string, write_csv_record,
};
use crate::error::WDBError;
use crate::row::{values_view, WDBRow};
use crate::schema::{conforms, validation_outcome, WDBSchema};
use crate::text::{
    decimal_digits, lemma_parse_decimal, has_no_surrounding_space, lemma_trim_noop, parse_u64, parsed_u64, trim_str,
    trimmed,
};
use crate::value::{display_text, has_type, ValueModel, WDBType, WDBValue};
use vstd::utf8::{decode_utf8, valid_utf8, valid_utf8_concat};

verus! {

/// The mathematical model of a table: its column types and its rows, in order.
pub struct TableModel {
    pub columns: Seq<WDBType>,
    pub rows: Seq<Seq<ValueModel>>,
}

/// Every row conforms to the columns.
pub open spec fn all_conform(columns: Seq<WDBType>, rows: Seq<Seq<ValueModel>>) -> bool {
    forall|i: int| 0 <= i < rows.len() ==> conforms(columns, #[trigger] rows[i])
}

/// The models of a sequence of rows, in the same order.
pub open spec fn rows_view(rows: Seq<WDBRow>) -> Seq<Seq<ValueModel>> {
    rows.map_values(|r: WDBRow| r@)
}

/// Whether CSV field text `f` can be read as a value of kind `t`.
pub open spec fn field_fits(t: WDBType, f: Seq<char>) -> bool {
    t == WDBType::Integer ==> parsed_u64(trimmed(f)) is Some
}

/// The value that CSV field text `f` is read as in a column of kind `t`: the
/// trimmed text, or the number it spells.
pub open spec fn field_value(t: WDBType, f: Seq<char>) -> ValueModel {
    match t {
        WDBType::Integer => ValueModel::Integer(parsed_u64(trimmed(f))->Some_0),
        WDBType::Text => ValueModel::Text(trimmed(f)),
    }
}

/// Whether a record has one field per column and each field can be read in its column.
pub open spec fn record_fits(columns: Seq<WDBType>, record: Seq<Seq<char>>) -> bool {
    &&& record.len() == columns.len()
    &&& forall|j: int| 0 <= j < record.len() ==> field_fits(columns[j], #[trigger] record[j])
}

/// The row that a fitting record is read as.
pub open spec fn record_row(columns: Seq<WDBType>, record: Seq<Seq<char>>) -> Seq<ValueModel> {
    Seq::new(columns.len(), |j: int| field_value(columns[j], record[j]))
}

/// The rows that `records` are read as, in order, or `None` where one does not fit.
pub open spec fn rows_of_records(columns: Seq<WDBType>, records: Seq<Seq<Seq<char>>>) -> Option<
    Seq<Seq<ValueModel>>,
> {
    if forall|i: int| 0 <= i < records.len() ==> record_fits(columns, #[trigger] records[i]) {
        Some(records.map_values(|rec: Seq<Seq<char>>| record_row(columns, rec)))
    } else {
        None
    }
}

/// The rows that CSV text `input` is read as against `columns`.
pub open spec fn loaded_rows(columns: Seq<WDBType>, input: Seq<u8>) -> Option<Seq<Seq<ValueModel>>> {
    match csv_records_of(input) {
        Some(records) => rows_of_records(columns, records),
        None => None,
    }
}

/// The record a row is written as: each value's display text, in column order.
pub open spec fn row_record(row: Seq<ValueModel>) -> Seq<Seq<char>> {
    row.map_values(|v: ValueModel| display_text(v))
}

/// The records that rows are written as, in order.
pub open spec fn rows_records(rows: Seq<Seq<ValueModel>>) -> Seq<Seq<Seq<char>>> {
    rows.map_values(|r: Seq<ValueModel>| row_record(r))
}

/// A schema together with the rows that conform to it, in insertion order.
#[derive(Debug, PartialEq)]
pub struct WDBTable {
    schema: WDBSchema,
    rows: Vec<WDBRow>,
}

impl View for WDBTable {
    type V = TableModel;

    closed spec fn view(&self) -> TableModel {
        TableModel { columns: self.schema@, rows: rows_view(self.rows@) }
    }
}

impl WDBTable {
    /// Every row of the table conforms to its schema.
    pub open spec fn wf(&self) -> bool {
        all_conform(self@.columns, self@.rows)
    }

    /// An empty table over `schema`.
    pub fn new(schema: WDBSchema) -> (r: WDBTable)
        ensures
            r@.columns == schema@,
            r@.rows == Seq::<Seq<ValueModel>>::empty(),
            r.wf(),
    {
        let r = WDBTable { schema, rows: Vec::new() };
        proof {
            assert(rows_view(r.rows@) =~= Seq::<Seq<ValueModel>>::empty());
        }
        r
    }

    /// The schema of the table.
    pub fn schema(&self) -> (r: &WDBSchema)
        ensures
            r@ == self@.columns,
    {
        &self.schema
    }

    /// The rows of the table, in order.
    pub fn rows(&self) -> (r: &[WDBRow])
        ensures
            rows_view(r@) == self@.rows,
    {
        self.rows.as_slice()
    }

    /// Appends `row` after validating it against the schema; on failure the table
    /// is left as it was.
    pub fn add(&mut self, row: WDBRow) -> (r: Result<&mut Self, WDBError>)
        requires
            old(self).wf(),
        ensures
            validation_outcome(
                old(self)@.columns,
                row@,
                match r {
                    Ok(_) => Ok(()),
                    Err(e) => Err(e),
                },
            ),
            r is Ok ==> r->Ok_0@ == (TableModel {
                columns: old(self)@.columns,
                rows: old(self)@.rows.push(row@),
            }) && r->Ok_0.wf(),
            r is Ok ==> *final(self) == *final(r->Ok_0),
            r is Err ==> *final(self) == *old(self),
    {
        match self.schema.validate(&row) {
            Ok(()) => {
                self.rows.push(row);
                proof {
                    assert(rows_view(self.rows@) =~= rows_view(old(self).rows@).push(row@));
                }
                Ok(self)
            },
            Err(e) => Err(e),
        }
    }

    /// A table over a copy of `schema` holding the rows that `records` are read as, in
    /// order; `BadCSV` where a record's field count differs from the column count or
    /// an integer field is not an unsigned decimal number once trimmed.
    pub fn from_records(schema: &WDBSchema, records: &Vec<Vec<String>>) -> (r: Result<
        WDBTable,
        WDBError,
    >)
        ensures
            match r {
                Ok(t) => {
                    &&& rows_of_records(schema@, records_view(records@)) == Some(t@.rows)
                    &&& t@.columns == schema@
                    &&& t.wf()
                },
                Err(e) => e == WDBError::BadCSV && rows_of_records(schema@, records_view(records@))
                    is None,
            },
    {
        let columns = schema.columns();
        let ghost recs = records_view(records@);
        let mut rows: Vec<WDBRow> = Vec::new();
        let n = records.len();
        for i in 0..n
            invariant
                n == records@.len(),
                recs == records_view(records@),
                columns@ == schema@,
                forall|k: int| 0 <= k < i ==> record_fits(schema@, #[trigger] recs[k]),
                rows_view(rows@) == recs.subrange(0, i as int).map_values(
                    |rec: Seq<Seq<char>>| record_row(schema@, rec),
                ),
        {
            match row_from_record(columns, &records[i]) {
                Some(row) => {
                    let ghost before = rows@;
                    rows.push(row);
                    proof {
                        assert(recs[i as int] == strings_view(records@[i as int]@));
                        assert(rows_view(rows@) =~= rows_view(before).push(row@));
                        assert(rows_view(rows@) =~= recs.subrange(0, i + 1).map_values(
                            |rec: Seq<Seq<char>>| record_row(schema@, rec),
                        ));
                    }
                },
                None => {
                    proof {
                        assert(!record_fits(schema@, recs[i as int]));
                    }
                    return Err(WDBError::BadCSV);
                },
            }
        }
        let t = WDBTable { schema: schema.copy(), rows };
        proof {
            assert(recs.subrange(0, n as int) =~= recs);
            assert forall|i: int| 0 <= i < t@.rows.len() implies conforms(
                schema@,
                #[trigger] t@.rows[i],
            ) by {
                lemma_record_row_conforms(schema@, recs[i]);
            }
        }
        Ok(t)
    }

    /// Reads CSV text without a header row against `schema`: `BadCSV` where the text
    /// is malformed, a record's field count differs from the column count, or an
    /// integer field is not an unsigned decimal number once trimmed.
    pub fn load_from_csv(schema: &WDBSchema, input: &[u8]) -> (r: Result<WDBTable, WDBError>)
        ensures
            match r {
                Ok(t) => {
                    &&& loaded_rows(schema@, input@) == Some(t@.rows)
                    &&& t@.columns == schema@
                    &&& t.wf()
                },
                Err(e) => e == WDBError::BadCSV && loaded_rows(schema@, input@) is None,
            },
    {
        match read_csv_records(input) {
            Ok(records) => WDBTable::from_records(schema, &records),
            Err(_) => Err(WDBError::BadCSV),
        }
    }

    /// The records the rows are written as: each value's display text, in column order.
    pub fn to_records(&self) -> (r: Vec<Vec<String>>)
        ensures
            records_view(r@) == rows_records(self@.rows),
    {
        let mut records: Vec<Vec<String>> = Vec::new();
        let n = self.rows.len();
        for i in 0..n
            invariant
                n == self.rows@.len(),
                records_view(records@) == rows_records(self@.rows).subrange(0, i as int),
        {
            let fields = self.rows[i].fields();
            proof {
                assert(self@.rows[i as int] == self.rows@[i as int]@);
            }
            let mut record: Vec<String> = Vec::new();
            let m = fields.len();
            for j in 0..m
                invariant
                    i < n,
                    n == self.rows@.len(),
                    records_view(records@) == rows_records(self@.rows).subrange(0, i as int),
                    m == fields@.len(),
                    values_view(fields@) == self@.rows[i as int],
                    strings_view(record@) == row_record(self@.rows[i as int]).subrange(0, j as int),
            {
                let text = fields[j].to_display_string();
                let ghost before = record@;
                record.push(text);
                proof {
                    assert(strings_view(record@) =~= strings_view(before).push(text@));
                    assert(values_view(fields@)[j as int] == fields@[j as int]@);
                    assert(strings_view(record@) =~= row_record(self@.rows[i as int]).subrange(
                        0,
                        j + 1,
                    ));
                }
            }
            let ghost before = records@;
            records.push(record);
            proof {
                assert(records_view(records@) =~= records_view(before).push(strings_view(record@)));
                assert(strings_view(record@) =~= row_record(self@.rows[i as int]));
                assert(records_view(records@) =~= rows_records(self@.rows).subrange(0, i + 1));
            }
        }
        proof {
            assert(rows_records(self@.rows).subrange(0, n as int) =~= rows_records(self@.rows));
        }
        records
    }

    /// Appends the table's CSV text to `out`: one record per row, in order, fields
    /// in column order, no header row. Writing into memory always succeeds. A field
    /// that holds the delimiter, a quote or a line break is quoted, as the csv
    /// crate's writer does; every other field is written as its display text.
    pub fn dump_as_csv(&self, out: &mut Vec<u8>) -> (r: Result<(), WDBError>)
        ensures
            r is Ok,
            final(out)@ == old(out)@ + csv_text(rows_records(self@.rows)),
            valid_utf8(csv_text(rows_records(self@.rows))),
    {
        let records = self.to_records();
        let ghost recs = records_view(records@);
        let mut buf: Vec<u8> = Vec::new();
        let n = records.len();
        for i in 0..n
            invariant
                n == records@.len(),
                recs == records_view(records@),
                buf@ == csv_text(recs.subrange(0, i as int)),
                valid_utf8(buf@),
        {
            match write_csv_record(&records[i]) {
                Ok(bytes) => {
                    let ghost before = buf@;
                    let mut bytes = bytes;
                    proof {
                        valid_utf8_concat(before, bytes@);
                    }
                    buf.append(&mut bytes);
                    proof {
                        assert(recs.subrange(0, i + 1).drop_last() =~= recs.subrange(0, i as int));
                    }
                },
                Err(_) => {
                    return Err(WDBError::BadIO);
                },
            }
        }
        proof {
            assert(recs.subrange(0, n as int) =~= recs);
        }
        out.append(&mut buf);
        Ok(())
    }

    /// The table's CSV text as a string, exactly as `dump_as_csv` writes it.
    pub fn to_string(&self) -> (r: String)
        ensures
            r@ == decode_utf8(csv_text(rows_records(self@.rows))),
    {
        let mut bytes: Vec<u8> = Vec::new();
        let _ = self.dump_as_csv(&mut bytes);
        proof {
            assert(bytes@ =~= csv_text(rows_records(self@.rows)));
        }
        match utf8_to_string(bytes) {
            Some(s) => s,
            None => String::new(),
        }
    }
}

/// A fitting record is read as a row that conforms to the columns.
proof fn lemma_record_row_conforms(columns: Seq<WDBType>, record: Seq<Seq<char>>)
    ensures
        conforms(columns, record_row(columns, record)),
{
    let row = record_row(columns, record);
    assert forall|j: int| 0 <= j < row.len() implies has_type(#[trigger] row[j], columns[j]) by {
        match columns[j] {
            WDBType::Integer => {},
            WDBType::Text => {},
        }
    }
}

/// The row that `record` is read as against `columns`, or `None` where it does not fit.
fn row_from_record(columns: &[WDBType], record: &Vec<String>) -> (r: Option<WDBRow>)
    ensures
        match r {
            Some(row) => record_fits(columns@, strings_view(record@)) && row@ == record_row(
                columns@,
                strings_view(record@),
            ),
            None => !record_fits(columns@, strings_view(record@)),
        },
{
    let ghost rec = strings_view(record@);
    let m = columns.len();
    if record.len() != m {
        return None;
    }
    let mut fields: Vec<WDBValue> = Vec::new();
    for j in 0..m
        invariant
            m == columns@.len(),
            m == record@.len(),
            rec == strings_view(record@),
            forall|k: int| 0 <= k < j ==> field_fits(columns@[k], #[trigger] rec[k]),
            values_view(fields@) == record_row(columns@, rec).subrange(0, j as int),
    {
        let s = trim_str(record[j].as_str());
        let value = match columns[j] {
            WDBType::Text => WDBValue::text(s),
            WDBType::Integer => match parse_u64(s) {
                Some(n) => WDBValue::integer(n),
                None => {
                    proof {
                        assert(!field_fits(columns@[j as int], rec[j as int]));
                    }
                    return None;
                },
            },
        };
        let ghost before = fields@;
        fields.push(value);
        proof {
            assert(rec[j as int] == record@[j as int]@);
            assert(value@ == field_value(columns@[j as int], rec[j as int]));
            assert(values_view(fields@) =~= values_view(before).push(value@));
            assert(values_view(fields@) =~= record_row(columns@, rec).subrange(0, j + 1));
        }
    }
    proof {
        assert(record_row(columns@, rec).subrange(0, m as int) =~= record_row(columns@, rec));
    }
    Some(WDBRow::new(fields))
}

/// Field text that reads back as itself: no surrounding white space and, in an
/// integer column, the decimal digits of a number without sign or leading zeros.
pub open spec fn field_reads_as_itself(t: WDBType, f: Seq<char>) -> bool {
    &&& has_no_surrounding_space(f)
    &&& t == WDBType::Integer ==> exists|n: u64| f == decimal_digits(n as nat)
}

/// A record with one field per column, each of which reads back as itself.
pub open spec fn record_reads_as_itself(columns: Seq<WDBType>, record: Seq<Seq<char>>) -> bool {
    &&& record.len() == columns.len()
    &&& forall|j: int|
        0 <= j < record.len() ==> field_reads_as_itself(columns[j], #[trigger] record[j])
}

/// Field text that reads back as itself can be read in its column, and the value
/// read is displayed as that same text.
proof fn lemma_field_reads_back(t: WDBType, f: Seq<char>)
    requires
        field_reads_as_itself(t, f),
    ensures
        field_fits(t, f),
        display_text(field_value(t, f)) == f,
{
    lemma_trim_noop(f);
    if t == WDBType::Integer {
        let n = choose|n: u64| f == decimal_digits(n as nat);
        lemma_parse_decimal(n);
    }
}

/// Round trip: where CSV text reads as records whose fields all read back as
/// themselves, and the CSV writer writes those records back as the same text (no
/// field needs quoting), loading the text succeeds and dumping the table gives the
/// text back byte for byte.
pub proof fn lemma_round_trip(columns: Seq<WDBType>, input: Seq<u8>)
    requires
        csv_records_of(input) is Some,
        forall|i: int|
            0 <= i < csv_records_of(input)->Some_0.len() ==> record_reads_as_itself(
                columns,
                #[trigger] csv_records_of(input)->Some_0[i],
            ),
        csv_text(csv_records_of(input)->Some_0) == input,
    ensures
        loaded_rows(columns, input) is Some,
        csv_text(rows_records(loaded_rows(columns, input)->Some_0)) == input,
{
    let records = csv_records_of(input)->Some_0;
    assert forall|i: int| 0 <= i < records.len() implies record_fits(
        columns,
        #[trigger] records[i],
    ) by {
        let rec = records[i];
        assert forall|j: int| 0 <= j < rec.len() implies field_fits(columns[j], #[trigger] rec[j]) by {
            lemma_field_reads_back(columns[j], rec[j]);
        }
    }
    let rows = loaded_rows(columns, input)->Some_0;
    assert forall|i: int| 0 <= i < records.len() implies #[trigger] rows_records(rows)[i]
        == records[i] by {
        let rec = records[i];
        let row = record_row(columns, rec);
        assert(rows[i] == row);
        assert forall|j: int| 0 <= j < rec.len() implies #[trigger] row_record(row)[j] == rec[j] by {
            lemma_field_reads_back(columns[j], rec[j]);
        }
        assert(row_record(row) =~= rec);
    }
    assert(rows_records(rows) =~= records);
}

/// Order: the rows loaded from CSV text are its records in order, and each row's
/// fields are its record's fields read in the schema's column order.
pub proof fn lemma_load_keeps_order(columns: Seq<WDBType>, input: Seq<u8>)
    requires
        loaded_rows(columns, input) is Some,
    ensures
        csv_records_of(input) is Some,
        loaded_rows(columns, input)->Some_0.len() == csv_records_of(input)->Some_0.len(),
        forall|i: int, j: int|
            0 <= i < loaded_rows(columns, input)->Some_0.len() && 0 <= j < columns.len() ==> (
            #[trigger] loaded_rows(columns, input)->Some_0[i][j]) == field_value(
                columns[j],
                csv_records_of(input)->Some_0[i][j],
            ),
{
}

/// A table without rows, such as a new one over any schema, is written as empty
/// CSV text.
pub proof fn lemma_empty_table_dumps_nothing(t: TableModel)
    requires
        t.rows.len() == 0,
    ensures
        csv_text(rows_records(t.rows)) == Seq::<u8>::empty(),
{
    assert(rows_records(t.rows) =~= Seq::<Seq<Seq<char>>>::empty());
}

} // verus!
