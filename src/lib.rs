//! WeekendDB: a minimal in-memory table store with typed columns and a CSV codec.
mod codec;
mod error;
mod row;
mod schema;
mod table;
mod text;
mod value;

pub use codec::{csv_record_bytes, csv_records_of, csv_text, records_view, strings_view};
pub use error::WDBError;
pub use row::{values_view, WDBRow};
pub use schema::{
    conforms, is_first_mismatch, lemma_arity_enforced, lemma_type_enforced, validation_outcome,
    WDBSchema,
};
pub use table::{
    all_conform, field_fits, field_reads_as_itself, field_value, lemma_empty_table_dumps_nothing,
    lemma_load_keeps_order, lemma_round_trip, loaded_rows, record_fits, record_reads_as_itself,
    record_row, row_record, rows_of_records, rows_records, rows_view, TableModel, WDBTable,
};
pub use text::{
    all_digits, decimal_digits, digit_char, digits_value, has_no_surrounding_space, is_digit, is_white_space,
    lemma_parse_decimal, lemma_trim_noop, parsed_u64, trimmed,
};
pub use value::{display_text, has_type, ValueModel, WDBType, WDBValue};
