use weekend_db::{WDBError, WDBRow, WDBSchema, WDBTable, WDBType, WDBValue};

// This csv about bio statistics has five columns:
//      Name, Sex, Age, Height (in), and Weight (lbs)
const BIOSTATS_CSV: &str = "Alex,M,41,74,170
Bert,M,42,68,166
Carl,M,32,70,155
Dave,M,39,72,167
Elly,F,30,66,124
Fran,F,33,66,115
Gwen,F,26,64,121
Hank,M,30,71,158
Ivan,M,53,72,175
Jake,M,32,69,143
Kate,F,47,69,139
Luke,M,34,72,163
Myra,F,23,62,98
Neil,M,36,75,160
Omar,M,38,70,145
Page,F,31,67,135
Quin,M,29,71,176
Ruth,F,28,65,131
";

fn get_biostats_table() -> Result<WDBTable, WDBError> {
    let input_csv = BIOSTATS_CSV;
    let schema = WDBSchema::new({
        let cols = vec![
            WDBType::Text,    // Name
            WDBType::Text,    // Sex
            WDBType::Integer, // Age
            WDBType::Integer, // Height
            WDBType::Integer, // Weight
        ];
        cols
    });
    WDBTable::load_from_csv(&schema, input_csv.as_bytes())
}

#[test]
fn load_from_and_dump_as_csv() -> Result<(), WDBError> {
    let input_csv = BIOSTATS_CSV;
    let biostats_table = get_biostats_table()?;
    let output_csv = biostats_table.to_string();
    assert_eq!(&input_csv, &output_csv);
    Ok(())
}

#[test]
fn select() -> Result<(), WDBError> {
    Ok(())
}

#[test]
fn project() -> Result<(), WDBError> {
    Ok(())
}

fn one_int_schema() -> WDBSchema {
    WDBSchema::new(vec![WDBType::Integer])
}

#[test]
fn biostats_rows_in_order() -> Result<(), WDBError> {
    let table = get_biostats_table()?;
    assert_eq!(table.rows().len(), 18);
    let first: WDBRow = ("Alex", "M", 41u64, 74u64).into();
    let first = first.with_field(WDBValue::Integer(170));
    assert_eq!(table.rows()[0], first);
    assert_eq!(table.rows()[17].fields()[0], WDBValue::Text("Ruth".to_owned()));
    Ok(())
}

#[test]
fn integer_field_with_letters_is_rejected() {
    let r = WDBTable::load_from_csv(&one_int_schema(), "12a\n".as_bytes());
    assert_eq!(r.err(), Some(WDBError::BadCSV));
}

#[test]
fn integer_field_with_spaces_is_trimmed() {
    let table = WDBTable::load_from_csv(&one_int_schema(), " 12 \n".as_bytes()).unwrap();
    assert_eq!(table.rows(), &[WDBRow::new(vec![WDBValue::Integer(12)])][..]);
}

#[test]
fn integer_field_forms() {
    let table = WDBTable::load_from_csv(&one_int_schema(), "+7\n007\n18446744073709551615\n".as_bytes())
        .unwrap();
    let values: Vec<WDBValue> = table.rows().iter().map(|r| r.fields()[0].clone()).collect();
    assert_eq!(
        values,
        vec![WDBValue::Integer(7), WDBValue::Integer(7), WDBValue::Integer(u64::MAX)]
    );
    let over = WDBTable::load_from_csv(&one_int_schema(), "18446744073709551616\n".as_bytes());
    assert_eq!(over.err(), Some(WDBError::BadCSV));
    let negative = WDBTable::load_from_csv(&one_int_schema(), "-1\n".as_bytes());
    assert_eq!(negative.err(), Some(WDBError::BadCSV));
}

#[test]
fn text_fields_are_trimmed() {
    let schema = WDBSchema::new(vec![WDBType::Text, WDBType::Integer]);
    let table = WDBTable::load_from_csv(&schema, "  ab c ,3\n".as_bytes()).unwrap();
    let expected: WDBRow = ("ab c", 3u64).into();
    assert_eq!(table.rows(), &[expected][..]);
}

#[test]
fn record_with_other_field_count_is_rejected() {
    let schema = WDBSchema::new(vec![WDBType::Text, WDBType::Integer]);
    let short = WDBTable::load_from_csv(&schema, "a\nb\n".as_bytes());
    assert_eq!(short.err(), Some(WDBError::BadCSV));
    let long = WDBTable::load_from_csv(&schema, "a,1,2\n".as_bytes());
    assert_eq!(long.err(), Some(WDBError::BadCSV));
}

#[test]
fn unequal_record_lengths_are_malformed() {
    let schema = WDBSchema::new(vec![WDBType::Text, WDBType::Text]);
    let r = WDBTable::load_from_csv(&schema, "a,b\nc\n".as_bytes());
    assert_eq!(r.err(), Some(WDBError::BadCSV));
}

#[test]
fn invalid_utf8_is_malformed() {
    let schema = WDBSchema::new(vec![WDBType::Text]);
    let r = WDBTable::load_from_csv(&schema, &[0xff, 0xfe, b'\n'][..]);
    assert_eq!(r.err(), Some(WDBError::BadCSV));
}

#[test]
fn empty_input_gives_empty_table() {
    let table = WDBTable::load_from_csv(&one_int_schema(), "".as_bytes()).unwrap();
    assert_eq!(table.rows().len(), 0);
    assert_eq!(table.schema(), &one_int_schema());
}

#[test]
fn new_table_is_empty_and_dumps_nothing() {
    let table = WDBTable::new(WDBSchema::new(vec![WDBType::Text, WDBType::Integer]));
    assert_eq!(table.rows().len(), 0);
    let mut out: Vec<u8> = Vec::new();
    table.dump_as_csv(&mut out).unwrap();
    assert!(out.is_empty());
    assert_eq!(table.to_string(), "");
}

#[test]
fn dump_writes_rows_in_order() {
    let mut table = WDBTable::new(WDBSchema::new(vec![WDBType::Integer, WDBType::Text]));
    table.add((120u64, "x").into()).unwrap();
    table.add((0u64, "yz").into()).unwrap();
    let mut out: Vec<u8> = b"head:".to_vec();
    table.dump_as_csv(&mut out).unwrap();
    assert_eq!(out, b"head:120,x\n0,yz\n".to_vec());
}

#[test]
fn dump_quotes_text_with_delimiter() {
    let mut table = WDBTable::new(WDBSchema::new(vec![WDBType::Text]));
    table.add(("a,b",).into()).unwrap();
    assert_eq!(table.to_string(), "\"a,b\"\n");
}

#[test]
fn to_records_renders_display_text() {
    let mut table = WDBTable::new(WDBSchema::new(vec![WDBType::Integer, WDBType::Text]));
    table.add((42u64, "q").into()).unwrap();
    assert_eq!(table.to_records(), vec![vec!["42".to_owned(), "q".to_owned()]]);
}

#[test]
fn from_records_reads_fields() {
    let schema = WDBSchema::new(vec![WDBType::Integer, WDBType::Text]);
    let records = vec![vec![" 5".to_owned(), "t ".to_owned()]];
    let table = WDBTable::from_records(&schema, &records).unwrap();
    let expected: WDBRow = (5u64, "t").into();
    assert_eq!(table.rows(), &[expected][..]);
    let bad = vec![vec!["x".to_owned(), "t".to_owned()]];
    assert_eq!(WDBTable::from_records(&schema, &bad).err(), Some(WDBError::BadCSV));
}

#[test]
fn load_then_dump_small_text() {
    let schema = WDBSchema::new(vec![WDBType::Text, WDBType::Integer]);
    let table = WDBTable::load_from_csv(&schema, b"a,1\nb,2\n".as_slice()).unwrap();
    let mut out: Vec<u8> = Vec::new();
    assert_eq!(table.dump_as_csv(&mut out), Ok(()));
    assert_eq!(out, b"a,1\nb,2\n".to_vec());
    assert_eq!(table.to_string(), "a,1\nb,2\n");
}
