use csv_io::{CsvError, CsvIO, Row};

fn row(fields: &[&str]) -> Row {
    fields.iter().map(|f| f.to_string()).collect()
}

fn open(text: &str) -> CsvIO {
    match CsvIO::new("data.csv", text.as_bytes().to_vec()) {
        Ok(h) => h,
        Err(e) => panic!("open failed: {:?}", e),
    }
}

const SAMPLE: &str = "city,country,pop\nBoston,United States,4628910\nParis,France,2148000\n";

#[test]
fn open_captures_first_row_as_header() {
    let h = open(SAMPLE);
    assert_eq!(h.headers(), &row(&["city", "country", "pop"]));
    assert_eq!(h.file_path(), "data.csv");
    assert!(h.is_open());
    assert!(h.saved_text().is_empty());
}

#[test]
fn header_only_file_has_no_data_rows() {
    let mut h = open("a,b\n");
    assert_eq!(h.headers(), &row(&["a", "b"]));
    assert!(matches!(h.read_record(), Err(CsvError::NoMoreRecords)));
}

#[test]
fn read_record_follows_file_order_then_runs_out() {
    let mut h = open(SAMPLE);
    assert_eq!(h.read_record(), Ok(row(&["Boston", "United States", "4628910"])));
    assert_eq!(h.read_record(), Ok(row(&["Paris", "France", "2148000"])));
    assert_eq!(h.read_record(), Err(CsvError::NoMoreRecords));
    assert_eq!(h.read_record(), Err(CsvError::NoMoreRecords));
}

#[test]
fn read_records_drains_then_returns_nothing() {
    let mut h = open(SAMPLE);
    let rows = h.read_records().unwrap();
    assert_eq!(
        rows,
        vec![row(&["Boston", "United States", "4628910"]), row(&["Paris", "France", "2148000"])]
    );
    assert_eq!(h.read_records(), Ok(Vec::new()));
}

#[test]
fn read_records_after_one_read_returns_the_rest() {
    let mut h = open(SAMPLE);
    h.read_record().unwrap();
    assert_eq!(h.read_records(), Ok(vec![row(&["Paris", "France", "2148000"])]));
}

#[test]
fn quoted_fields_are_read_whole() {
    let mut h = open("name,note\n\"Smith, J\",\"said \"\"hi\"\"\"\n");
    assert_eq!(h.read_record(), Ok(row(&["Smith, J", "said \"hi\""])));
}

#[test]
fn empty_contents_fail_at_header() {
    assert!(matches!(CsvIO::new("empty.csv", Vec::new()), Err(CsvError::MissingHeader)));
}

#[test]
fn unreadable_header_is_malformed() {
    assert!(matches!(CsvIO::new("bad.csv", vec![0xff, 0xfe, b'\n']), Err(CsvError::Malformed)));
}

#[test]
fn row_of_other_width_is_malformed_and_skipped() {
    let mut h = open("a,b\n1,2,3\n4,5\n");
    assert_eq!(h.read_record(), Err(CsvError::Malformed));
    assert_eq!(h.read_record(), Ok(row(&["4", "5"])));
    assert_eq!(h.read_record(), Err(CsvError::NoMoreRecords));
}

#[test]
fn read_records_fails_on_malformed_row() {
    let mut h = open("a,b\n1,2\n3,4,5\n6,7\n");
    assert_eq!(h.read_records(), Err(CsvError::Malformed));
    assert_eq!(h.read_records(), Ok(vec![row(&["6", "7"])]));
}

#[test]
fn written_records_round_trip_after_save() {
    let mut h = open(SAMPLE);
    h.write_record(row(&["city", "country", "pop"])).unwrap();
    h.write_record(row(&["Boston", "United States", "4628910"])).unwrap();
    h.write_record(row(&["Lyon", "France", "516092"])).unwrap();
    assert!(h.saved_text().is_empty());
    h.save().unwrap();
    let text = h.saved_text().to_vec();
    assert_eq!(
        String::from_utf8(text.clone()).unwrap(),
        "city,country,pop\nBoston,United States,4628910\nLyon,France,516092\n"
    );
    let mut again = CsvIO::new("data.csv", text).ok().unwrap();
    assert_eq!(again.headers(), &row(&["city", "country", "pop"]));
    assert_eq!(
        again.read_records(),
        Ok(vec![row(&["Boston", "United States", "4628910"]), row(&["Lyon", "France", "516092"])])
    );
}

#[test]
fn write_records_matches_single_writes() {
    let mut one = open(SAMPLE);
    one.write_record(row(&["x", "y"])).unwrap();
    one.write_record(row(&["1", "2"])).unwrap();
    one.save().unwrap();
    let mut many = open(SAMPLE);
    many.write_records(vec![row(&["x", "y"]), row(&["1", "2"])]).unwrap();
    many.save().unwrap();
    assert_eq!(one.saved_text(), many.saved_text());
    assert_eq!(many.saved_text(), b"x,y\n1,2\n");
}

#[test]
fn fields_needing_quotes_are_quoted() {
    let mut h = open(SAMPLE);
    h.write_record(row(&["x,y", "z"])).unwrap();
    h.save().unwrap();
    assert_eq!(h.saved_text(), b"\"x,y\",z\n");
}

#[test]
fn record_of_other_width_is_rejected() {
    let mut h = open(SAMPLE);
    h.write_record(row(&["a", "b"])).unwrap();
    assert_eq!(h.write_record(row(&["c"])), Err(CsvError::Rejected));
    assert_eq!(h.write_record(row(&["d", "e"])), Ok(()));
    h.save().unwrap();
    assert_eq!(h.saved_text(), b"a,b\nd,e\n");
}

#[test]
fn write_records_stops_at_rejected_record() {
    let mut h = open(SAMPLE);
    let res = h.write_records(vec![row(&["a", "b"]), row(&["c"]), row(&["d", "e"])]);
    assert_eq!(res, Err(CsvError::Rejected));
    h.save().unwrap();
    assert_eq!(h.saved_text(), b"a,b\n");
}

#[test]
fn write_records_of_nothing_changes_nothing() {
    let mut h = open(SAMPLE);
    h.write_record(row(&["a", "b"])).unwrap();
    assert_eq!(h.write_records(Vec::new()), Ok(()));
    h.save().unwrap();
    assert_eq!(h.saved_text(), b"a,b\n");
}

#[test]
fn first_batch_record_fixes_the_width() {
    let mut h = open(SAMPLE);
    assert_eq!(h.write_records(vec![row(&["a"]), row(&["b", "c"])]), Err(CsvError::Rejected));
    assert_eq!(h.write_record(row(&["d"])), Ok(()));
    h.save().unwrap();
    assert_eq!(h.saved_text(), b"a\nd\n");
}

#[test]
fn unsaved_records_stay_out_of_saved_text() {
    let mut h = open(SAMPLE);
    h.write_record(row(&["a", "b"])).unwrap();
    h.save().unwrap();
    h.write_record(row(&["c", "d"])).unwrap();
    h.close();
    assert_eq!(h.saved_text(), b"a,b\n");
}

#[test]
fn close_does_not_flush() {
    let mut h = open(SAMPLE);
    h.write_record(row(&["a", "b"])).unwrap();
    h.close();
    assert!(!h.is_open());
    assert!(h.saved_text().is_empty());
}

#[test]
fn handle_still_works_after_close() {
    let mut h = open(SAMPLE);
    h.close();
    assert_eq!(h.read_record(), Ok(row(&["Boston", "United States", "4628910"])));
    h.write_record(row(&["a"])).unwrap();
    h.save().unwrap();
    assert_eq!(h.saved_text(), b"a\n");
}
