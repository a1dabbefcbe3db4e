use vstd::prelude::*;

verus! {

/// A record as the library hands it out: its fields, in order.
pub type Row = Vec<String>;

/// The mathematical value of a record: the characters of each field.
pub open spec fn row_view(r: Seq<String>) -> Seq<Seq<char>> {
    r.map_values(|s: String| s@)
}

#[verifier::external_type_specification]
#[verifier::external_body]
#[verifier::reject_recursive_types(R)]
pub struct ExReader<R>(csv::Reader<R>);

/// The write side of the codec over an in-memory vector. Held in a struct of
/// its own because `csv::Writer` bounds its parameter by `std::io::Write`,
/// which Verus cannot take as a bound of a declared type.
#[verifier::external_body]
pub struct RowWriter {
    inner: csv::Writer<Vec<u8>>,
}

#[verifier::external_type_specification]
#[verifier::external_body]
pub struct ExError(csv::Error);

#[verifier::external_type_specification]
#[verifier::external_body]
pub struct ExIoError(std::io::Error);

/// The rows that the codec finds in `data`, in order: `Some(fields)` for a row
/// it accepts, `None` for one that it rejects (a field count unlike the first
/// row's, text that is not UTF-8).
pub uninterp spec fn parsed_rows(data: Seq<u8>) -> Seq<Option<Seq<Seq<char>>>>;

/// The rows that a reader has yet to hand out, in the same form as `parsed_rows`.
pub uninterp spec fn pending_rows(r: csv::Reader<std::collections::VecDeque<u8>>) -> Seq<Option<Seq<Seq<char>>>>;

/// The text that the codec writes for one record.
pub uninterp spec fn encoded_row(fields: Seq<Seq<char>>) -> Seq<u8>;

/// Every byte that a writer has accepted, whether still in its buffer or
/// already passed on to the vector under it.
pub uninterp spec fn accepted_bytes(w: RowWriter) -> Seq<u8>;

/// The bytes that a writer has passed on to the vector under it.
pub uninterp spec fn flushed_bytes(w: RowWriter) -> Seq<u8>;

/// The field count that a writer holds every record to: that of the first
/// record it accepted, `None` before that.
pub uninterp spec fn first_width(w: RowWriter) -> Option<nat>;

/// The fields of a refused record that a writer holds without a terminator;
/// they count towards the next record.
pub uninterp spec fn open_fields(w: RowWriter) -> nat;

/// Relies on csv::ReaderBuilder::from_reader with headers off: the reader
/// hands out every row of `data`, the first one included; input that ends
/// before any data holds no row, and empty lines are skipped, so every row
/// has a field.
#[verifier::external_body]
pub(crate) fn open_reader(data: Vec<u8>) -> (r: csv::Reader<std::collections::VecDeque<u8>>)
    ensures
        pending_rows(r) == parsed_rows(data@),
        data@.len() == 0 ==> pending_rows(r).len() == 0,
        forall|i: int| 0 <= i < pending_rows(r).len() && (#[trigger] pending_rows(r)[i]) is Some
            ==> pending_rows(r)[i]->Some_0.len() > 0,
{
    csv::ReaderBuilder::new().has_headers(false).from_reader(std::collections::VecDeque::from(data))
}

/// Relies on csv::Reader::records, one step: the next row, or `None` once the
/// input is used up; a rejected row comes as an error and is passed over.
#[verifier::external_body]
pub(crate) fn next_row(r: &mut csv::Reader<std::collections::VecDeque<u8>>) -> (res: Option<Result<Row, csv::Error>>)
    ensures
        pending_rows(*old(r)).len() == 0 ==> res is None && pending_rows(*final(r)) == pending_rows(*old(r)),
        pending_rows(*old(r)).len() > 0 ==> {
            &&& res is Some
            &&& pending_rows(*final(r)) == pending_rows(*old(r)).drop_first()
            &&& (res->Some_0 is Ok <==> pending_rows(*old(r))[0] is Some)
            &&& res->Some_0 is Ok ==> row_view(res->Some_0->Ok_0@) == pending_rows(*old(r))[0]->Some_0
        },
{
    r.records().next().map(|res| res.map(|rec| rec.iter().map(String::from).collect()))
}

/// Relies on csv::Writer::from_writer over an empty vector: nothing written yet.
#[verifier::external_body]
pub(crate) fn open_writer() -> (w: RowWriter)
    ensures
        accepted_bytes(w) == Seq::<u8>::empty(),
        flushed_bytes(w) == Seq::<u8>::empty(),
        first_width(w) == None::<nat>,
        open_fields(w) == 0,
{
    RowWriter { inner: csv::Writer::from_writer(Vec::new()) }
}

/// Relies on csv::Writer::write_record: the fields are written first, and the
/// record is refused at its end where the fields written since the last
/// terminator differ in number from the first record's. A record accepted
/// with nothing left open adds its encoding after everything accepted
/// before. Bytes only ever go to the end of the vector under the writer.
#[verifier::external_body]
pub(crate) fn append_row(w: &mut RowWriter, fields: &Row) -> (res: Result<(), csv::Error>)
    ensures
        res is Ok <==> (first_width(*old(w)) is None
            || first_width(*old(w)) == Some(open_fields(*old(w)) + fields@.len())),
        res is Ok && open_fields(*old(w)) == 0
            ==> accepted_bytes(*final(w)) == accepted_bytes(*old(w)) + encoded_row(row_view(fields@)),
        res is Ok ==> open_fields(*final(w)) == 0,
        res is Ok ==> first_width(*final(w)) == Some(open_fields(*old(w)) + fields@.len()),
        flushed_bytes(*old(w)).is_prefix_of(flushed_bytes(*final(w))),
{
    w.inner.write_record(fields)
}

/// Relies on csv::Writer::flush: the buffer is passed on to the vector under
/// the writer, whose writes never fail, so every accepted byte is there.
#[verifier::external_body]
pub(crate) fn flush_writer(w: &mut RowWriter) -> (res: Result<(), std::io::Error>)
    ensures
        res is Ok,
        accepted_bytes(*final(w)) == accepted_bytes(*old(w)),
        flushed_bytes(*final(w)) == accepted_bytes(*old(w)),
        first_width(*final(w)) == first_width(*old(w)),
        open_fields(*final(w)) == open_fields(*old(w)),
{
    w.inner.flush()
}

/// Relies on csv::Writer::get_ref: the vector under the writer.
#[verifier::external_body]
pub(crate) fn written_bytes(w: &RowWriter) -> (r: &Vec<u8>)
    ensures
        r@ == flushed_bytes(*w),
{
    w.inner.get_ref()
}

} // verus!
