use vstd::prelude::*;
use crate::codec::{
    append_row, flush_writer, next_row, open_reader, open_writer, row_view, written_bytes,
    accepted_bytes, encoded_row, first_width, flushed_bytes, open_fields, parsed_rows,
    pending_rows, Row,
};

verus! {

/// Why an operation on a handle failed.
#[derive(Debug, Clone, Copy, PartialEq, Eq, Structural)]
pub enum CsvError {
    /// The file holds no row to take as the header.
    MissingHeader,
    /// Every data row has been read already.
    NoMoreRecords,
    /// The codec rejected a row that it read.
    Malformed,
    /// The codec rejected a record handed to it for writing.
    Rejected,
    /// The buffered records could not be flushed.
    FlushFailed,
}

/// A row as the codec reports it: its fields, or `None` where it was rejected.
pub type RowSpec = Option<Seq<Seq<char>>>;

/// The value of a result that carries one record.
pub open spec fn result_view(r: Result<Row, CsvError>) -> Result<Seq<Seq<char>>, CsvError> {
    match r {
        Ok(row) => Ok(row_view(row@)),
        Err(e) => Err(e),
    }
}

/// The value of a sequence of records.
pub open spec fn rows_view(rows: Seq<Row>) -> Seq<Seq<Seq<char>>> {
    rows.map_values(|row: Row| row_view(row@))
}

/// Reading one record when `rem` is still to come: what is returned, and
/// what is left to come afterwards.
pub open spec fn read_step(rem: Seq<RowSpec>) -> (Result<Seq<Seq<char>>, CsvError>, Seq<RowSpec>) {
    if rem.len() == 0 {
        (Err(CsvError::NoMoreRecords), rem)
    } else {
        match rem[0] {
            Some(fields) => (Ok(fields), rem.drop_first()),
            None => (Err(CsvError::Malformed), rem.drop_first()),
        }
    }
}

/// Reading `n` records one after another from `rem`: the results in order,
/// and what is left to come afterwards.
pub open spec fn read_n(rem: Seq<RowSpec>, n: nat) -> (Seq<Result<Seq<Seq<char>>, CsvError>>, Seq<RowSpec>)
    decreases n,
{
    if n == 0 {
        (Seq::empty(), rem)
    } else {
        let (first, rest) = read_step(rem);
        let (more, left) = read_n(rest, (n - 1) as nat);
        (seq![first] + more, left)
    }
}

/// Draining `rem` in one call: every record in order, or the error of the
/// first rejected row; and what is left to come afterwards.
pub open spec fn read_all_step(rem: Seq<RowSpec>) -> (Result<Seq<Seq<Seq<char>>>, CsvError>, Seq<RowSpec>)
    decreases rem.len(),
{
    if rem.len() == 0 {
        (Ok(Seq::empty()), rem)
    } else {
        match rem[0] {
            None => (Err(CsvError::Malformed), rem.drop_first()),
            Some(fields) => {
                let (r, left) = read_all_step(rem.drop_first());
                match r {
                    Ok(rows) => (Ok(seq![fields] + rows), left),
                    Err(e) => (Err(e), left),
                }
            },
        }
    }
}

/// The text that the codec writes for `rows`, one after another.
pub open spec fn encoded_rows(rows: Seq<Seq<Seq<char>>>) -> Seq<u8>
    decreases rows.len(),
{
    if rows.len() == 0 {
        Seq::empty()
    } else {
        encoded_rows(rows.drop_last()) + encoded_row(rows.last())
    }
}

/// Whether the codec accepts every row of `rows`.
pub open spec fn all_accepted(rows: Seq<RowSpec>) -> bool {
    forall|i: int| 0 <= i < rows.len() ==> (#[trigger] rows[i]) is Some
}

/// The fields of rows that the codec accepted.
pub open spec fn accepted_fields(rows: Seq<RowSpec>) -> Seq<Seq<Seq<char>>> {
    rows.map_values(|r: RowSpec| r->Some_0)
}

/// Whether every record of `rows` has `width` fields.
pub open spec fn all_of_width(rows: Seq<Row>, width: nat) -> bool {
    forall|i: int| 0 <= i < rows.len() ==> (#[trigger] rows[i])@.len() == width
}

/// The field count that a batch of records is held to: the one fixed by
/// earlier writes, or else that of the batch's first record.
pub open spec fn batch_width(width: Option<nat>, rows: Seq<Row>) -> nat {
    match width {
        Some(w) => w,
        None => if rows.len() > 0 { rows[0]@.len() } else { 0 },
    }
}

/// The field count fixed once `count` records of width `w` have been written
/// after `width`.
pub open spec fn width_after(width: Option<nat>, count: int, w: nat) -> Option<nat> {
    if count > 0 { Some(w) } else { width }
}

/// A read/write session on one CSV file.
///
/// The read side starts after the header row. The write side starts on an
/// emptied file, holds every record to the field count of the first one
/// written, and buffers what it takes until `save`.
pub struct CsvIO {
    file_path: String,
    reader: csv::Reader<std::collections::VecDeque<u8>>,
    writer: crate::codec::RowWriter,
    headers: Row,
    width: Option<usize>,
    saved_len: usize,
    is_open: bool,
}

impl CsvIO {
    /// The path that the handle was opened on.
    pub closed spec fn path(&self) -> Seq<char> {
        self.file_path@
    }

    /// The header row captured when the handle was opened.
    pub closed spec fn header(&self) -> Seq<Seq<char>> {
        row_view(self.headers@)
    }

    /// The data rows that the read side has yet to hand out.
    pub closed spec fn remaining(&self) -> Seq<RowSpec> {
        pending_rows(self.reader)
    }

    /// The text of every record written so far, saved or not.
    pub closed spec fn written(&self) -> Seq<u8> {
        accepted_bytes(self.writer)
    }

    /// The text as of the last `save`: what the file holds.
    pub closed spec fn saved(&self) -> Seq<u8> {
        flushed_bytes(self.writer).take(self.saved_len as int)
    }

    /// The field count of the first record written, `None` before that.
    pub closed spec fn width(&self) -> Option<nat> {
        match self.width {
            Some(w) => Some(w as nat),
            None => None,
        }
    }

    /// Whether `close` has not been called yet.
    pub closed spec fn open_flag(&self) -> bool {
        self.is_open
    }

    /// The handle's internal invariant: the write side holds nothing of a
    /// refused record, its field count is the one tracked here, and the
    /// saved text lies within what it has flushed.
    pub closed spec fn wf(&self) -> bool {
        &&& open_fields(self.writer) == 0
        &&& first_width(self.writer) == self.width()
        &&& self.saved_len <= flushed_bytes(self.writer).len()
    }

    /// Opens a session on the file at `file_path` whose text was `contents`
    /// before the write side emptied it. The first row becomes the header.
    pub fn new(file_path: &str, contents: Vec<u8>) -> (r: Result<CsvIO, CsvError>)
        ensures
            parsed_rows(contents@).len() == 0 <==> r == Err::<CsvIO, CsvError>(CsvError::MissingHeader),
            contents@.len() == 0 ==> r == Err::<CsvIO, CsvError>(CsvError::MissingHeader),
            parsed_rows(contents@).len() > 0 && parsed_rows(contents@)[0] is None
                <==> r == Err::<CsvIO, CsvError>(CsvError::Malformed),
            r is Ok <==> parsed_rows(contents@).len() > 0 && parsed_rows(contents@)[0] is Some,
            r is Ok ==> {
                let h = r->Ok_0;
                &&& h.wf()
                &&& h.path() == file_path@
                &&& h.header() == parsed_rows(contents@)[0]->Some_0
                &&& h.header().len() > 0
                &&& h.remaining() == parsed_rows(contents@).drop_first()
                &&& h.written() == Seq::<u8>::empty()
                &&& h.saved() == Seq::<u8>::empty()
                &&& h.width() == None::<nat>
                &&& h.open_flag()
            },
    {
        let mut reader = open_reader(contents);
        let writer = open_writer();
        match next_row(&mut reader) {
            None => Err(CsvError::MissingHeader),
            Some(Err(_)) => Err(CsvError::Malformed),
            Some(Ok(headers)) => {
                let h = CsvIO {
                    file_path: file_path.to_string(),
                    reader,
                    writer,
                    headers,
                    width: None,
                    saved_len: 0,
                    is_open: true,
                };
                assert(h.saved() =~= Seq::<u8>::empty());
                Ok(h)
            },
        }
    }

    /// Hands out the next data row. Fails with `NoMoreRecords` once every
    /// row has been read, and with `Malformed` on a row that the codec
    /// rejects; that row is used up either way.
    pub fn read_record(&mut self) -> (r: Result<Row, CsvError>)
        requires
            old(self).wf(),
        ensures
            final(self).wf(),
            (result_view(r), final(self).remaining()) == read_step(old(self).remaining()),
            final(self).path() == old(self).path(),
            final(self).header() == old(self).header(),
            final(self).written() == old(self).written(),
            final(self).saved() == old(self).saved(),
            final(self).width() == old(self).width(),
            final(self).open_flag() == old(self).open_flag(),
    {
        match next_row(&mut self.reader) {
            None => Err(CsvError::NoMoreRecords),
            Some(Err(_)) => Err(CsvError::Malformed),
            Some(Ok(row)) => Ok(row),
        }
    }

    /// Hands out every data row not read yet, in order. On a row that the
    /// codec rejects it fails with `Malformed`, and the rows read before it
    /// in this call are dropped.
    pub fn read_records(&mut self) -> (r: Result<Vec<Row>, CsvError>)
        requires
            old(self).wf(),
        ensures
            final(self).wf(),
            (match r {
                Ok(rows) => Ok(rows_view(rows@)),
                Err(e) => Err(e),
            }, final(self).remaining()) == read_all_step(old(self).remaining()),
            final(self).path() == old(self).path(),
            final(self).header() == old(self).header(),
            final(self).written() == old(self).written(),
            final(self).saved() == old(self).saved(),
            final(self).width() == old(self).width(),
            final(self).open_flag() == old(self).open_flag(),
    {
        let mut rows: Vec<Row> = Vec::new();
        loop
            invariant
                self.wf(),
                self.path() == old(self).path(),
                self.header() == old(self).header(),
                self.written() == old(self).written(),
                self.saved() == old(self).saved(),
                self.width() == old(self).width(),
                self.open_flag() == old(self).open_flag(),
                read_all_step(old(self).remaining()) == ({
                    let (r, left) = read_all_step(self.remaining());
                    (match r {
                        Ok(more) => Ok(rows_view(rows@) + more),
                        Err(e) => Err(e),
                    }, left)
                }),
            decreases self.remaining().len(),
        {
            match next_row(&mut self.reader) {
                None => {
                    assert(rows_view(rows@) + Seq::<Seq<Seq<char>>>::empty() =~= rows_view(rows@));
                    return Ok(rows);
                },
                Some(Err(_)) => {
                    return Err(CsvError::Malformed);
                },
                Some(Ok(row)) => {
                    let ghost prev = rows@;
                    rows.push(row);
                    proof {
                        let f = row_view(row@);
                        assert(rows_view(rows@) =~= rows_view(prev).push(f));
                        let (r, _) = read_all_step(self.remaining());
                        if let Ok(more) = r {
                            assert(rows_view(prev) + (seq![f] + more) =~= rows_view(rows@) + more);
                        }
                    }
                },
            }
        }
    }

    /// Hands `record` to the write side's buffer where it has the field
    /// count that the handle holds records to; nothing reaches the file
    /// before `save`.
    fn append(&mut self, record: &Row) -> (r: Result<(), CsvError>)
        requires
            old(self).wf(),
        ensures
            final(self).wf(),
            r is Ok <==> (old(self).width() is None || old(self).width() == Some(record@.len())),
            r is Ok ==> final(self).written() == old(self).written() + encoded_row(row_view(record@)),
            r is Ok ==> final(self).width() == Some(record@.len()),
            r is Err ==> {
                &&& r == Err::<(), CsvError>(CsvError::Rejected)
                &&& final(self).written() == old(self).written()
                &&& final(self).width() == old(self).width()
            },
            final(self).saved() == old(self).saved(),
            final(self).path() == old(self).path(),
            final(self).header() == old(self).header(),
            final(self).remaining() == old(self).remaining(),
            final(self).open_flag() == old(self).open_flag(),
    {
        match self.width {
            Some(w) => {
                if w != record.len() {
                    return Err(CsvError::Rejected);
                }
            },
            None => {},
        }
        let ghost before = flushed_bytes(self.writer);
        match append_row(&mut self.writer, record) {
            Ok(()) => {
                self.width = Some(record.len());
                proof {
                    let after = flushed_bytes(self.writer);
                    assert(after.take(self.saved_len as int) =~= before.take(self.saved_len as int));
                }
                Ok(())
            },
            Err(_) => Err(CsvError::Rejected),
        }
    }

    /// Buffers `record` for writing. Fails with `Rejected`, and buffers
    /// nothing, where its field count differs from the first record written.
    pub fn write_record(&mut self, record: Row) -> (r: Result<(), CsvError>)
        requires
            old(self).wf(),
        ensures
            final(self).wf(),
            r is Ok <==> (old(self).width() is None || old(self).width() == Some(record@.len())),
            r is Ok ==> final(self).written() == old(self).written() + encoded_row(row_view(record@)),
            r is Ok ==> final(self).width() == Some(record@.len()),
            r is Err ==> {
                &&& r == Err::<(), CsvError>(CsvError::Rejected)
                &&& final(self).written() == old(self).written()
                &&& final(self).width() == old(self).width()
            },
            final(self).saved() == old(self).saved(),
            final(self).path() == old(self).path(),
            final(self).header() == old(self).header(),
            final(self).remaining() == old(self).remaining(),
            final(self).open_flag() == old(self).open_flag(),
    {
        self.append(&record)
    }

    /// Buffers each of `records` in order. Stops with `Rejected` at the first
    /// one whose field count differs from that of the first record written
    /// (by this call or before it); those before it stay buffered.
    pub fn write_records(&mut self, records: Vec<Row>) -> (r: Result<(), CsvError>)
        requires
            old(self).wf(),
        ensures
            final(self).wf(),
            ({
                let w = batch_width(old(self).width(), records@);
                &&& records@.len() == 0 ==> r is Ok && final(self).written() == old(self).written()
                &&& r is Ok <==> all_of_width(records@, w)
                &&& r is Ok ==> final(self).written() == old(self).written() + encoded_rows(rows_view(records@))
                &&& r is Ok ==> final(self).width() == width_after(old(self).width(), records@.len() as int, w)
                &&& r is Err ==> r == Err::<(), CsvError>(CsvError::Rejected) && exists|k: int| {
                    &&& 0 <= k < records@.len()
                    &&& records@[k]@.len() != w
                    &&& all_of_width(records@.take(k), w)
                    &&& final(self).written() == old(self).written()
                        + encoded_rows(rows_view(#[trigger] records@.take(k)))
                    &&& final(self).width() == width_after(old(self).width(), k, w)
                }
            }),
            final(self).saved() == old(self).saved(),
            final(self).path() == old(self).path(),
            final(self).header() == old(self).header(),
            final(self).remaining() == old(self).remaining(),
            final(self).open_flag() == old(self).open_flag(),
    {
        let ghost w = batch_width(old(self).width(), records@);
        let mut i: usize = 0;
        while i < records.len()
            invariant
                self.wf(),
                i <= records.len(),
                w == batch_width(old(self).width(), records@),
                all_of_width(records@.take(i as int), w),
                self.written() == old(self).written() + encoded_rows(rows_view(records@.take(i as int))),
                self.width() == width_after(old(self).width(), i as int, w),
                self.saved() == old(self).saved(),
                self.path() == old(self).path(),
                self.header() == old(self).header(),
                self.remaining() == old(self).remaining(),
                self.open_flag() == old(self).open_flag(),
            decreases records.len() - i,
        {
            let res = self.append(&records[i]);
            if res.is_err() {
                return res;
            }
            proof {
                let done = rows_view(records@.take(i as int));
                assert(rows_view(records@.take(i + 1)).drop_last() =~= done);
                assert(rows_view(records@.take(i + 1)).last() == row_view(records@[i as int]@));
                assert(old(self).written() + encoded_rows(done) + encoded_row(row_view(records@[i as int]@))
                    =~= old(self).written() + (encoded_rows(done) + encoded_row(row_view(records@[i as int]@))));
                assert forall|j: int| 0 <= j < i + 1 implies
                    (#[trigger] records@.take(i + 1)[j])@.len() == w by {
                    if j < i {
                        assert(records@.take(i as int)[j] == records@.take(i + 1)[j]);
                    }
                }
            }
            i = i + 1;
        }
        assert(records@.take(records.len() as int) =~= records@);
        assert(old(self).written() + Seq::<u8>::empty() =~= old(self).written());
        Ok(())
    }

    /// Passes every buffered record on to the saved text, which
    /// `saved_text` returns for the file.
    pub fn save(&mut self) -> (r: Result<(), CsvError>)
        requires
            old(self).wf(),
        ensures
            final(self).wf(),
            r is Ok,
            final(self).saved() == old(self).written(),
            final(self).written() == old(self).written(),
            final(self).width() == old(self).width(),
            final(self).path() == old(self).path(),
            final(self).header() == old(self).header(),
            final(self).remaining() == old(self).remaining(),
            final(self).open_flag() == old(self).open_flag(),
    {
        match flush_writer(&mut self.writer) {
            Ok(()) => {
                self.saved_len = written_bytes(&self.writer).len();
                assert(self.saved() =~= flushed_bytes(self.writer));
                Ok(())
            },
            Err(_) => Err(CsvError::FlushFailed),
        }
    }

    /// Marks the handle closed. Nothing is saved and nothing else changes.
    pub fn close(&mut self)
        requires
            old(self).wf(),
        ensures
            final(self).wf(),
            !final(self).open_flag(),
            final(self).path() == old(self).path(),
            final(self).header() == old(self).header(),
            final(self).remaining() == old(self).remaining(),
            final(self).written() == old(self).written(),
            final(self).saved() == old(self).saved(),
            final(self).width() == old(self).width(),
    {
        self.is_open = false;
    }

    /// The header row captured when the handle was opened.
    pub fn headers(&self) -> (r: &Row)
        ensures
            row_view(r@) == self.header(),
    {
        &self.headers
    }

    /// The path that the handle was opened on.
    pub fn file_path(&self) -> (r: &str)
        ensures
            r@ == self.path(),
    {
        self.file_path.as_str()
    }

    /// Whether `close` has not been called yet.
    pub fn is_open(&self) -> (r: bool)
        ensures
            r == self.open_flag(),
    {
        self.is_open
    }

    /// The text as of the last `save`: what the file is to hold.
    pub fn saved_text(&self) -> (r: &[u8])
        requires
            self.wf(),
        ensures
            r@ == self.saved(),
    {
        let text = written_bytes(&self.writer);
        vstd::slice::slice_subrange(text.as_slice(), 0, self.saved_len)
    }
}

} // verus!
