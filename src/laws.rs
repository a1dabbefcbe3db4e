use vstd::prelude::*;
use crate::codec::parsed_rows;
use crate::handle::{
    accepted_fields, all_accepted, encoded_rows, read_all_step, read_n, read_step, CsvError,
    RowSpec,
};

verus! {

proof fn lemma_rest_accepted(rem: Seq<RowSpec>)
    requires
        rem.len() > 0,
        all_accepted(rem),
    ensures
        all_accepted(rem.drop_first()),
{
    let rest = rem.drop_first();
    assert forall|i: int| 0 <= i < rest.len() implies (#[trigger] rest[i]) is Some by {
        assert(rest[i] == rem[i + 1]);
    }
}

proof fn lemma_read_n_accepted(rem: Seq<RowSpec>)
    requires
        all_accepted(rem),
    ensures
        read_n(rem, rem.len()).0.len() == rem.len(),
        forall|i: int| 0 <= i < rem.len() ==>
            #[trigger] read_n(rem, rem.len()).0[i] == Ok::<Seq<Seq<char>>, CsvError>(rem[i]->Some_0),
        read_n(rem, rem.len()).1.len() == 0,
    decreases rem.len(),
{
    if rem.len() > 0 {
        let rest = rem.drop_first();
        lemma_rest_accepted(rem);
        assert(rem[0] is Some);
        lemma_read_n_accepted(rest);
        assert((rem.len() - 1) as nat == rest.len());
        let results = read_n(rem, rem.len()).0;
        assert forall|i: int| 0 <= i < rem.len() implies
            #[trigger] results[i] == Ok::<Seq<Seq<char>>, CsvError>(rem[i]->Some_0) by {
            if i > 0 {
                assert(results[i] == read_n(rest, rest.len()).0[i - 1]);
                assert(rest[i - 1] == rem[i]);
            }
        }
    }
}

proof fn lemma_read_all_accepted(rem: Seq<RowSpec>)
    requires
        all_accepted(rem),
    ensures
        read_all_step(rem).0 == Ok::<Seq<Seq<Seq<char>>>, CsvError>(accepted_fields(rem)),
        read_all_step(rem).1.len() == 0,
    decreases rem.len(),
{
    if rem.len() > 0 {
        let rest = rem.drop_first();
        lemma_rest_accepted(rem);
        assert(rem[0] is Some);
        lemma_read_all_accepted(rest);
        assert(seq![rem[0]->Some_0] + accepted_fields(rest) =~= accepted_fields(rem));
    } else {
        assert(accepted_fields(rem) =~= Seq::empty());
    }
}

/// Reading a file whose rows the codec all accepts, one record at a time:
/// as many reads as there are data rows after the header hand those rows
/// out in file order, and the read after them fails with `NoMoreRecords`.
pub proof fn law_reads_in_file_order(data: Seq<u8>)
    requires
        parsed_rows(data).len() > 0,
        all_accepted(parsed_rows(data)),
    ensures
        ({
            let rows = parsed_rows(data).drop_first();
            let (results, left) = read_n(rows, rows.len());
            &&& results.len() == rows.len()
            &&& forall|i: int| 0 <= i < rows.len() ==>
                #[trigger] results[i] == Ok::<Seq<Seq<char>>, CsvError>(rows[i]->Some_0)
            &&& read_step(left).0 == Err::<Seq<Seq<char>>, CsvError>(CsvError::NoMoreRecords)
        }),
{
    let all = parsed_rows(data);
    let rows = all.drop_first();
    lemma_rest_accepted(all);
    lemma_read_n_accepted(rows);
}

/// Draining a file whose rows the codec all accepts: the first drain hands
/// out every data row after the header in file order, and a second drain
/// hands out nothing.
pub proof fn law_read_all_drains(data: Seq<u8>)
    requires
        parsed_rows(data).len() > 0,
        all_accepted(parsed_rows(data)),
    ensures
        ({
            let rows = parsed_rows(data).drop_first();
            let (first, left) = read_all_step(rows);
            &&& first == Ok::<Seq<Seq<Seq<char>>>, CsvError>(accepted_fields(rows))
            &&& read_all_step(left).0 == Ok::<Seq<Seq<Seq<char>>>, CsvError>(Seq::empty())
        }),
{
    let all = parsed_rows(data);
    let rows = all.drop_first();
    lemma_rest_accepted(all);
    lemma_read_all_accepted(rows);
}

/// Writing records one at a time builds the same text as writing them all
/// at once: each record's encoding follows those written before it.
pub proof fn law_writes_keep_order(rows: Seq<Seq<Seq<char>>>, next: Seq<Seq<char>>)
    ensures
        encoded_rows(rows.push(next)) == encoded_rows(rows) + crate::codec::encoded_row(next),
{
    assert(rows.push(next).drop_last() =~= rows);
}

} // verus!
