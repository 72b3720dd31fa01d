//! Turns parsed records into the grid that the viewer shows.
use crate::text::{decimal_digits, decimal_string, lemma_decimal_digits, is_row_number};
use vstd::prelude::*;

verus! {

#[verifier::external_type_specification]
#[verifier::external_body]
pub struct ExCsvError(csv::Error);

/// The fields of a record as character sequences.
pub open spec fn fields_view(fields: Seq<String>) -> Seq<Seq<char>> {
    fields.map_values(|f: String| f@)
}

/// Records as sequences of character sequences.
pub open spec fn records_view(records: Seq<Vec<String>>) -> Seq<Seq<Seq<char>>> {
    records.map_values(|r: Vec<String>| fields_view(r@))
}

/// What the csv crate reads from `data` with the given delimiter and quote
/// character: the header fields and the records, or `None` where it fails.
pub uninterp spec fn csv_table_of(data: Seq<u8>, delimiter: u8, quote: u8) -> Option<
    (Seq<Seq<char>>, Seq<Seq<Seq<char>>>),
>;

/// Relies on the csv crate's `Reader` (from `ReaderBuilder` with this
/// delimiter and quote): its header record, then every record, or its error.
/// The reader is not flexible, so it fails on a record whose field count
/// differs from the header's.
#[verifier::external_body]
fn parse_csv(data: &[u8], delimiter: u8, quote: u8) -> (r: Result<(Vec<String>, Vec<Vec<String>>), csv::Error>)
    ensures
        match r {
            Ok((header, records)) => csv_table_of(data@, delimiter, quote) == Some(
                (fields_view(header@), records_view(records@)),
            ) && forall|i: int|
                0 <= i < records@.len() ==> (#[trigger] records@[i])@.len() == header@.len(),
            Err(_) => csv_table_of(data@, delimiter, quote) is None,
        },
{
    let mut reader = csv::ReaderBuilder::new().delimiter(delimiter).quote(quote).from_reader(data);
    let header = reader.headers()?.iter().map(|v| v.to_string()).collect();
    let records: Result<Vec<Vec<String>>, csv::Error> = reader
        .records()
        .map(|r| r.map(|record| record.iter().map(|v| v.to_string()).collect()))
        .collect();
    Ok((header, records?))
}

/// Why a table could not be loaded.
pub enum LoadError {
    /// The text is not well-formed delimited text.
    Csv(csv::Error),
    /// More records than row numbers can count.
    TooManyRows,
}

/// `rows` is `records` with the row number `i + 1` put in front of record `i`.
pub open spec fn numbered(rows: Seq<Vec<String>>, records: Seq<Vec<String>>) -> bool {
    &&& rows.len() == records.len()
    &&& forall|i: int|
        0 <= i < rows.len() ==> {
            &&& (#[trigger] rows[i])@.len() == records[i]@.len() + 1
            &&& rows[i]@[0]@ == decimal_digits((i + 1) as nat)
            &&& forall|j: int| 0 <= j < records[i]@.len() ==> rows[i]@[j + 1] == records[i]@[j]
        }
}

/// Puts the column `#` in front of the header and the 1-based row number in
/// front of each record.
pub fn number_rows(header: Vec<String>, records: Vec<Vec<String>>) -> (r: (Vec<String>, Vec<Vec<String>>))
    requires
        records@.len() < usize::MAX,
    ensures
        r.0@.len() == header@.len() + 1,
        r.0@[0]@ == seq!['#'],
        forall|j: int| 0 <= j < header@.len() ==> r.0@[j + 1] == header@[j],
        numbered(r.1@, records@),
        forall|i: int| 0 <= i < r.1@.len() ==> is_row_number(#[trigger] r.1@[i]@[0]@),
{
    let mut full_header = header;
    proof {
        reveal_strlit("#");
    }
    full_header.insert(0, String::from_str("#"));
    let ghost orig = records@;
    let mut records = records;
    let n = records.len();
    let mut rows: Vec<Vec<String>> = Vec::new();
    let mut i: usize = 0;
    while i < n
        invariant
            n == orig.len(),
            n < usize::MAX,
            i <= n,
            records@.len() == n,
            forall|j: int| i <= j < n ==> #[trigger] records@[j] == orig[j],
            numbered(rows@, orig.take(i as int)),
            forall|k: int| 0 <= k < rows@.len() ==> is_row_number(#[trigger] rows@[k]@[0]@),
        decreases n - i,
    {
        let mut row: Vec<String> = Vec::new();
        core::mem::swap(&mut row, &mut records[i]);
        assert(row == orig[i as int]);
        let number = decimal_string(i + 1);
        proof {
            lemma_decimal_digits((i + 1) as nat);
        }
        row.insert(0, number);
        rows.push(row);
        assert(orig.take(i as int + 1)[i as int] == orig[i as int]);
        assert forall|k: int| 0 <= k < i implies #[trigger] orig.take(i as int + 1)[k] == orig.take(
            i as int,
        )[k] by {}
        i = i + 1;
    }
    assert(orig.take(n as int) =~= orig);
    (full_header, rows)
}

/// Reads delimited text into a grid: the header and records that the csv
/// crate reads, numbered as `number_rows` does.
pub fn read_csv(data: &[u8], delimiter: u8, quote: u8) -> (r: Result<
    (Vec<String>, Vec<Vec<String>>),
    LoadError,
>)
    ensures
        match csv_table_of(data@, delimiter, quote) {
            None => r matches Err(LoadError::Csv(_)),
            Some((header, records)) => if records.len() >= usize::MAX {
                r matches Err(LoadError::TooManyRows)
            } else {
                r matches Ok(_)
            },
        },
        r matches Ok(_) ==> {
            let (h, rows) = r->Ok_0;
            let (header, records) = csv_table_of(data@, delimiter, quote)->Some_0;
            &&& fields_view(h@) == seq![seq!['#']] + header
            &&& rows@.len() == records.len()
            &&& forall|i: int|
                0 <= i < rows@.len() ==> fields_view((#[trigger] rows@[i])@) == seq![
                    decimal_digits((i + 1) as nat),
                ] + records[i]
            &&& forall|i: int| 0 <= i < rows@.len() ==> is_row_number(#[trigger] rows@[i]@[0]@)
            &&& forall|i: int| 0 <= i < rows@.len() ==> (#[trigger] rows@[i])@.len() == h@.len()
        },
{
    match parse_csv(data, delimiter, quote) {
        Err(e) => Err(LoadError::Csv(e)),
        Ok((header, records)) => {
            if records.len() == usize::MAX {
                return Err(LoadError::TooManyRows);
            }
            let ghost hv = header@;
            let ghost rv = records@;
            let (h, rows) = number_rows(header, records);
            assert(fields_view(h@) =~= seq![seq!['#']] + fields_view(hv));
            assert forall|i: int| 0 <= i < rows@.len() implies fields_view((#[trigger] rows@[i])@)
                == seq![decimal_digits((i + 1) as nat)] + records_view(rv)[i] by {
                assert(fields_view(rows@[i]@) =~= seq![decimal_digits((i + 1) as nat)]
                    + fields_view(rv[i]@));
            }
            Ok((h, rows))
        },
    }
}

} // verus!
