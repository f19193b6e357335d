//! Reading the reference data: CSV text with a header row, whose columns
//! are matched to the record's fields by name.

use crate::record::{Airport, AirportView};
use crate::table::{views, AirportTable};
use vstd::prelude::*;

verus! {

/// The number of fields of a record.
pub const FIELD_COUNT: usize = 18;

/// The column names of the record's fields, in the order of the fields.
pub open spec fn field_names() -> Seq<Seq<char>> {
    seq![
        "id"@,
        "ident"@,
        "type"@,
        "name"@,
        "latitude_deg"@,
        "longitude_deg"@,
        "elevation_ft"@,
        "continent"@,
        "iso_country"@,
        "iso_region"@,
        "municipality"@,
        "scheduled_service"@,
        "gps_code"@,
        "iata_code"@,
        "local_code"@,
        "home_link"@,
        "wikipedia_link"@,
        "keywords"@,
    ]
}

/// The column name of field `i`.
pub fn field_name(i: usize) -> (name: &'static str)
    requires
        i < FIELD_COUNT,
    ensures
        name@ == field_names()[i as int],
{
    match i {
        0 => "id",
        1 => "ident",
        2 => "type",
        3 => "name",
        4 => "latitude_deg",
        5 => "longitude_deg",
        6 => "elevation_ft",
        7 => "continent",
        8 => "iso_country",
        9 => "iso_region",
        10 => "municipality",
        11 => "scheduled_service",
        12 => "gps_code",
        13 => "iata_code",
        14 => "local_code",
        15 => "home_link",
        16 => "wikipedia_link",
        _ => "keywords",
    }
}

/// Column `i` of `header`, and no other, is named `name`.
pub open spec fn names_column(header: Seq<Seq<char>>, name: Seq<char>, i: int) -> bool {
    &&& 0 <= i < header.len()
    &&& header[i] == name
    &&& forall|j: int| 0 <= j < header.len() && j != i ==> header[j] != name
}

/// The one column of `header` that is named `name`: none where no column
/// has the name, and none where several have it.
pub open spec fn column_of(header: Seq<Seq<char>>, name: Seq<char>) -> Option<int> {
    if exists|i: int| names_column(header, name, i) {
        Some(choose|i: int| names_column(header, name, i))
    } else {
        None
    }
}

/// The columns of the record's fields, in the order of the fields: none
/// unless every field has its one column.
pub open spec fn columns_of(header: Seq<Seq<char>>) -> Option<Seq<int>> {
    if forall|i: int|
        0 <= i < FIELD_COUNT ==> (#[trigger] column_of(header, field_names()[i])) is Some {
        Some(Seq::new(FIELD_COUNT as nat, |i: int| column_of(header, field_names()[i]).unwrap()))
    } else {
        None
    }
}

/// The record whose fields stand in `row` at `cols`: none where the row is
/// too short for one of them.
pub open spec fn assemble(row: Seq<Seq<char>>, cols: Seq<int>) -> Option<AirportView> {
    if forall|i: int| 0 <= i < FIELD_COUNT ==> 0 <= #[trigger] cols[i] < row.len() {
        Some(
            AirportView {
                id: row[cols[0]],
                ident: row[cols[1]],
                type_: row[cols[2]],
                name: row[cols[3]],
                latitude_deg: row[cols[4]],
                longitude_deg: row[cols[5]],
                elevation_ft: row[cols[6]],
                continent: row[cols[7]],
                iso_country: row[cols[8]],
                iso_region: row[cols[9]],
                municipality: row[cols[10]],
                scheduled_service: row[cols[11]],
                gps_code: row[cols[12]],
                iata_code: row[cols[13]],
                local_code: row[cols[14]],
                home_link: row[cols[15]],
                wikipedia_link: row[cols[16]],
                keywords: row[cols[17]],
            },
        )
    } else {
        None
    }
}

/// The record that `row` holds under `header`: none where the row could not
/// be read, where a field has no column of its own, or where the row is too
/// short.
pub open spec fn record_of(header: Seq<Seq<char>>, row: Option<Seq<Seq<char>>>) -> Option<
    AirportView,
> {
    match (columns_of(header), row) {
        (Some(cols), Some(fields)) => assemble(fields, cols),
        _ => None,
    }
}

/// The records that `rows` hold under `header`, in order; a row that holds
/// none is passed over.
pub open spec fn records_of(header: Seq<Seq<char>>, rows: Seq<Option<Seq<Seq<char>>>>) -> Seq<
    AirportView,
>
    decreases rows.len(),
{
    if rows.len() == 0 {
        Seq::empty()
    } else {
        let before = records_of(header, rows.drop_last());
        match record_of(header, rows.last()) {
            Some(a) => before.push(a),
            None => before,
        }
    }
}

/// Finds the one column of `header` that is named `name`.
pub fn find_column(header: &Vec<String>, name: &str) -> (r: Option<usize>)
    ensures
        match r {
            Some(i) => column_of(header.deep_view(), name@) == Some(i as int),
            None => column_of(header.deep_view(), name@) is None,
        },
{
    let ghost h = header.deep_view();
    let wanted = name.to_owned();
    let mut at: Option<usize> = None;
    let mut k: usize = 0;
    while k < header.len()
        invariant
            k <= header.len(),
            h == header.deep_view(),
            wanted@ == name@,
            match at {
                Some(i) => i < k && h[i as int] == name@ && forall|j: int|
                    0 <= j < k && j != i ==> h[j] != name@,
                None => forall|j: int| 0 <= j < k ==> h[j] != name@,
            },
        decreases header.len() - k,
    {
        if header[k] == wanted {
            match at {
                Some(i) => {
                    assert(h[k as int] == name@);
                    assert(forall|c: int| !names_column(h, name@, c));
                    return None;
                },
                None => {
                    at = Some(k);
                },
            }
        }
        k += 1;
    }
    match at {
        Some(i) => {
            assert(names_column(h, name@, i as int));
            assert(forall|c: int| names_column(h, name@, c) ==> c == i);
            Some(i)
        },
        None => {
            assert(forall|c: int| !names_column(h, name@, c));
            None
        },
    }
}

/// Finds the column of every field.
pub fn resolve_columns(header: &Vec<String>) -> (r: Option<Vec<usize>>)
    ensures
        match r {
            Some(cols) => columns_of(header.deep_view()) == Some(
                cols@.map_values(|c: usize| c as int),
            ),
            None => columns_of(header.deep_view()) is None,
        },
{
    let ghost h = header.deep_view();
    let mut cols: Vec<usize> = Vec::new();
    let mut i: usize = 0;
    while i < FIELD_COUNT
        invariant
            i <= FIELD_COUNT,
            h == header.deep_view(),
            cols@.len() == i,
            forall|m: int|
                0 <= m < i ==> (#[trigger] column_of(h, field_names()[m])) == Some(cols@[m] as int),
        decreases FIELD_COUNT - i,
    {
        match find_column(header, field_name(i)) {
            Some(c) => {
                cols.push(c);
            },
            None => {
                assert(column_of(h, field_names()[i as int]) is None);
                return None;
            },
        }
        i += 1;
    }
    assert(columns_of(h).unwrap() =~= cols@.map_values(|c: usize| c as int));
    Some(cols)
}

/// Takes the record's fields out of `row` at `cols`.
pub fn record_from_row(cols: &Vec<usize>, row: &Vec<String>) -> (r: Option<Airport>)
    requires
        cols@.len() == FIELD_COUNT,
    ensures
        match r {
            Some(a) => assemble(row.deep_view(), cols@.map_values(|c: usize| c as int)) == Some(
                a@,
            ),
            None => assemble(row.deep_view(), cols@.map_values(|c: usize| c as int)) is None,
        },
{
    let ghost cv = cols@.map_values(|c: usize| c as int);
    let ghost rv = row.deep_view();
    let mut i: usize = 0;
    while i < FIELD_COUNT
        invariant
            i <= FIELD_COUNT,
            cols@.len() == FIELD_COUNT,
            cv == cols@.map_values(|c: usize| c as int),
            rv == row.deep_view(),
            forall|m: int| 0 <= m < i ==> 0 <= #[trigger] cv[m] < rv.len(),
        decreases FIELD_COUNT - i,
    {
        if cols[i] >= row.len() {
            assert(!(0 <= cv[i as int] < rv.len()));
            return None;
        }
        i += 1;
    }
    let a = Airport {
        id: row[cols[0]].clone(),
        ident: row[cols[1]].clone(),
        type_: row[cols[2]].clone(),
        name: row[cols[3]].clone(),
        latitude_deg: row[cols[4]].clone(),
        longitude_deg: row[cols[5]].clone(),
        elevation_ft: row[cols[6]].clone(),
        continent: row[cols[7]].clone(),
        iso_country: row[cols[8]].clone(),
        iso_region: row[cols[9]].clone(),
        municipality: row[cols[10]].clone(),
        scheduled_service: row[cols[11]].clone(),
        gps_code: row[cols[12]].clone(),
        iata_code: row[cols[13]].clone(),
        local_code: row[cols[14]].clone(),
        home_link: row[cols[15]].clone(),
        wikipedia_link: row[cols[16]].clone(),
        keywords: row[cols[17]].clone(),
    };
    assert(assemble(rv, cv) == Some(a@));
    Some(a)
}

/// Reads the records out of the rows of a file. A row that could not be
/// read, or that lacks a field, is passed over; where the header lacks a
/// field's column, or names one twice, every row is.
pub fn parse_records(header: &Vec<String>, rows: &Vec<Option<Vec<String>>>) -> (records: Vec<
    Airport,
>)
    ensures
        views(records@) == records_of(header.deep_view(), rows.deep_view()),
{
    let ghost h = header.deep_view();
    let ghost rs = rows.deep_view();
    let mut records: Vec<Airport> = Vec::new();
    let columns = resolve_columns(header);
    let mut i: usize = 0;
    assert(rs.take(0) =~= Seq::empty());
    while i < rows.len()
        invariant
            i <= rows.len(),
            h == header.deep_view(),
            rs == rows.deep_view(),
            match columns {
                Some(cols) => columns_of(h) == Some(cols@.map_values(|c: usize| c as int)),
                None => columns_of(h) is None,
            },
            views(records@) == records_of(h, rs.take(i as int)),
        decreases rows.len() - i,
    {
        let ghost so_far = views(records@);
        assert(rs.take(i + 1).drop_last() =~= rs.take(i as int));
        assert(rs.take(i + 1).last() == rs[i as int]);
        assert(rs[i as int] == rows@[i as int].deep_view());
        match (&columns, &rows[i]) {
            (Some(cols), Some(row)) => {
                assert(cols@.map_values(|c: usize| c as int).len() == FIELD_COUNT);
                match record_from_row(cols, row) {
                    Some(a) => {
                        records.push(a);
                        assert(views(records@) =~= so_far.push(a@));
                    },
                    None => {},
                }
            },
            _ => {},
        }
        i += 1;
    }
    assert(rs.take(i as int) =~= rs);
    records
}

/// Builds the table of the records that the rows of a file hold.
pub fn table_from_rows(header: &Vec<String>, rows: &Vec<Option<Vec<String>>>) -> (table:
    AirportTable)
    ensures
        table.records() == records_of(header.deep_view(), rows.deep_view()),
{
    AirportTable::build(parse_records(header, rows))
}

/// The header row of CSV text, field by field, as `csv::Reader::headers`
/// reads it; none where it reports an error.
pub uninterp spec fn csv_header(bytes: Seq<u8>) -> Option<Seq<Seq<char>>>;

/// The rows of CSV text after the header row, in order, as
/// `csv::Reader::records` reads them: each row field by field, or none for a
/// row on which it reports an error.
pub uninterp spec fn csv_rows(bytes: Seq<u8>) -> Seq<Option<Seq<Seq<char>>>>;

/// The error of the `csv` crate. Its content is not read: whatever the
/// error, the header row could not be had.
#[verifier::external_type_specification]
#[verifier::external_body]
pub struct ExCsvError(csv::Error);

/// Calls `csv::Reader::headers` on a reader over `bytes`, made by
/// `csv::Reader::from_reader` with its default settings. Trusted: what the
/// call returns depends on the bytes alone.
#[verifier::external_body]
fn read_header(bytes: &[u8]) -> (r: Result<Vec<String>, csv::Error>)
    ensures
        match r {
            Ok(header) => csv_header(bytes@) == Some(header.deep_view()),
            Err(_) => csv_header(bytes@) is None,
        },
{
    let mut reader = csv::Reader::from_reader(bytes);
    let header = reader.headers()?;
    Ok(header.iter().map(|field| field.to_string()).collect())
}

/// Calls `csv::Reader::records` on a reader over `bytes`, made by
/// `csv::Reader::from_reader` with its default settings, and walks the rows
/// to their end. Trusted: the rows that the call yields, and the rows on
/// which it reports an error, depend on the bytes alone.
#[verifier::external_body]
fn read_rows(bytes: &[u8]) -> (rows: Vec<Option<Vec<String>>>)
    ensures
        rows.deep_view() == csv_rows(bytes@),
{
    let mut reader = csv::Reader::from_reader(bytes);
    reader.records().map(
        |row| row.ok().map(|fields| fields.iter().map(|field| field.to_string()).collect()),
    ).collect()
}

/// Why the reference data could not be loaded.
#[derive(Debug, Clone, Copy, PartialEq, Eq)]
pub enum LoadError {
    /// The header row could not be read.
    UnreadableHeader,
}

impl LoadError {
    /// What the error says, in words.
    pub open spec fn text(self) -> Seq<char> {
        "the header row of the airport data could not be read"@
    }

    /// Says in words why the reference data could not be loaded.
    pub fn message(&self) -> (text: &'static str)
        ensures
            text@ == self.text(),
    {
        "the header row of the airport data could not be read"
    }
}

/// Loads the table from CSV text. Fails where the header row cannot be
/// read, and then only; a data row that cannot be read is passed over.
pub fn load_airports(bytes: &[u8]) -> (r: Result<AirportTable, LoadError>)
    ensures
        match r {
            Ok(table) => csv_header(bytes@) matches Some(header) && table.records() == records_of(
                header,
                csv_rows(bytes@),
            ),
            Err(e) => csv_header(bytes@) is None && e == LoadError::UnreadableHeader,
        },
{
    match read_header(bytes) {
        Ok(header) => {
            let rows = read_rows(bytes);
            Ok(table_from_rows(&header, &rows))
        },
        Err(_) => Err(LoadError::UnreadableHeader),
    }
}

} // verus!
