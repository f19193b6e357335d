//! From a weather station's identifier to the IATA code of its airport.

use crate::record::{Airport, AirportView};
use crate::table::{found, AirportTable};
use crate::text::{
    all_alphanumeric, alphanumeric_of_len, chars_of, code_key, normalize_code, trim, trimmed,
};
use vstd::prelude::*;
use vstd::string::*;

verus! {

/// The letter that ICAO identifiers of the contiguous United States start
/// with.
pub const US_PREFIX: char = 'K';

/// The IATA code that `station` resolves to in `table`. With `id` the
/// station's identifier trimmed and in upper case:
/// 1. where `id` has four characters, the first of them the prefix letter,
///    and the other three are filed as a code, those three;
/// 2. else, where `id` itself is filed as a code, `id`;
/// 3. else, where `id` is filed as an ident, the IATA code of its record,
///    unless that is empty;
/// 4. else none.
pub open spec fn station_code(table: Map<Seq<char>, AirportView>, station: Seq<char>) -> Option<
    Seq<char>,
> {
    let id = code_key(station);
    if id.len() == 4 && id[0] == US_PREFIX && found(table, id.subrange(1, 4)) is Some {
        Some(id.subrange(1, 4))
    } else if found(table, id) is Some {
        Some(id)
    } else {
        match found(table, id) {
            Some(a) => if a.iata_code.len() > 0 {
                Some(a.iata_code)
            } else {
                None
            },
            None => None,
        }
    }
}

/// The view of an optional text.
pub open spec fn text_view(s: Option<String>) -> Option<Seq<char>> {
    match s {
        Some(t) => Some(t@),
        None => None,
    }
}

/// Resolves a weather station's identifier to an IATA code.
pub fn code_from_station(table: &AirportTable, station_id: &str) -> (code: Option<String>)
    ensures
        text_view(code) == station_code(table@, station_id@),
{
    let id = normalize_code(station_id);
    let letters = chars_of(id.as_str());
    if letters.len() == 4 && letters[0] == US_PREFIX {
        let rest = id.as_str().substring_char(1, 4);
        if table.lookup(rest).is_some() {
            return Some(rest.to_owned());
        }
    }
    if table.lookup(id.as_str()).is_some() {
        return Some(id);
    }
    match table.lookup(id.as_str()) {
        Some(airport) => {
            if !airport.iata_code.as_str().is_empty() {
                return Some(airport.iata_code.clone());
            }
        },
        None => {},
    }
    None
}

/// Codes and idents share one table, so the third rule never gives a code:
/// a station resolves by the first rule, by the second, or not at all.
pub proof fn lemma_station_code_rules(table: Map<Seq<char>, AirportView>, station: Seq<char>)
    ensures
        station_code(table, station) == {
            let id = code_key(station);
            if id.len() == 4 && id[0] == US_PREFIX && table.contains_key(
                code_key(id.subrange(1, 4)),
            ) {
                Some(id.subrange(1, 4))
            } else if table.contains_key(code_key(id)) {
                Some(id)
            } else {
                None
            }
        },
{
}

/// The airport at a weather station, as the links to it need it.
pub struct StationAirport<'a> {
    /// The code under which Flightradar24 knows the airport.
    pub code: String,
    /// The airport's name, where a record was found.
    pub name: Option<String>,
    /// The record filed under the code.
    pub details: Option<&'a Airport>,
}

/// What a [`StationAirport`] holds, as plain values.
pub ghost struct StationAirportView {
    pub code: Seq<char>,
    pub name: Option<Seq<char>>,
    pub details: Option<AirportView>,
}

impl<'a> View for StationAirport<'a> {
    type V = StationAirportView;

    open spec fn view(&self) -> StationAirportView {
        StationAirportView {
            code: self.code@,
            name: text_view(self.name),
            details: match self.details {
                Some(a) => Some(a@),
                None => None,
            },
        }
    }
}

/// The name of a record, if there is one.
pub open spec fn name_of(a: Option<AirportView>) -> Option<Seq<char>> {
    match a {
        Some(a) => Some(a.name),
        None => None,
    }
}

/// The airport at `station`, by its IATA code: the code that the station
/// resolves to, where that is three letters or digits.
pub open spec fn station_airport_by_code(
    table: Map<Seq<char>, AirportView>,
    station: Seq<char>,
) -> Option<StationAirportView> {
    match station_code(table, station) {
        Some(code) => if code.len() == 3 && all_alphanumeric(code) {
            Some(
                StationAirportView {
                    code,
                    name: name_of(found(table, code)),
                    details: found(table, code),
                },
            )
        } else {
            None
        },
        None => None,
    }
}

/// The airport at `station`, by its ident: for a station of four letters
/// or digits that is filed, the ident of its record, trimmed, where that
/// is four letters or digits and does not start with `MT`.
pub open spec fn station_airport_by_ident(
    table: Map<Seq<char>, AirportView>,
    station: Seq<char>,
) -> Option<StationAirportView> {
    if station.len() == 4 && all_alphanumeric(station) {
        match found(table, station) {
            Some(a) => {
                let ident = trimmed(a.ident);
                if ident.len() == 4 && all_alphanumeric(ident) && !seq!['M', 'T'].is_prefix_of(
                    ident,
                ) {
                    Some(
                        StationAirportView {
                            code: ident,
                            name: Some(a.name),
                            details: found(table, ident),
                        },
                    )
                } else {
                    None
                }
            },
            None => None,
        }
    } else {
        None
    }
}

/// The airport at `station`: by its IATA code where that gives one, else
/// by its ident.
pub open spec fn station_airport_of(
    table: Map<Seq<char>, AirportView>,
    station: Seq<char>,
) -> Option<StationAirportView> {
    match station_airport_by_code(table, station) {
        Some(found) => Some(found),
        None => station_airport_by_ident(table, station),
    }
}

/// The view of an optional airport found at a station.
pub open spec fn station_airport_view(found: Option<StationAirport>) -> Option<
    StationAirportView,
> {
    match found {
        Some(f) => Some(f@),
        None => None,
    }
}

/// Finds the airport at a weather station: the code to link to, the
/// airport's name and its record.
pub fn station_airport<'a>(table: &'a AirportTable, station_id: &str) -> (r: Option<
    StationAirport<'a>,
>)
    ensures
        station_airport_view(r) == station_airport_of(table@, station_id@),
{
    match code_from_station(table, station_id) {
        Some(code) => {
            if alphanumeric_of_len(&chars_of(code.as_str()), 3) {
                let details = table.lookup(code.as_str());
                let name = match details {
                    Some(a) => Some(a.name.clone()),
                    None => None,
                };
                return Some(StationAirport { code, name, details });
            }
        },
        None => {},
    }
    if alphanumeric_of_len(&chars_of(station_id), 4) {
        match table.lookup(station_id) {
            Some(a) => {
                let ident = trim(a.ident.as_str());
                let letters = chars_of(ident.as_str());
                let starts_mt = letters.len() >= 2 && letters[0] == 'M' && letters[1] == 'T';
                proof {
                    if starts_mt {
                        assert(seq!['M', 'T'] =~= ident@.subrange(0, 2));
                    } else if letters.len() >= 2 {
                        let head = ident@.subrange(0, 2);
                        assert(head[0] == ident@[0] && head[1] == ident@[1]);
                    }
                }
                if alphanumeric_of_len(&letters, 4) && !starts_mt {
                    let details = table.lookup(ident.as_str());
                    return Some(StationAirport { code: ident, name: Some(a.name.clone()), details });
                }
            },
            None => {},
        }
    }
    None
}

} // verus!
