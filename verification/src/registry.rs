//! The registry: the handle through which a program reaches its one airport
//! table. It starts empty, is filled once, and answers queries from then on.

use crate::record::{Airport, AirportView};
use crate::search::{ref_views, search, search_results};
use crate::source::{csv_header, csv_rows, load_airports, records_of};
use crate::station::{code_from_station, station_code, text_view};
use crate::table::{found, table_of, AirportTable};
use vstd::prelude::*;

verus! {

/// Why the registry could not be filled.
#[derive(Debug, Clone, Copy, PartialEq, Eq)]
pub enum InitError {
    /// The reference data could not be loaded.
    LoadFailed,
    /// The registry holds a table already.
    AlreadyInitialized,
}

/// Why a query got no answer.
#[derive(Debug, Clone, Copy, PartialEq, Eq)]
pub enum QueryError {
    /// The registry holds no table yet.
    NotInitialized,
}

impl InitError {
    /// What the error says, in words.
    pub open spec fn text(self) -> Seq<char> {
        match self {
            InitError::LoadFailed => "airport data could not be loaded"@,
            InitError::AlreadyInitialized => "AIRPORTS already initialized"@,
        }
    }

    /// Says in words why the registry could not be filled.
    pub fn message(&self) -> (text: &'static str)
        ensures
            text@ == self.text(),
    {
        match self {
            InitError::LoadFailed => "airport data could not be loaded",
            InitError::AlreadyInitialized => "AIRPORTS already initialized",
        }
    }
}

impl QueryError {
    /// What the error says, in words.
    pub open spec fn text(self) -> Seq<char> {
        "AIRPORTS not initialized. Call init_airports() before using airport functions."@
    }

    /// Says in words why the query got no answer.
    pub fn message(&self) -> (text: &'static str)
        ensures
            text@ == self.text(),
    {
        "AIRPORTS not initialized. Call init_airports() before using airport functions."
    }
}

/// The handle to the airport table.
pub struct AirportRegistry {
    table: Option<AirportTable>,
}

impl AirportRegistry {
    /// The records of the table that the registry holds, if it holds one.
    pub closed spec fn contents(&self) -> Option<Seq<AirportView>> {
        match self.table {
            Some(table) => Some(table.records()),
            None => None,
        }
    }

    /// The registry holds a table.
    pub open spec fn is_initialized(&self) -> bool {
        self.contents() is Some
    }

    /// The table that the registry holds: each key with its record.
    pub open spec fn entries(&self) -> Map<Seq<char>, AirportView>
        recommends
            self.is_initialized(),
    {
        table_of(self.contents().unwrap())
    }

    /// An empty registry.
    pub fn new() -> (registry: AirportRegistry)
        ensures
            !registry.is_initialized(),
    {
        AirportRegistry { table: None }
    }

    /// Hands the registry its table. Fails, and changes nothing, where it
    /// holds one already.
    pub fn install(&mut self, table: AirportTable) -> (r: Result<(), InitError>)
        ensures
            match r {
                Ok(_) => !old(self).is_initialized() && final(self).contents() == Some(
                    table.records(),
                ),
                Err(e) => e == InitError::AlreadyInitialized && old(self).is_initialized()
                    && *final(self) == *old(self),
            },
    {
        if self.table.is_some() {
            return Err(InitError::AlreadyInitialized);
        }
        self.table = Some(table);
        Ok(())
    }
}

/// Fills the registry from CSV text, once. A registry that holds a table
/// already refuses every further attempt with `AlreadyInitialized`, whatever
/// the text. On an empty registry the text is loaded: where that fails, the
/// result is `LoadFailed`. A failure leaves the registry as it was.
pub fn init_airports(registry: &mut AirportRegistry, csv: &[u8]) -> (r: Result<(), InitError>)
    ensures
        match r {
            Ok(_) => {
                &&& !old(registry).is_initialized()
                &&& csv_header(csv@) matches Some(header)
                &&& final(registry).contents() == Some(records_of(header, csv_rows(csv@)))
            },
            Err(InitError::AlreadyInitialized) => {
                &&& old(registry).is_initialized()
                &&& *final(registry) == *old(registry)
            },
            Err(InitError::LoadFailed) => {
                &&& !old(registry).is_initialized()
                &&& csv_header(csv@) is None
                &&& *final(registry) == *old(registry)
            },
        },
{
    if registry.table.is_some() {
        return Err(InitError::AlreadyInitialized);
    }
    match load_airports(csv) {
        Ok(table) => registry.install(table),
        Err(_) => Err(InitError::LoadFailed),
    }
}

/// The table of the registry.
pub fn get_airports(registry: &AirportRegistry) -> (r: Result<&AirportTable, QueryError>)
    ensures
        match r {
            Ok(table) => registry.contents() == Some(table.records()),
            Err(e) => e == QueryError::NotInitialized && !registry.is_initialized(),
        },
{
    match &registry.table {
        Some(table) => Ok(table),
        None => Err(QueryError::NotInitialized),
    }
}

/// The record filed under an IATA code; the code is trimmed and put in
/// upper case first.
pub fn get_airport_by_iata<'a>(registry: &'a AirportRegistry, iata: &str) -> (r: Result<
    Option<&'a Airport>,
    QueryError,
>)
    ensures
        match r {
            Ok(Some(a)) => registry.is_initialized() && found(registry.entries(), iata@) == Some(
                a@,
            ),
            Ok(None) => registry.is_initialized() && found(registry.entries(), iata@) is None,
            Err(e) => e == QueryError::NotInitialized && !registry.is_initialized(),
        },
{
    match get_airports(registry) {
        Ok(table) => Ok(table.lookup(iata)),
        Err(e) => Err(e),
    }
}

/// The record filed under an ICAO ident; the ident is trimmed and put in
/// upper case first. Codes and idents share one table.
pub fn get_airport_by_icao<'a>(registry: &'a AirportRegistry, icao: &str) -> (r: Result<
    Option<&'a Airport>,
    QueryError,
>)
    ensures
        match r {
            Ok(Some(a)) => registry.is_initialized() && found(registry.entries(), icao@) == Some(
                a@,
            ),
            Ok(None) => registry.is_initialized() && found(registry.entries(), icao@) is None,
            Err(e) => e == QueryError::NotInitialized && !registry.is_initialized(),
        },
{
    match get_airports(registry) {
        Ok(table) => Ok(table.lookup(icao)),
        Err(e) => Err(e),
    }
}

/// The number of keys in the table.
pub fn get_airport_count(registry: &AirportRegistry) -> (r: Result<usize, QueryError>)
    ensures
        match r {
            Ok(n) => registry.is_initialized() && n == registry.entries().dom().len(),
            Err(e) => e == QueryError::NotInitialized && !registry.is_initialized(),
        },
{
    match get_airports(registry) {
        Ok(table) => Ok(table.len()),
        Err(e) => Err(e),
    }
}

/// Tells whether a record is filed under `code`, looked up as an IATA code.
pub fn is_valid_airport_code(registry: &AirportRegistry, code: &str) -> (r: Result<
    bool,
    QueryError,
>)
    ensures
        match r {
            Ok(valid) => registry.is_initialized() && valid == (found(registry.entries(), code@)
                is Some),
            Err(e) => e == QueryError::NotInitialized && !registry.is_initialized(),
        },
{
    match get_airport_by_iata(registry, code) {
        Ok(a) => Ok(a.is_some()),
        Err(e) => Err(e),
    }
}

/// Resolves a weather station's identifier to an IATA code.
pub fn get_airport_code_from_station(registry: &AirportRegistry, station_id: &str) -> (r: Result<
    Option<String>,
    QueryError,
>)
    ensures
        match r {
            Ok(code) => registry.is_initialized() && text_view(code) == station_code(
                registry.entries(),
                station_id@,
            ),
            Err(e) => e == QueryError::NotInitialized && !registry.is_initialized(),
        },
{
    match get_airports(registry) {
        Ok(table) => Ok(code_from_station(table, station_id)),
        Err(e) => Err(e),
    }
}

/// Searches the table for a wildcard term.
pub fn search_airports<'a>(registry: &'a AirportRegistry, term: &str) -> (r: Result<
    Vec<&'a Airport>,
    QueryError,
>)
    ensures
        match r {
            Ok(hits) => registry.contents() matches Some(records) && ref_views(hits@)
                == search_results(records, term@),
            Err(e) => e == QueryError::NotInitialized && !registry.is_initialized(),
        },
{
    match get_airports(registry) {
        Ok(table) => Ok(search(table, term)),
        Err(e) => Err(e),
    }
}

} // verus!
