//! An airport reference table and what a weather program builds on it.
//!
//! The table is loaded once from CSV text. Every record is filed under its
//! IATA code and under its ICAO ident, trimmed and in upper case; where two
//! records claim one key, a claim by IATA code wins over a claim by ident.
//! The table answers lookups by code, a wildcard search, and the question
//! which airport a weather station stands at. Around it stand the builders of
//! outbound links and the readers of addresses.
//!
//! A program reaches its table through an [`AirportRegistry`], which starts
//! empty, is filled once by [`init_airports`], and refuses queries until
//! then.

pub mod addresses;
pub mod links;
pub mod record;
pub mod registry;
pub mod search;
pub mod source;
pub mod states;
pub mod station;
pub mod table;
pub mod text;

pub use links::{
    extract_state_from_address, extract_state_from_airport, extract_zip_code,
    generate_flightradar24_url, generate_zillow_url,
};
pub use record::Airport;
pub use registry::{
    get_airport_by_iata, get_airport_by_icao, get_airport_code_from_station, get_airport_count,
    get_airports, init_airports, is_valid_airport_code, search_airports, AirportRegistry,
    InitError, QueryError,
};
pub use source::{load_airports, LoadError};
pub use table::AirportTable;
