use reather::links::{
    airport_flightradar24_code, generate_geocode_url, generate_observations_url,
    generate_tide_predictions_url,
};
use reather::record::Airport;
use reather::station::{station_airport, US_PREFIX};
use reather::table::AirportTable;

fn airport(id: &str, ident: &str, iata: &str, name: &str) -> Airport {
    Airport {
        id: id.to_string(),
        ident: ident.to_string(),
        type_: String::new(),
        name: name.to_string(),
        latitude_deg: String::new(),
        longitude_deg: String::new(),
        elevation_ft: String::new(),
        continent: String::new(),
        iso_country: String::new(),
        iso_region: String::new(),
        municipality: String::new(),
        scheduled_service: String::new(),
        gps_code: String::new(),
        iata_code: iata.to_string(),
        local_code: String::new(),
        home_link: "http://example.org".to_string(),
        wikipedia_link: String::new(),
        keywords: String::new(),
    }
}

fn sample() -> AirportTable {
    AirportTable::build(vec![
        airport("1", "KBOS", "BOS", "Logan"),
        airport("2", "K5B2", "", "Saratoga County"),
        airport("3", "MT53", "", "Carson Field"),
        airport("4", "EGLL ", "LHR", "Heathrow"),
        airport("5", "MX-1", "", "Dash Field"),
    ])
}

#[test]
fn the_prefix_letter_is_k() {
    assert_eq!(US_PREFIX, 'K');
}

#[test]
fn a_station_at_an_airport_with_an_iata_code_links_by_that_code() {
    let table = sample();
    let found = station_airport(&table, "KBOS").unwrap();
    assert_eq!(found.code, "BOS");
    assert_eq!(found.name.as_deref(), Some("Logan"));
    assert_eq!(found.details.map(|a| a.id.as_str()), Some("1"));
    let found = station_airport(&table, " lhr ").unwrap();
    assert_eq!(found.code, "LHR");
    assert_eq!(found.name.as_deref(), Some("Heathrow"));
}

#[test]
fn a_station_filed_by_ident_alone_links_by_its_ident() {
    let table = sample();
    let found = station_airport(&table, "K5B2").unwrap();
    assert_eq!(found.code, "K5B2");
    assert_eq!(found.name.as_deref(), Some("Saratoga County"));
    assert_eq!(found.details.map(|a| a.id.as_str()), Some("2"));
    let found = station_airport(&table, "EGLL").unwrap();
    assert_eq!(found.code, "EGLL");
    assert_eq!(found.details.map(|a| a.id.as_str()), Some("4"));
}

#[test]
fn a_station_that_is_unknown_or_not_public_links_to_nothing() {
    let table = sample();
    assert!(station_airport(&table, "KZZZ").is_none());
    assert!(station_airport(&table, "MT53").is_none());
    assert!(station_airport(&table, "MX-1").is_none());
    assert!(station_airport(&table, " K5B2").is_none());
    assert!(station_airport(&table, "").is_none());
}

#[test]
fn the_code_for_flightradar24_prefers_the_iata_code() {
    assert_eq!(airport_flightradar24_code(&airport("1", "KBOS", "BOS", "")), Some("BOS".to_string()));
    assert_eq!(airport_flightradar24_code(&airport("1", "KBOS", " bos ", "")), Some("bos".to_string()));
    assert_eq!(airport_flightradar24_code(&airport("1", " K5B2 ", "", "")), Some("K5B2".to_string()));
    assert_eq!(airport_flightradar24_code(&airport("1", "KBOS", "B-S", "")), Some("KBOS".to_string()));
    assert_eq!(airport_flightradar24_code(&airport("1", "KBOS", "BOST", "")), Some("KBOS".to_string()));
    assert_eq!(airport_flightradar24_code(&airport("1", "US-0001", "", "")), None);
    assert_eq!(airport_flightradar24_code(&airport("1", "KÉOS", "", "")), None);
    assert_eq!(airport_flightradar24_code(&airport("1", "", "", "")), None);
}

#[test]
fn the_observations_address_holds_the_station() {
    assert_eq!(
        generate_observations_url("KBOS"),
        "https://api.weather.gov/stations/KBOS/observations/latest"
    );
}

#[test]
fn the_tide_predictions_address_holds_day_and_station() {
    assert_eq!(
        generate_tide_predictions_url("20240501", "8418150"),
        "https://api.tidesandcurrents.noaa.gov/api/prod/datagetter?product=predictions&application=NOS.COOPS.TAC.WL&begin_date=20240501&end_date=20240501&datum=MLLW&station=8418150&time_zone=lst_ldt&units=english&interval=hilo&format=json"
    );
}

#[test]
fn the_geocoder_address_percent_encodes_the_query() {
    assert_eq!(
        generate_geocode_url("1600 Pennsylvania Ave NW, Washington, DC"),
        "https://geocoding.geo.census.gov/geocoder/locations/onelineaddress?address=1600%20Pennsylvania%20Ave%20NW%2C%20Washington%2C%20DC&benchmark=Public_AR_Current&format=json"
    );
    assert_eq!(
        generate_geocode_url("a-b_c.d~e"),
        "https://geocoding.geo.census.gov/geocoder/locations/onelineaddress?address=a-b_c.d~e&benchmark=Public_AR_Current&format=json"
    );
    assert_eq!(
        generate_geocode_url("é/?"),
        "https://geocoding.geo.census.gov/geocoder/locations/onelineaddress?address=%C3%A9%2F%3F&benchmark=Public_AR_Current&format=json"
    );
    assert_eq!(
        generate_geocode_url(""),
        "https://geocoding.geo.census.gov/geocoder/locations/onelineaddress?address=&benchmark=Public_AR_Current&format=json"
    );
}
