use reather::record::Airport;
use reather::table::AirportTable;

fn airport(id: &str, ident: &str, iata: &str, name: &str) -> Airport {
    Airport {
        id: id.to_string(),
        ident: ident.to_string(),
        type_: "large_airport".to_string(),
        name: name.to_string(),
        latitude_deg: "0".to_string(),
        longitude_deg: "0".to_string(),
        elevation_ft: "0".to_string(),
        continent: "NA".to_string(),
        iso_country: "US".to_string(),
        iso_region: "US-MA".to_string(),
        municipality: "Boston".to_string(),
        scheduled_service: "yes".to_string(),
        gps_code: ident.to_string(),
        iata_code: iata.to_string(),
        local_code: String::new(),
        home_link: String::new(),
        wikipedia_link: String::new(),
        keywords: String::new(),
    }
}

#[test]
fn a_record_is_filed_under_both_of_its_codes() {
    let table = AirportTable::build(vec![airport("1", "KBOS", "BOS", "Logan")]);
    assert_eq!(table.len(), 2);
    assert_eq!(table.record_count(), 1);
    assert_eq!(table.lookup("BOS").map(|a| a.id.as_str()), Some("1"));
    assert_eq!(table.lookup("KBOS").map(|a| a.id.as_str()), Some("1"));
    assert!(table.lookup("JFK").is_none());
}

#[test]
fn an_empty_table_finds_nothing() {
    let table = AirportTable::build(Vec::new());
    assert_eq!(table.len(), 0);
    assert_eq!(table.record_count(), 0);
    assert!(table.lookup("BOS").is_none());
    assert!(table.lookup("").is_none());
}

#[test]
fn lookup_trims_and_ignores_letter_case() {
    let table = AirportTable::build(vec![airport("1", "KBOS", "BOS", "Logan")]);
    let plain = table.lookup("BOS").cloned();
    assert!(plain.is_some());
    assert_eq!(table.lookup("  bos\t").cloned(), plain);
    assert_eq!(table.lookup("bOs").cloned(), plain);
    assert_eq!(table.lookup(" kbos ").cloned(), plain);
}

#[test]
fn codes_are_filed_trimmed_and_in_upper_case() {
    let table = AirportTable::build(vec![airport("1", " kbos ", " bos", "Logan")]);
    assert_eq!(table.len(), 2);
    assert_eq!(table.lookup("BOS").map(|a| a.id.as_str()), Some("1"));
    assert_eq!(table.lookup("KBOS").map(|a| a.id.as_str()), Some("1"));
}

#[test]
fn a_later_iata_code_replaces_an_earlier_one() {
    let table = AirportTable::build(vec![
        airport("1", "AAAA", "XYZ", "First"),
        airport("2", "BBBB", "XYZ", "Second"),
    ]);
    assert_eq!(table.lookup("XYZ").map(|a| a.id.as_str()), Some("2"));
    assert_eq!(table.lookup("AAAA").map(|a| a.id.as_str()), Some("1"));
    assert_eq!(table.lookup("BBBB").map(|a| a.id.as_str()), Some("2"));
    assert_eq!(table.len(), 3);
}

#[test]
fn an_ident_never_replaces_what_is_filed() {
    let table = AirportTable::build(vec![
        airport("1", "SAME", "", "First"),
        airport("2", "SAME", "", "Second"),
    ]);
    assert_eq!(table.lookup("SAME").map(|a| a.id.as_str()), Some("1"));
    assert_eq!(table.len(), 1);
}

#[test]
fn the_iata_code_wins_a_key_whatever_the_order() {
    let iata_first = AirportTable::build(vec![
        airport("1", "ABC", "ABC", "By code"),
        airport("2", "ABC", "DEF", "By ident"),
    ]);
    assert_eq!(iata_first.lookup("ABC").map(|a| a.id.as_str()), Some("1"));
    let ident_first = AirportTable::build(vec![
        airport("2", "ABC", "DEF", "By ident"),
        airport("1", "ABC", "ABC", "By code"),
    ]);
    assert_eq!(ident_first.lookup("ABC").map(|a| a.id.as_str()), Some("1"));
    assert_eq!(ident_first.lookup("DEF").map(|a| a.id.as_str()), Some("2"));
}

#[test]
fn an_ident_is_dropped_where_another_record_holds_its_key_by_code() {
    let table = AirportTable::build(vec![
        airport("1", "AAAA", "MTL", "Code MTL"),
        airport("2", "MTL", "", "Ident MTL"),
    ]);
    assert_eq!(table.lookup("MTL").map(|a| a.id.as_str()), Some("1"));
    assert_eq!(table.len(), 2);
    assert_eq!(table.record(1).0.id, "2");
    assert!(!table.record(1).1);
    assert!(table.record(0).1);
}

#[test]
fn a_code_of_white_space_alone_is_not_filed() {
    let table = AirportTable::build(vec![airport("1", "  ", " \t", "Nowhere")]);
    assert_eq!(table.len(), 0);
    assert!(table.lookup("").is_none());
    assert!(table.lookup("  ").is_none());
    assert!(!table.record(0).1);
}

#[test]
fn a_record_without_codes_holds_no_key() {
    let table = AirportTable::build(vec![
        airport("1", "", "", "Nameless"),
        airport("2", "KBOS", "", "Logan"),
    ]);
    assert_eq!(table.len(), 1);
    assert_eq!(table.record_count(), 2);
    assert!(!table.record(0).1);
    assert!(table.record(1).1);
}

#[test]
fn a_replaced_record_stays_listed_by_its_ident() {
    let table = AirportTable::build(vec![
        airport("1", "AAAA", "XYZ", "First"),
        airport("2", "BBBB", "XYZ", "Second"),
        airport("3", "", "QQQ", "Third"),
        airport("4", "", "QQQ", "Fourth"),
    ]);
    assert!(table.record(0).1);
    assert!(table.record(1).1);
    assert!(!table.record(2).1);
    assert!(table.record(3).1);
}

#[test]
fn a_clone_of_a_record_equals_it() {
    let a = airport("1", "KBOS", "BOS", "Logan");
    assert_eq!(a.clone(), a);
}

#[test]
fn the_iata_code_wins_the_key_as_it_is_filed() {
    for order in [[0usize, 1], [1, 0]] {
        let rows = [airport("1", "ZZZZ", " abc ", "By code"), airport("2", "Abc", "DEF", "By ident")];
        let table = AirportTable::build(vec![rows[order[0]].clone(), rows[order[1]].clone()]);
        assert_eq!(table.lookup("ABC").map(|a| a.id.as_str()), Some("1"));
        assert_eq!(table.lookup("ZZZZ").map(|a| a.id.as_str()), Some("1"));
        assert_eq!(table.lookup("DEF").map(|a| a.id.as_str()), Some("2"));
        assert_eq!(table.len(), 3);
    }
}
