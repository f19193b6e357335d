use reather::source::{
    field_name, find_column, load_airports, parse_records, record_from_row, resolve_columns,
    table_from_rows, LoadError, FIELD_COUNT,
};

const HEADER: &str = "id,ident,type,name,latitude_deg,longitude_deg,elevation_ft,continent,iso_country,iso_region,municipality,scheduled_service,gps_code,iata_code,local_code,home_link,wikipedia_link,keywords";

fn strings(fields: &[&str]) -> Vec<String> {
    fields.iter().map(|f| f.to_string()).collect()
}

fn header() -> Vec<String> {
    HEADER.split(',').map(|f| f.to_string()).collect()
}

fn boston() -> Vec<String> {
    strings(&[
        "3422", "KBOS", "large_airport", "Logan International Airport", "42.3643", "-71.0052",
        "20", "NA", "US", "US-MA", "Boston", "yes", "KBOS", "BOS", "BOS", "http://massport.com",
        "https://en.wikipedia.org/wiki/Logan_International_Airport", "General Edward Lawrence",
    ])
}

#[test]
fn the_fields_have_their_column_names() {
    assert_eq!(FIELD_COUNT, 18);
    let names: Vec<&str> = (0..FIELD_COUNT).map(field_name).collect();
    assert_eq!(names.join(","), HEADER);
}

#[test]
fn a_column_is_found_by_its_name() {
    let h = strings(&["name", "id", "ident"]);
    assert_eq!(find_column(&h, "name"), Some(0));
    assert_eq!(find_column(&h, "ident"), Some(2));
    assert_eq!(find_column(&h, "type"), None);
    assert_eq!(find_column(&h, "Name"), None);
    assert_eq!(find_column(&Vec::new(), "id"), None);
}

#[test]
fn a_name_that_two_columns_carry_names_none() {
    let h = strings(&["id", "name", "id"]);
    assert_eq!(find_column(&h, "id"), None);
    assert_eq!(find_column(&h, "name"), Some(1));
}

#[test]
fn the_columns_resolve_in_the_order_of_the_fields() {
    let cols = resolve_columns(&header()).unwrap();
    assert_eq!(cols, (0..18).collect::<Vec<usize>>());
    let mut reversed = header();
    reversed.reverse();
    let cols = resolve_columns(&reversed).unwrap();
    assert_eq!(cols, (0..18).rev().collect::<Vec<usize>>());
}

#[test]
fn the_columns_do_not_resolve_where_one_is_missing_or_doubled() {
    let mut short = header();
    short.pop();
    assert_eq!(resolve_columns(&short), None);
    let mut doubled = header();
    doubled.push("name".to_string());
    assert_eq!(resolve_columns(&doubled), None);
    let mut extra = header();
    extra.push("score".to_string());
    assert!(resolve_columns(&extra).is_some());
}

#[test]
fn a_record_takes_its_fields_from_the_named_columns() {
    let cols: Vec<usize> = (0..18).collect();
    let a = record_from_row(&cols, &boston()).unwrap();
    assert_eq!(a.id, "3422");
    assert_eq!(a.ident, "KBOS");
    assert_eq!(a.type_, "large_airport");
    assert_eq!(a.name, "Logan International Airport");
    assert_eq!(a.latitude_deg, "42.3643");
    assert_eq!(a.longitude_deg, "-71.0052");
    assert_eq!(a.elevation_ft, "20");
    assert_eq!(a.continent, "NA");
    assert_eq!(a.iso_country, "US");
    assert_eq!(a.iso_region, "US-MA");
    assert_eq!(a.municipality, "Boston");
    assert_eq!(a.scheduled_service, "yes");
    assert_eq!(a.gps_code, "KBOS");
    assert_eq!(a.iata_code, "BOS");
    assert_eq!(a.local_code, "BOS");
    assert_eq!(a.home_link, "http://massport.com");
    assert_eq!(a.wikipedia_link, "https://en.wikipedia.org/wiki/Logan_International_Airport");
    assert_eq!(a.keywords, "General Edward Lawrence");
}

#[test]
fn a_row_too_short_for_a_column_gives_no_record() {
    let cols: Vec<usize> = (0..18).collect();
    let mut row = boston();
    row.pop();
    assert_eq!(record_from_row(&cols, &row), None);
    assert_eq!(record_from_row(&cols, &Vec::new()), None);
}

#[test]
fn rows_that_hold_no_record_are_passed_over() {
    let mut short = boston();
    short.truncate(5);
    let rows = vec![Some(boston()), None, Some(short), Some(boston())];
    let records = parse_records(&header(), &rows);
    assert_eq!(records.len(), 2);
    assert_eq!(records[0].ident, "KBOS");
    assert_eq!(records[1].ident, "KBOS");
}

#[test]
fn no_row_holds_a_record_under_a_header_that_lacks_a_field() {
    let mut h = header();
    h[13] = "iata".to_string();
    let rows = vec![Some(boston()), Some(boston())];
    assert!(parse_records(&h, &rows).is_empty());
    assert_eq!(table_from_rows(&h, &rows).len(), 0);
}

#[test]
fn a_table_is_built_from_rows() {
    let rows = vec![Some(boston())];
    let table = table_from_rows(&header(), &rows);
    assert_eq!(table.len(), 2);
    assert_eq!(table.lookup("bos").map(|a| a.name.as_str()), Some("Logan International Airport"));
}

#[test]
fn csv_text_loads_into_a_table() {
    let text = format!(
        "{}\n{}\n{}\n",
        HEADER,
        "3422,KBOS,large_airport,Logan International Airport,42.3643,-71.0052,20,NA,US,US-MA,Boston,yes,KBOS,BOS,BOS,,,",
        "3622,KJFK,large_airport,\"John F. Kennedy International Airport\",40.6398,-73.7789,13,NA,US,US-NY,\"New York, NY\",yes,KJFK,JFK,JFK,,,\"Idlewild, \"\"IDL\"\"\""
    );
    let table = load_airports(text.as_bytes()).unwrap();
    assert_eq!(table.record_count(), 2);
    assert_eq!(table.len(), 4);
    let jfk = table.lookup("JFK").unwrap();
    assert_eq!(jfk.name, "John F. Kennedy International Airport");
    assert_eq!(jfk.municipality, "New York, NY");
    assert_eq!(jfk.keywords, "Idlewild, \"IDL\"");
    assert_eq!(table.lookup("KBOS").unwrap().iata_code, "BOS");
}

#[test]
fn the_columns_of_csv_text_may_come_in_any_order() {
    let text = "name,iata_code,ident,id,type,latitude_deg,longitude_deg,elevation_ft,continent,iso_country,iso_region,municipality,scheduled_service,gps_code,local_code,home_link,wikipedia_link,keywords,extra\n\
                Logan,BOS,KBOS,3422,large_airport,42,-71,20,NA,US,US-MA,Boston,yes,KBOS,BOS,,,,ignored\n";
    let table = load_airports(text.as_bytes()).unwrap();
    let a = table.lookup("BOS").unwrap();
    assert_eq!(a.name, "Logan");
    assert_eq!(a.id, "3422");
    assert_eq!(a.ident, "KBOS");
    assert_eq!(a.local_code, "BOS");
    assert_eq!(a.keywords, "");
}

#[test]
fn a_malformed_row_of_csv_text_is_skipped_and_the_rest_is_kept() {
    let mut bytes: Vec<u8> = Vec::new();
    bytes.extend_from_slice(HEADER.as_bytes());
    bytes.extend_from_slice(b"\n1,AAAA,t,First,0,0,0,NA,US,US-MA,Town,no,AAAA,AAA,,,,\n");
    bytes.extend_from_slice(b"2,BBBB,too,few,fields\n");
    bytes.extend_from_slice(b"3,CCCC,t,Bad \xff text,0,0,0,NA,US,US-MA,Town,no,CCCC,CCC,,,,\n");
    bytes.extend_from_slice(b"4,DDDD,t,Fourth,0,0,0,NA,US,US-MA,Town,no,DDDD,DDD,,,,\n");
    let table = load_airports(&bytes).unwrap();
    assert_eq!(table.record_count(), 2);
    assert_eq!(table.lookup("AAA").map(|a| a.id.as_str()), Some("1"));
    assert_eq!(table.lookup("DDD").map(|a| a.id.as_str()), Some("4"));
    assert!(table.lookup("BBBB").is_none());
    assert!(table.lookup("CCC").is_none());
}

#[test]
fn csv_text_without_the_expected_columns_loads_an_empty_table() {
    let table = load_airports(b"city,country\nBoston,US\n").unwrap();
    assert_eq!(table.record_count(), 0);
    assert_eq!(table.len(), 0);
    let empty = load_airports(b"").unwrap();
    assert_eq!(empty.len(), 0);
}

#[test]
fn a_header_that_cannot_be_read_fails_the_load() {
    let r = load_airports(b"id,\xff\xfe,name\n1,2,3\n");
    assert_eq!(r.err(), Some(LoadError::UnreadableHeader));
}

#[test]
fn a_large_file_loads_and_answers() {
    let mut text = String::from(HEADER);
    text.push('\n');
    for i in 0..20000 {
        text.push_str(&format!(
            "{},X{:05},small_airport,Field Number {},0,0,0,NA,US,US-TX,Town {},no,,{},,,,\n",
            i,
            i,
            i,
            i % 100,
            if i % 4 == 0 { format!("c{}", i) } else { String::new() }
        ));
    }
    let table = load_airports(text.as_bytes()).unwrap();
    assert_eq!(table.record_count(), 20000);
    assert_eq!(table.len(), 25000);
    assert_eq!(table.lookup("x19999").map(|a| a.id.as_str()), Some("19999"));
    assert_eq!(table.lookup("C19996").map(|a| a.id.as_str()), Some("19996"));
    assert_eq!(reather::search::search(&table, "*number 1999*").len(), 11);
    assert_eq!(reather::search::search(&table, "town 7").len(), 200);
    assert_eq!(reather::search::search(&table, "*").len(), 20000);
}
