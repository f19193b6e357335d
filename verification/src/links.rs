//! Outbound links, and the pieces of an address or a record that go into
//! them: the ZIP code at the end of an address, the state of an address or
//! of an airport.

use crate::record::{Airport, AirportView};
use crate::text::{
    all_alphanumeric, alphanumeric_of_len, ascii_upper, chars_of, is_white_space, split, trim,
    trim_within, trimmed, upper_case, white_space,
};
use vstd::prelude::*;
use vstd::string::*;
use vstd::utf8::{encode_utf8, is_ascii_chars};

verus! {

/// The address of an airport's page on Flightradar24.
pub open spec fn flightradar24_url(code: Seq<char>) -> Seq<char> {
    "https://www.flightradar24.com/airport/"@ + code
}

/// The address of the Zillow listings for a ZIP code.
pub open spec fn zillow_url(zip: Seq<char>) -> Seq<char> {
    "https://www.zillow.com/homes/for_sale/"@ + zip
}

/// Builds the Flightradar24 address for an airport code.
pub fn generate_flightradar24_url(airport_code: &str) -> (url: String)
    ensures
        url@ == flightradar24_url(airport_code@),
{
    let mut url = "https://www.flightradar24.com/airport/".to_owned();
    url.append(airport_code);
    url
}

/// Builds the Zillow address for a ZIP code.
pub fn generate_zillow_url(zip_code: &str) -> (url: String)
    ensures
        url@ == zillow_url(zip_code@),
{
    let mut url = "https://www.zillow.com/homes/for_sale/".to_owned();
    url.append(zip_code);
    url
}

/// The address of the latest observations of a weather station.
pub open spec fn observations_url(station: Seq<char>) -> Seq<char> {
    "https://api.weather.gov/stations/"@ + station + "/observations/latest"@
}

/// Builds the address of the latest observations of a weather station.
pub fn generate_observations_url(station_id: &str) -> (url: String)
    ensures
        url@ == observations_url(station_id@),
{
    let mut url = "https://api.weather.gov/stations/".to_owned();
    url.append(station_id);
    url.append("/observations/latest");
    url
}

/// The address of a tide station's high and low water predictions for one
/// day, the day written as year, month and day without separators.
pub open spec fn tide_predictions_url(day: Seq<char>, station: Seq<char>) -> Seq<char> {
    "https://api.tidesandcurrents.noaa.gov/api/prod/datagetter?product=predictions&application=NOS.COOPS.TAC.WL&begin_date="@
        + day + "&end_date="@ + day + "&datum=MLLW&station="@ + station
        + "&time_zone=lst_ldt&units=english&interval=hilo&format=json"@
}

/// Builds the address of a tide station's predictions for one day.
pub fn generate_tide_predictions_url(day: &str, station_id: &str) -> (url: String)
    ensures
        url@ == tide_predictions_url(day@, station_id@),
{
    let mut url =
        "https://api.tidesandcurrents.noaa.gov/api/prod/datagetter?product=predictions&application=NOS.COOPS.TAC.WL&begin_date=".to_owned();
    url.append(day);
    url.append("&end_date=");
    url.append(day);
    url.append("&datum=MLLW&station=");
    url.append(station_id);
    url.append("&time_zone=lst_ldt&units=english&interval=hilo&format=json");
    url
}

/// `b` stands for itself in a percent-encoded text: a letter, a digit, or
/// one of `-`, `.`, `_`, `~`.
pub open spec fn is_unreserved(b: u8) -> bool {
    ||| 0x30 <= b <= 0x39
    ||| 0x41 <= b <= 0x5A
    ||| 0x61 <= b <= 0x7A
    ||| b == 0x2D
    ||| b == 0x2E
    ||| b == 0x5F
    ||| b == 0x7E
}

/// The hexadecimal digit for `d`, in upper case.
pub open spec fn hex_digit(d: int) -> char {
    if d < 10 {
        (0x30 + d) as char
    } else {
        (0x41 + d - 10) as char
    }
}

/// `bytes` percent-encoded: an unreserved byte stands for itself, any
/// other is a percent sign and its two hexadecimal digits.
pub open spec fn percent_encoded(bytes: Seq<u8>) -> Seq<char>
    decreases bytes.len(),
{
    if bytes.len() == 0 {
        Seq::empty()
    } else {
        let b = bytes[0];
        let head = if is_unreserved(b) {
            seq![b as char]
        } else {
            seq!['%', hex_digit(b as int / 16), hex_digit(b as int % 16)]
        };
        head + percent_encoded(bytes.drop_first())
    }
}

/// Calls `urlencoding::encode`. Trusted: the call percent-encodes every
/// byte of the text's UTF-8 form but letters, digits and `-`, `.`, `_`,
/// `~`, with hexadecimal digits in upper case.
#[verifier::external_body]
fn url_encode(s: &str) -> (r: String)
    ensures
        r@ == percent_encoded(encode_utf8(s@)),
{
    urlencoding::encode(s).into_owned()
}

/// The address that asks the census geocoder for a one-line address.
pub open spec fn geocode_url(address: Seq<char>) -> Seq<char> {
    "https://geocoding.geo.census.gov/geocoder/locations/onelineaddress?address="@
        + percent_encoded(encode_utf8(address)) + "&benchmark=Public_AR_Current&format=json"@
}

/// Builds the address that asks the census geocoder for a one-line
/// address.
pub fn generate_geocode_url(address_query: &str) -> (url: String)
    ensures
        url@ == geocode_url(address_query@),
{
    let mut url =
        "https://geocoding.geo.census.gov/geocoder/locations/onelineaddress?address=".to_owned();
    let encoded = url_encode(address_query);
    url.append(encoded.as_str());
    url.append("&benchmark=Public_AR_Current&format=json");
    url
}

/// The code under which Flightradar24 knows an airport: its IATA code
/// where that is three letters or digits, else its ident where that is
/// four, each trimmed.
pub open spec fn flightradar24_code(a: AirportView) -> Option<Seq<char>> {
    let iata = trimmed(a.iata_code);
    let icao = trimmed(a.ident);
    if iata.len() == 3 && all_alphanumeric(iata) {
        Some(iata)
    } else if icao.len() == 4 && all_alphanumeric(icao) {
        Some(icao)
    } else {
        None
    }
}

/// Picks the code under which Flightradar24 knows an airport.
pub fn airport_flightradar24_code(airport: &Airport) -> (code: Option<String>)
    ensures
        match code {
            Some(c) => flightradar24_code(airport@) == Some(c@),
            None => flightradar24_code(airport@) is None,
        },
{
    let iata = trim(airport.iata_code.as_str());
    if alphanumeric_of_len(&chars_of(iata.as_str()), 3) {
        return Some(iata);
    }
    let icao = trim(airport.ident.as_str());
    if alphanumeric_of_len(&chars_of(icao.as_str()), 4) {
        return Some(icao);
    }
    None
}

/// `c` is one of the digits `0` to `9`.
pub open spec fn is_digit(c: char) -> bool {
    '0' <= c <= '9'
}

/// `c` is one of the letters `a` to `z` or `A` to `Z`.
pub open spec fn is_letter(c: char) -> bool {
    ('a' <= c <= 'z') || ('A' <= c <= 'Z')
}

/// `word` is a ZIP code: five digits.
pub open spec fn is_zip(word: Seq<char>) -> bool {
    &&& word.len() == 5
    &&& forall|i: int| 0 <= i < 5 ==> is_digit(#[trigger] word[i])
}

/// The last of the comma-separated parts of `address`, trimmed.
pub open spec fn last_part(address: Seq<char>) -> Seq<char> {
    trimmed(split(address, ',').last())
}

/// The ZIP code of an address: the last word of its last comma-separated
/// part, where that word is five digits. That is: the part, trimmed, ends
/// in five digits, and before them stands white space or nothing.
pub open spec fn zip_code(address: Seq<char>) -> Option<Seq<char>> {
    let part = last_part(address);
    let n = part.len() as int;
    if n >= 5 && is_zip(part.subrange(n - 5, n)) && (n == 5 || is_white_space(part[n - 6])) {
        Some(part.subrange(n - 5, n))
    } else {
        None
    }
}

/// Where the last of the comma-separated parts of `s[..n]` starts: behind
/// the last comma, or at 0 where there is none.
pub open spec fn part_start(s: Seq<char>, n: int) -> int
    decreases n,
{
    if n <= 0 {
        0
    } else if s[n - 1] == ',' {
        n
    } else {
        part_start(s, n - 1)
    }
}

/// What the start of the last part means: from there to `n` lies the last
/// of the parts that commas make of `s[..n]`, and the parts before it are
/// those of the text in front of the comma that stands before the start.
pub proof fn lemma_last_part(s: Seq<char>, n: int)
    requires
        0 <= n <= s.len(),
    ensures
        0 <= part_start(s, n) <= n,
        split(s.take(n), ',').len() >= 1,
        split(s.take(n), ',').last() == s.subrange(part_start(s, n), n),
        part_start(s, n) == 0 ==> split(s.take(n), ',').len() == 1,
        part_start(s, n) > 0 ==> s[part_start(s, n) - 1] == ',' && split(
            s.take(n),
            ',',
        ).drop_last() == split(s.take(part_start(s, n) - 1), ','),
    decreases n,
{
    let lo = part_start(s, n);
    let parts = split(s.take(n), ',');
    if n == 0 {
        assert(parts.last() =~= s.subrange(0, 0));
    } else {
        lemma_last_part(s, n - 1);
        let before = split(s.take(n - 1), ',');
        assert(s.take(n).drop_last() =~= s.take(n - 1));
        assert(s.take(n).last() == s[n - 1]);
        if s[n - 1] == ',' {
            assert(parts.last() =~= s.subrange(n, n));
            assert(parts.drop_last() =~= before);
        } else {
            assert(parts.last() =~= s.subrange(lo, n));
            assert(parts.drop_last() =~= before.drop_last());
        }
    }
}

/// The last comma-separated part of a text starts behind its last comma.
pub proof fn lemma_last_part_of_whole(s: Seq<char>)
    ensures
        split(s, ',').last() == s.subrange(part_start(s, s.len() as int), s.len() as int),
{
    lemma_last_part(s, s.len() as int);
    assert(s.take(s.len() as int) =~= s);
}

/// Finds where the last comma-separated part of `v[..n]` starts.
pub fn find_part_start(v: &Vec<char>, n: usize) -> (lo: usize)
    requires
        n <= v.len(),
    ensures
        lo <= n,
        lo == part_start(v@, n as int),
{
    let mut i: usize = n;
    while i > 0 && v[i - 1] != ','
        invariant
            i <= n <= v.len(),
            part_start(v@, n as int) == part_start(v@, i as int),
        decreases i,
    {
        i -= 1;
    }
    i
}

/// Tells whether `v[lo..hi]` is five digits.
fn five_digits(v: &Vec<char>, lo: usize, hi: usize) -> (b: bool)
    requires
        lo <= hi <= v.len(),
    ensures
        b == is_zip(v@.subrange(lo as int, hi as int)),
{
    if hi - lo != 5 {
        return false;
    }
    let ghost word = v@.subrange(lo as int, hi as int);
    let mut i: usize = 0;
    while i < 5
        invariant
            i <= 5,
            hi - lo == 5,
            hi <= v.len(),
            word == v@.subrange(lo as int, hi as int),
            forall|m: int| 0 <= m < i ==> is_digit(#[trigger] word[m]),
        decreases 5 - i,
    {
        let c = v[lo + i];
        if !('0' <= c && c <= '9') {
            assert(!is_digit(word[i as int]));
            return false;
        }
        i += 1;
    }
    true
}

/// Takes the ZIP code off the end of an address.
pub fn extract_zip_code(address_str: &str) -> (zip: Option<String>)
    ensures
        match zip {
            Some(code) => zip_code(address_str@) == Some(code@),
            None => zip_code(address_str@) is None,
        },
{
    let v = chars_of(address_str);
    let n = v.len();
    let lo = find_part_start(&v, n);
    proof {
        lemma_last_part_of_whole(v@);
    }
    let (a, b) = trim_within(&v, lo, n);
    let ghost part = v@.subrange(a as int, b as int);
    assert(part == last_part(address_str@));
    if b - a >= 5 {
        assert(part.subrange(part.len() - 5, part.len() as int) =~= v@.subrange(b - 5, b as int));
        if five_digits(&v, b - 5, b) {
            if b - a == 5 {
                return Some(address_str.substring_char(b - 5, b).to_owned());
            }
            assert(part[part.len() - 6] == v@[b - 6]);
            if white_space(v[b - 6]) {
                return Some(address_str.substring_char(b - 5, b).to_owned());
            }
        }
    }
    None
}

/// `part` is a state's abbreviation: two letters.
pub open spec fn is_state_code(part: Seq<char>) -> bool {
    &&& part.len() == 2
    &&& is_letter(part[0])
    &&& is_letter(part[1])
}

/// The state that `parts` name: of the parts, each trimmed, the last that
/// is two letters, in upper case.
pub open spec fn last_state(parts: Seq<Seq<char>>) -> Option<Seq<char>>
    decreases parts.len(),
{
    if parts.len() == 0 {
        None
    } else if is_state_code(trimmed(parts.last())) {
        Some(ascii_upper(trimmed(parts.last())))
    } else {
        last_state(parts.drop_last())
    }
}

/// The state named in an address: of its comma-separated parts, each
/// trimmed, the last that is two letters, in upper case.
pub open spec fn address_state(address: Seq<char>) -> Option<Seq<char>> {
    last_state(split(address, ','))
}

/// Takes the state's abbreviation out of an address.
pub fn extract_state_from_address(address: &str) -> (state: Option<String>)
    ensures
        match state {
            Some(code) => address_state(address@) == Some(code@),
            None => address_state(address@) is None,
        },
{
    let v = chars_of(address);
    let mut n: usize = v.len();
    assert(v@.take(n as int) =~= v@);
    loop
        invariant
            n <= v.len(),
            v@ == address@,
            address_state(address@) == last_state(split(v@.take(n as int), ',')),
        decreases n,
    {
        let lo = find_part_start(&v, n);
        proof {
            lemma_last_part(v@, n as int);
        }
        let (a, b) = trim_within(&v, lo, n);
        if b - a == 2 && letter(v[a]) && letter(v[a + 1]) {
            let part = address.substring_char(a, b);
            assert(is_ascii_chars(part@));
            return Some(upper_case(part));
        }
        if lo == 0 {
            proof {
                let parts = split(v@.take(n as int), ',');
                assert(last_state(parts) == last_state(parts.drop_last()));
                assert(parts.drop_last().len() == 0);
            }
            return None;
        }
        n = lo - 1;
    }
}

/// Tells whether `c` is a letter of the ASCII alphabet.
pub fn letter(c: char) -> (b: bool)
    ensures
        b == is_letter(c),
{
    ('a' <= c && c <= 'z') || ('A' <= c && c <= 'Z')
}

/// The number of bytes that `c` takes in UTF-8.
pub open spec fn char_bytes(c: char) -> int {
    let n = c as u32;
    if n < 0x80 {
        1
    } else if n < 0x800 {
        2
    } else if n < 0x10000 {
        3
    } else {
        4
    }
}

/// `t` takes two bytes in UTF-8.
pub open spec fn takes_two_bytes(t: Seq<char>) -> bool {
    ||| t.len() == 2 && char_bytes(t[0]) == 1 && char_bytes(t[1]) == 1
    ||| t.len() == 1 && char_bytes(t[0]) == 2
}

/// The state of an airport in the United States: what follows `US-` in a
/// region code of five bytes.
pub open spec fn region_state(region: Seq<char>) -> Option<Seq<char>> {
    let rest = region.subrange(3, region.len() as int);
    if seq!['U', 'S', '-'].is_prefix_of(region) && takes_two_bytes(rest) {
        Some(rest)
    } else {
        None
    }
}

/// The state of an airport, for a region code of the form `US-` and a
/// state's abbreviation.
pub open spec fn airport_state(a: AirportView) -> Option<Seq<char>> {
    region_state(a.iso_region)
}

/// The number of bytes that `c` takes in UTF-8.
pub fn byte_count(c: char) -> (n: usize)
    ensures
        n == char_bytes(c),
{
    let code: u32 = c as u32;
    if code < 0x80 {
        1
    } else if code < 0x800 {
        2
    } else if code < 0x10000 {
        3
    } else {
        4
    }
}

/// Takes the state's abbreviation out of an airport's region code.
pub fn extract_state_from_airport(airport: &Airport) -> (state: Option<String>)
    ensures
        match state {
            Some(code) => airport_state(airport@) == Some(code@),
            None => airport_state(airport@) is None,
        },
{
    let region = airport.iso_region.as_str();
    let v = chars_of(region);
    let n = v.len();
    let prefixed = n >= 3 && v[0] == 'U' && v[1] == 'S' && v[2] == '-';
    proof {
        if prefixed {
            assert(seq!['U', 'S', '-'] =~= region@.subrange(0, 3));
        } else if n >= 3 {
            let head = region@.subrange(0, 3);
            assert(head[0] == region@[0] && head[1] == region@[1] && head[2] == region@[2]);
        }
    }
    let two = (n == 5 && byte_count(v[3]) == 1 && byte_count(v[4]) == 1) || (n == 4 && byte_count(
        v[3],
    ) == 2);
    if prefixed && two {
        Some(region.substring_char(3, n).to_owned())
    } else {
        None
    }
}

} // verus!
