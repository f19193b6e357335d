//! The states of the United States: their abbreviations and names, the
//! airports that lie in one, and the Zillow link for a place in one.

use crate::links::zillow_url;
use crate::record::{Airport, AirportView};
use crate::text::{
    ascii_lower, chars_of, lemma_split_len, same_text, same_text_ignoring_case, split, split_on,
    trim, trimmed, upper, upper_case,
};
use vstd::prelude::*;
use vstd::string::*;

verus! {

/// The number of states.
pub const STATE_COUNT: usize = 50;

/// The abbreviations of the states.
pub open spec fn state_codes() -> Seq<Seq<char>> {
    seq![
        "AL"@,
        "AK"@,
        "AZ"@,
        "AR"@,
        "CA"@,
        "CO"@,
        "CT"@,
        "DE"@,
        "FL"@,
        "GA"@,
        "HI"@,
        "ID"@,
        "IL"@,
        "IN"@,
        "IA"@,
        "KS"@,
        "KY"@,
        "LA"@,
        "ME"@,
        "MD"@,
        "MA"@,
        "MI"@,
        "MN"@,
        "MS"@,
        "MO"@,
        "MT"@,
        "NE"@,
        "NV"@,
        "NH"@,
        "NJ"@,
        "NM"@,
        "NY"@,
        "NC"@,
        "ND"@,
        "OH"@,
        "OK"@,
        "OR"@,
        "PA"@,
        "RI"@,
        "SC"@,
        "SD"@,
        "TN"@,
        "TX"@,
        "UT"@,
        "VT"@,
        "VA"@,
        "WA"@,
        "WV"@,
        "WI"@,
        "WY"@,
    ]
}

/// The names of the states, in the order of their abbreviations.
pub open spec fn state_names() -> Seq<Seq<char>> {
    seq![
        "Alabama"@,
        "Alaska"@,
        "Arizona"@,
        "Arkansas"@,
        "California"@,
        "Colorado"@,
        "Connecticut"@,
        "Delaware"@,
        "Florida"@,
        "Georgia"@,
        "Hawaii"@,
        "Idaho"@,
        "Illinois"@,
        "Indiana"@,
        "Iowa"@,
        "Kansas"@,
        "Kentucky"@,
        "Louisiana"@,
        "Maine"@,
        "Maryland"@,
        "Massachusetts"@,
        "Michigan"@,
        "Minnesota"@,
        "Mississippi"@,
        "Missouri"@,
        "Montana"@,
        "Nebraska"@,
        "Nevada"@,
        "New Hampshire"@,
        "New Jersey"@,
        "New Mexico"@,
        "New York"@,
        "North Carolina"@,
        "North Dakota"@,
        "Ohio"@,
        "Oklahoma"@,
        "Oregon"@,
        "Pennsylvania"@,
        "Rhode Island"@,
        "South Carolina"@,
        "South Dakota"@,
        "Tennessee"@,
        "Texas"@,
        "Utah"@,
        "Vermont"@,
        "Virginia"@,
        "Washington"@,
        "West Virginia"@,
        "Wisconsin"@,
        "Wyoming"@,
    ]
}

/// The abbreviation of state `i`.
pub fn state_code(i: usize) -> (code: &'static str)
    requires
        i < STATE_COUNT,
    ensures
        code@ == state_codes()[i as int],
{
    match i {
        0 => "AL",
        1 => "AK",
        2 => "AZ",
        3 => "AR",
        4 => "CA",
        5 => "CO",
        6 => "CT",
        7 => "DE",
        8 => "FL",
        9 => "GA",
        10 => "HI",
        11 => "ID",
        12 => "IL",
        13 => "IN",
        14 => "IA",
        15 => "KS",
        16 => "KY",
        17 => "LA",
        18 => "ME",
        19 => "MD",
        20 => "MA",
        21 => "MI",
        22 => "MN",
        23 => "MS",
        24 => "MO",
        25 => "MT",
        26 => "NE",
        27 => "NV",
        28 => "NH",
        29 => "NJ",
        30 => "NM",
        31 => "NY",
        32 => "NC",
        33 => "ND",
        34 => "OH",
        35 => "OK",
        36 => "OR",
        37 => "PA",
        38 => "RI",
        39 => "SC",
        40 => "SD",
        41 => "TN",
        42 => "TX",
        43 => "UT",
        44 => "VT",
        45 => "VA",
        46 => "WA",
        47 => "WV",
        48 => "WI",
        _ => "WY",
    }
}

/// The name of state `i`.
pub fn state_name(i: usize) -> (name: &'static str)
    requires
        i < STATE_COUNT,
    ensures
        name@ == state_names()[i as int],
{
    match i {
        0 => "Alabama",
        1 => "Alaska",
        2 => "Arizona",
        3 => "Arkansas",
        4 => "California",
        5 => "Colorado",
        6 => "Connecticut",
        7 => "Delaware",
        8 => "Florida",
        9 => "Georgia",
        10 => "Hawaii",
        11 => "Idaho",
        12 => "Illinois",
        13 => "Indiana",
        14 => "Iowa",
        15 => "Kansas",
        16 => "Kentucky",
        17 => "Louisiana",
        18 => "Maine",
        19 => "Maryland",
        20 => "Massachusetts",
        21 => "Michigan",
        22 => "Minnesota",
        23 => "Mississippi",
        24 => "Missouri",
        25 => "Montana",
        26 => "Nebraska",
        27 => "Nevada",
        28 => "New Hampshire",
        29 => "New Jersey",
        30 => "New Mexico",
        31 => "New York",
        32 => "North Carolina",
        33 => "North Dakota",
        34 => "Ohio",
        35 => "Oklahoma",
        36 => "Oregon",
        37 => "Pennsylvania",
        38 => "Rhode Island",
        39 => "South Carolina",
        40 => "South Dakota",
        41 => "Tennessee",
        42 => "Texas",
        43 => "Utah",
        44 => "Vermont",
        45 => "Virginia",
        46 => "Washington",
        47 => "West Virginia",
        48 => "Wisconsin",
        _ => "Wyoming",
    }
}

/// `code` is the abbreviation of a state, in upper case.
pub open spec fn is_state(code: Seq<char>) -> bool {
    exists|i: int| 0 <= i < STATE_COUNT && #[trigger] state_codes()[i] == code
}

/// Tells whether `code` is the abbreviation of a state, in upper case.
pub fn is_us_state(code: &str) -> (b: bool)
    ensures
        b == is_state(code@),
{
    let mut i: usize = 0;
    while i < STATE_COUNT
        invariant
            i <= STATE_COUNT,
            forall|k: int| 0 <= k < i ==> #[trigger] state_codes()[k] != code@,
        decreases STATE_COUNT - i,
    {
        if same_text(state_code(i), code) {
            return true;
        }
        i += 1;
    }
    false
}

/// Among the first `n` states, the first whose name is `name` but for the
/// case of its ASCII letters.
pub open spec fn state_named(name: Seq<char>, n: int) -> Option<int>
    decreases n,
{
    if n <= 0 {
        None
    } else {
        match state_named(name, n - 1) {
            Some(i) => Some(i),
            None => if ascii_lower(state_names()[n - 1]) == ascii_lower(name) {
                Some(n - 1)
            } else {
                None
            },
        }
    }
}

/// The abbreviation of the state that `name` names, letter case set aside.
pub open spec fn abbreviation_of(name: Seq<char>) -> Option<Seq<char>> {
    match state_named(name, STATE_COUNT as int) {
        Some(i) => Some(state_codes()[i]),
        None => None,
    }
}

/// Finds the abbreviation of a state by its name, letter case set aside.
pub fn state_abbreviation(name: &str) -> (code: Option<&'static str>)
    ensures
        match code {
            Some(c) => abbreviation_of(name@) == Some(c@),
            None => abbreviation_of(name@) is None,
        },
{
    let mut i: usize = 0;
    while i < STATE_COUNT
        invariant
            i <= STATE_COUNT,
            state_named(name@, i as int) is None,
        decreases STATE_COUNT - i,
    {
        if same_text_ignoring_case(state_name(i), name) {
            proof {
                lemma_state_named_stays(name@, i as int + 1, STATE_COUNT as int);
            }
            return Some(state_code(i));
        }
        i += 1;
    }
    None
}

/// Once a state of the name is found, looking at more states finds the
/// same.
proof fn lemma_state_named_stays(name: Seq<char>, n: int, m: int)
    requires
        n <= m,
        state_named(name, n) is Some,
    ensures
        state_named(name, m) == state_named(name, n),
    decreases m - n,
{
    if n < m {
        lemma_state_named_stays(name, n, m - 1);
    }
}

/// `region` is the region code of a state: `US-`, then a state's
/// abbreviation in either case.
pub open spec fn is_state_region(region: Seq<char>) -> bool {
    &&& seq!['U', 'S', '-'].is_prefix_of(region)
    &&& is_state(upper(region.subrange(3, region.len() as int)))
}

/// Tells whether `region` is the region code of a state.
pub fn in_us_state(region: &str) -> (b: bool)
    ensures
        b == is_state_region(region@),
{
    let v = chars_of(region);
    let n = v.len();
    if n >= 3 && v[0] == 'U' && v[1] == 'S' && v[2] == '-' {
        assert(seq!['U', 'S', '-'] =~= region@.subrange(0, 3));
        let rest = upper_case(region.substring_char(3, n));
        is_us_state(rest.as_str())
    } else {
        proof {
            if n >= 3 {
                let head = region@.subrange(0, 3);
                assert(head[0] == region@[0] && head[1] == region@[1] && head[2] == region@[2]);
            }
        }
        false
    }
}

/// The airport has scheduled service.
pub open spec fn is_scheduled(a: AirportView) -> bool {
    a.scheduled_service == "yes"@
}

/// Tells whether the airport has scheduled service.
pub fn has_scheduled_service(airport: &Airport) -> (b: bool)
    ensures
        b == is_scheduled(airport@),
{
    same_text(airport.scheduled_service.as_str(), "yes")
}

/// The state that a place names at its end: what follows its last hyphen,
/// trimmed, with the abbreviation in place of a state's full name.
pub open spec fn place_state(place: Seq<char>) -> Seq<char> {
    let part = trimmed(split(place, '-').last());
    match abbreviation_of(part) {
        Some(code) => code,
        None => part,
    }
}

/// `s` with a plus sign in place of every space.
pub open spec fn plus_for_spaces(s: Seq<char>) -> Seq<char> {
    s.map_values(
        |c: char|
            if c == ' ' {
                '+'
            } else {
                c
            },
    )
}

/// The Zillow address for a place, hyphen and state at its end: none unless
/// the state is one of the United States.
pub open spec fn zillow_place(place: Seq<char>) -> Option<Seq<char>> {
    if is_state(place_state(place)) {
        Some(zillow_url(plus_for_spaces(place)))
    } else {
        None
    }
}

/// Puts a plus sign in place of every space.
pub fn plus_spaces(s: &str) -> (r: String)
    ensures
        r@ == plus_for_spaces(s@),
{
    let v = chars_of(s);
    let n = v.len();
    let mut r = String::new();
    let mut i: usize = 0;
    proof {
        reveal_strlit("+");
    }
    while i < n
        invariant
            i <= n,
            n == v.len(),
            v@ == s@,
            "+"@ == seq!['+'],
            r@ == plus_for_spaces(s@.take(i as int)),
        decreases n - i,
    {
        let ghost before = r@;
        if v[i] == ' ' {
            r.append("+");
        } else {
            r.append(s.substring_char(i, i + 1));
        }
        assert(r@ =~= plus_for_spaces(s@.take(i + 1)));
        i += 1;
    }
    assert(s@.take(n as int) =~= s@);
    r
}

/// Builds the Zillow address for a place such as `Cumberland-Maine`.
pub fn zillow_place_url(place: &str) -> (url: Option<String>)
    ensures
        match url {
            Some(u) => zillow_place(place@) == Some(u@),
            None => zillow_place(place@) is None,
        },
{
    let parts = split_on(place, '-');
    proof {
        lemma_split_len(place@, '-');
    }
    let last = &parts[parts.len() - 1];
    assert(last@ == split(place@, '-').last());
    let part = trim(last.as_str());
    let in_state = match state_abbreviation(part.as_str()) {
        Some(code) => is_us_state(code),
        None => is_us_state(part.as_str()),
    };
    if in_state {
        let mut url = "https://www.zillow.com/homes/for_sale/".to_owned();
        let tail = plus_spaces(place);
        url.append(tail.as_str());
        Some(url)
    } else {
        None
    }
}

} // verus!
