//! The airport table: every record filed under its IATA code and its ICAO
//! ident, with the IATA code taking priority where two records claim one key.

use crate::record::{Airport, AirportView};
use crate::text::{
    all_white, ascii_lower, code_key, lemma_code_key_is_normal, lemma_code_key_normalizes,
    normalize_code, trim, trimmed, upper_case,
};
use vstd::hash_map::StringHashMap;
use vstd::prelude::*;
use vstd::utf8::is_ascii_chars;

verus! {

/// The key a record claims by its IATA code: none where the code is empty
/// once trimmed.
pub open spec fn iata_key(a: AirportView) -> Option<Seq<char>> {
    if trimmed(a.iata_code).len() > 0 {
        Some(code_key(a.iata_code))
    } else {
        None
    }
}

/// The key a record claims by its ident: none where the ident is empty once
/// trimmed.
pub open spec fn ident_key(a: AirportView) -> Option<Seq<char>> {
    if trimmed(a.ident).len() > 0 {
        Some(code_key(a.ident))
    } else {
        None
    }
}

/// Among the first `n` records, the last one whose IATA key is `key`.
pub open spec fn last_by_iata(records: Seq<AirportView>, n: int, key: Seq<char>) -> Option<int>
    decreases n,
{
    if n <= 0 {
        None
    } else if iata_key(records[n - 1]) == Some(key) {
        Some(n - 1)
    } else {
        last_by_iata(records, n - 1, key)
    }
}

/// Among the first `n` records, the first one whose ident key is `key`.
pub open spec fn first_by_ident(records: Seq<AirportView>, n: int, key: Seq<char>) -> Option<int>
    decreases n,
{
    if n <= 0 {
        None
    } else {
        match first_by_ident(records, n - 1, key) {
            Some(i) => Some(i),
            None => if ident_key(records[n - 1]) == Some(key) {
                Some(n - 1)
            } else {
                None
            },
        }
    }
}

/// The record that holds `key` once the first `n` records are filed: the
/// last that claims it by IATA code or, where none does, the first that
/// claims it by ident.
pub open spec fn holder(records: Seq<AirportView>, n: int, key: Seq<char>) -> Option<int> {
    match last_by_iata(records, n, key) {
        Some(i) => Some(i),
        None => first_by_ident(records, n, key),
    }
}

/// The table that filing `records` in order gives: each key with the record
/// that holds it.
pub open spec fn table_of(records: Seq<AirportView>) -> Map<Seq<char>, AirportView> {
    Map::new(
        |key: Seq<char>| holder(records, records.len() as int, key) is Some,
        |key: Seq<char>| records[holder(records, records.len() as int, key).unwrap()],
    )
}

/// Record `i` holds at least one key of the table made of `records`.
pub open spec fn is_listed(records: Seq<AirportView>, i: int) -> bool {
    let n = records.len() as int;
    ||| (iata_key(records[i]) matches Some(key) && holder(records, n, key) == Some(i))
    ||| (ident_key(records[i]) matches Some(key) && holder(records, n, key) == Some(i))
}

/// What a lookup of `code` finds in `table`.
pub open spec fn found(table: Map<Seq<char>, AirportView>, code: Seq<char>) -> Option<
    AirportView,
> {
    if table.contains_key(code_key(code)) {
        Some(table[code_key(code)])
    } else {
        None
    }
}

/// The views of `records`, in order.
pub open spec fn views(records: Seq<Airport>) -> Seq<AirportView> {
    records.map_values(|a: Airport| a@)
}

/// `index` files exactly the keys that the first `n` records claim, each
/// with the position of the record that holds it.
pub open spec fn files(index: Map<Seq<char>, usize>, records: Seq<AirportView>, n: int) -> bool {
    forall|key: Seq<char>|
        #![trigger index.contains_key(key)]
        #![trigger holder(records, n, key)]
        match holder(records, n, key) {
            Some(i) => index.contains_key(key) && index[key] == i,
            None => !index.contains_key(key),
        }
}

/// The airport table.
pub struct AirportTable {
    records: Vec<Airport>,
    index: StringHashMap<usize>,
    listed: Vec<bool>,
}

impl AirportTable {
    #[verifier::type_invariant]
    spec fn well_formed(self) -> bool {
        &&& files(self.index@, views(self.records@), self.records@.len() as int)
        &&& self.listed@.len() == self.records@.len()
        &&& forall|i: int|
            0 <= i < self.records@.len() ==> self.listed@[i] == is_listed(views(self.records@), i)
    }

    /// The records the table was built from, in their order.
    pub closed spec fn records(&self) -> Seq<AirportView> {
        views(self.records@)
    }

    /// Files `records` in order. A record with a non-empty IATA code takes
    /// the code's key, whoever held it; a record with a non-empty ident takes
    /// the ident's key only where nobody holds it.
    pub fn build(records: Vec<Airport>) -> (table: AirportTable)
        ensures
            table.records() == views(records@),
            table@ == table_of(views(records@)),
    {
        let ghost rv = views(records@);
        let n = records.len();
        let mut index: StringHashMap<usize> = StringHashMap::new();
        let mut i: usize = 0;
        while i < n
            invariant
                i <= n,
                n == records.len(),
                rv == views(records@),
                files(index@, rv, i as int),
            decreases n - i,
        {
            let ghost before = index@;
            let airport = &records[i];
            assert(rv[i as int] == airport@);
            let iata = trim(airport.iata_code.as_str());
            if !iata.as_str().is_empty() {
                let key = upper_case(iata.as_str());
                index.insert(key, i);
            }
            let ghost middle = index@;
            let ident = trim(airport.ident.as_str());
            if !ident.as_str().is_empty() {
                let key = upper_case(ident.as_str());
                if !index.contains_key(key.as_str()) {
                    index.insert(key, i);
                }
            }
            proof {
                lemma_file_one(before, middle, index@, rv, i as int);
            }
            i += 1;
        }
        let mut listed: Vec<bool> = Vec::new();
        let mut j: usize = 0;
        while j < n
            invariant
                j <= n,
                n == records.len(),
                rv == views(records@),
                files(index@, rv, n as int),
                listed@.len() == j,
                forall|m: int| 0 <= m < j ==> listed@[m] == is_listed(rv, m),
            decreases n - j,
        {
            let airport = &records[j];
            assert(rv[j as int] == airport@);
            let by_iata = Self::holds(&index, airport.iata_code.as_str(), j, Ghost(rv));
            let by_ident = Self::holds(&index, airport.ident.as_str(), j, Ghost(rv));
            listed.push(by_iata || by_ident);
            j += 1;
        }
        AirportTable { records, index, listed }
    }

    /// Tells whether `code`, once trimmed, is not empty and its key is held
    /// by record `at`.
    fn holds(index: &StringHashMap<usize>, code: &str, at: usize, Ghost(rv): Ghost<
        Seq<AirportView>,
    >) -> (b: bool)
        requires
            files(index@, rv, rv.len() as int),
        ensures
            b == (trimmed(code@).len() > 0 && holder(rv, rv.len() as int, code_key(code@)) == Some(
                at as int,
            )),
    {
        let t = trim(code);
        if t.as_str().is_empty() {
            return false;
        }
        let key = upper_case(t.as_str());
        match index.get(key.as_str()) {
            Some(p) => *p == at,
            None => false,
        }
    }

    /// The record filed under the key of `code`, if there is one.
    pub fn lookup(&self, code: &str) -> (r: Option<&Airport>)
        ensures
            match r {
                Some(a) => found(self@, code@) == Some(a@),
                None => found(self@, code@) is None,
            },
    {
        proof {
            use_type_invariant(self);
        }
        let key = normalize_code(code);
        proof {
            lemma_holder(views(self.records@), self.records@.len() as int, key@);
        }
        match self.index.get(key.as_str()) {
            Some(p) => {
                let a = &self.records[*p];
                assert(views(self.records@)[*p as int] == a@);
                Some(a)
            },
            None => None,
        }
    }

    /// The number of keys in the table.
    pub fn len(&self) -> (n: usize)
        ensures
            n == self@.dom().len(),
    {
        proof {
            use_type_invariant(self);
            assert(self.index@.dom() =~= self@.dom());
        }
        self.index.len()
    }

    /// The number of records the table was built from.
    pub fn record_count(&self) -> (n: usize)
        ensures
            n == self.records().len(),
    {
        self.records.len()
    }

    /// Record `i`, and whether it holds a key.
    pub fn record(&self, i: usize) -> (r: (&Airport, bool))
        requires
            i < self.records().len(),
        ensures
            r.0@ == self.records()[i as int],
            r.1 == is_listed(self.records(), i as int),
    {
        proof {
            use_type_invariant(self);
        }
        (&self.records[i], self.listed[i])
    }
}

impl View for AirportTable {
    type V = Map<Seq<char>, AirportView>;

    open spec fn view(&self) -> Map<Seq<char>, AirportView> {
        table_of(self.records())
    }
}

/// What "the last by IATA code" means: the record found claims `key` by its
/// IATA code and no later one among the first `n` does; none is found only
/// where none of them claims it.
pub proof fn lemma_last_by_iata(records: Seq<AirportView>, n: int, key: Seq<char>)
    ensures
        match last_by_iata(records, n, key) {
            Some(i) => {
                &&& 0 <= i < n
                &&& iata_key(records[i]) == Some(key)
                &&& forall|m: int| i < m < n ==> iata_key(#[trigger] records[m]) != Some(key)
            },
            None => forall|m: int| 0 <= m < n ==> iata_key(#[trigger] records[m]) != Some(key),
        },
    decreases n,
{
    if n > 0 {
        lemma_last_by_iata(records, n - 1, key);
    }
}

/// What "the first by ident" means: the record found claims `key` by its
/// ident and no earlier one does; none is found only where none of the first
/// `n` claims it.
pub proof fn lemma_first_by_ident(records: Seq<AirportView>, n: int, key: Seq<char>)
    ensures
        match first_by_ident(records, n, key) {
            Some(i) => {
                &&& 0 <= i < n
                &&& ident_key(records[i]) == Some(key)
                &&& forall|m: int| 0 <= m < i ==> ident_key(#[trigger] records[m]) != Some(key)
            },
            None => forall|m: int| 0 <= m < n ==> ident_key(#[trigger] records[m]) != Some(key),
        },
    decreases n,
{
    if n > 0 {
        lemma_first_by_ident(records, n - 1, key);
    }
}

/// The holder of a key is one of the first `n` records and claims the key,
/// by its IATA code or by its ident.
pub proof fn lemma_holder(records: Seq<AirportView>, n: int, key: Seq<char>)
    ensures
        holder(records, n, key) matches Some(i) ==> {
            &&& 0 <= i < n
            &&& (iata_key(records[i]) == Some(key) || ident_key(records[i]) == Some(key))
        },
{
    lemma_last_by_iata(records, n, key);
    lemma_first_by_ident(records, n, key);
}

/// The keys of the table are the keys that its records claim: a key is
/// filed exactly where some record claims it, by its IATA code or by its
/// ident.
pub proof fn lemma_table_keys(records: Seq<AirportView>, key: Seq<char>)
    ensures
        table_of(records).contains_key(key) <==> exists|i: int|
            0 <= i < records.len() && (iata_key(#[trigger] records[i]) == Some(key) || ident_key(
                records[i],
            ) == Some(key)),
{
    let n = records.len() as int;
    lemma_last_by_iata(records, n, key);
    lemma_first_by_ident(records, n, key);
    match holder(records, n, key) {
        Some(i) => {
            assert(iata_key(records[i]) == Some(key) || ident_key(records[i]) == Some(key));
        },
        None => {},
    }
}

/// IATA priority: a record that claims a key by its IATA code holds the
/// key, whoever claims it by ident and wherever those records stand,
/// provided no later record claims the key by its IATA code too.
pub proof fn lemma_iata_priority(records: Seq<AirportView>, i: int, key: Seq<char>)
    requires
        0 <= i < records.len(),
        iata_key(records[i]) == Some(key),
        forall|m: int| i < m < records.len() ==> iata_key(#[trigger] records[m]) != Some(key),
    ensures
        table_of(records).contains_key(key),
        table_of(records)[key] == records[i],
{
    lemma_last_by_iata(records, records.len() as int, key);
}

/// Two records share an ident, and one of them has that value as its IATA
/// code too: the lookup of the ident finds that one, in whichever order the
/// two stand, provided no record behind it claims the key by IATA code.
pub proof fn lemma_shared_ident(records: Seq<AirportView>, i: int, j: int)
    requires
        0 <= i < records.len(),
        0 <= j < records.len(),
        i != j,
        ident_key(records[i]) is Some,
        ident_key(records[j]) == ident_key(records[i]),
        iata_key(records[i]) == ident_key(records[i]),
        forall|m: int|
            i < m < records.len() ==> iata_key(#[trigger] records[m]) != ident_key(records[i]),
    ensures
        found(table_of(records), records[i].ident) == Some(records[i]),
        found(table_of(records), records[j].ident) == Some(records[i]),
{
    lemma_iata_priority(records, i, ident_key(records[i]).unwrap());
}

/// IATA priority, by the key itself: where a record claims a key by an
/// ASCII IATA code and another claims the same key by its ident, the lookup
/// of the key finds the first of the two, in whichever order they stand,
/// provided no record behind it claims the key by IATA code. The key is not
/// empty.
pub proof fn lemma_iata_priority_by_key(
    records: Seq<AirportView>,
    i: int,
    j: int,
    key: Seq<char>,
)
    requires
        0 <= i < records.len(),
        0 <= j < records.len(),
        i != j,
        is_ascii_chars(trimmed(records[i].iata_code)),
        iata_key(records[i]) == Some(key),
        ident_key(records[j]) == Some(key),
        iata_key(records[j]) != Some(key),
        forall|m: int| i < m < records.len() ==> iata_key(#[trigger] records[m]) != Some(key),
    ensures
        key.len() > 0,
        code_key(key) == key,
        found(table_of(records), key) == Some(records[i]),
{
    lemma_code_key_is_normal(records[i].iata_code);
    lemma_iata_priority(records, i, key);
}

/// Without a claim by IATA code, a key goes to the first record that
/// claims it by ident: an ident never replaces what is filed.
pub proof fn lemma_first_ident_stays(records: Seq<AirportView>, i: int, key: Seq<char>)
    requires
        0 <= i < records.len(),
        ident_key(records[i]) == Some(key),
        forall|m: int| 0 <= m < i ==> ident_key(#[trigger] records[m]) != Some(key),
        forall|m: int| 0 <= m < records.len() ==> iata_key(#[trigger] records[m]) != Some(key),
    ensures
        table_of(records).contains_key(key),
        table_of(records)[key] == records[i],
{
    lemma_last_by_iata(records, records.len() as int, key);
    lemma_first_by_ident(records, records.len() as int, key);
}

/// A lookup does not depend on the case of the code's letters nor on white
/// space around the code, for a code that is ASCII once trimmed: written in
/// lower case and padded with white space, it finds what the code finds.
pub proof fn lemma_lookup_normalizes(
    table: Map<Seq<char>, AirportView>,
    front: Seq<char>,
    code: Seq<char>,
    back: Seq<char>,
)
    requires
        all_white(front),
        all_white(back),
        is_ascii_chars(trimmed(code)),
    ensures
        found(table, front + ascii_lower(code) + back) == found(table, code),
{
    lemma_code_key_normalizes(front, code, back);
}

/// The IATA code of a record, where it is not empty once trimmed, is filed:
/// a lookup of it finds a record, and finds that one unless a later record
/// has a code with the same key.
pub proof fn lemma_iata_code_is_found(records: Seq<AirportView>, i: int)
    requires
        0 <= i < records.len(),
        iata_key(records[i]) is Some,
    ensures
        found(table_of(records), records[i].iata_code) is Some,
        (forall|m: int|
            i < m < records.len() ==> iata_key(#[trigger] records[m]) != iata_key(records[i]))
            ==> found(table_of(records), records[i].iata_code) == Some(records[i]),
{
    lemma_last_by_iata(records, records.len() as int, iata_key(records[i]).unwrap());
}

/// A record is listed exactly where it holds a key of the table.
pub proof fn lemma_listed(records: Seq<AirportView>, i: int)
    requires
        0 <= i < records.len(),
    ensures
        is_listed(records, i) <==> exists|key: Seq<char>|
            #[trigger] holder(records, records.len() as int, key) == Some(i),
{
    let n = records.len() as int;
    if exists|key: Seq<char>| #[trigger] holder(records, n, key) == Some(i) {
        let key = choose|key: Seq<char>| #[trigger] holder(records, n, key) == Some(i);
        lemma_holder(records, n, key);
    }
}

/// Filing record `i` after the first `i` records: the IATA code takes its
/// key, then the ident takes its key where that key is free.
proof fn lemma_file_one(
    before: Map<Seq<char>, usize>,
    middle: Map<Seq<char>, usize>,
    after: Map<Seq<char>, usize>,
    records: Seq<AirportView>,
    i: int,
)
    requires
        0 <= i < records.len(),
        i <= usize::MAX,
        files(before, records, i),
        middle == match iata_key(records[i]) {
            Some(key) => before.insert(key, i as usize),
            None => before,
        },
        after == match ident_key(records[i]) {
            Some(key) => if middle.contains_key(key) {
                middle
            } else {
                middle.insert(key, i as usize)
            },
            None => middle,
        },
    ensures
        files(after, records, i + 1),
{
    assert forall|key: Seq<char>|
        match #[trigger] holder(records, i + 1, key) {
            Some(p) => after.contains_key(key) && after[key] == p,
            None => !after.contains_key(key),
        } by {
        let old_holder = holder(records, i, key);
        assert(match old_holder {
            Some(p) => before.contains_key(key) && before[key] == p,
            None => !before.contains_key(key),
        });
    }
}

} // verus!
