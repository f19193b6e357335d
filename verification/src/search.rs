//! Wildcard search over the table: a term is held against the name, the two
//! codes, the municipality and the region of every record that holds a key.

use crate::record::{Airport, AirportView};
use crate::table::{is_listed, AirportTable};
use crate::text::{
    chars_of, contains, ends_with, occurs_in, same_chars, starts_with, upper, upper_case,
};
use vstd::prelude::*;
use vstd::string::*;

verus! {

/// How a term is held against a field.
#[derive(Debug, Clone, Copy, PartialEq, Eq)]
pub enum MatchMode {
    /// The field is the text.
    Exact,
    /// The field starts with the text.
    Prefix,
    /// The field ends with the text.
    Suffix,
    /// The field holds the text somewhere.
    Infix,
}

/// The mode that the stars of `term` select: one at each end for `Infix`,
/// a leading one for `Suffix`, a trailing one for `Prefix`, none for `Exact`.
pub open spec fn term_mode(term: Seq<char>) -> MatchMode {
    let n = term.len() as int;
    if n >= 2 && term[0] == '*' && term[n - 1] == '*' {
        MatchMode::Infix
    } else if n >= 1 && term[0] == '*' {
        MatchMode::Suffix
    } else if n >= 1 && term[n - 1] == '*' {
        MatchMode::Prefix
    } else {
        MatchMode::Exact
    }
}

/// The text of `term`: the term without the stars that select its mode.
pub open spec fn term_text(term: Seq<char>) -> Seq<char> {
    let n = term.len() as int;
    match term_mode(term) {
        MatchMode::Infix => term.subrange(1, n - 1),
        MatchMode::Suffix => term.subrange(1, n),
        MatchMode::Prefix => term.subrange(0, n - 1),
        MatchMode::Exact => term,
    }
}

/// `field`, in upper case, meets `needle` in the way `mode` says.
pub open spec fn field_matches(mode: MatchMode, needle: Seq<char>, field: Seq<char>) -> bool {
    match mode {
        MatchMode::Exact => upper(field) == needle,
        MatchMode::Prefix => needle.is_prefix_of(upper(field)),
        MatchMode::Suffix => needle.is_suffix_of(upper(field)),
        MatchMode::Infix => occurs_in(needle, upper(field)),
    }
}

/// One of the searched fields of `a` meets `needle` in the way `mode` says.
pub open spec fn any_field_matches(mode: MatchMode, needle: Seq<char>, a: AirportView) -> bool {
    ||| field_matches(mode, needle, a.name)
    ||| field_matches(mode, needle, a.iata_code)
    ||| field_matches(mode, needle, a.ident)
    ||| field_matches(mode, needle, a.municipality)
    ||| field_matches(mode, needle, a.iso_region)
}

/// `a` matches `term`: one of its searched fields meets the term's text,
/// letter case set aside, in the term's mode.
pub open spec fn record_matches(a: AirportView, term: Seq<char>) -> bool {
    any_field_matches(term_mode(term), upper(term_text(term)), a)
}

/// The positions, among the first `n` records, of those that hold a key
/// and match `term`, in rising order.
pub open spec fn hit_rows(records: Seq<AirportView>, n: int, term: Seq<char>) -> Seq<int>
    decreases n,
{
    if n <= 0 {
        Seq::empty()
    } else {
        let before = hit_rows(records, n - 1, term);
        if is_listed(records, n - 1) && record_matches(records[n - 1], term) {
            before.push(n - 1)
        } else {
            before
        }
    }
}

/// The records, among the first `n`, that hold a key and match `term`, in
/// the order of the records.
pub open spec fn hits(records: Seq<AirportView>, n: int, term: Seq<char>) -> Seq<AirportView>
    decreases n,
{
    if n <= 0 {
        Seq::empty()
    } else {
        let before = hits(records, n - 1, term);
        if is_listed(records, n - 1) && record_matches(records[n - 1], term) {
            before.push(records[n - 1])
        } else {
            before
        }
    }
}

/// What the search for `term` returns from the table made of `records`.
pub open spec fn search_results(records: Seq<AirportView>, term: Seq<char>) -> Seq<AirportView> {
    hits(records, records.len() as int, term)
}

/// The views of the records that `found` refers to.
pub open spec fn ref_views(found: Seq<&Airport>) -> Seq<AirportView> {
    found.map_values(|a: &Airport| a@)
}

/// A search term made ready: its mode, and its text in upper case.
pub struct Pattern {
    /// How the text is held against a field.
    pub mode: MatchMode,
    /// The text to look for, in upper case.
    pub needle: Vec<char>,
}

impl Pattern {
    /// The pattern is the one of `term`.
    pub open spec fn is_for(&self, term: Seq<char>) -> bool {
        &&& self.mode == term_mode(term)
        &&& self.needle@ == upper(term_text(term))
    }

    /// Reads the mode and the text off `term`.
    pub fn parse(term: &str) -> (p: Pattern)
        ensures
            p.is_for(term@),
    {
        let t = chars_of(term);
        let n = t.len();
        let mut from: usize = 0;
        let mut to: usize = n;
        let mode = if n >= 2 && t[0] == '*' && t[n - 1] == '*' {
            from = 1;
            to = n - 1;
            MatchMode::Infix
        } else if n >= 1 && t[0] == '*' {
            from = 1;
            MatchMode::Suffix
        } else if n >= 1 && t[n - 1] == '*' {
            to = n - 1;
            MatchMode::Prefix
        } else {
            assert(term@.subrange(0, n as int) =~= term@);
            MatchMode::Exact
        };
        let text = upper_case(term.substring_char(from, to));
        Pattern { mode, needle: chars_of(text.as_str()) }
    }

    /// Holds the pattern against one field.
    pub fn matches_field(&self, field: &str) -> (b: bool)
        ensures
            b == field_matches(self.mode, self.needle@, field@),
    {
        let folded = upper_case(field);
        let hay = chars_of(folded.as_str());
        match self.mode {
            MatchMode::Exact => same_chars(&hay, &self.needle),
            MatchMode::Prefix => starts_with(&hay, &self.needle),
            MatchMode::Suffix => ends_with(&hay, &self.needle),
            MatchMode::Infix => contains(&hay, &self.needle),
        }
    }

    /// Holds the pattern against the searched fields of `a`.
    pub fn matches_record(&self, a: &Airport) -> (b: bool)
        ensures
            b == any_field_matches(self.mode, self.needle@, a@),
    {
        self.matches_field(a.name.as_str()) || self.matches_field(a.iata_code.as_str())
            || self.matches_field(a.ident.as_str()) || self.matches_field(a.municipality.as_str())
            || self.matches_field(a.iso_region.as_str())
    }
}

/// Searches the table for `term`. Each record that holds a key and matches
/// is returned once, in the order in which the records were filed.
pub fn search<'a>(table: &'a AirportTable, term: &str) -> (found: Vec<&'a Airport>)
    ensures
        ref_views(found@) == search_results(table.records(), term@),
{
    let pattern = Pattern::parse(term);
    let n = table.record_count();
    let mut found: Vec<&'a Airport> = Vec::new();
    let mut i: usize = 0;
    while i < n
        invariant
            i <= n,
            n == table.records().len(),
            pattern.is_for(term@),
            ref_views(found@) == hits(table.records(), i as int, term@),
        decreases n - i,
    {
        let ghost so_far = ref_views(found@);
        let (a, listed) = table.record(i);
        if listed && pattern.matches_record(a) {
            found.push(a);
            assert(ref_views(found@) =~= so_far.push(a@));
        }
        i += 1;
    }
    found
}

/// The rows that a search reports: each is a record that holds a key and
/// matches the term, they come in rising order, so none is reported twice,
/// and no such record among the first `n` is left out.
pub proof fn lemma_hit_rows(records: Seq<AirportView>, n: int, term: Seq<char>)
    requires
        0 <= n <= records.len(),
    ensures
        hit_rows(records, n, term).len() == hits(records, n, term).len(),
        forall|j: int|
            #![trigger hit_rows(records, n, term)[j]]
            0 <= j < hit_rows(records, n, term).len() ==> {
                let i = hit_rows(records, n, term)[j];
                &&& 0 <= i < n
                &&& is_listed(records, i)
                &&& record_matches(records[i], term)
                &&& hits(records, n, term)[j] == records[i]
            },
        forall|j: int, k: int|
            #![trigger hit_rows(records, n, term)[j], hit_rows(records, n, term)[k]]
            0 <= j < k < hit_rows(records, n, term).len() ==> hit_rows(records, n, term)[j]
                < hit_rows(records, n, term)[k],
        forall|i: int|
            0 <= i < n && is_listed(records, i) && record_matches(#[trigger] records[i], term)
                ==> hit_rows(records, n, term).contains(i),
    decreases n,
{
    if n > 0 {
        lemma_hit_rows(records, n - 1, term);
        let before = hit_rows(records, n - 1, term);
        let now = hit_rows(records, n, term);
        assert forall|i: int|
            0 <= i < n && is_listed(records, i) && record_matches(
                #[trigger] records[i],
                term,
            ) implies now.contains(i) by {
            if i < n - 1 {
                assert(before.contains(i));
                let j = choose|j: int| 0 <= j < before.len() && before[j] == i;
                assert(now[j] == i);
            } else {
                assert(now[now.len() - 1] == i);
            }
        }
    }
}

} // verus!
