//! The lines of the address book: an address, its latitude and its
//! longitude, separated by semicolons; comments start with a hash sign.

use crate::text::{chars_of, split, split_on, trim, trim_bounds, trimmed};
use vstd::prelude::*;

verus! {

/// What a line of the address book holds.
#[derive(Debug, PartialEq, Eq)]
pub enum AddressLine {
    /// A comment: the line, trimmed, starts with a hash sign.
    Comment,
    /// Nothing but white space.
    Blank,
    /// An address with its latitude and its longitude, each as written.
    Entry {
        /// The address.
        address: String,
        /// The latitude, as written.
        latitude: String,
        /// The longitude, as written.
        longitude: String,
    },
    /// Anything else.
    Malformed,
}

/// What an [`AddressLine`] holds, as plain values.
pub ghost enum AddressLineView {
    Comment,
    Blank,
    Entry { address: Seq<char>, latitude: Seq<char>, longitude: Seq<char> },
    Malformed,
}

impl View for AddressLine {
    type V = AddressLineView;

    open spec fn view(&self) -> AddressLineView {
        match self {
            AddressLine::Comment => AddressLineView::Comment,
            AddressLine::Blank => AddressLineView::Blank,
            AddressLine::Entry { address, latitude, longitude } => AddressLineView::Entry {
                address: address@,
                latitude: latitude@,
                longitude: longitude@,
            },
            AddressLine::Malformed => AddressLineView::Malformed,
        }
    }
}

/// What `line` holds: a comment where its trimmed text starts with a hash
/// sign; else an entry where semicolons part it in three; else nothing
/// where it is white space; else it is malformed.
pub open spec fn address_line(line: Seq<char>) -> AddressLineView {
    let text = trimmed(line);
    let parts = split(line, ';');
    if text.len() > 0 && text[0] == '#' {
        AddressLineView::Comment
    } else if parts.len() == 3 {
        AddressLineView::Entry { address: parts[0], latitude: parts[1], longitude: parts[2] }
    } else if text.len() > 0 {
        AddressLineView::Malformed
    } else {
        AddressLineView::Blank
    }
}

/// Reads one line of the address book.
pub fn read_address_line(line: &str) -> (r: AddressLine)
    ensures
        r@ == address_line(line@),
{
    let v = chars_of(line);
    let (a, b) = trim_bounds(&v);
    if b > a && v[a] == '#' {
        assert(trimmed(line@)[0] == v@[a as int]);
        return AddressLine::Comment;
    }
    proof {
        if b > a {
            assert(trimmed(line@)[0] == v@[a as int]);
        }
    }
    let mut parts = split_on(line, ';');
    if parts.len() == 3 {
        let ghost views = split(line@, ';');
        assert(parts@[0]@ == views[0] && parts@[1]@ == views[1] && parts@[2]@ == views[2]);
        let longitude = parts.pop().unwrap();
        let latitude = parts.pop().unwrap();
        let address = parts.pop().unwrap();
        AddressLine::Entry { address, latitude, longitude }
    } else if b > a {
        AddressLine::Malformed
    } else {
        AddressLine::Blank
    }
}

/// What is to be done with a line when the address book is completed.
#[derive(Debug, PartialEq, Eq)]
pub enum Completion {
    /// The line stays as it is.
    Keep,
    /// The line is an address alone: its coordinates are to be found.
    Locate {
        /// The address, trimmed.
        address: String,
    },
    /// The line has its coordinates: they are to be confirmed.
    Confirm {
        /// The address, trimmed.
        address: String,
        /// The latitude, as written.
        latitude: String,
        /// The longitude, as written.
        longitude: String,
    },
}

/// What a [`Completion`] holds, as plain values.
pub ghost enum CompletionView {
    Keep,
    Locate { address: Seq<char> },
    Confirm { address: Seq<char>, latitude: Seq<char>, longitude: Seq<char> },
}

impl View for Completion {
    type V = CompletionView;

    open spec fn view(&self) -> CompletionView {
        match self {
            Completion::Keep => CompletionView::Keep,
            Completion::Locate { address } => CompletionView::Locate { address: address@ },
            Completion::Confirm { address, latitude, longitude } => CompletionView::Confirm {
                address: address@,
                latitude: latitude@,
                longitude: longitude@,
            },
        }
    }
}

/// What is to be done with `line`: a line without a semicolon that is not
/// white space is an address to locate; a line that semicolons part in
/// three is an entry to confirm; any other line stays.
pub open spec fn completion(line: Seq<char>) -> CompletionView {
    let parts = split(line, ';');
    if parts.len() == 1 && trimmed(parts[0]).len() > 0 {
        CompletionView::Locate { address: trimmed(parts[0]) }
    } else if parts.len() == 3 {
        CompletionView::Confirm {
            address: trimmed(parts[0]),
            latitude: parts[1],
            longitude: parts[2],
        }
    } else {
        CompletionView::Keep
    }
}

/// Decides what is to be done with one line when the address book is
/// completed.
pub fn completion_of(line: &str) -> (r: Completion)
    ensures
        r@ == completion(line@),
{
    let mut parts = split_on(line, ';');
    let ghost views = split(line@, ';');
    if parts.len() == 1 {
        assert(parts@[0]@ == views[0]);
        let address = trim(parts[0].as_str());
        if address.as_str().is_empty() {
            Completion::Keep
        } else {
            Completion::Locate { address }
        }
    } else if parts.len() == 3 {
        assert(parts@[0]@ == views[0] && parts@[1]@ == views[1] && parts@[2]@ == views[2]);
        let address = trim(parts[0].as_str());
        let longitude = parts.pop().unwrap();
        let latitude = parts.pop().unwrap();
        Completion::Confirm { address, latitude, longitude }
    } else {
        Completion::Keep
    }
}

} // verus!
