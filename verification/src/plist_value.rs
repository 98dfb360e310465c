//! Property-list values as plain data, and the lookups the backup formats need.

use vstd::prelude::*;
use crate::keybag::same_text;

verus! {

/// A property-list value. Dates and reals, which nothing here reads, are
/// `Other`; an integer carries its value when that fits in a `u64`.
#[derive(Debug)]
pub enum PlistValue {
    Array(Vec<PlistValue>),
    Dictionary(Vec<(String, PlistValue)>),
    Boolean(bool),
    Data(Vec<u8>),
    Integer(Option<u64>),
    String(String),
    Uid(u64),
    Other,
}

/// The value stored under `key`: that of the first entry with this key (a
/// property-list dictionary holds each key once).
pub open spec fn dict_lookup(entries: Seq<(String, PlistValue)>, key: Seq<char>) -> Option<PlistValue>
    decreases entries.len(),
{
    if entries.len() == 0 {
        None
    } else if entries[0].0@ == key {
        Some(entries[0].1)
    } else {
        dict_lookup(entries.drop_first(), key)
    }
}

/// The entries of a dictionary value.
pub open spec fn as_dictionary(value: PlistValue) -> Option<Seq<(String, PlistValue)>> {
    match value {
        PlistValue::Dictionary(entries) => Some(entries@),
        _ => None,
    }
}

/// An integer value that fits in a `u64`.
pub open spec fn as_u64(value: PlistValue) -> Option<u64> {
    match value {
        PlistValue::Integer(n) => n,
        _ => None,
    }
}

/// The value under `key`, when `entries` has one.
pub fn dict_get<'a>(entries: &'a Vec<(String, PlistValue)>, key: &str) -> (found: Option<&'a PlistValue>)
    ensures
        match dict_lookup(entries@, key@) {
            Some(v) => found matches Some(f) && *f == v,
            None => found is None,
        },
{
    let ghost all = entries@;
    let mut i: usize = 0;
    assert(all.skip(0) =~= all);
    while i < entries.len()
        invariant
            i <= entries@.len(),
            all == entries@,
            dict_lookup(all, key@) == dict_lookup(all.skip(i as int), key@),
        decreases entries@.len() - i,
    {
        assert(all.skip(i as int)[0] == entries@[i as int]);
        if same_text(entries[i].0.as_str(), key) {
            return Some(&entries[i].1);
        }
        assert(all.skip(i as int).drop_first() =~= all.skip(i + 1));
        i = i + 1;
    }
    assert(all.skip(i as int) =~= seq![]);
    None
}

/// An integer value that fits in a `u64`.
pub fn value_u64(value: &PlistValue) -> (number: Option<u64>)
    ensures
        number == as_u64(*value),
{
    match value {
        PlistValue::Integer(n) => *n,
        _ => None,
    }
}

} // verus!
