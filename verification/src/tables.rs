//! Picking the tables of the call history and address book databases by name.

use vstd::prelude::*;
use vstd::string::*;
use vstd::utf8::encode_utf8;

verus! {

/// What `Manifest.db` records about the stored call history.
#[derive(Debug, Clone, PartialEq, Eq)]
pub struct ManifestFileRecord {
    pub file_id: String,
    pub domain: String,
    pub relative_path: String,
    pub metadata_blob: Vec<u8>,
}

/// A `Manifest.db` entry that may hold contacts.
#[derive(Debug, Clone, PartialEq, Eq)]
pub struct ManifestPathRecord {
    pub file_id: String,
    pub domain: String,
    pub relative_path: String,
    pub flags: i64,
}

/// The layout of the call history database.
#[derive(Debug, Clone, PartialEq, Eq)]
pub struct CallHistorySchema {
    pub tables: Vec<String>,
    pub call_table: Option<String>,
    pub call_columns: Vec<String>,
    pub call_count: Option<u64>,
}

/// The layout of the address book database.
#[derive(Debug, Clone, PartialEq, Eq)]
pub struct AddressBookSchema {
    pub tables: Vec<String>,
    pub person_table: Option<String>,
    pub person_columns: Vec<String>,
    pub multivalue_table: Option<String>,
    pub multivalue_columns: Vec<String>,
}

/// A byte with ASCII capitals made small.
pub open spec fn ascii_lower(b: u8) -> u8 {
    if 65 <= b <= 90 {
        (b + 32) as u8
    } else {
        b
    }
}

/// Whether two texts (as UTF-8 bytes) are equal ignoring ASCII case.
pub open spec fn eq_ignore_ascii_case(a: Seq<u8>, b: Seq<u8>) -> bool {
    a.len() == b.len() && forall|i: int| 0 <= i < a.len() ==> ascii_lower(#[trigger] a[i]) == ascii_lower(b[i])
}

/// Whether the text, with ASCII capitals made small, holds `pattern` at `at`.
pub open spec fn lowered_holds_at(text: Seq<u8>, pattern: Seq<u8>, at: int) -> bool {
    0 <= at && at + pattern.len() <= text.len() && forall|k: int|
        0 <= k < pattern.len() ==> ascii_lower(#[trigger] text[at + k]) == pattern[k]
}

/// Whether the text, with ASCII capitals made small, contains `pattern`.
pub open spec fn lowered_contains(text: Seq<u8>, pattern: Seq<u8>) -> bool {
    exists|at: int| lowered_holds_at(text, pattern, at)
}

/// The UTF-8 bytes of the names.
pub open spec fn names_bytes(names: Seq<String>) -> Seq<Seq<u8>> {
    names.map_values(|s: String| encode_utf8(s@))
}

fn lower(b: u8) -> (l: u8)
    ensures
        l == ascii_lower(b),
{
    if 65 <= b && b <= 90 {
        b + 32
    } else {
        b
    }
}

/// Whether two names are equal ignoring ASCII case.
pub fn same_ignoring_ascii_case(a: &str, b: &str) -> (same: bool)
    ensures
        same == eq_ignore_ascii_case(a.spec_bytes(), b.spec_bytes()),
{
    let x = a.as_bytes();
    let y = b.as_bytes();
    if x.len() != y.len() {
        return false;
    }
    let mut i: usize = 0;
    while i < x.len()
        invariant
            x@ == a.spec_bytes(),
            y@ == b.spec_bytes(),
            x@.len() == y@.len(),
            i <= x@.len(),
            forall|k: int| 0 <= k < i ==> ascii_lower(#[trigger] x@[k]) == ascii_lower(y@[k]),
        decreases x@.len() - i,
    {
        if lower(x[i]) != lower(y[i]) {
            return false;
        }
        i = i + 1;
    }
    true
}

/// Whether `text`, lowered, contains `pattern`.
pub fn contains_lowered(text: &str, pattern: &str) -> (found: bool)
    ensures
        found == lowered_contains(text.spec_bytes(), pattern.spec_bytes()),
{
    let t = text.as_bytes();
    let p = pattern.as_bytes();
    if p.len() > t.len() {
        assert forall|at: int| !lowered_holds_at(t@, p@, at) by {}
        return false;
    }
    let mut at: usize = 0;
    while at <= t.len() - p.len()
        invariant
            t@ == text.spec_bytes(),
            p@ == pattern.spec_bytes(),
            p@.len() <= t@.len(),
            at <= t@.len() - p@.len() + 1,
            forall|a: int| 0 <= a < at ==> !lowered_holds_at(t@, p@, a),
        decreases t@.len() - p@.len() + 1 - at,
    {
        let mut k: usize = 0;
        let mut matched = true;
        while k < p.len()
            invariant
                at + p@.len() <= t@.len(),
                t@.len() == t.len(),
                k <= p@.len(),
                matched == forall|m: int| 0 <= m < k ==> ascii_lower(#[trigger] t@[at + m]) == p@[m],
            decreases p@.len() - k,
        {
            if lower(t[at + k]) != p[k] {
                matched = false;
            }
            k = k + 1;
        }
        if matched {
            assert(lowered_holds_at(t@, p@, at as int));
            return true;
        }
        at = at + 1;
    }
    assert forall|a: int| !lowered_holds_at(t@, p@, a) by {
        if 0 <= a && a < at {
        }
    }
    false
}

/// Whether a name contains both words (`both`) or either word, ignoring case.
pub open spec fn has_words(name: Seq<u8>, first: Seq<u8>, second: Seq<u8>, both: bool) -> bool {
    if both {
        lowered_contains(name, first) && lowered_contains(name, second)
    } else {
        lowered_contains(name, first) || lowered_contains(name, second)
    }
}

/// Whether a name satisfies the search: equal to `wanted` ignoring case
/// (`by_words` false), or holding the words (`by_words` true).
pub open spec fn name_matches(name: Seq<u8>, wanted: Seq<u8>, by_words: bool, second: Seq<u8>, both: bool) -> bool {
    if by_words {
        has_words(name, wanted, second, both)
    } else {
        eq_ignore_ascii_case(name, wanted)
    }
}

/// The first position whose name matches the search.
pub open spec fn first_match(names: Seq<Seq<u8>>, wanted: Seq<u8>, by_words: bool, second: Seq<u8>, both: bool) -> Option<int>
    decreases names.len(),
{
    if names.len() == 0 {
        None
    } else {
        match first_match(names.drop_last(), wanted, by_words, second, both) {
            Some(i) => Some(i),
            None => if name_matches(names.last(), wanted, by_words, second, both) {
                Some(names.len() - 1)
            } else {
                None
            },
        }
    }
}

/// The first position whose name equals `wanted` ignoring case.
pub open spec fn first_named(names: Seq<Seq<u8>>, wanted: Seq<u8>) -> Option<int> {
    first_match(names, wanted, false, wanted, false)
}

/// The first position whose name holds the words.
pub open spec fn first_with_words(names: Seq<Seq<u8>>, first: Seq<u8>, second: Seq<u8>, both: bool) -> Option<int> {
    first_match(names, first, true, second, both)
}

/// The table that the first preferred name with a match names, ignoring case.
pub open spec fn preferred_table(names: Seq<Seq<u8>>, preferred: Seq<Seq<u8>>) -> Option<int>
    decreases preferred.len(),
{
    if preferred.len() == 0 {
        None
    } else {
        match first_named(names, preferred[0]) {
            Some(i) => Some(i),
            None => preferred_table(names, preferred.drop_first()),
        }
    }
}

/// The person table: the first preferred name present, ignoring case, or else
/// the first table whose name contains "person" or "contact" in any case.
pub open spec fn person_table_spec(names: Seq<Seq<u8>>, preferred: Seq<Seq<u8>>) -> Option<int> {
    match preferred_table(names, preferred) {
        Some(i) => Some(i),
        None => first_with_words(names, "person".spec_bytes(), "contact".spec_bytes(), false),
    }
}

/// The call table: `ZCALLRECORD` in any case, or else the first table whose
/// name contains both "call" and "record" in any case.
pub open spec fn call_table_spec(names: Seq<Seq<u8>>) -> Option<int> {
    match first_named(names, "ZCALLRECORD".spec_bytes()) {
        Some(i) => Some(i),
        None => first_with_words(names, "call".spec_bytes(), "record".spec_bytes(), true),
    }
}

proof fn lemma_first_match_prefix(names: Seq<Seq<u8>>, wanted: Seq<u8>, by_words: bool, second: Seq<u8>, both: bool, k: int)
    requires
        0 <= k <= names.len(),
        first_match(names.take(k), wanted, by_words, second, both) is Some,
    ensures
        first_match(names, wanted, by_words, second, both) == first_match(names.take(k), wanted, by_words, second, both),
    decreases names.len(),
{
    if k == names.len() {
        assert(names.take(k) =~= names);
    } else {
        assert(names.drop_last().take(k) =~= names.take(k));
        lemma_first_match_prefix(names.drop_last(), wanted, by_words, second, both, k);
    }
}

fn find_match(tables: &[String], wanted: &str, by_words: bool, second: &str, both: bool) -> (found: Option<usize>)
    ensures
        match first_match(names_bytes(tables@), wanted.spec_bytes(), by_words, second.spec_bytes(), both) {
            Some(i) => found == Some(i as usize) && 0 <= i < tables@.len(),
            None => found is None,
        },
{
    let ghost names = names_bytes(tables@);
    let mut i: usize = 0;
    assert(names.take(0) =~= seq![]);
    while i < tables.len()
        invariant
            i <= tables@.len(),
            names == names_bytes(tables@),
            first_match(names.take(i as int), wanted.spec_bytes(), by_words, second.spec_bytes(), both) is None,
        decreases tables@.len() - i,
    {
        assert(names.take(i + 1).drop_last() =~= names.take(i as int));
        assert(names.take(i + 1).last() == encode_utf8(tables@[i as int]@));
        let name = tables[i].as_str();
        let matched = if by_words {
            let a = contains_lowered(name, wanted);
            let b = contains_lowered(name, second);
            if both { a && b } else { a || b }
        } else {
            same_ignoring_ascii_case(name, wanted)
        };
        if matched {
            proof {
                lemma_first_match_prefix(names, wanted.spec_bytes(), by_words, second.spec_bytes(), both, i + 1);
            }
            return Some(i);
        }
        i = i + 1;
    }
    assert(names.take(i as int) =~= names);
    None
}

/// The person or contact table among `tables`.
pub fn find_table(tables: &[String], preferred: &[&str]) -> (table: Option<String>)
    ensures
        match person_table_spec(names_bytes(tables@), preferred@.map_values(|w: &str| w.spec_bytes())) {
            Some(i) => table matches Some(t) && 0 <= i < tables@.len() && t@ == tables@[i]@,
            None => table is None,
        },
{
    let ghost names = names_bytes(tables@);
    let ghost wanted = preferred@.map_values(|w: &str| w.spec_bytes());
    let mut w: usize = 0;
    assert(wanted.skip(0) =~= wanted);
    while w < preferred.len()
        invariant
            w <= preferred@.len(),
            names == names_bytes(tables@),
            wanted == preferred@.map_values(|w: &str| w.spec_bytes()),
            preferred_table(names, wanted) == preferred_table(names, wanted.skip(w as int)),
        decreases preferred@.len() - w,
    {
        assert(wanted.skip(w as int)[0] == preferred@[w as int].spec_bytes());
        assert(wanted.skip(w as int).drop_first() =~= wanted.skip(w + 1));
        if let Some(i) = find_match(tables, preferred[w], false, preferred[w], false) {
            return Some(tables[i].clone());
        }
        w = w + 1;
    }
    assert(wanted.skip(w as int) =~= seq![]);
    match find_match(tables, "person", true, "contact", false) {
        Some(i) => Some(tables[i].clone()),
        None => None,
    }
}

/// The call record table among `tables`.
pub fn find_call_table(tables: &[String]) -> (table: Option<String>)
    ensures
        match call_table_spec(names_bytes(tables@)) {
            Some(i) => table matches Some(t) && 0 <= i < tables@.len() && t@ == tables@[i]@,
            None => table is None,
        },
{
    if let Some(i) = find_match(tables, "ZCALLRECORD", false, "ZCALLRECORD", false) {
        return Some(tables[i].clone());
    }
    match find_match(tables, "call", true, "record", true) {
        Some(i) => Some(tables[i].clone()),
        None => None,
    }
}

} // verus!
