//! Turning call records into rows of the export, and deciding how the call
//! history file is to be decrypted.

use vstd::prelude::*;
use vstd::string::*;
use crate::error::ExportError;
use crate::file_metadata::FileEncryptionMetadata;
use crate::text::{decimal_text, signed_decimal_string};

verus! {

/// How many calls were exported, and how many of them matched a contact.
#[derive(Debug, Clone, Copy, PartialEq, Eq)]
pub struct CallExportStats {
    pub exported: u64,
    pub matched_contacts: u64,
}

impl CallExportStats {
    /// No calls yet.
    pub fn new() -> (stats: CallExportStats)
        ensures
            stats.exported == 0,
            stats.matched_contacts == 0,
    {
        CallExportStats { exported: 0, matched_contacts: 0 }
    }

    /// Counts one exported call.
    pub fn record_call(&mut self, matched_contact: bool)
        requires
            old(self).exported < u64::MAX,
            old(self).matched_contacts < u64::MAX,
        ensures
            final(self).exported == old(self).exported + 1,
            final(self).matched_contacts == old(self).matched_contacts + if matched_contact { 1int } else { 0int },
    {
        self.exported = self.exported + 1;
        if matched_contact {
            self.matched_contacts = self.matched_contacts + 1;
        }
    }
}

/// The contact that a call's number belongs to.
#[derive(Debug)]
pub struct ContactMatch {
    pub name: String,
    pub organization: String,
}

/// The columns of one call record as read from the call history.
#[derive(Debug)]
pub struct CallRecordFields {
    pub date_text: String,
    pub duration_text: String,
    pub originated: Option<i64>,
    pub answered: Option<i64>,
    pub address: Option<String>,
    pub call_name: Option<String>,
    pub call_type: Option<i64>,
    pub country: Option<String>,
    pub provider: Option<String>,
    pub unique_id: Option<String>,
}

/// The text of an optional column, empty when absent.
pub open spec fn text_or_empty(text: Option<String>) -> Seq<char> {
    match text {
        Some(t) => t@,
        None => seq![],
    }
}

/// The direction of a call: 1 means it was placed from the phone.
pub open spec fn direction_text(originated: Option<i64>) -> Seq<char> {
    match originated {
        Some(v) => if v == 1 { "ausgehend"@ } else { "eingehend"@ },
        None => "unbekannt"@,
    }
}

/// Whether a call was answered: 1 means yes.
pub open spec fn answered_text(answered: Option<i64>) -> Seq<char> {
    match answered {
        Some(v) => if v == 1 { "ja"@ } else { "nein"@ },
        None => "unbekannt"@,
    }
}

/// The row of the export for a call: date, duration, direction, answered,
/// number, resolved name (the contact's when it has one, else the call list's),
/// the call list's name, organization, source of the name, call type, country,
/// provider and ID.
pub open spec fn call_row_spec(fields: CallRecordFields, contact: Option<(Seq<char>, Seq<char>)>) -> Seq<Seq<char>> {
    let call_name = text_or_empty(fields.call_name);
    seq![
        fields.date_text@,
        fields.duration_text@,
        direction_text(fields.originated),
        answered_text(fields.answered),
        text_or_empty(fields.address),
        match contact {
            Some(c) => if c.0.len() != 0 { c.0 } else { call_name },
            None => call_name,
        },
        call_name,
        match contact {
            Some(c) => c.1,
            None => seq![],
        },
        match contact {
            Some(_) => "iPhone-AddressBook"@,
            None => if call_name.len() == 0 { seq![] } else { "Anrufliste"@ },
        },
        match fields.call_type {
            Some(t) => decimal_text(t as int),
            None => seq![],
        },
        text_or_empty(fields.country),
        text_or_empty(fields.provider),
        text_or_empty(fields.unique_id),
    ]
}

/// The name columns of every row: column 6 (`Name_Anrufliste`) is always the
/// call list's own name, empty when the call has none, whether or not a
/// contact matched; column 5 (`Name`) is the matched contact's name when that
/// is not empty, and the call list's name otherwise; column 7 is the matched
/// contact's organization, and column 4 the number.
pub proof fn law_call_row_name_columns(fields: CallRecordFields, contact: Option<(Seq<char>, Seq<char>)>)
    ensures
        call_row_spec(fields, contact).len() == 13,
        match fields.call_name {
            Some(n) => call_row_spec(fields, contact)[6] == n@,
            None => call_row_spec(fields, contact)[6] == Seq::<char>::empty(),
        },
        match contact {
            Some((name, organization)) => {
                &&& name.len() != 0 ==> call_row_spec(fields, contact)[5] == name
                &&& name.len() == 0 ==> call_row_spec(fields, contact)[5] == call_row_spec(fields, contact)[6]
                &&& call_row_spec(fields, contact)[7] == organization
            },
            None => {
                &&& call_row_spec(fields, contact)[5] == call_row_spec(fields, contact)[6]
                &&& call_row_spec(fields, contact)[7] == Seq::<char>::empty()
            },
        },
        match fields.address {
            Some(a) => call_row_spec(fields, contact)[4] == a@,
            None => call_row_spec(fields, contact)[4] == Seq::<char>::empty(),
        },
        call_row_spec(fields, contact)[0] == fields.date_text@,
        call_row_spec(fields, contact)[1] == fields.duration_text@,
        call_row_spec(fields, contact)[2] == match fields.originated {
            Some(v) => if v == 1 { "ausgehend"@ } else { "eingehend"@ },
            None => "unbekannt"@,
        },
        call_row_spec(fields, contact)[3] == match fields.answered {
            Some(v) => if v == 1 { "ja"@ } else { "nein"@ },
            None => "unbekannt"@,
        },
        contact is Some ==> call_row_spec(fields, contact)[8] == "iPhone-AddressBook"@,
        contact is None ==> (call_row_spec(fields, contact)[8] == if call_row_spec(fields, contact)[6].len() == 0 {
            Seq::<char>::empty()
        } else {
            "Anrufliste"@
        }),
        match fields.country {
            Some(c) => call_row_spec(fields, contact)[10] == c@,
            None => call_row_spec(fields, contact)[10] == Seq::<char>::empty(),
        },
        match fields.provider {
            Some(c) => call_row_spec(fields, contact)[11] == c@,
            None => call_row_spec(fields, contact)[11] == Seq::<char>::empty(),
        },
        match fields.unique_id {
            Some(c) => call_row_spec(fields, contact)[12] == c@,
            None => call_row_spec(fields, contact)[12] == Seq::<char>::empty(),
        },
{
}

fn or_empty(text: Option<String>) -> (out: String)
    ensures
        out@ == text_or_empty(text),
{
    match text {
        Some(t) => t,
        None => String::new(),
    }
}

/// The row of the export for one call.
pub fn call_csv_row(fields: CallRecordFields, contact: Option<&ContactMatch>) -> (row: Vec<String>)
    ensures
        row@.map_values(|c: String| c@) == call_row_spec(
            fields,
            match contact {
                Some(c) => Some((c.name@, c.organization@)),
                None => None,
            },
        ),
        row@.len() == 13,
        match fields.call_name {
            Some(n) => row@[6]@ == n@,
            None => row@[6]@ == Seq::<char>::empty(),
        },
        match contact {
            Some(c) => if c.name@.len() != 0 {
                row@[5]@ == c.name@
            } else {
                row@[5]@ == row@[6]@
            },
            None => row@[5]@ == row@[6]@,
        },
{
    let ghost spec_fields = fields;
    let CallRecordFields {
        date_text,
        duration_text,
        originated,
        answered,
        address,
        call_name,
        call_type,
        country,
        provider,
        unique_id,
    } = fields;
    let direction = match originated {
        Some(v) => if v == 1 { String::from_str("ausgehend") } else { String::from_str("eingehend") },
        None => String::from_str("unbekannt"),
    };
    let answered_column = match answered {
        Some(v) => if v == 1 { String::from_str("ja") } else { String::from_str("nein") },
        None => String::from_str("unbekannt"),
    };
    let call_name = or_empty(call_name);
    let resolved_name = match contact {
        Some(c) => if c.name.as_str().is_empty() { call_name.clone() } else { c.name.clone() },
        None => call_name.clone(),
    };
    let organization = match contact {
        Some(c) => c.organization.clone(),
        None => String::new(),
    };
    let source = match contact {
        Some(_) => String::from_str("iPhone-AddressBook"),
        None => if call_name.as_str().is_empty() { String::new() } else { String::from_str("Anrufliste") },
    };
    let call_type_column = match call_type {
        Some(t) => signed_decimal_string(t),
        None => String::new(),
    };
    let mut row: Vec<String> = Vec::new();
    row.push(date_text);
    row.push(duration_text);
    row.push(direction);
    row.push(answered_column);
    row.push(or_empty(address));
    row.push(resolved_name);
    row.push(call_name);
    row.push(organization);
    row.push(source);
    row.push(call_type_column);
    row.push(or_empty(country));
    row.push(or_empty(provider));
    row.push(or_empty(unique_id));
    assert(row@.map_values(|c: String| c@) =~= call_row_spec(
        spec_fields,
        match contact {
            Some(c) => Some((c.name@, c.organization@)),
            None => None,
        },
    ));
    row
}

/// The header row of the export.
pub fn call_csv_header() -> (header: Vec<String>)
    ensures
        header@.len() == 13,
        header@[0]@ == "Datum"@,
        header@[1]@ == "Dauer_Sekunden"@,
        header@[2]@ == "Richtung"@,
        header@[3]@ == "Angenommen"@,
        header@[4]@ == "Rufnummer"@,
        header@[5]@ == "Name"@,
        header@[6]@ == "Name_Anrufliste"@,
        header@[7]@ == "Kontakt_Organisation"@,
        header@[8]@ == "Kontaktquelle"@,
        header@[9]@ == "Anruftyp"@,
        header@[10]@ == "Land"@,
        header@[11]@ == "Dienstanbieter"@,
        header@[12]@ == "Eindeutige_ID"@,
{
    let mut header: Vec<String> = Vec::new();
    header.push(String::from_str("Datum"));
    header.push(String::from_str("Dauer_Sekunden"));
    header.push(String::from_str("Richtung"));
    header.push(String::from_str("Angenommen"));
    header.push(String::from_str("Rufnummer"));
    header.push(String::from_str("Name"));
    header.push(String::from_str("Name_Anrufliste"));
    header.push(String::from_str("Kontakt_Organisation"));
    header.push(String::from_str("Kontaktquelle"));
    header.push(String::from_str("Anruftyp"));
    header.push(String::from_str("Land"));
    header.push(String::from_str("Dienstanbieter"));
    header.push(String::from_str("Eindeutige_ID"));
    header
}

/// How the stored call history is to be decrypted.
#[derive(Debug)]
pub enum CallHistoryDecryption {
    /// Decrypt the whole stored content and remove its padding: the logical
    /// size exceeds the stored file, or the content is compressed or encoded.
    StoredPayload,
    /// Decrypt exactly `logical_size` bytes.
    ExactFile { logical_size: u64 },
}

/// Chooses how to decrypt the call history file of `physical_size` bytes.
pub fn choose_call_history_decryption(metadata: &FileEncryptionMetadata, physical_size: u64) -> (choice: Result<
    CallHistoryDecryption,
    ExportError,
>)
    ensures
        match metadata.logical_size {
            None => choice matches Err(ExportError::LogicalSizeMissing),
            Some(logical) => if logical > physical_size || (metadata.content_compression_method matches Some(c)
                && c != 0) || (metadata.content_encoding_method matches Some(e) && e != 0) {
                choice matches Ok(CallHistoryDecryption::StoredPayload)
            } else {
                choice matches Ok(CallHistoryDecryption::ExactFile { logical_size }) && logical_size == logical
            },
        },
{
    let logical_size = match metadata.logical_size {
        Some(size) => size,
        None => {
            return Err(ExportError::LogicalSizeMissing);
        },
    };
    let compression = match metadata.content_compression_method {
        Some(c) => c,
        None => 0,
    };
    let encoding = match metadata.content_encoding_method {
        Some(e) => e,
        None => 0,
    };
    if logical_size > physical_size || compression != 0 || encoding != 0 {
        Ok(CallHistoryDecryption::StoredPayload)
    } else {
        Ok(CallHistoryDecryption::ExactFile { logical_size })
    }
}

} // verus!
