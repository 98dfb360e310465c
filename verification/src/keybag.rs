//! The keybag's type-length-value format: records of four tag bytes, a
//! four-byte big-endian length and that many value bytes, one after another.

use vstd::prelude::*;
use vstd::string::*;
use vstd::slice::{slice_subrange, slice_to_vec};
use crate::error::ExportError;
use crate::primitives::{decode_utf8_lossy, utf8_lossy};

verus! {

/// One record of the keybag.
#[derive(Debug, Clone, PartialEq, Eq)]
pub struct KeybagEntry {
    pub tag: String,
    pub value: Vec<u8>,
}

impl View for KeybagEntry {
    type V = (Seq<char>, Seq<u8>);

    open spec fn view(&self) -> (Seq<char>, Seq<u8>) {
        (self.tag@, self.value@)
    }
}

/// The entries of a keybag as plain values: each record's tag text and value.
pub open spec fn entries_view(entries: Seq<KeybagEntry>) -> Seq<(Seq<char>, Seq<u8>)> {
    entries.map_values(|e: KeybagEntry| e@)
}

/// The number that four bytes give read big-endian.
pub open spec fn be_u32(b: Seq<u8>) -> nat {
    b[0] as nat * 16777216 + b[1] as nat * 65536 + b[2] as nat * 256 + b[3] as nat
}

/// The four bytes of `x`, big-endian.
pub open spec fn be_bytes_u32(x: nat) -> Seq<u8> {
    seq![
        (x / 16777216 % 256) as u8,
        (x / 65536 % 256) as u8,
        (x / 256 % 256) as u8,
        (x % 256) as u8,
    ]
}

/// Why a byte string is not a sequence of keybag records, and where.
pub enum TlvFault {
    /// A record header starts at `offset` with fewer than eight bytes left.
    HeaderTruncated { offset: int },
    /// The value's end does not fit in a `usize`.
    LengthOverflow,
    /// The record with these tag bytes announces `expected` value bytes, and
    /// `available` remain.
    ValueTruncated { tag: Seq<u8>, expected: int, available: int },
}

/// The records (tag bytes, value) that `input` holds from `pos` on, or the
/// first fault there.
pub open spec fn tlv_records_from(input: Seq<u8>, pos: int) -> Result<Seq<(Seq<u8>, Seq<u8>)>, TlvFault>
    decreases input.len() - pos,
{
    if pos < 0 || pos >= input.len() {
        Ok(seq![])
    } else if input.len() - pos < 8 {
        Err(TlvFault::HeaderTruncated { offset: pos })
    } else {
        let length = be_u32(input.subrange(pos + 4, pos + 8)) as int;
        let start = pos + 8;
        if start + length > usize::MAX {
            Err(TlvFault::LengthOverflow)
        } else if start + length > input.len() {
            Err(TlvFault::ValueTruncated {
                tag: input.subrange(pos, pos + 4),
                expected: length,
                available: input.len() - start,
            })
        } else {
            match tlv_records_from(input, start + length) {
                Ok(rest) => Ok(
                    seq![(input.subrange(pos, pos + 4), input.subrange(start, start + length))] + rest,
                ),
                Err(fault) => Err(fault),
            }
        }
    }
}

/// The records of a whole keybag.
pub open spec fn tlv_records(input: Seq<u8>) -> Result<Seq<(Seq<u8>, Seq<u8>)>, TlvFault> {
    tlv_records_from(input, 0)
}

/// The bytes of a sequence of records: tag, big-endian length, value, in turn.
pub open spec fn tlv_encode(records: Seq<(Seq<u8>, Seq<u8>)>) -> Seq<u8>
    decreases records.len(),
{
    if records.len() == 0 {
        seq![]
    } else {
        records[0].0 + be_bytes_u32(records[0].1.len()) + records[0].1 + tlv_encode(records.drop_first())
    }
}

/// The entries that parsing makes of records: the tag bytes read as lossy UTF-8.
pub open spec fn entries_of_records(records: Seq<(Seq<u8>, Seq<u8>)>) -> Seq<(Seq<char>, Seq<u8>)> {
    records.map_values(|r: (Seq<u8>, Seq<u8>)| (utf8_lossy(r.0), r.1))
}

/// The error that reports a fault.
pub open spec fn reports_fault(error: ExportError, fault: TlvFault) -> bool {
    match (fault, error) {
        (TlvFault::HeaderTruncated { offset }, ExportError::KeybagHeaderTruncated { offset: o }) => o == offset,
        (TlvFault::LengthOverflow, ExportError::KeybagLengthOverflow) => true,
        (
            TlvFault::ValueTruncated { tag, expected, available },
            ExportError::KeybagValueTruncated { tag: t, expected: e, available: a },
        ) => t@ == utf8_lossy(tag) && e == expected && a == available,
        _ => false,
    }
}

spec fn prepend_records(
    done: Seq<(Seq<u8>, Seq<u8>)>,
    rest: Result<Seq<(Seq<u8>, Seq<u8>)>, TlvFault>,
) -> Result<Seq<(Seq<u8>, Seq<u8>)>, TlvFault> {
    match rest {
        Ok(r) => Ok(done + r),
        Err(f) => Err(f),
    }
}

/// Reads a big-endian `u32` from the four bytes at `pos`.
fn read_be_u32(input: &[u8], pos: usize) -> (value: u32)
    requires
        pos + 4 <= input@.len(),
    ensures
        value == be_u32(input@.subrange(pos as int, pos + 4)),
{
    let b0 = input[pos] as u32;
    let b1 = input[pos + 1] as u32;
    let b2 = input[pos + 2] as u32;
    let b3 = input[pos + 3] as u32;
    b0 * 16777216 + b1 * 65536 + b2 * 256 + b3
}

/// Whether every record's tag bytes are valid UTF-8.
pub open spec fn tags_valid_utf8(records: Seq<(Seq<u8>, Seq<u8>)>) -> bool {
    forall|i: int| 0 <= i < records.len() ==> vstd::utf8::valid_utf8(#[trigger] records[i].0)
}

/// The records of entries given with text tags: each tag as its UTF-8 bytes.
pub open spec fn records_of_entries(entries: Seq<(Seq<char>, Seq<u8>)>) -> Seq<(Seq<u8>, Seq<u8>)> {
    entries.map_values(|e: (Seq<char>, Seq<u8>)| (vstd::utf8::encode_utf8(e.0), e.1))
}

/// The bytes of keybag entries with text tags, written in the format.
pub open spec fn keybag_encode(entries: Seq<(Seq<char>, Seq<u8>)>) -> Seq<u8> {
    tlv_encode(records_of_entries(entries))
}

/// Splits the keybag into records; a tag that is valid UTF-8 is decoded as such.
fn split_records(input: &[u8]) -> (result: Result<Vec<KeybagEntry>, ExportError>)
    ensures
        match tlv_records(input@) {
            Ok(records) => result matches Ok(entries)
                && entries_view(entries@) == entries_of_records(records)
                && forall|i: int| 0 <= i < records.len() && vstd::utf8::valid_utf8(#[trigger] records[i].0)
                    ==> entries@[i].tag@ == vstd::utf8::decode_utf8(records[i].0),
            Err(fault) => result matches Err(error) && reports_fault(error, fault),
        },
{
    let mut entries: Vec<KeybagEntry> = Vec::new();
    let mut offset: usize = 0;
    let ghost mut done: Seq<(Seq<u8>, Seq<u8>)> = seq![];

    while offset < input.len()
        invariant
            offset <= input@.len(),
            tlv_records(input@) == prepend_records(done, tlv_records_from(input@, offset as int)),
            entries_view(entries@) == entries_of_records(done),
            entries@.len() == done.len(),
            forall|i: int| 0 <= i < done.len() && vstd::utf8::valid_utf8(#[trigger] done[i].0)
                ==> entries@[i].tag@ == vstd::utf8::decode_utf8(done[i].0),
        decreases input@.len() - offset,
    {
        if input.len() - offset < 8 {
            return Err(ExportError::KeybagHeaderTruncated { offset });
        }
        let length = read_be_u32(input, offset + 4) as usize;
        let tag_bytes = slice_subrange(input, offset, offset + 4);
        let tag = decode_utf8_lossy(tag_bytes);
        let start = offset + 8;
        let end = match start.checked_add(length) {
            Some(end) => end,
            None => {
                return Err(ExportError::KeybagLengthOverflow);
            },
        };
        if end > input.len() {
            return Err(ExportError::KeybagValueTruncated {
                tag,
                expected: length,
                available: input.len() - start,
            });
        }
        let value = slice_to_vec(slice_subrange(input, start, end));
        proof {
            let record = (input@.subrange(offset as int, offset + 4), input@.subrange(start as int, end as int));
            assert(tlv_records_from(input@, offset as int) == prepend_records(
                seq![record],
                tlv_records_from(input@, end as int),
            ));
            assert(done + (seq![record] + tlv_records_from(input@, end as int)->Ok_0)
                =~= done.push(record) + tlv_records_from(input@, end as int)->Ok_0);
            assert(entries_of_records(done.push(record)) =~= entries_of_records(done).push(
                (utf8_lossy(record.0), record.1),
            ));
            done = done.push(record);
        }
        let ghost before = entries@;
        entries.push(KeybagEntry { tag, value });
        proof {
            assert(entries_view(entries@) =~= entries_of_records(done));
            assert forall|i: int| 0 <= i < done.len() && vstd::utf8::valid_utf8(#[trigger] done[i].0)
                implies entries@[i].tag@ == vstd::utf8::decode_utf8(done[i].0) by {
                if i < done.len() - 1 {
                    assert(entries@[i] == before[i]);
                }
            }
        }
        offset = end;
    }
    proof {
        assert(done + seq![] =~= done);
    }
    Ok(entries)
}

/// Splits the keybag into its records. Fails at the first record whose header
/// or value runs past the end of the input. Keybag entries with four-byte
/// UTF-8 tags written in the format parse back to the same entries, and when
/// every tag read is valid UTF-8, writing the entries again gives the input.
pub fn parse_keybag_tlv(input: &[u8]) -> (result: Result<Vec<KeybagEntry>, ExportError>)
    ensures
        match tlv_records(input@) {
            Ok(records) => result matches Ok(entries)
                && entries_view(entries@) == entries_of_records(records),
            Err(fault) => result matches Err(error) && reports_fault(error, fault),
        },
        forall|es: Seq<(Seq<char>, Seq<u8>)>|
            #![trigger keybag_encode(es)]
            keybag_encode(es) == input@ && records_encodable(records_of_entries(es))
                ==> (result matches Ok(entries) && entries_view(entries@) == es),
        result matches Ok(entries) ==> (tlv_records(input@) matches Ok(records) ==> (tags_valid_utf8(records)
            ==> input@ == keybag_encode(entries_view(entries@)))),
{
    let result = split_records(input);
    let length = input.len();
    proof {
        assert(input@.len() == length);
        broadcast use vstd::utf8::encode_utf8_decode_utf8, vstd::utf8::encode_utf8_valid_utf8,
            vstd::utf8::decode_utf8_encode_utf8;
        assert forall|es: Seq<(Seq<char>, Seq<u8>)>|
            #![trigger keybag_encode(es)]
            keybag_encode(es) == input@ && records_encodable(records_of_entries(es))
                implies (result matches Ok(entries) && entries_view(entries@) == es) by {
            let records = records_of_entries(es);
            law_keybag_parse_inverts_encode(records);
            let entries = result->Ok_0;
            assert(entries_view(entries@) == entries_of_records(records));
            assert(entries_view(entries@).len() == entries@.len());
            assert(entries@.len() == es.len());
            assert forall|i: int| 0 <= i < es.len() implies #[trigger] entries_view(entries@)[i] == es[i] by {
                assert(records[i].0 == vstd::utf8::encode_utf8(es[i].0));
                assert(vstd::utf8::valid_utf8(records[i].0));
                assert(entries_view(entries@)[i] == entries@[i]@);
            }
            assert(entries_view(entries@) =~= es);
        }
        if result is Ok && tlv_records(input@) is Ok {
            let records = tlv_records(input@)->Ok_0;
            let entries = result->Ok_0;
            if tags_valid_utf8(records) {
                law_keybag_encode_inverts_parse(input@);
                assert(entries_view(entries@) == entries_of_records(records));
                assert(entries_view(entries@).len() == entries@.len());
                assert(entries@.len() == records.len());
                assert forall|i: int| 0 <= i < records.len() implies
                    #[trigger] records_of_entries(entries_view(entries@))[i] == records[i] by {
                    assert(vstd::utf8::valid_utf8(records[i].0));
                    assert(entries_view(entries@)[i] == entries@[i]@);
                    assert(entries_of_records(records)[i] == entries_view(entries@)[i]);
                }
                assert(records_of_entries(entries_view(entries@)) =~= records);
            }
        }
    }
    result
}

proof fn lemma_be_bytes_of_be_u32(b: Seq<u8>)
    requires
        b.len() == 4,
    ensures
        be_bytes_u32(be_u32(b)) =~= b,
{
    let (b0, b1, b2, b3) = (b[0] as int, b[1] as int, b[2] as int, b[3] as int);
    let x = b0 * 16777216 + b1 * 65536 + b2 * 256 + b3;
    assert(x / 16777216 % 256 == b0 && x / 65536 % 256 == b1 && x / 256 % 256 == b2 && x % 256 == b3)
        by (nonlinear_arith)
        requires
            0 <= b0 < 256, 0 <= b1 < 256, 0 <= b2 < 256, 0 <= b3 < 256,
            x == b0 * 16777216 + b1 * 65536 + b2 * 256 + b3;
}

proof fn lemma_be_u32_of_be_bytes(x: nat)
    requires
        x < 0x1_0000_0000,
    ensures
        be_u32(be_bytes_u32(x)) == x,
{
    let xi = x as int;
    assert((xi / 16777216 % 256) * 16777216 + (xi / 65536 % 256) * 65536 + (xi / 256 % 256) * 256
        + xi % 256 == xi) by (nonlinear_arith)
        requires
            0 <= xi < 0x1_0000_0000;
}

proof fn lemma_encode_of_records_from(input: Seq<u8>, pos: int)
    requires
        0 <= pos <= input.len(),
        tlv_records_from(input, pos) is Ok,
    ensures
        tlv_encode(tlv_records_from(input, pos)->Ok_0) =~= input.skip(pos),
    decreases input.len() - pos,
{
    if pos < input.len() {
        let length = be_u32(input.subrange(pos + 4, pos + 8)) as int;
        let start = pos + 8;
        let rest = tlv_records_from(input, start + length)->Ok_0;
        lemma_encode_of_records_from(input, start + length);
        lemma_be_bytes_of_be_u32(input.subrange(pos + 4, pos + 8));
        let records = tlv_records_from(input, pos)->Ok_0;
        assert(records.drop_first() =~= rest);
        assert(input.skip(pos) =~= input.subrange(pos, pos + 4) + input.subrange(pos + 4, pos + 8)
            + input.subrange(start, start + length) + input.skip(start + length));
    }
}

/// Parsing loses nothing: whenever a keybag parses, writing its records back
/// in the type-length-value format gives the input again.
pub proof fn law_keybag_encode_inverts_parse(input: Seq<u8>)
    requires
        tlv_records(input) is Ok,
    ensures
        tlv_encode(tlv_records(input)->Ok_0) == input,
{
    lemma_encode_of_records_from(input, 0);
    assert(input.skip(0) =~= input);
}

/// Whether records can be written in the format: four-byte tags and values
/// whose lengths fit the four-byte length field.
pub open spec fn records_encodable(records: Seq<(Seq<u8>, Seq<u8>)>) -> bool {
    forall|i: int| 0 <= i < records.len() ==> (#[trigger] records[i]).0.len() == 4
        && records[i].1.len() < 0x1_0000_0000
}

proof fn lemma_records_from_encode(input: Seq<u8>, pos: int, records: Seq<(Seq<u8>, Seq<u8>)>)
    requires
        0 <= pos <= input.len(),
        input.len() <= usize::MAX,
        records_encodable(records),
        input.skip(pos) == tlv_encode(records),
    ensures
        tlv_records_from(input, pos) == Ok::<Seq<(Seq<u8>, Seq<u8>)>, TlvFault>(records),
    decreases records.len(),
{
    if records.len() == 0 {
        assert(input.skip(pos).len() == 0);
        assert(records =~= seq![]);
    } else {
        let r0 = records[0];
        let rest = records.drop_first();
        assert(r0.0.len() == 4 && r0.1.len() < 0x1_0000_0000);
        let enc = tlv_encode(records);
        assert(enc == r0.0 + be_bytes_u32(r0.1.len()) + r0.1 + tlv_encode(rest));
        assert(enc.len() == 8 + r0.1.len() + tlv_encode(rest).len());
        assert(input.len() - pos == enc.len());
        assert(input.subrange(pos + 4, pos + 8) =~= be_bytes_u32(r0.1.len())) by {
            assert forall|k: int| 0 <= k < 4 implies input.subrange(pos + 4, pos + 8)[k] == be_bytes_u32(r0.1.len())[k] by {
                assert(input.subrange(pos + 4, pos + 8)[k] == input.skip(pos)[4 + k]);
                assert(enc[4 + k] == be_bytes_u32(r0.1.len())[k]);
            }
        }
        lemma_be_u32_of_be_bytes(r0.1.len());
        let length = r0.1.len() as int;
        let start = pos + 8;
        assert(input.subrange(pos, pos + 4) =~= r0.0) by {
            assert forall|k: int| 0 <= k < 4 implies input.subrange(pos, pos + 4)[k] == r0.0[k] by {
                assert(input.subrange(pos, pos + 4)[k] == input.skip(pos)[k]);
                assert(enc[k] == r0.0[k]);
            }
        }
        assert(input.subrange(start, start + length) =~= r0.1) by {
            assert forall|k: int| 0 <= k < length implies input.subrange(start, start + length)[k] == r0.1[k] by {
                assert(input.subrange(start, start + length)[k] == input.skip(pos)[8 + k]);
                assert(enc[8 + k] == r0.1[k]);
            }
        }
        assert(input.skip(start + length) =~= tlv_encode(rest)) by {
            assert forall|k: int| 0 <= k < input.skip(start + length).len() implies
                input.skip(start + length)[k] == tlv_encode(rest)[k] by {
                assert(input.skip(start + length)[k] == input.skip(pos)[8 + length + k]);
                assert(enc[8 + length + k] == tlv_encode(rest)[k]);
            }
        }
        assert(records_encodable(rest)) by {
            assert forall|i: int| 0 <= i < rest.len() implies
                (#[trigger] rest[i]).0.len() == 4 && rest[i].1.len() < 0x1_0000_0000 by {
                assert(rest[i] == records[i + 1]);
            }
        }
        lemma_records_from_encode(input, start + length, rest);
        assert(seq![r0] + rest =~= records);
        let rec = (input.subrange(pos, pos + 4), input.subrange(start, start + length));
        assert(rec == r0);
        assert(be_u32(input.subrange(pos + 4, pos + 8)) as int == length);
        assert(start + length <= input.len());
        assert(tlv_records_from(input, pos) == Ok::<Seq<(Seq<u8>, Seq<u8>)>, TlvFault>(seq![rec] + rest));
    }
}

/// Writing records in the type-length-value format and parsing the bytes gives
/// the records back, whenever the tags have four bytes, each length fits the
/// length field and the whole fits in memory.
pub proof fn law_keybag_parse_inverts_encode(records: Seq<(Seq<u8>, Seq<u8>)>)
    requires
        records_encodable(records),
        tlv_encode(records).len() <= usize::MAX,
    ensures
        tlv_records(tlv_encode(records)) == Ok::<Seq<(Seq<u8>, Seq<u8>)>, TlvFault>(records),
{
    let input = tlv_encode(records);
    assert(input.skip(0) =~= input);
    lemma_records_from_encode(input, 0, records);
}

/// Parsing `b` from `p` on and parsing `a + b` from `a.len() + p` on agree:
/// the same records, or a fault in both.
proof fn lemma_records_shift(a: Seq<u8>, b: Seq<u8>, p: int)
    requires
        0 <= p,
        (a + b).len() <= usize::MAX,
    ensures
        match tlv_records_from(b, p) {
            Ok(r) => tlv_records_from(a + b, a.len() + p) == Ok::<Seq<(Seq<u8>, Seq<u8>)>, TlvFault>(r),
            Err(_) => tlv_records_from(a + b, a.len() + p) is Err,
        },
    decreases b.len() - p,
{
    let c = a + b;
    let q = a.len() + p;
    if p < b.len() && b.len() - p >= 8 {
        assert(c.subrange(q + 4, q + 8) =~= b.subrange(p + 4, p + 8));
        assert(c.subrange(q, q + 4) =~= b.subrange(p, p + 4));
        let length = be_u32(b.subrange(p + 4, p + 8)) as int;
        let start = p + 8;
        if start + length <= b.len() {
            assert(c.subrange(q + 8, q + 8 + length) =~= b.subrange(start, start + length));
            lemma_records_shift(a, b, start + length);
        }
    }
}

/// The records of `a` from `pos` on, followed by whatever `b` holds: parsing
/// `a + b` from `pos` goes through the records of `a` first.
proof fn lemma_records_prefix(a: Seq<u8>, b: Seq<u8>, pos: int)
    requires
        0 <= pos <= a.len(),
        (a + b).len() <= usize::MAX,
        tlv_records_from(a, pos) is Ok,
    ensures
        tlv_records_from(a + b, pos) == prepend_records(
            tlv_records_from(a, pos)->Ok_0,
            tlv_records_from(a + b, a.len() as int),
        ),
    decreases a.len() - pos,
{
    let c = a + b;
    if pos == a.len() {
        assert(seq![] + tlv_records_from(c, pos)->Ok_0 =~= tlv_records_from(c, pos)->Ok_0);
    } else {
        assert(c.subrange(pos + 4, pos + 8) =~= a.subrange(pos + 4, pos + 8));
        assert(c.subrange(pos, pos + 4) =~= a.subrange(pos, pos + 4));
        let length = be_u32(a.subrange(pos + 4, pos + 8)) as int;
        let start = pos + 8;
        assert(c.subrange(start, start + length) =~= a.subrange(start, start + length));
        lemma_records_prefix(a, b, start + length);
        let first = seq![(a.subrange(pos, pos + 4), a.subrange(start, start + length))];
        let ra = tlv_records_from(a, start + length)->Ok_0;
        if tlv_records_from(c, a.len() as int) is Ok {
            let rb = tlv_records_from(c, a.len() as int)->Ok_0;
            assert(first + (ra + rb) =~= (first + ra) + rb);
        }
    }
}

/// A well-formed keybag in front never changes how what follows it parses:
/// the records of `a + b` are those of `a` followed by those of `b`, and when
/// `b` does not parse, neither does `a + b`.
pub proof fn law_keybag_prefix_keeps_rest(a: Seq<u8>, b: Seq<u8>)
    requires
        tlv_records(a) is Ok,
        (a + b).len() <= usize::MAX,
    ensures
        match tlv_records(b) {
            Ok(rb) => tlv_records(a + b) == Ok::<Seq<(Seq<u8>, Seq<u8>)>, TlvFault>(tlv_records(a)->Ok_0 + rb),
            Err(_) => tlv_records(a + b) is Err,
        },
{
    lemma_records_prefix(a, b, 0);
    lemma_records_shift(a, b, 0);
}

/// Whether two texts are the same, compared by their UTF-8 bytes.
pub fn same_text(a: &str, b: &str) -> (same: bool)
    ensures
        same == (a@ == b@),
{
    let x = a.as_bytes();
    let y = b.as_bytes();
    proof {
        vstd::utf8::encode_utf8_decode_utf8(a@);
        vstd::utf8::encode_utf8_decode_utf8(b@);
    }
    if x.len() != y.len() {
        return false;
    }
    let mut i: usize = 0;
    while i < x.len()
        invariant
            x@ == a.spec_bytes(),
            y@ == b.spec_bytes(),
            x@.len() == y@.len(),
            i <= x@.len(),
            forall|k: int| 0 <= k < i ==> x@[k] == y@[k],
        decreases x@.len() - i,
    {
        if x[i] != y[i] {
            return false;
        }
        i = i + 1;
    }
    assert(x@ =~= y@);
    true
}

/// The value of the first entry whose tag is `tag`.
pub open spec fn tag_value(entries: Seq<(Seq<char>, Seq<u8>)>, tag: Seq<char>) -> Option<Seq<u8>>
    decreases entries.len(),
{
    if entries.len() == 0 {
        None
    } else if entries[0].0 == tag {
        Some(entries[0].1)
    } else {
        tag_value(entries.drop_first(), tag)
    }
}

/// The number a value holds when it is exactly four bytes, read big-endian.
pub open spec fn u32_value(value: Seq<u8>) -> Option<u32> {
    if value.len() == 4 {
        Some(be_u32(value) as u32)
    } else {
        None
    }
}

/// Finds the first entry with the given tag.
fn find_tag_index(entries: &[KeybagEntry], tag: &str) -> (found: Option<usize>)
    ensures
        match found {
            Some(i) => i < entries@.len() && tag_value(entries_view(entries@), tag@)
                == Some(entries@[i as int].value@),
            None => tag_value(entries_view(entries@), tag@) is None,
        },
{
    let ghost all = entries_view(entries@);
    let mut i: usize = 0;
    assert(all.skip(0) =~= all);
    while i < entries.len()
        invariant
            i <= entries@.len(),
            all == entries_view(entries@),
            tag_value(all, tag@) == tag_value(all.skip(i as int), tag@),
        decreases entries@.len() - i,
    {
        assert(all.skip(i as int)[0] == entries@[i as int]@);
        if same_text(entries[i].tag.as_str(), tag) {
            return Some(i);
        }
        assert(all.skip(i as int).drop_first() =~= all.skip(i + 1));
        i = i + 1;
    }
    assert(all.skip(i as int) =~= seq![]);
    None
}

/// The number a value holds when it is exactly four bytes, read big-endian.
pub fn parse_u32_value(value: &[u8]) -> (number: Option<u32>)
    ensures
        number == u32_value(value@),
{
    if value.len() == 4 {
        Some(read_be_u32(value, 0))
    } else {
        None
    }
}

/// The number in the first entry tagged `tag`, when that entry's value is
/// exactly four bytes.
pub fn keybag_tag_u32(entries: &[KeybagEntry], tag: &str) -> (number: Option<u32>)
    ensures
        number == match tag_value(entries_view(entries@), tag@) {
            Some(value) => u32_value(value),
            None => None,
        },
{
    match find_tag_index(entries, tag) {
        Some(i) => parse_u32_value(entries[i].value.as_slice()),
        None => None,
    }
}

/// The value of the first entry tagged `tag`; an error names the missing tag.
pub fn required_tag<'a>(entries: &'a [KeybagEntry], tag: &str) -> (value: Result<&'a [u8], ExportError>)
    ensures
        match tag_value(entries_view(entries@), tag@) {
            Some(v) => value matches Ok(bytes) && bytes@ == v,
            None => value matches Err(ExportError::KeybagTagMissing { tag: t }) && t@ == tag@,
        },
{
    match find_tag_index(entries, tag) {
        Some(i) => Ok(entries[i].value.as_slice()),
        None => Err(ExportError::KeybagTagMissing { tag: String::from_str(tag) }),
    }
}

/// The four-byte number of the first entry tagged `tag`; an error names the tag
/// when it is missing or its value is not four bytes.
pub fn required_u32(entries: &[KeybagEntry], tag: &str) -> (number: Result<u32, ExportError>)
    ensures
        match tag_value(entries_view(entries@), tag@) {
            Some(v) => match u32_value(v) {
                Some(n) => number == Ok::<u32, ExportError>(n),
                None => number matches Err(ExportError::KeybagTagNotU32 { tag: t }) && t@ == tag@,
            },
            None => number matches Err(ExportError::KeybagTagMissing { tag: t }) && t@ == tag@,
        },
{
    let value = required_tag(entries, tag)?;
    match parse_u32_value(value) {
        Some(n) => Ok(n),
        None => Err(ExportError::KeybagTagNotU32 { tag: String::from_str(tag) }),
    }
}

} // verus!
