//! Little-endian integer coding, the fixed record layout, and the decoder
//! for a single catalog record.
//!
//! A record is 44 bytes: five little-endian signed 32-bit integers (x, y, z,
//! index, reserved), a 20-byte whitespace-padded ASCII name, and a 4-byte
//! ASCII type tag.  Decoding negates the y coordinate — a coordinate-system
//! correction that is part of the format — trims both text fields, and
//! validates the tag against the grammar in [`crate::entity`].

use vstd::prelude::*;
use vstd::arithmetic::div_mod::{lemma_fundamental_div_mod, lemma_fundamental_div_mod_converse};
use crate::entity::{valid_tag, Entity, EntityView};
use crate::text::{is_ascii, trim, lemma_trim_properties};

verus! {

/// Width of one record in the stream, in bytes.
pub const RECORD_SIZE: usize = 44;

/// The unsigned 32-bit value held by four little-endian bytes.
pub open spec fn le_u32(s: Seq<u8>) -> int
    recommends
        s.len() == 4,
{
    s[0] + 256 * s[1] + 65536 * s[2] + 16777216 * s[3]
}

/// Reinterpret an unsigned 32-bit value as two's-complement signed.
pub open spec fn to_signed_32(u: int) -> int {
    if u < 0x8000_0000 {
        u
    } else {
        u - 0x1_0000_0000
    }
}

/// Reinterpret a signed 32-bit value as unsigned.
pub open spec fn to_unsigned_32(v: int) -> int {
    if v < 0 {
        v + 0x1_0000_0000
    } else {
        v
    }
}

/// The signed value of four little-endian bytes.
pub open spec fn le_i32(s: Seq<u8>) -> int
    recommends
        s.len() == 4,
{
    to_signed_32(le_u32(s))
}

/// The four little-endian bytes of an unsigned 32-bit value.
pub open spec fn le_bytes_of_u32(u: int) -> Seq<u8>
    recommends
        0 <= u < 0x1_0000_0000,
{
    seq![
        (u % 256) as u8,
        ((u / 256) % 256) as u8,
        ((u / 65536) % 256) as u8,
        ((u / 16777216) % 256) as u8,
    ]
}

/// The four little-endian bytes of a signed 32-bit value.
pub open spec fn le_bytes_of_i32(v: int) -> Seq<u8>
    recommends
        i32::MIN <= v <= i32::MAX,
{
    le_bytes_of_u32(to_unsigned_32(v))
}

/// Negation on signed 32-bit values; the minimum, whose negation is not
/// representable, is left unchanged.
pub open spec fn neg_i32(v: int) -> int {
    if v == i32::MIN {
        v
    } else {
        -v
    }
}

/// The digits of a four-byte little-endian value are recovered from the
/// value itself.
pub proof fn lemma_le_u32_digits(s: Seq<u8>)
    requires
        s.len() == 4,
    ensures
        0 <= le_u32(s) < 0x1_0000_0000,
        le_bytes_of_u32(le_u32(s)) == s,
{
    let u = le_u32(s);
    lemma_fundamental_div_mod_converse(u, 256, s[1] + 256 * s[2] + 65536 * s[3], s[0] as int);
    lemma_fundamental_div_mod_converse(u / 256, 256, s[2] + 256 * s[3], s[1] as int);
    lemma_fundamental_div_mod_converse(u, 65536, s[2] + 256 * s[3], s[0] + 256 * s[1]);
    lemma_fundamental_div_mod_converse(u / 65536, 256, s[3] as int, s[2] as int);
    lemma_fundamental_div_mod_converse(
        u,
        16777216,
        s[3] as int,
        s[0] + 256 * s[1] + 65536 * s[2],
    );
    lemma_fundamental_div_mod_converse(u / 16777216, 256, 0, s[3] as int);
    assert(le_bytes_of_u32(u) =~= s);
}

/// Rebuilding a value from its four little-endian bytes gives the value
/// back.
pub proof fn lemma_le_u32_of_bytes(u: int)
    requires
        0 <= u < 0x1_0000_0000,
    ensures
        le_bytes_of_u32(u).len() == 4,
        le_u32(le_bytes_of_u32(u)) == u,
{
    lemma_fundamental_div_mod(u, 256);
    lemma_fundamental_div_mod(u / 256, 256);
    lemma_fundamental_div_mod(u / 65536, 256);
    lemma_fundamental_div_mod_converse(
        u,
        65536,
        u / 65536,
        (u % 256) + 256 * ((u / 256) % 256),
    );
    lemma_fundamental_div_mod_converse(
        u,
        16777216,
        u / 16777216,
        (u % 256) + 256 * ((u / 256) % 256) + 65536 * ((u / 65536) % 256),
    );
}

/// Encoding a signed 32-bit value and decoding the bytes gives the value
/// back, and decoding then encoding reproduces any four bytes.
pub proof fn lemma_le_i32_round_trip(s: Seq<u8>)
    requires
        s.len() == 4,
    ensures
        i32::MIN <= le_i32(s) <= i32::MAX,
        le_bytes_of_i32(le_i32(s)) == s,
{
    lemma_le_u32_digits(s);
}

/// Reads the little-endian signed 32-bit integer at `off`.
pub fn read_i32_le(s: &[u8], off: usize) -> (r: i32)
    requires
        off + 4 <= s@.len(),
    ensures
        r as int == le_i32(s@.subrange(off as int, off as int + 4)),
{
    let b0 = s[off] as u32;
    let b1 = s[off + 1] as u32;
    let b2 = s[off + 2] as u32;
    let b3 = s[off + 3] as u32;
    let u: u32 = b0 + 256 * b1 + 65536 * b2 + 16777216 * b3;
    if u < 0x8000_0000 {
        u as i32
    } else {
        let w: u32 = 0xFFFF_FFFFu32 - u;
        -(w as i32) - 1
    }
}

/// The four little-endian bytes of a signed 32-bit value; reading them back
/// gives the value.
pub fn write_i32_le(v: i32) -> (r: Vec<u8>)
    ensures
        r@ == le_bytes_of_i32(v as int),
        r@.len() == 4,
        le_i32(r@) == v as int,
{
    proof {
        lemma_le_u32_of_bytes(to_unsigned_32(v as int));
    }
    let u: u32 = if v >= 0 {
        v as u32
    } else {
        ((v + 0x7FFF_FFFF) + 1) as u32 + 0x8000_0000
    };
    assert(u as int == to_unsigned_32(v as int));
    let mut r: Vec<u8> = Vec::new();
    r.push((u % 256) as u8);
    r.push(((u / 256) % 256) as u8);
    r.push(((u / 65536) % 256) as u8);
    r.push(((u / 16777216) % 256) as u8);
    proof {
        assert(r@ =~= le_bytes_of_u32(u as int));
    }
    r
}

/// Negation with the minimum value left unchanged, so that every stored
/// coordinate stays representable.
pub fn negate_i32(v: i32) -> (r: i32)
    ensures
        r as int == neg_i32(v as int),
{
    if v == i32::MIN {
        v
    } else {
        -v
    }
}

/// Raw x field of a record.
pub open spec fn rec_x(s: Seq<u8>) -> int {
    le_i32(s.subrange(0, 4))
}

/// Raw y field of a record, as stored: the negation of the decoded value.
pub open spec fn rec_y_stored(s: Seq<u8>) -> int {
    le_i32(s.subrange(4, 8))
}

/// Raw z field of a record.
pub open spec fn rec_z(s: Seq<u8>) -> int {
    le_i32(s.subrange(8, 12))
}

/// Index field of a record.
pub open spec fn rec_index(s: Seq<u8>) -> int {
    le_i32(s.subrange(12, 16))
}

/// Reserved field of a record: consumed but never interpreted.
pub open spec fn rec_reserved(s: Seq<u8>) -> int {
    le_i32(s.subrange(16, 20))
}

/// Raw, still padded name field of a record.
pub open spec fn rec_name_raw(s: Seq<u8>) -> Seq<u8> {
    s.subrange(20, 40)
}

/// Raw, still padded type-tag field of a record.
pub open spec fn rec_tag_raw(s: Seq<u8>) -> Seq<u8> {
    s.subrange(40, 44)
}

/// The name field holds only ASCII bytes.
pub open spec fn name_field_ok(s: Seq<u8>) -> bool {
    is_ascii(rec_name_raw(s))
}

/// The type-tag field holds only ASCII bytes.
pub open spec fn tag_field_ok(s: Seq<u8>) -> bool {
    is_ascii(rec_tag_raw(s))
}

/// The trimmed type tag obeys the grammar.
pub open spec fn tag_grammar_ok(s: Seq<u8>) -> bool {
    valid_tag(trim(rec_tag_raw(s)))
}

/// The record decodes to an entity.
pub open spec fn record_ok(s: Seq<u8>) -> bool {
    name_field_ok(s) && tag_field_ok(s) && tag_grammar_ok(s)
}

/// The entity a valid record decodes to: integer fields taken as they are,
/// except y, which is sign-corrected; text fields trimmed.
pub open spec fn record_entity(s: Seq<u8>) -> EntityView {
    EntityView {
        x: rec_x(s),
        y: neg_i32(rec_y_stored(s)),
        z: rec_z(s),
        index: rec_index(s),
        reserved: rec_reserved(s),
        name: trim(rec_name_raw(s)),
        tag: trim(rec_tag_raw(s)),
    }
}

/// Which field failed its ASCII check.
#[derive(Clone, Copy, Debug, PartialEq, Eq, Structural)]
pub enum FieldName {
    /// The 20-byte name field.
    Name,
    /// The 4-byte type-tag field.
    TypeStr,
}

/// Why a record failed to decode.  End of stream is not among these: a clean
/// end at a record boundary is the loader's normal termination, not an
/// error.
#[derive(Debug)]
pub enum DecodeError {
    /// The stream ended partway through a record.
    TruncatedRecord,
    /// A text field holds a non-ASCII byte.
    InvalidEncoding { field: FieldName },
    /// The trimmed tag fails the grammar; carries the offending tag.
    InvalidTypeTag(Vec<u8>),
}

/// Mathematical model of a decode error.
pub ghost enum DecodeErrorView {
    TruncatedRecord,
    InvalidEncoding { field: FieldName },
    InvalidTypeTag(Seq<u8>),
}

impl View for DecodeError {
    type V = DecodeErrorView;

    open spec fn view(&self) -> DecodeErrorView {
        match self {
            DecodeError::TruncatedRecord => DecodeErrorView::TruncatedRecord,
            DecodeError::InvalidEncoding { field } => DecodeErrorView::InvalidEncoding {
                field: *field,
            },
            DecodeError::InvalidTypeTag(t) => DecodeErrorView::InvalidTypeTag(t@),
        }
    }
}

/// The error a malformed record decodes to: the checks run in field order,
/// so a bad name is reported before a bad tag encoding, and that before a
/// tag that fails the grammar.
pub open spec fn record_error(s: Seq<u8>) -> DecodeErrorView
    recommends
        !record_ok(s),
{
    if !name_field_ok(s) {
        DecodeErrorView::InvalidEncoding { field: FieldName::Name }
    } else if !tag_field_ok(s) {
        DecodeErrorView::InvalidEncoding { field: FieldName::TypeStr }
    } else {
        DecodeErrorView::InvalidTypeTag(trim(rec_tag_raw(s)))
    }
}

/// Decodes one full record into an entity, or says exactly why it is
/// malformed.
pub fn decode_record(rec: &[u8]) -> (r: Result<Entity, DecodeError>)
    requires
        rec@.len() == RECORD_SIZE,
    ensures
        r is Ok <==> record_ok(rec@),
        r matches Ok(e) ==> e@ == record_entity(rec@) && e@.wf(),
        r matches Err(d) ==> d@ == record_error(rec@),
{
    let x = read_i32_le(rec, 0);
    let y_stored = read_i32_le(rec, 4);
    let z = read_i32_le(rec, 8);
    let index = read_i32_le(rec, 12);
    let reserved = read_i32_le(rec, 16);
    let name_raw = vstd::slice::slice_subrange(rec, 20, 40);
    let tag_raw = vstd::slice::slice_subrange(rec, 40, 44);
    if !crate::text::all_ascii(name_raw) {
        return Err(DecodeError::InvalidEncoding { field: FieldName::Name });
    }
    if !crate::text::all_ascii(tag_raw) {
        return Err(DecodeError::InvalidEncoding { field: FieldName::TypeStr });
    }
    let name = crate::text::trim_ascii(name_raw);
    let tag = crate::text::trim_ascii(tag_raw);
    if !crate::entity::check_tag(tag.as_slice()) {
        return Err(DecodeError::InvalidTypeTag(tag));
    }
    proof {
        lemma_trim_properties(rec@.subrange(20, 40));
        lemma_trim_properties(rec@.subrange(40, 44));
    }
    Ok(
        Entity {
            x,
            y: negate_i32(y_stored),
            z,
            index,
            reserved,
            name,
            type_tag: tag,
        },
    )
}

/// A record that decodes yields a well-formed entity.
pub proof fn lemma_record_entity_wf(s: Seq<u8>)
    requires
        s.len() == RECORD_SIZE,
        record_ok(s),
    ensures
        record_entity(s).wf(),
{
    lemma_le_i32_round_trip(s.subrange(0, 4));
    lemma_le_i32_round_trip(s.subrange(4, 8));
    lemma_le_i32_round_trip(s.subrange(8, 12));
    lemma_le_i32_round_trip(s.subrange(12, 16));
    lemma_le_i32_round_trip(s.subrange(16, 20));
    lemma_trim_properties(rec_name_raw(s));
    lemma_trim_properties(rec_tag_raw(s));
}

/// The bytes of one record with the given integer fields and the given raw,
/// still padded name and tag fields.
pub open spec fn encode_record_spec(
    x: int,
    y: int,
    z: int,
    index: int,
    reserved: int,
    name: Seq<u8>,
    tag: Seq<u8>,
) -> Seq<u8> {
    le_bytes_of_i32(x) + le_bytes_of_i32(y) + le_bytes_of_i32(z) + le_bytes_of_i32(index)
        + le_bytes_of_i32(reserved) + name + tag
}

/// Builds the bytes of one record.
pub fn encode_record(
    x: i32,
    y: i32,
    z: i32,
    index: i32,
    reserved: i32,
    name: &[u8],
    tag: &[u8],
) -> (r: Vec<u8>)
    requires
        name@.len() == 20,
        tag@.len() == 4,
    ensures
        r@ == encode_record_spec(
            x as int,
            y as int,
            z as int,
            index as int,
            reserved as int,
            name@,
            tag@,
        ),
        r@.len() == RECORD_SIZE,
{
    let mut r = write_i32_le(x);
    let mut part = write_i32_le(y);
    r.append(&mut part);
    let mut part = write_i32_le(z);
    r.append(&mut part);
    let mut part = write_i32_le(index);
    r.append(&mut part);
    let mut part = write_i32_le(reserved);
    r.append(&mut part);
    let mut name_copy = vstd::slice::slice_to_vec(name);
    r.append(&mut name_copy);
    let mut tag_copy = vstd::slice::slice_to_vec(tag);
    r.append(&mut tag_copy);
    proof {
        assert(r@ =~= encode_record_spec(
            x as int,
            y as int,
            z as int,
            index as int,
            reserved as int,
            name@,
            tag@,
        ));
    }
    r
}

/// Round trip: re-encoding the decoded integer fields of a record — y
/// negated back — together with its raw padded name and tag fields
/// reproduces the record's bytes exactly.
pub proof fn lemma_record_round_trip(s: Seq<u8>)
    requires
        s.len() == RECORD_SIZE,
    ensures
        encode_record_spec(
            record_entity(s).x,
            neg_i32(record_entity(s).y),
            record_entity(s).z,
            record_entity(s).index,
            record_entity(s).reserved,
            rec_name_raw(s),
            rec_tag_raw(s),
        ) == s,
{
    lemma_le_i32_round_trip(s.subrange(0, 4));
    lemma_le_i32_round_trip(s.subrange(4, 8));
    lemma_le_i32_round_trip(s.subrange(8, 12));
    lemma_le_i32_round_trip(s.subrange(12, 16));
    lemma_le_i32_round_trip(s.subrange(16, 20));
    assert(neg_i32(neg_i32(rec_y_stored(s))) == rec_y_stored(s));
    assert(encode_record_spec(
        rec_x(s),
        rec_y_stored(s),
        rec_z(s),
        rec_index(s),
        rec_reserved(s),
        rec_name_raw(s),
        rec_tag_raw(s),
    ) =~= s);
}

} // verus!

