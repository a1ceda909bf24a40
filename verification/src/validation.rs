//! Input validation for the Stackure SDK.

use vstd::prelude::*;
use vstd::string::StringSliceAdditionalSpecFns;

use crate::errors::{validation, ErrorKind, StackureError};
use crate::text::{
    chars_of, find_char, first_index, has_char, is_ws, no_whitespace, sub_chars, occurs,
};

verus! {

/// A part of an address that is empty, or holds whitespace or `@`.
pub open spec fn bad_part(s: Seq<char>) -> bool {
    s.len() == 0 || occurs(s, '@') || exists|i: int| 0 <= i < s.len() && is_ws(#[trigger] s[i])
}

/// The text before the first `@` of an address.
pub open spec fn local_part(e: Seq<char>) -> Seq<char> {
    e.take(first_index(e, '@'))
}

/// The text after the first `@` of an address.
pub open spec fn domain_part(e: Seq<char>) -> Seq<char> {
    e.skip(first_index(e, '@') + 1)
}

/// Whether the first `.` of `d` has text on both sides of it.
pub open spec fn dotted(d: Seq<char>) -> bool {
    0 < first_index(d, '.') && first_index(d, '.') + 1 < d.len()
}

/// A well-formed address: `local@domain`, neither part empty or holding
/// whitespace or a further `@`, and the domain's first dot neither leading
/// nor trailing.
pub open spec fn email_ok(e: Seq<char>) -> bool {
    &&& first_index(e, '@') < e.len()
    &&& !bad_part(local_part(e))
    &&& !bad_part(domain_part(e))
    &&& dotted(domain_part(e))
}

/// The message `validate_email` rejects `e` with.
pub open spec fn email_error(e: Seq<char>) -> Seq<char> {
    if e.len() == 0 {
        "email is required"@
    } else {
        "invalid email format"@
    }
}

fn part_ok(v: &Vec<char>) -> (b: bool)
    ensures
        b == !bad_part(v@),
{
    v.len() != 0 && !has_char(v, '@') && no_whitespace(v)
}

/// Validate that `email` is a well-formed address.
///
/// Returns [`StackureError::Validation`] if empty or malformed.
pub fn validate_email(email: &str) -> (r: Result<(), StackureError>)
    ensures
        r is Ok <==> email_ok(email@),
        r matches Err(e) ==> e@ == (ErrorKind::Validation, email_error(email@)),
{
    let cs = chars_of(email);
    if cs.len() == 0 {
        return Err(validation("email is required"));
    }
    let at = find_char(&cs, '@', 0);
    assert(cs@.subrange(0, cs.len() as int) =~= cs@);
    if at == cs.len() {
        return Err(validation("invalid email format"));
    }
    let local = sub_chars(&cs, 0, at);
    let domain = sub_chars(&cs, at + 1, cs.len());
    assert(local@ =~= local_part(email@));
    assert(domain@ =~= domain_part(email@));
    let dot = find_char(&domain, '.', 0);
    assert(domain@.subrange(0, domain.len() as int) =~= domain@);
    let is_dotted = 0 < dot && dot + 1 < domain.len();
    if !part_ok(&local) || !part_ok(&domain) || !is_dotted {
        return Err(validation("invalid email format"));
    }
    Ok(())
}

/// Whether `b` is an ASCII hexadecimal digit.
pub open spec fn is_hex(b: u8) -> bool {
    (0x30 <= b <= 0x39) || (0x61 <= b <= 0x66) || (0x41 <= b <= 0x46)
}

/// The positions of the dashes in a UUID.
pub open spec fn dash_at(i: int) -> bool {
    i == 8 || i == 13 || i == 18 || i == 23
}

/// A byte whose lowercase form (bit `0x20` set) is `8`, `9`, `a` or `b`.
pub open spec fn variant_byte(x: u8) -> bool {
    x == 0x38 || x == 0x39 || x == 0x61 || x == 0x62 || x == 0x18 || x == 0x19 || x == 0x41 || x
        == 0x42
}

/// The bytes of a UUID v4: 36 bytes, dashes at 8, 13, 18 and 23, `4` at 14,
/// a variant digit at 19, and hex digits everywhere else.
pub open spec fn uuid_shaped(b: Seq<u8>) -> bool {
    &&& b.len() == 36
    &&& b[8] == 0x2d && b[13] == 0x2d && b[18] == 0x2d && b[23] == 0x2d
    &&& b[14] == 0x34
    &&& variant_byte(b[19])
    &&& forall|i: int| 0 <= i < 36 && !dash_at(i) ==> is_hex(#[trigger] b[i])
}

fn is_hex_byte(b: u8) -> (r: bool)
    ensures
        r == is_hex(b),
{
    (0x30 <= b && b <= 0x39) || (0x61 <= b && b <= 0x66) || (0x41 <= b && b <= 0x46)
}

/// Whether `value` has the shape of a UUID v4.
pub fn is_uuid(value: &str) -> (r: bool)
    ensures
        r == uuid_shaped(value.spec_bytes()),
{
    let b = value.as_bytes();
    if b.len() != 36 {
        return false;
    }
    let v = b[19];
    let low = v | 0x20u8;
    assert(variant_byte(v) <==> (low == 0x38 || low == 0x39 || low == 0x61 || low == 0x62))
        by (bit_vector)
        requires
            low == v | 0x20u8,
    ;
    if !(b[8] == 0x2d && b[13] == 0x2d && b[18] == 0x2d && b[23] == 0x2d && b[14] == 0x34 && (
    low == 0x38 || low == 0x39 || low == 0x61 || low == 0x62)) {
        return false;
    }
    let mut i: usize = 0;
    while i < 36
        invariant
            0 <= i <= 36,
            b@.len() == 36,
            b@ == value.spec_bytes(),
            b@[8] == 0x2d && b@[13] == 0x2d && b@[18] == 0x2d && b@[23] == 0x2d,
            b@[14] == 0x34,
            variant_byte(b@[19]),
            forall|j: int| 0 <= j < i && !dash_at(j) ==> is_hex(#[trigger] b@[j]),
        decreases 36 - i,
    {
        if !(i == 8 || i == 13 || i == 18 || i == 23) && !is_hex_byte(b[i]) {
            assert(!dash_at(i as int) && !is_hex(value.spec_bytes()[i as int]));
            return false;
        }
        i = i + 1;
    }
    true
}

/// The message `validate_uuid` rejects an empty value with.
pub open spec fn uuid_required(field: Seq<char>) -> Seq<char> {
    field + " is required"@
}

/// The message `validate_uuid` rejects a malformed value with.
pub open spec fn uuid_malformed(field: Seq<char>) -> Seq<char> {
    "invalid "@ + field + " format (must be a valid UUID)"@
}

/// Validate that `value` is a UUID v4.
///
/// Returns [`StackureError::Validation`] if empty or not a valid UUID v4.
pub fn validate_uuid(value: &str, field_name: &str) -> (r: Result<(), StackureError>)
    ensures
        r is Ok <==> uuid_shaped(value.spec_bytes()),
        r matches Err(e) ==> e@ == (ErrorKind::Validation, if value@.len() == 0 {
            uuid_required(field_name@)
        } else {
            uuid_malformed(field_name@)
        }),
{
    if value.is_empty() {
        let mut m = String::from_str(field_name);
        m.append(" is required");
        assert(value.spec_bytes().len() == 0) by {
            assert(value@ =~= Seq::<char>::empty());
        }
        return Err(StackureError::Validation(m));
    }
    if !is_uuid(value) {
        let mut m = String::from_str("invalid ");
        m.append(field_name);
        m.append(" format (must be a valid UUID)");
        return Err(StackureError::Validation(m));
    }
    Ok(())
}

} // verus!
