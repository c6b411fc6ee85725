//! Typed access to the fields of a parsed record: the last value of a number
//! wins, and repeated values keep their order.

use vstd::prelude::*;
use vstd::utf8::decode_utf8;
use vstd::utf8::encode_utf8;
use vstd::utf8::valid_utf8;
use crate::bytes::copy_range;
use crate::error::Error;
use crate::wire::fields_within;
use crate::wire::Field;
use crate::wire::WireValue;

verus! {

/// The code that a key carries for the kind of its value.
pub open spec fn kind_of(v: WireValue) -> int {
    match v {
        WireValue::Varint(_) => 0,
        WireValue::Fixed64(_) => 1,
        WireValue::Bytes { .. } => 2,
        WireValue::Fixed32(_) => 5,
    }
}

/// Whether `f` has the given number and kind.
pub open spec fn is_field(f: Field, number: u32, kind: int) -> bool {
    f.number == number && kind_of(f.value) == kind
}

/// The value of the last field with the given number and kind.
pub open spec fn last_value(fields: Seq<Field>, number: u32, kind: int) -> Option<WireValue>
    decreases fields.len(),
{
    if fields.len() == 0 {
        None
    } else if is_field(fields.last(), number, kind) {
        Some(fields.last().value)
    } else {
        last_value(fields.drop_last(), number, kind)
    }
}

/// The bytes of a length-delimited value.
pub open spec fn chunk(b: Seq<u8>, v: WireValue) -> Seq<u8> {
    match v {
        WireValue::Bytes { start, end } => b.subrange(start as int, end as int),
        _ => Seq::empty(),
    }
}

/// The last unsigned integer of a number.
pub open spec fn uint64_field(fields: Seq<Field>, number: u32) -> Option<u64> {
    match last_value(fields, number, 0) {
        Some(WireValue::Varint(v)) => Some(v),
        _ => None,
    }
}

/// The last truth value of a number: any integer but zero is true.
pub open spec fn bool_field(fields: Seq<Field>, number: u32) -> Option<bool> {
    match uint64_field(fields, number) {
        Some(v) => Some(v != 0),
        None => None,
    }
}

/// The signed reading of an unsigned 64-bit integer in two's complement.
pub open spec fn signed(v: u64) -> int {
    if v <= i64::MAX {
        v as int
    } else {
        v - 0x1_0000_0000_0000_0000
    }
}

/// The last signed 64-bit integer of a number.
pub open spec fn int64_field(fields: Seq<Field>, number: u32) -> Option<i64> {
    match uint64_field(fields, number) {
        Some(v) => Some(signed(v) as i64),
        None => None,
    }
}

/// The last unsigned 32-bit integer of a number; one that does not fit is an
/// error.
pub open spec fn uint32_field(fields: Seq<Field>, number: u32) -> Result<Option<u32>, Error> {
    match uint64_field(fields, number) {
        Some(v) => if v <= u32::MAX {
            Ok(Some(v as u32))
        } else {
            Err(Error::MalformedFrame)
        },
        None => Ok(None),
    }
}

/// The last signed 32-bit integer of a number; one that does not fit is an
/// error.
pub open spec fn int32_field(fields: Seq<Field>, number: u32) -> Result<Option<i32>, Error> {
    match uint64_field(fields, number) {
        Some(v) => if i32::MIN <= signed(v) <= i32::MAX {
            Ok(Some(signed(v) as i32))
        } else {
            Err(Error::MalformedFrame)
        },
        None => Ok(None),
    }
}

/// The bits of the last 64-bit floating-point number of a number.
pub open spec fn fixed64_field(fields: Seq<Field>, number: u32) -> Option<u64> {
    match last_value(fields, number, 1) {
        Some(WireValue::Fixed64(v)) => Some(v),
        _ => None,
    }
}

/// The bits of the last 32-bit floating-point number of a number.
pub open spec fn fixed32_field(fields: Seq<Field>, number: u32) -> Option<u32> {
    match last_value(fields, number, 5) {
        Some(WireValue::Fixed32(v)) => Some(v),
        _ => None,
    }
}

/// The last byte string of a number.
pub open spec fn bytes_field(b: Seq<u8>, fields: Seq<Field>, number: u32) -> Option<Seq<u8>> {
    match last_value(fields, number, 2) {
        Some(v) => Some(chunk(b, v)),
        None => None,
    }
}

/// The text that bytes spell in UTF-8; bytes that spell none are an error.
pub open spec fn text(bytes: Seq<u8>) -> Result<Seq<char>, Error> {
    if valid_utf8(bytes) {
        Ok(decode_utf8(bytes))
    } else {
        Err(Error::MalformedFrame)
    }
}

/// The last text of a number.
pub open spec fn text_field(b: Seq<u8>, fields: Seq<Field>, number: u32) -> Result<
    Option<Seq<char>>,
    Error,
> {
    match bytes_field(b, fields, number) {
        Some(bytes) => match text(bytes) {
            Ok(t) => Ok(Some(t)),
            Err(e) => Err(e),
        },
        None => Ok(None),
    }
}

/// All byte strings of a number, in the order of the record.
pub open spec fn repeated_bytes(b: Seq<u8>, fields: Seq<Field>, number: u32) -> Seq<Seq<u8>>
    decreases fields.len(),
{
    if fields.len() == 0 {
        Seq::empty()
    } else {
        let init = repeated_bytes(b, fields.drop_last(), number);
        if is_field(fields.last(), number, 2) {
            init.push(chunk(b, fields.last().value))
        } else {
            init
        }
    }
}

/// The bytes of the embedded record of a number: a later occurrence takes
/// the place of an earlier one. `None` where the number does not occur.
pub open spec fn message_field(b: Seq<u8>, fields: Seq<Field>, number: u32) -> Option<Seq<u8>> {
    bytes_field(b, fields, number)
}

/// The byte strings that the rows of `v` hold.
pub open spec fn rows(v: Seq<Vec<u8>>) -> Seq<Seq<u8>> {
    Seq::new(v.len(), |i: int| v[i]@)
}

/// The texts that the rows of `v` hold.
pub open spec fn lines(v: Seq<String>) -> Seq<Seq<char>> {
    Seq::new(v.len(), |i: int| v[i]@)
}

/// The bytes that an optional byte string holds.
pub open spec fn opt_bytes(o: Option<Vec<u8>>) -> Option<Seq<u8>> {
    match o {
        Some(v) => Some(v@),
        None => None,
    }
}

/// The text that an optional string holds.
pub open spec fn opt_text(o: Option<String>) -> Option<Seq<char>> {
    match o {
        Some(s) => Some(s@),
        None => None,
    }
}

/// Calls `String::from_utf8`. Trusted, as std documents it: the call
/// succeeds exactly on well-formed UTF-8, and the string then holds the bytes
/// it was given.
#[verifier::external_body]
pub(crate) fn string_from_utf8(bytes: Vec<u8>) -> (r: Option<String>)
    ensures
        r is Some <==> valid_utf8(bytes@),
        r is Some ==> encode_utf8(r->Some_0@) == bytes@,
{
    String::from_utf8(bytes).ok()
}

/// The text that `bytes` spell.
pub fn read_text(bytes: Vec<u8>) -> (r: Result<String, Error>)
    ensures
        r is Ok <==> text(bytes@) is Ok,
        r is Ok ==> Ok::<Seq<char>, Error>(r->Ok_0@) == text(bytes@),
        r is Err ==> r->Err_0 == Error::MalformedFrame,
{
    match string_from_utf8(bytes) {
        Some(s) => {
            proof {
                vstd::utf8::encode_utf8_decode_utf8(s@);
            }
            Ok(s)
        },
        None => Err(Error::MalformedFrame),
    }
}

/// The code of the kind of `v`.
pub fn kind_code(v: &WireValue) -> (r: u8)
    ensures
        r as int == kind_of(*v),
{
    match v {
        WireValue::Varint(_) => 0,
        WireValue::Fixed64(_) => 1,
        WireValue::Bytes { .. } => 2,
        WireValue::Fixed32(_) => 5,
    }
}

/// Finds the value of the last field with the given number and kind.
pub fn find_last(fields: &Vec<Field>, number: u32, kind: u8) -> (r: Option<WireValue>)
    ensures
        r == last_value(fields@, number, kind as int),
        r is Some ==> kind_of(r->Some_0) == kind,
        r is Some ==> exists|i: int| 0 <= i < fields@.len() && (#[trigger] fields@[i]).value == r->Some_0,
{
    let mut i: usize = fields.len();
    assert(fields@.take(i as int) =~= fields@);
    while i > 0
        invariant
            i <= fields@.len(),
            last_value(fields@, number, kind as int) == last_value(
                fields@.take(i as int),
                number,
                kind as int,
            ),
        decreases i,
    {
        i = i - 1;
        let f: Field = fields[i];
        let ghost prefix = fields@.take(i + 1);
        assert(prefix.drop_last() =~= fields@.take(i as int));
        if f.number == number && kind_code(&f.value) == kind {
            return Some(f.value);
        }
    }
    None
}

/// The signed reading of `v`.
pub fn to_signed(v: u64) -> (r: i64)
    ensures
        r as int == signed(v),
{
    if v <= 0x7fff_ffff_ffff_ffff {
        v as i64
    } else {
        let low: u64 = v - 0x8000_0000_0000_0000;
        (low as i64) + i64::MIN
    }
}

/// Reads the last unsigned integer of a number.
pub fn get_uint64(fields: &Vec<Field>, number: u32) -> (r: Option<u64>)
    ensures
        r == uint64_field(fields@, number),
{
    match find_last(fields, number, 0) {
        Some(WireValue::Varint(v)) => Some(v),
        _ => None,
    }
}

/// Reads the last truth value of a number.
pub fn get_bool(fields: &Vec<Field>, number: u32) -> (r: Option<bool>)
    ensures
        r == bool_field(fields@, number),
{
    match get_uint64(fields, number) {
        Some(v) => Some(v != 0),
        None => None,
    }
}

/// Reads the last signed 64-bit integer of a number.
pub fn get_int64(fields: &Vec<Field>, number: u32) -> (r: Option<i64>)
    ensures
        r == int64_field(fields@, number),
{
    match get_uint64(fields, number) {
        Some(v) => Some(to_signed(v)),
        None => None,
    }
}

/// Reads the last unsigned 32-bit integer of a number.
pub fn get_uint32(fields: &Vec<Field>, number: u32) -> (r: Result<Option<u32>, Error>)
    ensures
        r == uint32_field(fields@, number),
{
    match get_uint64(fields, number) {
        Some(v) => if v <= 0xffff_ffff {
            Ok(Some(v as u32))
        } else {
            Err(Error::MalformedFrame)
        },
        None => Ok(None),
    }
}

/// Reads the last signed 32-bit integer of a number.
pub fn get_int32(fields: &Vec<Field>, number: u32) -> (r: Result<Option<i32>, Error>)
    ensures
        r == int32_field(fields@, number),
{
    match get_uint64(fields, number) {
        Some(v) => {
            let s: i64 = to_signed(v);
            if -0x8000_0000 <= s && s <= 0x7fff_ffff {
                Ok(Some(s as i32))
            } else {
                Err(Error::MalformedFrame)
            }
        },
        None => Ok(None),
    }
}

/// Reads the bits of the last 64-bit floating-point number of a number.
pub fn get_fixed64(fields: &Vec<Field>, number: u32) -> (r: Option<u64>)
    ensures
        r == fixed64_field(fields@, number),
{
    match find_last(fields, number, 1) {
        Some(WireValue::Fixed64(v)) => Some(v),
        _ => None,
    }
}

/// Reads the bits of the last 32-bit floating-point number of a number.
pub fn get_fixed32(fields: &Vec<Field>, number: u32) -> (r: Option<u32>)
    ensures
        r == fixed32_field(fields@, number),
{
    match find_last(fields, number, 5) {
        Some(WireValue::Fixed32(v)) => Some(v),
        _ => None,
    }
}

/// Copies the bytes of a length-delimited value out of the record.
pub fn copy_chunk(b: &[u8], v: &WireValue) -> (r: Vec<u8>)
    requires
        match *v {
            WireValue::Bytes { start, end } => start <= end <= b@.len(),
            _ => true,
        },
    ensures
        r@ == chunk(b@, *v),
{
    match v {
        WireValue::Bytes { start, end } => copy_range(b, *start, *end),
        _ => Vec::new(),
    }
}

/// Reads the last byte string of a number.
pub fn get_bytes(b: &[u8], fields: &Vec<Field>, number: u32) -> (r: Option<Vec<u8>>)
    requires
        fields_within(fields@, b@.len() as int),
    ensures
        opt_bytes(r) == bytes_field(b@, fields@, number),
{
    match find_last(fields, number, 2) {
        Some(v) => Some(copy_chunk(b, &v)),
        None => None,
    }
}

/// Reads the last text of a number.
pub fn get_text(b: &[u8], fields: &Vec<Field>, number: u32) -> (r: Result<Option<String>, Error>)
    requires
        fields_within(fields@, b@.len() as int),
    ensures
        r is Ok <==> text_field(b@, fields@, number) is Ok,
        r is Ok ==> Ok::<Option<Seq<char>>, Error>(opt_text(r->Ok_0)) == text_field(
            b@,
            fields@,
            number,
        ),
        r is Err ==> r->Err_0 == Error::MalformedFrame,
{
    match get_bytes(b, fields, number) {
        Some(bytes) => match read_text(bytes) {
            Ok(s) => Ok(Some(s)),
            Err(e) => Err(e),
        },
        None => Ok(None),
    }
}

/// Reads all byte strings of a number, in the order of the record.
pub fn get_repeated_bytes(b: &[u8], fields: &Vec<Field>, number: u32) -> (r: Vec<Vec<u8>>)
    requires
        fields_within(fields@, b@.len() as int),
    ensures
        rows(r@) == repeated_bytes(b@, fields@, number),
{
    let mut out: Vec<Vec<u8>> = Vec::new();
    let mut i: usize = 0;
    while i < fields.len()
        invariant
            i <= fields@.len(),
            fields_within(fields@, b@.len() as int),
            rows(out@) == repeated_bytes(b@, fields@.take(i as int), number),
        decreases fields@.len() - i,
    {
        let f: Field = fields[i];
        let ghost prefix = fields@.take(i + 1);
        assert(prefix.drop_last() =~= fields@.take(i as int));
        if f.number == number && kind_code(&f.value) == 2 {
            let piece: Vec<u8> = copy_chunk(b, &f.value);
            out.push(piece);
        }
        i = i + 1;
    }
    assert(fields@.take(i as int) =~= fields@);
    out
}

/// Reads the embedded record of a number: its last occurrence.
pub fn get_message(b: &[u8], fields: &Vec<Field>, number: u32) -> (r: Option<Vec<u8>>)
    requires
        fields_within(fields@, b@.len() as int),
    ensures
        opt_bytes(r) == message_field(b@, fields@, number),
{
    get_bytes(b, fields, number)
}

} // verus!
