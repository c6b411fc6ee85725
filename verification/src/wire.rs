//! The field-tagged wire format of the records: variable-length integers,
//! keys, and the four kinds of value that a field can carry.

use vstd::prelude::*;

verus! {

/// What a field carries. The bytes of a length-delimited field stay in the
/// buffer that was parsed: the value holds where they start and end.
#[derive(Clone, Copy, Debug, PartialEq, Eq, Structural)]
pub enum WireValue {
    Varint(u64),
    Fixed64(u64),
    Bytes { start: usize, end: usize },
    Fixed32(u32),
}

/// One field of a record: its number and its value.
#[derive(Clone, Copy, Debug, PartialEq, Eq, Structural)]
pub struct Field {
    pub number: u32,
    pub value: WireValue,
}

/// A strict upper bound of the value that a variable-length integer can
/// still contribute when `k` of its bytes have been read.
pub open spec fn varint_cap(k: int) -> int
    decreases 10 - k,
{
    if k >= 9 {
        2
    } else {
        128 * varint_cap(k + 1)
    }
}

/// The rest of a variable-length integer whose byte number `k` stands at
/// `pos`: its value, least significant group first, and how many bytes it
/// takes. Each byte gives seven bits and says in its top bit whether another
/// follows; the tenth byte may only be zero or one. `None` where the bytes
/// end too early or the tenth byte is out of range.
pub open spec fn varint_at(b: Seq<u8>, pos: int, k: int) -> Option<(int, int)>
    decreases 10 - k,
{
    if k < 0 || k > 9 || pos < 0 || pos >= b.len() {
        None
    } else if k == 9 {
        if b[pos] <= 1 {
            Some((b[pos] as int, 1))
        } else {
            None
        }
    } else if b[pos] < 0x80 {
        Some((b[pos] as int, 1))
    } else {
        match varint_at(b, pos + 1, k + 1) {
            Some((rest, n)) => Some((b[pos] - 0x80 + 128 * rest, n + 1)),
            None => None,
        }
    }
}

/// The variable-length integer at `pos`.
pub open spec fn varint(b: Seq<u8>, pos: int) -> Option<(int, int)> {
    varint_at(b, pos, 0)
}

/// The number that `n` bytes from `pos` spell, least significant byte first.
pub open spec fn le_int(b: Seq<u8>, pos: int, n: nat) -> int
    decreases n,
{
    if n == 0 {
        0
    } else {
        b[pos] as int + 256 * le_int(b, pos + 1, (n - 1) as nat)
    }
}

/// The field at `pos` and the position behind it. A key is a variable-length
/// integer that fits in 32 bits: its low three bits give the kind of value,
/// the rest the field's number, which is not zero. `None` where the key is
/// broken, the kind is none of the four, or the value runs past the end.
pub open spec fn field_at(b: Seq<u8>, pos: int) -> Option<(Field, int)> {
    match varint(b, pos) {
        None => None,
        Some((key, n)) => {
            let p = pos + n;
            let number = (key / 8) as u32;
            if key > u32::MAX || key / 8 == 0 {
                None
            } else if key % 8 == 0 {
                match varint(b, p) {
                    Some((v, m)) => Some((Field { number, value: WireValue::Varint(v as u64) }, p + m)),
                    None => None,
                }
            } else if key % 8 == 1 {
                if p + 8 <= b.len() {
                    Some((Field { number, value: WireValue::Fixed64(le_int(b, p, 8) as u64) }, p + 8))
                } else {
                    None
                }
            } else if key % 8 == 2 {
                match varint(b, p) {
                    Some((len, m)) => if p + m + len <= b.len() {
                        Some(
                            (
                                Field {
                                    number,
                                    value: WireValue::Bytes {
                                        start: (p + m) as usize,
                                        end: (p + m + len) as usize,
                                    },
                                },
                                p + m + len,
                            ),
                        )
                    } else {
                        None
                    },
                    None => None,
                }
            } else if key % 8 == 5 {
                if p + 4 <= b.len() {
                    Some((Field { number, value: WireValue::Fixed32(le_int(b, p, 4) as u32) }, p + 4))
                } else {
                    None
                }
            } else {
                None
            }
        },
    }
}

/// The fields from `pos` to the end of the buffer, in order; `None` where
/// one of them is broken.
pub open spec fn fields_from(b: Seq<u8>, pos: int) -> Option<Seq<Field>>
    decreases b.len() - pos,
{
    if pos >= b.len() {
        Some(Seq::empty())
    } else {
        let first = field_at(b, pos);
        if first is None || first->Some_0.1 <= pos || first->Some_0.1 > b.len() {
            None
        } else {
            match fields_from(b, first->Some_0.1) {
                None => None,
                Some(rest) => Some(seq![first->Some_0.0] + rest),
            }
        }
    }
}

/// The fields of the record that `b` holds.
pub open spec fn fields_of(b: Seq<u8>) -> Option<Seq<Field>> {
    fields_from(b, 0)
}

/// Whether the ranges of all length-delimited fields lie within `len` bytes.
pub open spec fn fields_within(fields: Seq<Field>, len: int) -> bool {
    forall|i: int|
        0 <= i < fields.len() ==> match (#[trigger] fields[i]).value {
            WireValue::Bytes { start, end } => start <= end <= len,
            _ => true,
        }
}

/// The bound is two at the tenth byte and two to the power of 64 at the
/// first.
pub proof fn lemma_varint_cap(k: int)
    requires
        0 <= k <= 9,
    ensures
        2 <= varint_cap(k) <= 0x1_0000_0000_0000_0000,
        k < 9 ==> varint_cap(k) == 128 * varint_cap(k + 1),
    decreases k,
{
    reveal_with_fuel(varint_cap, 11);
}

/// A variable-length integer stays below its bound, takes between one and
/// ten bytes, and ends within the buffer.
pub proof fn lemma_varint_at(b: Seq<u8>, pos: int, k: int)
    requires
        varint_at(b, pos, k) is Some,
    ensures
        0 <= k <= 9,
        0 <= varint_at(b, pos, k)->Some_0.0 < varint_cap(k),
        1 <= varint_at(b, pos, k)->Some_0.1 <= 10 - k,
        0 <= pos,
        pos + varint_at(b, pos, k)->Some_0.1 <= b.len(),
    decreases 10 - k,
{
    lemma_varint_cap(k);
    if k < 9 && b[pos] >= 0x80 {
        lemma_varint_at(b, pos + 1, k + 1);
    }
}

/// A field takes at least two bytes and ends within the buffer, and so does
/// the range of a length-delimited value.
pub proof fn lemma_field_at(b: Seq<u8>, pos: int)
    requires
        field_at(b, pos) is Some,
        b.len() <= usize::MAX,
    ensures
        pos + 2 <= field_at(b, pos)->Some_0.1 <= b.len(),
        match field_at(b, pos)->Some_0.0.value {
            WireValue::Bytes { start, end } => pos <= start <= end <= b.len(),
            _ => true,
        },
{
    lemma_varint_at(b, pos, 0);
    let (key, n) = varint(b, pos)->Some_0;
    let p = pos + n;
    if key % 8 == 0 || key % 8 == 2 {
        lemma_varint_at(b, p, 0);
    }
}

/// The ranges of the fields of a record lie within the record.
pub proof fn lemma_fields_within(b: Seq<u8>, pos: int)
    requires
        0 <= pos,
        fields_from(b, pos) is Some,
        b.len() <= usize::MAX,
    ensures
        fields_within(fields_from(b, pos)->Some_0, b.len() as int),
    decreases b.len() - pos,
{
    if pos < b.len() {
        let (f, next) = field_at(b, pos)->Some_0;
        lemma_field_at(b, pos);
        lemma_fields_within(b, next);
        let rest = fields_from(b, next)->Some_0;
        let all = seq![f] + rest;
        assert forall|i: int| 0 <= i < all.len() implies match (#[trigger] all[i]).value {
            WireValue::Bytes { start, end } => start <= end <= b.len(),
            _ => true,
        } by {
            if i > 0 {
                assert(all[i] == rest[i - 1]);
            }
        }
    }
}

/// Reads the rest of a variable-length integer whose byte number `k` stands
/// at `pos`.
pub fn read_varint_at(b: &[u8], pos: usize, k: u8) -> (r: Option<(u64, usize)>)
    requires
        k <= 9,
    ensures
        match r {
            Some((v, n)) => varint_at(b@, pos as int, k as int) == Some((v as int, n as int)),
            None => varint_at(b@, pos as int, k as int) is None,
        },
    decreases 10 - k,
{
    if pos >= b.len() {
        return None;
    }
    let byte: u8 = b[pos];
    if k == 9 {
        if byte <= 1 {
            Some((byte as u64, 1))
        } else {
            None
        }
    } else if byte < 0x80 {
        Some((byte as u64, 1))
    } else {
        match read_varint_at(b, pos + 1, k + 1) {
            Some((rest, n)) => {
                proof {
                    lemma_varint_at(b@, pos + 1, k + 1);
                    lemma_varint_cap(k as int);
                }
                Some(((byte - 0x80) as u64 + 128 * rest, n + 1))
            },
            None => None,
        }
    }
}

/// Reads the variable-length integer at `pos`.
pub fn read_varint(b: &[u8], pos: usize) -> (r: Option<(u64, usize)>)
    ensures
        match r {
            Some((v, n)) => varint(b@, pos as int) == Some((v as int, n as int)),
            None => varint(b@, pos as int) is None,
        },
{
    read_varint_at(b, pos, 0)
}

/// Reads `n` bytes at `pos` as a number, least significant byte first.
pub fn read_le(b: &[u8], pos: usize, n: u8) -> (r: u64)
    requires
        n <= 8,
        pos + n <= b@.len(),
    ensures
        r as int == le_int(b@, pos as int, n as nat),
        n <= 4 ==> r <= u32::MAX,
{
    let total: usize = b.len();
    let mut acc: u64 = 0;
    let mut i: u8 = n;
    proof {
        lemma_le_bound(b@, pos + n, 0);
    }
    while i > 0
        invariant
            i <= n <= 8,
            pos + n <= b@.len() == total,
            acc as int == le_int(b@, pos + i, (n - i) as nat),
        decreases i,
    {
        i = i - 1;
        proof {
            lemma_le_bound(b@, pos + i + 1, (n - i - 1) as nat);
            lemma_le_bound(b@, pos + i, (n - i) as nat);
        }
        acc = b[pos + i as usize] as u64 + 256 * acc;
    }
    proof {
        lemma_le_bound(b@, pos as int, n as nat);
    }
    acc
}

/// Sixteen to the power of `2 * n`: one more than the largest number that
/// `n` bytes spell.
pub open spec fn le_cap(n: nat) -> int
    decreases n,
{
    if n == 0 {
        1
    } else {
        256 * le_cap((n - 1) as nat)
    }
}

/// A number of `n` bytes is below its bound.
pub proof fn lemma_le_bound(b: Seq<u8>, pos: int, n: nat)
    requires
        n <= 8,
    ensures
        0 <= le_int(b, pos, n) < le_cap(n),
        le_cap(n) <= 0x1_0000_0000_0000_0000,
        n <= 4 ==> le_cap(n) <= 0x1_0000_0000,
        n > 0 ==> le_cap(n) == 256 * le_cap((n - 1) as nat),
    decreases n,
{
    reveal_with_fuel(le_cap, 10);
    if n > 0 {
        lemma_le_bound(b, pos + 1, (n - 1) as nat);
    }
}

/// Reads the field at `pos`.
pub fn read_field(b: &[u8], pos: usize) -> (r: Option<(Field, usize)>)
    ensures
        match r {
            Some((f, next)) => field_at(b@, pos as int) == Some((f, next as int)),
            None => field_at(b@, pos as int) is None,
        },
{
    let total: usize = b.len();
    let (key, n) = match read_varint(b, pos) {
        Some(kn) => kn,
        None => {
            return None;
        },
    };
    proof {
        lemma_varint_at(b@, pos as int, 0);
    }
    if key > 0xffff_ffff || key / 8 == 0 {
        return None;
    }
    let number: u32 = (key / 8) as u32;
    let kind: u64 = key % 8;
    let p: usize = pos + n;
    if kind == 0 {
        match read_varint(b, p) {
            Some((v, m)) => {
                proof {
                    lemma_varint_at(b@, p as int, 0);
                }
                Some((Field { number, value: WireValue::Varint(v) }, p + m))
            },
            None => None,
        }
    } else if kind == 1 {
        if total - p >= 8 {
            let v: u64 = read_le(b, p, 8);
            Some((Field { number, value: WireValue::Fixed64(v) }, p + 8))
        } else {
            None
        }
    } else if kind == 2 {
        match read_varint(b, p) {
            Some((len, m)) => {
                proof {
                    lemma_varint_at(b@, p as int, 0);
                }
                let start: usize = p + m;
                if len <= (total - start) as u64 {
                    let end: usize = start + len as usize;
                    Some((Field { number, value: WireValue::Bytes { start, end } }, end))
                } else {
                    None
                }
            },
            None => None,
        }
    } else if kind == 5 {
        if total - p >= 4 {
            let v: u64 = read_le(b, p, 4);
            Some((Field { number, value: WireValue::Fixed32(v as u32) }, p + 4))
        } else {
            None
        }
    } else {
        None
    }
}

/// Splits a record into its fields.
pub fn parse_fields(b: &[u8]) -> (r: Option<Vec<Field>>)
    ensures
        match r {
            Some(fields) => fields_of(b@) == Some(fields@) && fields_within(fields@, b@.len() as int),
            None => fields_of(b@) is None,
        },
{
    let mut fields: Vec<Field> = Vec::new();
    let mut pos: usize = 0;
    while pos < b.len()
        invariant
            fields_of(b@) == match fields_from(b@, pos as int) {
                Some(rest) => Some(fields@ + rest),
                None => None,
            },
        decreases b@.len() - pos,
    {
        match read_field(b, pos) {
            Some((f, next)) => {
                proof {
                    lemma_field_at(b@, pos as int);
                    match fields_from(b@, next as int) {
                        Some(rest) => {
                        },
                        None => {},
                    }
                }
                fields.push(f);
                pos = next;
            },
            None => {
                return None;
            },
        }
    }
    proof {
        lemma_fields_within(b@, 0);
    }
    Some(fields)
}

} // verus!
