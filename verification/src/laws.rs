//! What holds of every backup, stated over the functions that say what the
//! reader returns.

use vstd::prelude::*;
use crate::backups::BackupFrameView;
use crate::bytes::be_u32;
use crate::bytes::counter_modulus;
use crate::bytes::iv_after;
use crate::bytes::lemma_iv_after;
use crate::bytes::with_counter;
use crate::crypto::hmac_sha256_outcome;
use crate::decrypter::decrypted;
use crate::decrypter::decrypted_in_pieces;
use crate::decrypter::MAX_PIECE;
use crate::decrypter::LENGTH_HMAC;
use crate::error::Error;
use crate::frame::frame_of;
use crate::frame::FrameView;
use crate::input::opened_body;
use crate::input::opened_frame;
use crate::input::Cursor;

verus! {

/// The byte `b` with the bit of weight two to the power of `bit` inverted.
pub open spec fn flip_bit(b: u8, bit: u8) -> u8 {
    b ^ (1u8 << bit)
}

/// The bytes `data` with one bit of the byte at `at` inverted.
pub open spec fn flipped(data: Seq<u8>, at: int, bit: u8) -> Seq<u8> {
    data.update(at, flip_bit(data[at], bit))
}

/// The first ten bytes of the tag of `fed` under `mac_key`, where the cipher
/// library gives a tag that long.
pub open spec fn short_tag(mac_key: Seq<u8>, fed: Seq<u8>) -> Option<Seq<u8>> {
    match hmac_sha256_outcome(mac_key, fed) {
        Some(tag) => if tag.len() >= LENGTH_HMAC {
            Some(tag.subrange(0, LENGTH_HMAC as int))
        } else {
            None
        },
        None => None,
    }
}

/// The cursor `c` over other bytes.
pub open spec fn over(c: Cursor, data: Seq<u8>) -> Cursor {
    Cursor {
        data,
        pos: c.pos,
        cipher_key: c.cipher_key,
        mac_key: c.mac_key,
        iv: c.iv,
        verify: c.verify,
        limit: c.limit,
    }
}

/// An inverted bit changes its byte.
proof fn lemma_flip_changes(b: u8, bit: u8)
    requires
        bit < 8,
    ensures
        flip_bit(b, bit) != b,
{
    assert(b ^ (1u8 << bit) != b) by (bit_vector)
        requires
            bit < 8,
    ;
}

/// A record is accepted exactly when one of the nine fields of its frame is
/// present and, for a statement, every parameter has a shape; the variant of
/// an accepted record is that of the field that is present.
pub proof fn record_has_exactly_one_variant(f: BackupFrameView)
    ensures
        frame_of(f) is Ok ==> f.populated() == 1,
        frame_of(f) is Ok ==> {
            &&& frame_of(f)->Ok_0 is Header <==> f.header is Some
            &&& frame_of(f)->Ok_0 is Statement <==> f.statement is Some
            &&& frame_of(f)->Ok_0 is Preference <==> f.preference is Some
            &&& frame_of(f)->Ok_0 is Attachment <==> f.attachment is Some
            &&& frame_of(f)->Ok_0 is Version <==> f.version is Some
            &&& frame_of(f)->Ok_0 is End <==> f.end is Some
            &&& frame_of(f)->Ok_0 is Avatar <==> f.avatar is Some
            &&& frame_of(f)->Ok_0 is Sticker <==> f.sticker is Some
            &&& frame_of(f)->Ok_0 is KeyValue <==> f.key_value is Some
        },
        frame_of(f) is Err ==> frame_of(f)->Err_0 == Error::MalformedFrame,
{
}

/// No read behind the header yields a header, and a record with a body is
/// yielded with its body.
pub proof fn step_yields_no_header(c: Cursor)
    ensures
        c.step() is Ok ==> !(c.step()->Ok_0.0 is Header),
        c.step() is Ok ==> match c.step()->Ok_0.0 {
            FrameView::Attachment { data, .. } => data is Some,
            FrameView::Avatar { data, .. } => data is Some,
            FrameView::Sticker { data, .. } => data is Some,
            _ => true,
        },
{
}

/// A read moves the cursor forward by at least the four bytes of a length
/// and the ten of a tag, leaves input, keys and settings alone, and steps
/// the counter block once for the frame and once more for a body.
pub proof fn step_moves_forward(c: Cursor)
    requires
        c.step() is Ok,
    ensures
        c.step()->Ok_0.1.pos >= c.pos + 4 + LENGTH_HMAC,
        c.step()->Ok_0.1.data == c.data,
        c.step()->Ok_0.1.cipher_key == c.cipher_key,
        c.step()->Ok_0.1.mac_key == c.mac_key,
        c.step()->Ok_0.1.verify == c.verify,
        c.step()->Ok_0.1.limit == c.limit,
        c.step()->Ok_0.1.iv == if c.step()->Ok_0.0.body_length() is Some {
            iv_after(c.iv, 2)
        } else {
            iv_after(c.iv, 1)
        },
{
    reveal_with_fuel(iv_after, 3);
}

/// The records behind the header hold neither a header nor the end record:
/// the one header of a backup is read when it is opened, and the records
/// stop at the first end record.
pub proof fn records_hold_neither_header_nor_end(c: Cursor)
    ensures
        forall|i: int|
            0 <= i < c.records().0.len() ==> !(#[trigger] c.records().0[i] is Header) && !(
            c.records().0[i] is End),
    decreases c.data.len() - c.pos,
{
    if c.step() is Ok && !(c.step()->Ok_0.0 is End) {
        let (record, behind) = c.step()->Ok_0;
        step_yields_no_header(c);
        step_moves_forward(c);
        records_hold_neither_header_nor_end(behind);
        let all = c.records().0;
        assert forall|i: int| 0 <= i < all.len() implies !(#[trigger] all[i] is Header) && !(
        all[i] is End) by {
            if i > 0 {
                assert(all[i] == behind.records().0[i - 1]);
            }
        }
    }
}

/// A reader that has taken `n` counter steps from the counter block `v`
/// reads as a fresh reader does whose counter block is `v` with `n` added to
/// its counter modulo two to the power of 32: what was read on the way, and
/// how long it was, makes no difference.
pub proof fn advanced_reader_reads_as_fresh_one(a: Cursor, b: Cursor, v: Seq<u8>, n: nat)
    requires
        v.len() == 16,
        a.iv == iv_after(v, n),
        b.iv == with_counter(v, (be_u32(v) + n) % counter_modulus()),
        a.data =~= b.data,
        a.pos == b.pos,
        a.cipher_key =~= b.cipher_key,
        a.mac_key =~= b.mac_key,
        a.verify == b.verify,
        a.limit == b.limit,
    ensures
        a.step() == b.step(),
        a.records() == b.records(),
        decrypted(a.cipher_key, a.iv, a.data) == decrypted(b.cipher_key, b.iv, b.data),
{
    lemma_iv_after(v, n);
    assert(a == b);
}

/// With verification switched on, a frame that is accepted is refused as
/// unauthentic once any one bit of any of the ten bytes of its tag is
/// inverted.
pub proof fn flipped_tag_is_rejected(
    data: Seq<u8>,
    pos: int,
    len: int,
    cipher_key: Seq<u8>,
    mac_key: Seq<u8>,
    iv: Seq<u8>,
    at: int,
    bit: u8,
)
    requires
        0 <= pos,
        LENGTH_HMAC <= len,
        pos + 4 + len <= data.len(),
        opened_frame(data, pos, len, cipher_key, mac_key, iv, true) is Ok,
        pos + 4 + len - LENGTH_HMAC <= at < pos + 4 + len,
        bit < 8,
    ensures
        opened_frame(flipped(data, at, bit), pos, len, cipher_key, mac_key, iv, true) == Err::<
            FrameView,
            Error,
        >(Error::Mac),
{
    let end = pos + 4 + len - LENGTH_HMAC;
    let changed = flipped(data, at, bit);
    lemma_flip_changes(data[at], bit);
    assert(changed.subrange(pos, end) =~= data.subrange(pos, end));
    assert(changed.subrange(end, end + LENGTH_HMAC)[at - end] != data.subrange(
        end,
        end + LENGTH_HMAC,
    )[at - end]);
}

/// With verification switched on, a frame that is accepted at its declared
/// length is refused as unauthentic once any one bit of its sealed bytes is
/// inverted, wherever the cipher library answers for the changed bytes and
/// the tags of the two byte strings differ in their first ten bytes.
pub proof fn flipped_sealed_byte_is_rejected(
    data: Seq<u8>,
    pos: int,
    len: int,
    cipher_key: Seq<u8>,
    mac_key: Seq<u8>,
    iv: Seq<u8>,
    at: int,
    bit: u8,
)
    requires
        0 <= pos,
        LENGTH_HMAC <= len,
        pos + 4 + len <= data.len(),
        opened_frame(data, pos, len, cipher_key, mac_key, iv, true) is Ok,
        pos <= at < pos + 4 + len - LENGTH_HMAC,
        bit < 8,
        decrypted(
            cipher_key,
            iv,
            flipped(data, at, bit).subrange(pos, pos + 4 + len - LENGTH_HMAC),
        ) is Ok,
        short_tag(mac_key, flipped(data, at, bit).subrange(pos, pos + 4 + len - LENGTH_HMAC))
            is Some,
        short_tag(mac_key, flipped(data, at, bit).subrange(pos, pos + 4 + len - LENGTH_HMAC))
            != short_tag(mac_key, data.subrange(pos, pos + 4 + len - LENGTH_HMAC)),
    ensures
        opened_frame(flipped(data, at, bit), pos, len, cipher_key, mac_key, iv, true) == Err::<
            FrameView,
            Error,
        >(Error::Mac),
{
    let end = pos + 4 + len - LENGTH_HMAC;
    let changed = flipped(data, at, bit);
    assert(changed.subrange(end, end + LENGTH_HMAC) =~= data.subrange(end, end + LENGTH_HMAC));
}

/// With verification switched on, a body that is accepted is refused as
/// unauthentic once any one bit of any of the ten bytes of its tag is
/// inverted.
pub proof fn flipped_body_tag_is_rejected(
    data: Seq<u8>,
    pos: int,
    len: int,
    cipher_key: Seq<u8>,
    mac_key: Seq<u8>,
    iv: Seq<u8>,
    at: int,
    bit: u8,
)
    requires
        0 <= pos,
        0 <= len,
        opened_body(data, pos, len, cipher_key, mac_key, iv, true) is Ok,
        pos + len <= at < pos + len + LENGTH_HMAC,
        bit < 8,
    ensures
        opened_body(flipped(data, at, bit), pos, len, cipher_key, mac_key, iv, true) == Err::<
            Seq<u8>,
            Error,
        >(Error::Mac),
{
    let end = pos + len;
    let changed = flipped(data, at, bit);
    lemma_flip_changes(data[at], bit);
    assert(changed.subrange(pos, end) =~= data.subrange(pos, end));
    assert(changed.subrange(end, end + LENGTH_HMAC)[at - end] != data.subrange(
        end,
        end + LENGTH_HMAC,
    )[at - end]);
}

/// With verification switched on, a body that is accepted is refused as
/// unauthentic once any one bit of it is inverted, wherever the cipher
/// library answers for the changed bytes and the tags of the two byte
/// strings differ in their first ten bytes.
pub proof fn flipped_body_byte_is_rejected(
    data: Seq<u8>,
    pos: int,
    len: int,
    cipher_key: Seq<u8>,
    mac_key: Seq<u8>,
    iv: Seq<u8>,
    at: int,
    bit: u8,
)
    requires
        0 <= pos,
        0 <= len,
        opened_body(data, pos, len, cipher_key, mac_key, iv, true) is Ok,
        pos <= at < pos + len,
        bit < 8,
        decrypted_in_pieces(
            cipher_key,
            iv,
            flipped(data, at, bit).subrange(pos, pos + len),
            MAX_PIECE as int,
        ) is Ok,
        short_tag(mac_key, iv + flipped(data, at, bit).subrange(pos, pos + len)) is Some,
        short_tag(mac_key, iv + flipped(data, at, bit).subrange(pos, pos + len)) != short_tag(
            mac_key,
            iv + data.subrange(pos, pos + len),
        ),
    ensures
        opened_body(flipped(data, at, bit), pos, len, cipher_key, mac_key, iv, true) == Err::<
            Seq<u8>,
            Error,
        >(Error::Mac),
{
    let end = pos + len;
    let changed = flipped(data, at, bit);
    assert(changed.subrange(end, end + LENGTH_HMAC) =~= data.subrange(end, end + LENGTH_HMAC));
}

/// With verification switched on, a read that accepts the frame at the
/// cursor fails as unauthentic once any one bit of the frame's tag is
/// inverted, and so it does once any one bit of the frame's payload is
/// inverted, wherever the cipher library answers for the changed bytes and
/// the tags of the two byte strings differ in their first ten bytes.
pub proof fn read_rejects_a_flipped_bit(c: Cursor, at: int, bit: u8)
    requires
        0 <= c.pos,
        c.verify,
        c.frame_length() is Ok,
        opened_frame(
            c.data,
            c.pos,
            c.frame_length()->Ok_0,
            c.cipher_key,
            c.mac_key,
            c.iv,
            true,
        ) is Ok,
        c.pos + 4 <= at < c.pos + 4 + c.frame_length()->Ok_0,
        bit < 8,
        at < c.pos + 4 + c.frame_length()->Ok_0 - LENGTH_HMAC ==> {
            let end = c.pos + 4 + c.frame_length()->Ok_0 - LENGTH_HMAC;
            &&& decrypted(c.cipher_key, c.iv, flipped(c.data, at, bit).subrange(c.pos, end)) is Ok
            &&& short_tag(c.mac_key, flipped(c.data, at, bit).subrange(c.pos, end)) is Some
            &&& short_tag(c.mac_key, flipped(c.data, at, bit).subrange(c.pos, end)) != short_tag(
                c.mac_key,
                c.data.subrange(c.pos, end),
            )
        },
    ensures
        over(c, flipped(c.data, at, bit)).step() == Err::<(FrameView, Cursor), Error>(Error::Mac),
{
    let len = c.frame_length()->Ok_0;
    let changed = flipped(c.data, at, bit);
    assert(changed.subrange(c.pos, c.pos + 4) =~= c.data.subrange(c.pos, c.pos + 4));
    assert(over(c, changed).frame_length() == c.frame_length());
    if at < c.pos + 4 + len - LENGTH_HMAC {
        flipped_sealed_byte_is_rejected(
            c.data,
            c.pos,
            len,
            c.cipher_key,
            c.mac_key,
            c.iv,
            at,
            bit,
        );
    } else {
        flipped_tag_is_rejected(c.data, c.pos, len, c.cipher_key, c.mac_key, c.iv, at, bit);
    }
}

/// With verification switched off, the ten bytes behind a frame and the ten
/// bytes behind a body are not looked at: bytes that differ there alone give
/// the same record and the same body.
pub proof fn unverified_tags_are_not_looked_at(
    data: Seq<u8>,
    other: Seq<u8>,
    pos: int,
    len: int,
    cipher_key: Seq<u8>,
    mac_key: Seq<u8>,
    iv: Seq<u8>,
)
    requires
        0 <= pos,
        data.len() == other.len(),
    ensures
        LENGTH_HMAC <= len && pos + 4 + len <= data.len() && data.subrange(
            pos,
            pos + 4 + len - LENGTH_HMAC,
        ) == other.subrange(pos, pos + 4 + len - LENGTH_HMAC) ==> opened_frame(
            data,
            pos,
            len,
            cipher_key,
            mac_key,
            iv,
            false,
        ) == opened_frame(other, pos, len, cipher_key, mac_key, iv, false),
        0 <= len && data.subrange(pos, pos + len) == other.subrange(pos, pos + len)
            ==> opened_body(data, pos, len, cipher_key, mac_key, iv, false) == opened_body(
            other,
            pos,
            len,
            cipher_key,
            mac_key,
            iv,
            false,
        ),
{
}

/// With verification switched off, a read does not depend on the ten bytes
/// behind the frame at the cursor, nor on the ten bytes behind its body:
/// over bytes that differ from the reader's in those places alone, the same
/// record is read and the reader stands at the same place afterwards.
pub proof fn unverified_read_ignores_tags(c: Cursor, other: Seq<u8>)
    requires
        !c.verify,
        0 <= c.pos,
        c.step() is Ok,
        other.len() == c.data.len(),
        forall|i: int|
            0 <= i < other.len() && !(c.pos + 4 + c.frame_length()->Ok_0 - LENGTH_HMAC <= i < c.pos
                + 4 + c.frame_length()->Ok_0) && !(c.step()->Ok_0.1.pos - LENGTH_HMAC <= i
                < c.step()->Ok_0.1.pos) ==> other[i] == c.data[i],
    ensures
        over(c, other).step() == Ok::<(FrameView, Cursor), Error>(
            (c.step()->Ok_0.0, over(c.step()->Ok_0.1, other)),
        ),
{
    let len = c.frame_length()->Ok_0;
    let end = c.pos + 4 + len - LENGTH_HMAC;
    let d = over(c, other);
    assert(other.subrange(c.pos, c.pos + 4) =~= c.data.subrange(c.pos, c.pos + 4));
    assert(d.frame_length() == c.frame_length());
    assert(other.subrange(c.pos, end) =~= c.data.subrange(c.pos, end));
    unverified_tags_are_not_looked_at(c.data, other, c.pos, len, c.cipher_key, c.mac_key, c.iv);
    let record = opened_frame(c.data, c.pos, len, c.cipher_key, c.mac_key, c.iv, false)->Ok_0;
    let behind = c.advanced(4 + len);
    match record.body_length() {
        Some(body_len) => {
            assert(other.subrange(behind.pos, behind.pos + body_len) =~= c.data.subrange(
                behind.pos,
                behind.pos + body_len,
            ));
            unverified_tags_are_not_looked_at(
                c.data,
                other,
                behind.pos,
                body_len as int,
                c.cipher_key,
                c.mac_key,
                behind.iv,
            );
        },
        None => {},
    }
}

} // verus!
