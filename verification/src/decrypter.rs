//! The stream decryptor and the authenticator that runs beside it.

use vstd::prelude::*;
use vstd::slice::slice_subrange;
use crate::bytes::advance_block;
use crate::bytes::append_bytes;
use crate::bytes::block_after;
use crate::bytes::copy_range;
use crate::bytes::increase_counter;
use crate::bytes::next_iv;
use crate::crypto::aes256_ctr;
use crate::crypto::aes256_ctr_outcome;
use crate::crypto::constant_time_eq;
use crate::crypto::hmac_sha256;
use crate::crypto::hmac_sha256_outcome;
use crate::crypto::MAX_CALL_LEN;
use crate::error::Error;
use crate::keys::KeyDeriver;
use crate::keys::IV_LEN;
use crate::keys::KEY_LEN;

verus! {

/// The number of bytes of the tag that follow each frame and each blob body.
pub const LENGTH_HMAC: usize = 10;

/// Decrypts the frames of one backup in order and checks their tags.
pub struct Decrypter {
    cipher_key: Vec<u8>,
    mac_key: Vec<u8>,
    iv: Vec<u8>,
    /// What the authenticator has been fed since it was last reset.
    mac_input: Vec<u8>,
    verify_mac: bool,
}

/// What the cipher library's answer for `len` bytes comes to: the
/// plaintext, or the fault that a refusal, or a result of another length,
/// is.
pub open spec fn sized_plain(outcome: Option<Seq<u8>>, len: int) -> Result<Seq<u8>, Error> {
    match outcome {
        Some(plain) => if plain.len() == len {
            Ok(plain)
        } else {
            Err(Error::Crypto)
        },
        None => Err(Error::Crypto),
    }
}

/// The plaintext of `data` under `key` and the counter block `iv`, or the
/// fault of the cipher library.
pub open spec fn decrypted(key: Seq<u8>, iv: Seq<u8>, data: Seq<u8>) -> Result<Seq<u8>, Error> {
    sized_plain(aes256_ctr_outcome(key, iv, data), data.len() as int)
}

/// The longest piece in which a body passes through the cipher library: a
/// whole number of blocks of the cipher that one call takes.
pub const MAX_PIECE: usize = 0x7fff_fff0;

/// The length of one block of the cipher.
pub const BLOCK_LEN: usize = 16;

/// The plaintext of `data` where it passes through the cipher library in
/// pieces of `piece` bytes, a whole number of blocks: each piece is
/// decrypted under the counter block that the keystream has reached, so
/// that the keystream runs on from piece to piece.
pub open spec fn decrypted_in_pieces(key: Seq<u8>, iv: Seq<u8>, data: Seq<u8>, piece: int) -> Result<
    Seq<u8>,
    Error,
>
    decreases data.len(),
{
    if piece <= 0 || data.len() <= piece {
        decrypted(key, iv, data)
    } else {
        match decrypted(key, iv, data.take(piece)) {
            Err(e) => Err(e),
            Ok(head) => match decrypted_in_pieces(
                key,
                block_after(iv, (piece / BLOCK_LEN as int) as nat),
                data.skip(piece),
                piece,
            ) {
                Err(e) => Err(e),
                Ok(tail) => Ok(head + tail),
            },
        }
    }
}

/// What the comparison of a full `tag` with the `expected` trailer gives: a
/// tag shorter than a trailer is a fault of the cipher library; a trailer of
/// another length than ten, or one that differs from the first ten bytes of
/// the tag, fails authentication.
pub open spec fn tag_check(tag: Seq<u8>, expected: Seq<u8>) -> Result<(), Error> {
    if tag.len() < LENGTH_HMAC {
        Err(Error::Crypto)
    } else if expected.len() != LENGTH_HMAC || tag.subrange(0, LENGTH_HMAC as int) != expected {
        Err(Error::Mac)
    } else {
        Ok(())
    }
}

/// What the cipher library's answer for a tag comes to against the
/// `expected` trailer: a refusal is a fault, a tag is compared.
pub open spec fn tag_outcome(outcome: Option<Seq<u8>>, expected: Seq<u8>) -> Result<(), Error> {
    match outcome {
        Some(tag) => tag_check(tag, expected),
        None => Err(Error::Crypto),
    }
}

/// What authenticating `fed` against the `expected` trailer gives under
/// `mac_key`; with verification switched off everything passes.
pub open spec fn mac_outcome(verify: bool, mac_key: Seq<u8>, fed: Seq<u8>, expected: Seq<u8>) -> Result<
    (),
    Error,
> {
    if verify {
        tag_outcome(hmac_sha256_outcome(mac_key, fed), expected)
    } else {
        Ok(())
    }
}

/// What the cipher library returned, as values.
pub open spec fn outcome_view(outcome: Result<Vec<u8>, openssl::error::ErrorStack>) -> Option<
    Seq<u8>,
> {
    match outcome {
        Ok(bytes) => Some(bytes@),
        Err(_) => None,
    }
}

/// The bytes of a plaintext that was returned, or the error.
pub open spec fn plain_view(r: Result<Vec<u8>, Error>) -> Result<Seq<u8>, Error> {
    match r {
        Ok(p) => Ok(p@),
        Err(e) => Err(e),
    }
}

/// Checks a finished tag against the trailer read from the input. The
/// comparison takes the same time whatever the bytes are.
pub fn check_tag(tag: &[u8], expected: &[u8]) -> (r: Result<(), Error>)
    ensures
        r == tag_check(tag@, expected@),
{
    if tag.len() < LENGTH_HMAC {
        return Err(Error::Crypto);
    }
    if expected.len() != LENGTH_HMAC {
        return Err(Error::Mac);
    }
    let head: Vec<u8> = copy_range(tag, 0, LENGTH_HMAC);
    if constant_time_eq(head.as_slice(), expected) {
        Ok(())
    } else {
        Err(Error::Mac)
    }
}

/// Turns what the cipher library returned for `data` into the plaintext:
/// a fault, or a result of another length than `data`, is an error.
pub fn plain_of(outcome: Result<Vec<u8>, openssl::error::ErrorStack>, len: usize) -> (r: Result<
    Vec<u8>,
    Error,
>)
    ensures
        plain_view(r) == sized_plain(outcome_view(outcome), len as int),
{
    match outcome {
        Ok(plain) => {
            if plain.len() == len {
                Ok(plain)
            } else {
                Err(Error::Crypto)
            }
        },
        Err(_) => Err(Error::Crypto),
    }
}

/// Turns what the cipher library returned for a tag into the verdict on the
/// `expected` trailer.
pub fn tag_verdict(outcome: Result<Vec<u8>, openssl::error::ErrorStack>, expected: &[u8]) -> (r:
    Result<(), Error>)
    ensures
        r == tag_outcome(outcome_view(outcome), expected@),
{
    match outcome {
        Ok(tag) => check_tag(tag.as_slice(), expected),
        Err(_) => Err(Error::Crypto),
    }
}

impl Decrypter {
    /// The cipher key.
    pub closed spec fn cipher_key(&self) -> Seq<u8> {
        self.cipher_key@
    }

    /// The authentication key.
    pub closed spec fn mac_key(&self) -> Seq<u8> {
        self.mac_key@
    }

    /// The current counter block.
    pub closed spec fn iv(&self) -> Seq<u8> {
        self.iv@
    }

    /// What the authenticator has been fed since it was last reset.
    pub closed spec fn mac_input(&self) -> Seq<u8> {
        self.mac_input@
    }

    /// Whether tags are compared.
    pub closed spec fn verifies(&self) -> bool {
        self.verify_mac
    }

    /// The keys are thirty-two bytes each and the counter block sixteen.
    pub open spec fn wf(&self) -> bool {
        &&& self.cipher_key().len() == KEY_LEN
        &&& self.mac_key().len() == KEY_LEN
        &&& self.iv().len() == IV_LEN
    }

    /// Whether everything but the authenticator's input is as in `other`.
    pub open spec fn same_keys_and_iv(&self, other: &Decrypter) -> bool {
        &&& self.cipher_key() == other.cipher_key()
        &&& self.mac_key() == other.mac_key()
        &&& self.iv() == other.iv()
        &&& self.verifies() == other.verifies()
    }

    /// Whether the keys and the switch are as in `other`.
    pub open spec fn same_keys(&self, other: &Decrypter) -> bool {
        &&& self.cipher_key() == other.cipher_key()
        &&& self.mac_key() == other.mac_key()
        &&& self.verifies() == other.verifies()
    }

    /// A decrypter for the keys that were derived for a backup, with an
    /// authenticator that has been fed nothing.
    pub fn from_keys(keys: KeyDeriver, verify_mac: bool) -> (r: Decrypter)
        requires
            keys.wf(),
        ensures
            r.wf(),
            r.cipher_key() == keys.cipher_key@,
            r.mac_key() == keys.mac_key@,
            r.iv() == keys.iv@,
            r.mac_input() == Seq::<u8>::empty(),
            r.verifies() == verify_mac,
    {
        Decrypter {
            cipher_key: keys.cipher_key,
            mac_key: keys.mac_key,
            iv: keys.iv,
            mac_input: Vec::new(),
            verify_mac,
        }
    }

    /// Derives the keys from `passphrase` and `salt` and starts at the counter
    /// block `iv`. It fails exactly where `KeyDeriver::new` does.
    pub fn new(passphrase: &[u8], salt: &[u8], iv: &[u8], verify_mac: bool) -> (r: Result<
        Decrypter,
        Error,
    >)
        ensures
            match crate::keys::derived(passphrase@, salt@, iv@) {
                Ok((cipher_key, mac_key)) => {
                    &&& r is Ok
                    &&& r->Ok_0.wf()
                    &&& r->Ok_0.cipher_key() == cipher_key
                    &&& r->Ok_0.mac_key() == mac_key
                    &&& r->Ok_0.iv() == iv@
                    &&& r->Ok_0.mac_input() == Seq::<u8>::empty()
                    &&& r->Ok_0.verifies() == verify_mac
                },
                Err(e) => r is Err && r->Err_0 == e,
            },
    {
        match KeyDeriver::new(passphrase, salt, iv) {
            Ok(keys) => Ok(Decrypter::from_keys(keys, verify_mac)),
            Err(e) => Err(e),
        }
    }

    /// The cipher key.
    pub fn get_key(&self) -> (r: &[u8])
        ensures
            r@ == self.cipher_key(),
    {
        self.cipher_key.as_slice()
    }

    /// The current counter block.
    pub fn get_iv(&self) -> (r: &[u8])
        ensures
            r@ == self.iv(),
    {
        self.iv.as_slice()
    }

    /// Decrypts `data` with the keystream that starts at the current counter
    /// block, and feeds `data`, the ciphertext, to the authenticator first.
    pub fn decrypt(&mut self, data: &[u8]) -> (r: Result<Vec<u8>, Error>)
        requires
            old(self).wf(),
            data@.len() <= MAX_CALL_LEN,
        ensures
            final(self).wf(),
            final(self).same_keys_and_iv(old(self)),
            final(self).mac_input() == old(self).mac_input() + data@,
            plain_view(r) == decrypted(old(self).cipher_key(), old(self).iv(), data@),
    {
        append_bytes(&mut self.mac_input, data);
        plain_of(aes256_ctr(self.cipher_key.as_slice(), self.iv.as_slice(), data), data.len())
    }

    /// Decrypts `data` as `decrypt` does, in pieces of `piece` bytes where it
    /// is longer than that, and feeds all of it to the authenticator first.
    pub fn decrypt_in_pieces(&mut self, data: &[u8], piece: usize) -> (r: Result<Vec<u8>, Error>)
        requires
            old(self).wf(),
            BLOCK_LEN <= piece <= MAX_PIECE,
            piece % BLOCK_LEN == 0,
        ensures
            final(self).wf(),
            final(self).same_keys_and_iv(old(self)),
            final(self).mac_input() == old(self).mac_input() + data@,
            plain_view(r) == decrypted_in_pieces(
                old(self).cipher_key(),
                old(self).iv(),
                data@,
                piece as int,
            ),
            r is Ok ==> r->Ok_0@.len() == data@.len(),
    {
        append_bytes(&mut self.mac_input, data);
        let total: usize = data.len();
        let mut block: Vec<u8> = copy_range(self.iv.as_slice(), 0, IV_LEN);
        let mut out: Vec<u8> = Vec::new();
        let mut pos: usize = 0;
        assert(block@ =~= self.iv@);
        assert(data@.skip(0) =~= data@);
        while total - pos > piece
            invariant
                pos <= total == data@.len(),
                BLOCK_LEN <= piece <= MAX_PIECE,
                piece % BLOCK_LEN == 0,
                self.wf(),
                self.same_keys_and_iv(old(self)),
                self.mac_input() == old(self).mac_input() + data@,
                block@.len() == IV_LEN,
                out@.len() == pos,
                decrypted_in_pieces(old(self).cipher_key(), old(self).iv(), data@, piece as int)
                    == match decrypted_in_pieces(
                    self.cipher_key(),
                    block@,
                    data@.skip(pos as int),
                    piece as int,
                ) {
                    Ok(rest) => Ok::<Seq<u8>, Error>(out@ + rest),
                    Err(e) => Err(e),
                },
            decreases total - pos,
        {
            let chunk: &[u8] = slice_subrange(data, pos, pos + piece);
            let ghost left = data@.skip(pos as int);
            assert(left.take(piece as int) =~= chunk@);
            assert(left.skip(piece as int) =~= data@.skip(pos + piece));
            match plain_of(
                aes256_ctr(self.cipher_key.as_slice(), block.as_slice(), chunk),
                piece,
            ) {
                Ok(plain) => {
                    let ghost seen = out@;
                    append_bytes(&mut out, plain.as_slice());
                    proof {
                        match decrypted_in_pieces(
                            self.cipher_key(),
                            block_after(block@, (piece / BLOCK_LEN) as nat),
                            data@.skip(pos + piece),
                            piece as int,
                        ) {
                            Ok(tail) => {
                                assert(seen + (plain@ + tail) =~= out@ + tail);
                            },
                            Err(_) => {},
                        }
                    }
                },
                Err(e) => {
                    return Err(e);
                },
            }
            advance_block(&mut block, piece / BLOCK_LEN);
            pos = pos + piece;
        }
        let chunk: &[u8] = slice_subrange(data, pos, total);
        assert(data@.skip(pos as int) =~= chunk@);
        match plain_of(
            aes256_ctr(self.cipher_key.as_slice(), block.as_slice(), chunk),
            total - pos,
        ) {
            Ok(plain) => {
                append_bytes(&mut out, plain.as_slice());
                Ok(out)
            },
            Err(e) => Err(e),
        }
    }

    /// Decrypts `data` as `decrypt` does and leaves the decrypter as it was:
    /// the authenticator is fed nothing.
    pub fn peek_decrypt(&self, data: &[u8]) -> (r: Result<Vec<u8>, Error>)
        requires
            self.wf(),
            data@.len() <= MAX_CALL_LEN,
        ensures
            plain_view(r) == decrypted(self.cipher_key(), self.iv(), data@),
    {
        plain_of(aes256_ctr(self.cipher_key.as_slice(), self.iv.as_slice(), data), data.len())
    }

    /// Feeds the current counter block to the authenticator.
    pub fn mac_update_with_iv(&mut self)
        requires
            old(self).wf(),
        ensures
            final(self).wf(),
            final(self).same_keys_and_iv(old(self)),
            final(self).mac_input() == old(self).mac_input() + old(self).iv(),
    {
        let iv: Vec<u8> = copy_range(self.iv.as_slice(), 0, IV_LEN);
        append_bytes(&mut self.mac_input, iv.as_slice());
    }

    /// Finishes the tag over what the authenticator was fed and compares its
    /// first ten bytes with `expected`. The authenticator is left empty. With
    /// verification switched off nothing is compared.
    pub fn verify_mac(&mut self, expected: &[u8]) -> (r: Result<(), Error>)
        requires
            old(self).wf(),
        ensures
            final(self).wf(),
            final(self).same_keys_and_iv(old(self)),
            final(self).mac_input() == Seq::<u8>::empty(),
            r == mac_outcome(
                old(self).verifies(),
                old(self).mac_key(),
                old(self).mac_input(),
                expected@,
            ),
    {
        let mut fed: Vec<u8> = Vec::new();
        std::mem::swap(&mut self.mac_input, &mut fed);
        if !self.verify_mac {
            return Ok(());
        }
        tag_verdict(hmac_sha256(self.mac_key.as_slice(), fed.as_slice()), expected)
    }

    /// Empties the authenticator and steps the counter block: the counter in
    /// its first four bytes goes up by one and wraps to zero.
    pub fn increase_iv(&mut self)
        requires
            old(self).wf(),
        ensures
            final(self).wf(),
            final(self).same_keys(old(self)),
            final(self).iv() == next_iv(old(self).iv()),
            final(self).mac_input() == Seq::<u8>::empty(),
    {
        self.mac_input = Vec::new();
        increase_counter(&mut self.iv);
    }
}

} // verus!
