//! From passphrase and salt to the cipher key and the authentication key.

use vstd::prelude::*;
use crate::bytes::append_bytes;
use crate::bytes::copy_range;
use crate::crypto::hmac_sha256;
use crate::crypto::hmac_sha256_outcome;
use crate::decrypter::outcome_view;
use crate::decrypter::plain_view;
use crate::crypto::sha512;
use crate::crypto::sha512_digest;
use crate::error::Error;

verus! {

/// The number of digits in a passphrase.
pub const PASSPHRASE_LEN: usize = 30;

/// The number of times the digest is applied when stretching a passphrase.
pub const STRETCH_ROUNDS: u32 = 250_000;

/// The length of each of the two keys, and of one HMAC-SHA256 tag.
pub const KEY_LEN: usize = 32;

/// The length of a counter block.
pub const IV_LEN: usize = 16;

/// A passphrase is thirty ASCII digits.
pub open spec fn valid_passphrase(p: Seq<u8>) -> bool {
    &&& p.len() == PASSPHRASE_LEN
    &&& forall|i: int| 0 <= i < p.len() ==> 0x30 <= #[trigger] p[i] <= 0x39
}

/// The stretched passphrase after `n` rounds: it starts from the passphrase
/// followed by the salt; the first round digests that followed by the
/// passphrase once more; every later round digests the digest before it.
pub open spec fn stretched(passphrase: Seq<u8>, salt: Seq<u8>, n: nat) -> Seq<u8>
    decreases n,
{
    if n == 0 {
        passphrase + salt
    } else if n == 1 {
        sha512_digest(passphrase + salt + passphrase)
    } else {
        sha512_digest(stretched(passphrase, salt, (n - 1) as nat))
    }
}

/// The input key material: the first half of the last digest.
pub open spec fn raw_key(passphrase: Seq<u8>, salt: Seq<u8>) -> Seq<u8> {
    stretched(passphrase, salt, STRETCH_ROUNDS as nat).subrange(0, KEY_LEN as int)
}

/// The label that the key expansion is bound to: "Backup Export" in ASCII.
pub open spec fn export_label() -> Seq<u8> {
    seq![66u8, 97u8, 99u8, 107u8, 117u8, 112u8, 32u8, 69u8, 120u8, 112u8, 111u8, 114u8, 116u8]
}

/// The salt of the key expansion: thirty-two zero bytes.
pub open spec fn zero_salt() -> Seq<u8> {
    Seq::new(KEY_LEN as nat, |i: int| 0u8)
}

/// What the cipher library's answer for a tag comes to in the key
/// expansion: a tag of the length of a SHA-256 digest, or a fault.
pub open spec fn sized_tag(outcome: Option<Seq<u8>>) -> Result<Seq<u8>, Error> {
    match outcome {
        Some(tag) => if tag.len() == KEY_LEN {
            Ok(tag)
        } else {
            Err(Error::Crypto)
        },
        None => Err(Error::Crypto),
    }
}

/// HKDF's extraction step on `ikm`.
pub open spec fn hkdf_prk(ikm: Seq<u8>) -> Result<Seq<u8>, Error> {
    sized_tag(hmac_sha256_outcome(zero_salt(), ikm))
}

/// The first output block of HKDF's expansion step.
pub open spec fn hkdf_block1(prk: Seq<u8>) -> Result<Seq<u8>, Error> {
    sized_tag(hmac_sha256_outcome(prk, export_label() + seq![1u8]))
}

/// The second output block of HKDF's expansion step.
pub open spec fn hkdf_block2(prk: Seq<u8>, block1: Seq<u8>) -> Result<Seq<u8>, Error> {
    sized_tag(hmac_sha256_outcome(prk, block1 + export_label() + seq![2u8]))
}

/// The two keys that sixty-four bytes of HKDF-SHA256 output for `ikm` make:
/// the cipher key is the first half, the authentication key the second. A
/// refusal of the cipher library, or a tag of another length than a SHA-256
/// digest has, is a fault.
pub open spec fn hkdf_keys(ikm: Seq<u8>) -> Result<(Seq<u8>, Seq<u8>), Error> {
    match hkdf_prk(ikm) {
        Err(e) => Err(e),
        Ok(prk) => match hkdf_block1(prk) {
            Err(e) => Err(e),
            Ok(block1) => match hkdf_block2(prk, block1) {
                Err(e) => Err(e),
                Ok(block2) => Ok(
                    (
                        (block1 + block2).subrange(0, KEY_LEN as int),
                        (block1 + block2).subrange(KEY_LEN as int, 2 * KEY_LEN),
                    ),
                ),
            },
        },
    }
}

/// The cipher key and the authentication key of a backup. A passphrase that
/// is not thirty digits is refused first, then a counter block that is not
/// sixteen bytes; past that only a fault of the cipher library stands in the
/// way.
pub open spec fn derived(passphrase: Seq<u8>, salt: Seq<u8>, iv: Seq<u8>) -> Result<
    (Seq<u8>, Seq<u8>),
    Error,
> {
    if !valid_passphrase(passphrase) {
        Err(Error::Config)
    } else if iv.len() != IV_LEN {
        Err(Error::InvalidHeader)
    } else {
        hkdf_keys(raw_key(passphrase, salt))
    }
}

/// What a backup is opened with.
pub struct KeyDeriver {
    pub cipher_key: Vec<u8>,
    pub mac_key: Vec<u8>,
    pub iv: Vec<u8>,
}

/// Says whether `p` is a passphrase.
pub fn is_valid_passphrase(p: &[u8]) -> (r: bool)
    ensures
        r == valid_passphrase(p@),
{
    if p.len() != PASSPHRASE_LEN {
        return false;
    }
    let mut i: usize = 0;
    while i < p.len()
        invariant
            i <= p@.len(),
            forall|j: int| 0 <= j < i ==> 0x30 <= #[trigger] p@[j] <= 0x39,
        decreases p@.len() - i,
    {
        if p[i] < 0x30 || p[i] > 0x39 {
            return false;
        }
        i = i + 1;
    }
    true
}

/// Stretches a passphrase with the salt of a backup.
pub fn stretch(passphrase: &[u8], salt: &[u8]) -> (r: Vec<u8>)
    ensures
        r@ == stretched(passphrase@, salt@, STRETCH_ROUNDS as nat),
        r@.len() == 64,
{
    let mut first: Vec<u8> = Vec::new();
    append_bytes(&mut first, passphrase);
    append_bytes(&mut first, salt);
    append_bytes(&mut first, passphrase);
    let mut hash: Vec<u8> = sha512(first.as_slice());
    let mut round: u32 = 1;
    while round < STRETCH_ROUNDS
        invariant
            1 <= round <= STRETCH_ROUNDS,
            hash@ == stretched(passphrase@, salt@, round as nat),
            hash@.len() == 64,
        decreases STRETCH_ROUNDS - round,
    {
        hash = sha512(hash.as_slice());
        round = round + 1;
    }
    hash
}

/// The label as bytes.
pub fn label_bytes() -> (r: Vec<u8>)
    ensures
        r@ == export_label(),
{
    let label: Vec<u8> = vec![66u8, 97u8, 99u8, 107u8, 117u8, 112u8, 32u8, 69u8, 120u8, 112u8, 111u8, 114u8, 116u8];
    label
}

/// Joins the two output blocks of the expansion of `ikm` into the two keys.
/// A block that has not the length of a SHA-256 digest is a fault of the
/// cipher library.
pub fn keys_from_blocks(block1: Vec<u8>, block2: Vec<u8>) -> (r: Result<(Vec<u8>, Vec<u8>), Error>)
    ensures
        r is Ok <==> block1@.len() == KEY_LEN && block2@.len() == KEY_LEN,
        r is Ok ==> r->Ok_0.0@ == (block1@ + block2@).subrange(0, KEY_LEN as int),
        r is Ok ==> r->Ok_0.1@ == (block1@ + block2@).subrange(KEY_LEN as int, 2 * KEY_LEN),
        r is Err ==> r->Err_0 == Error::Crypto,
{
    if block1.len() != KEY_LEN || block2.len() != KEY_LEN {
        return Err(Error::Crypto);
    }
    Ok((block1, block2))
}

/// Turns what the cipher library returned for a tag of the key expansion
/// into the tag.
pub fn tag_of(outcome: Result<Vec<u8>, openssl::error::ErrorStack>) -> (r: Result<Vec<u8>, Error>)
    ensures
        plain_view(r) == sized_tag(outcome_view(outcome)),
{
    match outcome {
        Ok(tag) => if tag.len() == KEY_LEN {
            Ok(tag)
        } else {
            Err(Error::Crypto)
        },
        Err(_) => Err(Error::Crypto),
    }
}

/// The two keys as values, or the error.
pub open spec fn keys_view(r: Result<(Vec<u8>, Vec<u8>), Error>) -> Result<
    (Seq<u8>, Seq<u8>),
    Error,
> {
    match r {
        Ok((cipher_key, mac_key)) => Ok((cipher_key@, mac_key@)),
        Err(e) => Err(e),
    }
}

/// Expands `ikm` into the cipher key and the authentication key with
/// HKDF-SHA256, a salt of zeros and the export label.
pub fn derive_secrets(ikm: &[u8]) -> (r: Result<(Vec<u8>, Vec<u8>), Error>)
    ensures
        keys_view(r) == hkdf_keys(ikm@),
{
    let salt: Vec<u8> = vec![0u8; KEY_LEN];
    assert(salt@ =~= zero_salt());
    let prk: Vec<u8> = match tag_of(hmac_sha256(salt.as_slice(), ikm)) {
        Ok(tag) => tag,
        Err(e) => {
            return Err(e);
        },
    };
    let mut input1: Vec<u8> = label_bytes();
    input1.push(1u8);
    assert(input1@ =~= export_label() + seq![1u8]);
    let block1: Vec<u8> = match tag_of(hmac_sha256(prk.as_slice(), input1.as_slice())) {
        Ok(tag) => tag,
        Err(e) => {
            return Err(e);
        },
    };
    let label: Vec<u8> = label_bytes();
    let mut input2: Vec<u8> = Vec::new();
    append_bytes(&mut input2, block1.as_slice());
    append_bytes(&mut input2, label.as_slice());
    input2.push(2u8);
    assert(input2@ =~= block1@ + export_label() + seq![2u8]);
    let block2: Vec<u8> = match tag_of(hmac_sha256(prk.as_slice(), input2.as_slice())) {
        Ok(tag) => tag,
        Err(e) => {
            return Err(e);
        },
    };
    keys_from_blocks(block1, block2)
}

impl KeyDeriver {
    /// The keys are thirty-two bytes each and the counter block sixteen.
    pub open spec fn wf(&self) -> bool {
        &&& self.cipher_key@.len() == KEY_LEN
        &&& self.mac_key@.len() == KEY_LEN
        &&& self.iv@.len() == IV_LEN
    }

    /// Derives the keys of a backup from the passphrase and from the salt and
    /// the counter block that the backup's header holds.
    ///
    /// A passphrase that is not thirty digits is refused first, then a
    /// counter block that is not sixteen bytes. Past that, only a fault of the
    /// cipher library stands in the way.
    pub fn new(passphrase: &[u8], salt: &[u8], iv: &[u8]) -> (r: Result<KeyDeriver, Error>)
        ensures
            match derived(passphrase@, salt@, iv@) {
                Ok((cipher_key, mac_key)) => {
                    &&& r is Ok
                    &&& r->Ok_0.wf()
                    &&& r->Ok_0.cipher_key@ == cipher_key
                    &&& r->Ok_0.mac_key@ == mac_key
                    &&& r->Ok_0.iv@ == iv@
                },
                Err(e) => r is Err && r->Err_0 == e,
            },
    {
        if !is_valid_passphrase(passphrase) {
            return Err(Error::Config);
        }
        if iv.len() != IV_LEN {
            return Err(Error::InvalidHeader);
        }
        let digest: Vec<u8> = stretch(passphrase, salt);
        let ikm: Vec<u8> = copy_range(digest.as_slice(), 0, KEY_LEN);
        match derive_secrets(ikm.as_slice()) {
            Ok((cipher_key, mac_key)) => {
                let iv_copy: Vec<u8> = copy_range(iv, 0, IV_LEN);
                Ok(KeyDeriver { cipher_key, mac_key, iv: iv_copy })
            },
            Err(e) => Err(e),
        }
    }
}

} // verus!
