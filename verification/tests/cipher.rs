use backup_decode::bytes::advance_block;
use backup_decode::bytes::append_bytes;
use backup_decode::bytes::copy_range;
use backup_decode::bytes::increase_counter;
use backup_decode::bytes::read_be_u32;
use backup_decode::bytes::step_block;
use backup_decode::decrypter::check_tag;
use backup_decode::decrypter::plain_of;
use backup_decode::decrypter::tag_verdict;
use backup_decode::decrypter::Decrypter;
use backup_decode::error::Error;
use backup_decode::keys::derive_secrets;
use backup_decode::keys::is_valid_passphrase;
use backup_decode::keys::keys_from_blocks;
use backup_decode::keys::label_bytes;
use backup_decode::keys::stretch;
use backup_decode::keys::tag_of;
use backup_decode::keys::KeyDeriver;

fn pass() -> Vec<u8> {
    b"123456789012345678901234567890".to_vec()
}

fn iv() -> Vec<u8> {
    vec![1, 2, 3, 4, 0, 0, 0, 0, 0, 0, 0, 0, 0, 0, 0, 0]
}

fn known_cipher_key() -> Vec<u8> {
    vec![
        98, 40, 47, 73, 237, 77, 26, 249, 251, 59, 145, 39, 133, 39, 185, 245, 64, 49, 8, 201, 7,
        201, 245, 48, 65, 169, 253, 50, 232, 101, 102, 5,
    ]
}

fn known_mac_key() -> Vec<u8> {
    vec![
        106, 247, 247, 158, 253, 167, 19, 154, 118, 230, 141, 119, 166, 81, 38, 65, 179, 8, 163,
        54, 248, 27, 126, 187, 31, 95, 38, 109, 154, 163, 234, 98,
    ]
}

fn known_ciphertext() -> Vec<u8> {
    vec![
        188, 56, 138, 36, 247, 36, 127, 8, 249, 130, 120, 25, 78, 91, 152, 173, 93, 166, 169, 211,
        144, 155, 146, 198, 249, 132, 236, 114, 226, 243, 80, 24, 95, 239, 226, 88, 223,
    ]
}

fn known_decrypter(verify: bool) -> Decrypter {
    let keys = KeyDeriver { cipher_key: known_cipher_key(), mac_key: known_mac_key(), iv: iv() };
    Decrypter::from_keys(keys, verify)
}

#[test]
fn stretching_gives_the_known_digest() {
    let digest = stretch(&pass(), &[0u8; 32]);
    let expected: Vec<u8> = vec![
        9, 167, 191, 96, 19, 56, 25, 228, 144, 118, 161, 171, 6, 110, 198, 207, 72, 10, 198, 207,
        63, 200, 176, 230, 105, 207, 3, 19, 72, 161, 49, 84, 14, 77, 65, 228, 138, 153, 146, 9, 84,
        215, 98, 118, 28, 103, 30, 46, 62, 219, 238, 93, 178, 42, 9, 143, 177, 206, 136, 70, 188,
        72, 127, 138,
    ];
    assert_eq!(digest, expected);
}

#[test]
fn key_derivation_gives_the_known_keys() {
    let keys = KeyDeriver::new(&pass(), &[0u8; 32], &iv()).unwrap();
    assert_eq!(keys.cipher_key, known_cipher_key());
    assert_eq!(keys.mac_key, known_mac_key());
    assert_eq!(keys.iv, iv());
}

#[test]
fn key_derivation_depends_on_the_salt() {
    let a = KeyDeriver::new(&pass(), &[0u8; 32], &iv()).unwrap();
    let b = KeyDeriver::new(&pass(), &[1u8; 32], &iv()).unwrap();
    assert_ne!(a.cipher_key, b.cipher_key);
    assert_ne!(a.mac_key, b.mac_key);
    assert_eq!(b.cipher_key.len(), 32);
    assert_eq!(b.mac_key.len(), 32);
}

#[test]
fn key_derivation_checks_its_inputs() {
    assert_eq!(KeyDeriver::new(b"123", &[0u8; 32], &iv()).err(), Some(Error::Config));
    assert_eq!(KeyDeriver::new(b"123", &[0u8; 32], &[1, 2]).err(), Some(Error::Config));
    assert_eq!(KeyDeriver::new(&pass(), &[0u8; 32], &[1, 2]).err(), Some(Error::InvalidHeader));
    assert_eq!(
        Decrypter::new(b"12345678901234567890123456789 ", &[], &iv(), true).err(),
        Some(Error::Config)
    );
    assert_eq!(Decrypter::new(&pass(), &[], &[0u8; 17], true).err(), Some(Error::InvalidHeader));
    assert!(Decrypter::new(&pass(), &[], &iv(), true).is_ok());
}

#[test]
fn passphrase_is_thirty_digits() {
    assert!(is_valid_passphrase(&pass()));
    assert!(is_valid_passphrase(b"000000000000000000000000000000"));
    assert!(is_valid_passphrase(b"999999999999999999999999999999"));
    assert!(!is_valid_passphrase(b""));
    assert!(!is_valid_passphrase(b"12345678901234567890123456789"));
    assert!(!is_valid_passphrase(b"1234567890123456789012345678901"));
    assert!(!is_valid_passphrase(b"12345678901234567890123456789/"));
    assert!(!is_valid_passphrase(b"12345678901234567890123456789:"));
    assert!(!is_valid_passphrase(b"x23456789012345678901234567890"));
}

#[test]
fn expansion_of_the_known_digest() {
    let digest = stretch(&pass(), &[0u8; 32]);
    let (cipher_key, mac_key) = derive_secrets(&digest[..32]).unwrap();
    assert_eq!(cipher_key, known_cipher_key());
    assert_eq!(mac_key, known_mac_key());
}

#[test]
fn label_is_backup_export() {
    assert_eq!(label_bytes(), b"Backup Export".to_vec());
}

#[test]
fn blocks_must_be_digest_sized() {
    let (a, b) = keys_from_blocks(vec![1u8; 32], vec![2u8; 32]).unwrap();
    assert_eq!(a, vec![1u8; 32]);
    assert_eq!(b, vec![2u8; 32]);
    assert_eq!(keys_from_blocks(vec![1u8; 31], vec![2u8; 32]).err(), Some(Error::Crypto));
    assert_eq!(keys_from_blocks(vec![1u8; 32], vec![2u8; 33]).err(), Some(Error::Crypto));
}

#[test]
fn decrypt_known_ciphertext() {
    let mut d = known_decrypter(true);
    assert_eq!(d.get_key(), &known_cipher_key()[..]);
    let plain = d.decrypt(&known_ciphertext()).unwrap();
    assert_eq!(plain, b"attack at dawn!!plus a few more bytes".to_vec());
    assert_eq!(d.verify_mac(&[236, 134, 65, 242, 147, 199, 27, 15, 209, 26]), Ok(()));
}

#[test]
fn decrypt_is_fed_to_the_authenticator_in_pieces() {
    let mut d = known_decrypter(true);
    let ct = known_ciphertext();
    d.decrypt(&ct[..5]).unwrap();
    d.decrypt(&ct[5..]).unwrap();
    assert_eq!(d.verify_mac(&[236, 134, 65, 242, 147, 199, 27, 15, 209, 26]), Ok(()));
}

#[test]
fn peek_leaves_the_authenticator_alone() {
    let mut d = known_decrypter(true);
    let ct = known_ciphertext();
    assert_eq!(d.peek_decrypt(&ct[..4]).unwrap(), b"atta".to_vec());
    assert_eq!(d.get_iv(), &iv()[..]);
    let plain = d.decrypt(&ct).unwrap();
    assert_eq!(&plain[..4], b"atta");
    assert_eq!(d.verify_mac(&[236, 134, 65, 242, 147, 199, 27, 15, 209, 26]), Ok(()));
}

#[test]
fn wrong_tag_fails_authentication() {
    let mut d = known_decrypter(true);
    d.decrypt(&known_ciphertext()).unwrap();
    assert_eq!(d.verify_mac(&[236, 134, 65, 242, 147, 199, 27, 15, 209, 27]), Err(Error::Mac));
    d.decrypt(&known_ciphertext()).unwrap();
    assert_eq!(d.verify_mac(&[236, 134, 65, 242, 147, 199, 27, 15, 209]), Err(Error::Mac));
}

#[test]
fn verification_empties_the_authenticator() {
    let mut d = known_decrypter(true);
    d.decrypt(&[1, 2, 3]).unwrap();
    assert_eq!(d.verify_mac(&[0u8; 10]), Err(Error::Mac));
    assert_eq!(d.verify_mac(&[150, 118, 105, 67, 115, 81, 187, 50, 89, 142]), Ok(()));
}

#[test]
fn switched_off_verification_accepts_anything() {
    let mut d = known_decrypter(false);
    d.decrypt(&known_ciphertext()).unwrap();
    assert_eq!(d.verify_mac(&[0u8; 10]), Ok(()));
    assert_eq!(d.verify_mac(&[]), Ok(()));
}

#[test]
fn counter_block_is_fed_before_a_body() {
    let mut d = known_decrypter(true);
    d.mac_update_with_iv();
    d.decrypt(&known_ciphertext()).unwrap();
    assert_eq!(d.verify_mac(&[151, 172, 126, 12, 203, 71, 207, 115, 228, 134]), Ok(()));
}

#[test]
fn increase_iv_steps_the_counter_and_resets() {
    let mut d = known_decrypter(true);
    d.decrypt(&[9, 9, 9]).unwrap();
    d.increase_iv();
    assert_eq!(d.get_iv(), &[1, 2, 3, 5, 0, 0, 0, 0, 0, 0, 0, 0, 0, 0, 0, 0][..]);
    assert_eq!(d.verify_mac(&[150, 118, 105, 67, 115, 81, 187, 50, 89, 142]), Ok(()));
    let plain = d.decrypt(&known_ciphertext()).unwrap();
    assert_ne!(plain, b"attack at dawn!!plus a few more bytes".to_vec());
    assert_eq!(plain.len(), 37);
}

#[test]
fn counter_wraps_and_keeps_the_other_bytes() {
    let mut block: Vec<u8> =
        vec![0xff, 0xff, 0xff, 0xff, 5, 6, 7, 8, 9, 10, 11, 12, 13, 14, 15, 16];
    increase_counter(&mut block);
    assert_eq!(block, vec![0, 0, 0, 0, 5, 6, 7, 8, 9, 10, 11, 12, 13, 14, 15, 16]);
    increase_counter(&mut block);
    assert_eq!(&block[..4], &[0, 0, 0, 1]);
    let mut block: Vec<u8> = vec![0, 0, 0xff, 0xff, 0, 0, 0, 0, 0, 0, 0, 0, 0, 0, 0, 0xff];
    increase_counter(&mut block);
    assert_eq!(&block[..4], &[0, 1, 0, 0]);
    assert_eq!(block[15], 0xff);
}

#[test]
fn big_endian_numbers() {
    assert_eq!(read_be_u32(&[0, 0, 0, 54]), 54);
    assert_eq!(read_be_u32(&[1, 2, 3, 4, 9, 9]), 0x0102_0304);
    assert_eq!(read_be_u32(&[0xff, 0xff, 0xff, 0xff]), u32::MAX);
    assert_eq!(read_be_u32(&[0x80, 0, 0, 0]), 0x8000_0000);
}

#[test]
fn ranges_and_appending() {
    assert_eq!(copy_range(&[1, 2, 3, 4, 5], 1, 4), vec![2, 3, 4]);
    assert_eq!(copy_range(&[1, 2, 3], 3, 3), Vec::<u8>::new());
    let mut v = vec![1u8, 2];
    append_bytes(&mut v, &[3, 4, 5]);
    append_bytes(&mut v, &[]);
    assert_eq!(v, vec![1, 2, 3, 4, 5]);
}

#[test]
fn tag_comparison() {
    let tag: Vec<u8> = (0..32).collect();
    assert_eq!(check_tag(&tag, &[0, 1, 2, 3, 4, 5, 6, 7, 8, 9]), Ok(()));
    assert_eq!(check_tag(&tag, &[0, 1, 2, 3, 4, 5, 6, 7, 8, 10]), Err(Error::Mac));
    assert_eq!(check_tag(&tag, &[0, 1, 2, 3, 4, 5, 6, 7, 8]), Err(Error::Mac));
    assert_eq!(check_tag(&tag, &[0, 1, 2, 3, 4, 5, 6, 7, 8, 9, 10]), Err(Error::Mac));
    assert_eq!(check_tag(&tag[..9], &[0, 1, 2, 3, 4, 5, 6, 7, 8, 9]), Err(Error::Crypto));
    assert_eq!(check_tag(&tag[..10], &[0, 1, 2, 3, 4, 5, 6, 7, 8, 9]), Ok(()));
}

#[test]
fn result_of_the_cipher_library_is_checked() {
    assert_eq!(plain_of(Ok(vec![1, 2, 3]), 3), Ok(vec![1, 2, 3]));
    assert_eq!(plain_of(Ok(vec![1, 2, 3]), 4), Err(Error::Crypto));
    assert_eq!(plain_of(Err(openssl::error::ErrorStack::get()), 0), Err(Error::Crypto));
}

#[test]
fn error_messages() {
    assert_eq!(Error::Mac.message(), "authentication failed");
    assert_eq!(Error::UnexpectedHeader.message(), "unexpected header found");
    assert_eq!(Error::InvalidHeader.message(), "first frame is not a header");
    let all = [
        Error::Config,
        Error::Io,
        Error::Crypto,
        Error::Mac,
        Error::MalformedFrame,
        Error::SanityLimit,
        Error::UnexpectedHeader,
        Error::UnexpectedEnd,
        Error::InvalidHeader,
    ];
    for (i, a) in all.iter().enumerate() {
        for (j, b) in all.iter().enumerate() {
            assert_eq!(a.message() == b.message(), i == j);
        }
    }
}

#[test]
fn big_endian_numbers_as_byteorder_reads_them() {
    let samples: [[u8; 4]; 5] =
        [[0, 0, 0, 0], [0, 0, 1, 0], [0x12, 0x34, 0x56, 0x78], [0xff, 0, 0, 1], [0xff; 4]];
    for bytes in samples {
        let expected = <byteorder::BigEndian as byteorder::ByteOrder>::read_u32(&bytes);
        assert_eq!(read_be_u32(&bytes), expected);
        assert_eq!(read_be_u32(&bytes), u32::from_be_bytes(bytes));
    }
}

#[test]
fn answer_of_the_cipher_library_for_a_tag() {
    let tag: Vec<u8> = (0..32).collect();
    assert_eq!(tag_verdict(Ok(tag.clone()), &[0, 1, 2, 3, 4, 5, 6, 7, 8, 9]), Ok(()));
    assert_eq!(tag_verdict(Ok(tag.clone()), &[9, 1, 2, 3, 4, 5, 6, 7, 8, 9]), Err(Error::Mac));
    assert_eq!(tag_verdict(Ok(vec![0, 1, 2]), &[0, 1, 2]), Err(Error::Crypto));
    assert_eq!(
        tag_verdict(Err(openssl::error::ErrorStack::get()), &[0, 1, 2, 3, 4, 5, 6, 7, 8, 9]),
        Err(Error::Crypto)
    );
    assert_eq!(tag_of(Ok(tag.clone())), Ok(tag.clone()));
    assert_eq!(tag_of(Ok(tag[..31].to_vec())), Err(Error::Crypto));
    assert_eq!(tag_of(Ok(vec![0u8; 33])), Err(Error::Crypto));
    assert_eq!(tag_of(Err(openssl::error::ErrorStack::get())), Err(Error::Crypto));
}

#[test]
fn block_counter_goes_up_over_all_sixteen_bytes() {
    let mut block: Vec<u8> = vec![1, 2, 3, 4, 0, 0, 0, 0, 0, 0, 0, 0, 0, 0, 0, 0];
    step_block(&mut block);
    assert_eq!(block, vec![1, 2, 3, 4, 0, 0, 0, 0, 0, 0, 0, 0, 0, 0, 0, 1]);
    let mut block: Vec<u8> = vec![1, 2, 3, 4, 0, 0, 0, 0, 0, 0, 0, 0, 0, 0, 0xff, 0xff];
    step_block(&mut block);
    assert_eq!(block, vec![1, 2, 3, 4, 0, 0, 0, 0, 0, 0, 0, 0, 0, 1, 0, 0]);
    let mut block: Vec<u8> = vec![0, 0, 0, 0xff, 0xff, 0xff, 0xff, 0xff, 0xff, 0xff, 0xff, 0xff,
        0xff, 0xff, 0xff, 0xff];
    step_block(&mut block);
    assert_eq!(block, vec![0, 0, 1, 0, 0, 0, 0, 0, 0, 0, 0, 0, 0, 0, 0, 0]);
    let mut block: Vec<u8> = vec![0xff; 16];
    step_block(&mut block);
    assert_eq!(block, vec![0u8; 16]);
    let mut block: Vec<u8> = vec![0, 0, 0, 0, 0, 0, 0, 0, 0, 0, 0, 0, 0, 0, 0, 250];
    advance_block(&mut block, 0);
    assert_eq!(block[15], 250);
    advance_block(&mut block, 10);
    assert_eq!(&block[14..], &[1, 4]);
    advance_block(&mut block, 65536);
    assert_eq!(&block[13..], &[1, 1, 4]);
}

#[test]
fn pieces_give_what_one_call_gives() {
    let data: Vec<u8> = (0..200u32).map(|i| (i * 7 % 256) as u8).collect();
    let blocks: [Vec<u8>; 3] = [
        iv(),
        vec![1, 2, 3, 4, 0, 0, 0, 0, 0, 0, 0, 0, 0, 0, 0xff, 0xfe],
        vec![0xff; 16],
    ];
    for block in blocks {
        let make = || {
            let keys = KeyDeriver {
                cipher_key: known_cipher_key(),
                mac_key: known_mac_key(),
                iv: block.clone(),
            };
            Decrypter::from_keys(keys, true)
        };
        let whole = make().decrypt(&data).unwrap();
        assert_eq!(whole.len(), 200);
        for piece in [16usize, 32, 48, 64, 192, 208, 1024] {
            for len in [0usize, 1, 15, 16, 17, 31, 32, 33, 199, 200] {
                let mut d = make();
                let plain = d.decrypt_in_pieces(&data[..len], piece).unwrap();
                assert_eq!(plain, whole[..len].to_vec());
                assert_eq!(d.get_iv(), &block[..]);
            }
        }
    }
}

#[test]
fn pieces_are_fed_to_the_authenticator_as_one() {
    let ct = known_ciphertext();
    let mut d = known_decrypter(true);
    let plain = d.decrypt_in_pieces(&ct, 16).unwrap();
    assert_eq!(plain, b"attack at dawn!!plus a few more bytes".to_vec());
    assert_eq!(d.verify_mac(&[236, 134, 65, 242, 147, 199, 27, 15, 209, 26]), Ok(()));
}
