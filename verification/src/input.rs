//! The reader: from the bytes of a backup to its records, one frame at a
//! time.

use vstd::prelude::*;
use vstd::slice::slice_subrange;
use crate::backups::decoded;
use crate::bytes::be_u32;
use crate::bytes::next_iv;
use crate::bytes::read_be_u32;
use crate::decrypter::decrypted;
use crate::decrypter::decrypted_in_pieces;
use crate::decrypter::MAX_PIECE;
use crate::decrypter::mac_outcome;
use crate::decrypter::Decrypter;
use crate::decrypter::LENGTH_HMAC;
use crate::error::Error;
use crate::frame::frame_decoded;
use crate::frame::Frame;
use crate::frame::FrameView;
use crate::decrypter::plain_view;
use crate::keys::derived;
use crate::keys::IV_LEN;

verus! {

/// The largest frame that a reader accepts unless it is told otherwise:
/// one hundred mebibytes.
pub const MAX_FRAME_SIZE: usize = 104_857_600;

/// The largest limit that a reader can be given: a frame must pass through
/// the cipher library in one call.
pub const MAX_FRAME_LIMIT: usize = 0x7fff_fff0;

/// What the byte counter is ahead of the position by.
pub const HEADER_TRAILER: usize = 16;

/// Where a reader stands: the bytes, the position of the next frame in them,
/// the keys, the counter block of the next frame, and the two settings.
pub ghost struct Cursor {
    pub data: Seq<u8>,
    pub pos: int,
    pub cipher_key: Seq<u8>,
    pub mac_key: Seq<u8>,
    pub iv: Seq<u8>,
    pub verify: bool,
    pub limit: int,
}

/// What a declared length comes to: `plain` are the four decrypted bytes of
/// the length, most significant byte first, `remaining` the bytes of input
/// from the start of the frame on. A length above the limit is refused, then
/// one below the length of a tag, then one that the input does not hold.
pub open spec fn length_decision(plain: Seq<u8>, remaining: int, limit: int) -> Result<int, Error> {
    let len = be_u32(plain);
    if len > limit {
        Err(Error::SanityLimit)
    } else if len < LENGTH_HMAC {
        Err(Error::MalformedFrame)
    } else if remaining - 4 < len {
        Err(Error::Io)
    } else {
        Ok(len)
    }
}

/// What a frame comes to once its bytes are decrypted and authenticated: a
/// fault of the decryption comes first, then the verdict on the tag; the
/// payload is what follows the first four bytes of the plaintext, and it is
/// decoded into a record.
pub open spec fn finished_frame(plain: Result<Seq<u8>, Error>, verdict: Result<(), Error>) -> Result<
    FrameView,
    Error,
> {
    match plain {
        Err(e) => Err(e),
        Ok(bytes) => match verdict {
            Err(e) => Err(e),
            Ok(_) => frame_decoded(bytes.skip(4)),
        },
    }
}

/// What a body comes to once its bytes are decrypted and authenticated: a
/// fault of the decryption comes first, then the verdict on the tag.
pub open spec fn finished_body(plain: Result<Seq<u8>, Error>, verdict: Result<(), Error>) -> Result<
    Seq<u8>,
    Error,
> {
    match plain {
        Err(e) => Err(e),
        Ok(bytes) => match verdict {
            Err(e) => Err(e),
            Ok(_) => Ok(bytes),
        },
    }
}

/// The record in the frame of declared length `len` at `pos`: the four bytes
/// of the length and the payload are decrypted as one piece and
/// authenticated as one piece against the ten bytes that follow them.
pub open spec fn opened_frame(
    data: Seq<u8>,
    pos: int,
    len: int,
    cipher_key: Seq<u8>,
    mac_key: Seq<u8>,
    iv: Seq<u8>,
    verify: bool,
) -> Result<FrameView, Error> {
    let end = pos + 4 + len - LENGTH_HMAC;
    let sealed = data.subrange(pos, end);
    let trailer = data.subrange(end, end + LENGTH_HMAC);
    finished_frame(decrypted(cipher_key, iv, sealed), mac_outcome(verify, mac_key, sealed, trailer))
}

/// The body of `len` bytes at `pos`: it is decrypted under the counter block
/// `iv` and authenticated, with that counter block in front of it, against
/// the ten bytes that follow it. A body that the input does not hold is
/// refused; one longer than the cipher library takes in one call passes
/// through it in pieces.
pub open spec fn opened_body(
    data: Seq<u8>,
    pos: int,
    len: int,
    cipher_key: Seq<u8>,
    mac_key: Seq<u8>,
    iv: Seq<u8>,
    verify: bool,
) -> Result<Seq<u8>, Error> {
    let sealed = data.subrange(pos, pos + len);
    let trailer = data.subrange(pos + len, pos + len + LENGTH_HMAC);
    if data.len() - pos < len + LENGTH_HMAC {
        Err(Error::Io)
    } else {
        finished_body(
            decrypted_in_pieces(cipher_key, iv, sealed, MAX_PIECE as int),
            mac_outcome(verify, mac_key, iv + sealed, trailer),
        )
    }
}

impl Cursor {
    /// The cursor behind `n` more bytes and one more counter step.
    pub open spec fn advanced(self, n: int) -> Cursor {
        Cursor {
            data: self.data,
            pos: self.pos + n,
            cipher_key: self.cipher_key,
            mac_key: self.mac_key,
            iv: next_iv(self.iv),
            verify: self.verify,
            limit: self.limit,
        }
    }

    /// The declared length of the frame at the cursor: what the next four
    /// bytes decrypt to under the current counter block, most significant
    /// byte first. No bytes left is the end of the input; a length above the
    /// limit is refused, then one below the length of a tag, then one that
    /// the input does not hold.
    pub open spec fn frame_length(self) -> Result<int, Error> {
        let remaining = self.data.len() - self.pos;
        if remaining == 0 {
            Err(Error::UnexpectedEnd)
        } else if remaining < 4 {
            Err(Error::Io)
        } else {
            match decrypted(self.cipher_key, self.iv, self.data.subrange(self.pos, self.pos + 4)) {
                Err(e) => Err(e),
                Ok(plain) => length_decision(plain, remaining, self.limit),
            }
        }
    }

    /// What reading one frame at the cursor gives: the record, with its body
    /// where it has one, and the cursor behind it. A header is an error here.
    pub open spec fn step(self) -> Result<(FrameView, Cursor), Error> {
        match self.frame_length() {
            Err(e) => Err(e),
            Ok(len) => match opened_frame(
                self.data,
                self.pos,
                len,
                self.cipher_key,
                self.mac_key,
                self.iv,
                self.verify,
            ) {
                Err(e) => Err(e),
                Ok(record) => {
                    let behind = self.advanced(4 + len);
                    match record.body_length() {
                        Some(body_len) => match opened_body(
                            behind.data,
                            behind.pos,
                            body_len as int,
                            behind.cipher_key,
                            behind.mac_key,
                            behind.iv,
                            behind.verify,
                        ) {
                            Err(e) => Err(e),
                            Ok(body) => Ok(
                                (record.with_data(body), behind.advanced(body_len + LENGTH_HMAC)),
                            ),
                        },
                        None => if record is Header {
                            Err(Error::UnexpectedHeader)
                        } else {
                            Ok((record, behind))
                        },
                    }
                },
            },
        }
    }

    /// The records from the cursor on, in their order, up to the end record,
    /// which is left out, or up to the first error, which is the second
    /// part of the result.
    pub open spec fn records(self) -> (Seq<FrameView>, Option<Error>)
        decreases self.data.len() - self.pos,
    {
        match self.step() {
            Err(e) => (Seq::empty(), Some(e)),
            Ok((record, behind)) => if record is End {
                (Seq::empty(), None)
            } else {
                (seq![record] + behind.records().0, behind.records().1)
            },
        }
    }
}

/// The records that `v` holds.
pub open spec fn frame_views(v: Seq<Frame>) -> Seq<FrameView> {
    Seq::new(v.len(), |i: int| v[i]@)
}

/// What the header of a backup gives: the length of the header's record
/// stands in the first four bytes in the clear, most significant byte first,
/// and the record follows it in the clear. The input must hold both and be
/// small enough for the byte counter; the record must be a header, else the
/// header is invalid. The result is the position behind the header, with the
/// salt and the counter block that the header holds.
pub open spec fn opened_header(data: Seq<u8>) -> Result<(int, Seq<u8>, Seq<u8>), Error> {
    if data.len() + HEADER_TRAILER > usize::MAX || data.len() < 4 {
        Err(Error::Io)
    } else if data.len() - 4 < be_u32(data) {
        Err(Error::Io)
    } else {
        match frame_decoded(data.subrange(4, 4 + be_u32(data))) {
            Ok(FrameView::Header { salt, iv }) => Ok((4 + be_u32(data), salt, iv)),
            _ => Err(Error::InvalidHeader),
        }
    }
}

/// Where a reader stands once a backup is opened: behind the header, with
/// the keys derived from the passphrase and the header's salt, at the
/// header's counter block. It fails where the header does, then where the
/// derivation of the keys does.
pub open spec fn opened(data: Seq<u8>, passphrase: Seq<u8>, verify: bool, limit: int) -> Result<
    Cursor,
    Error,
> {
    match opened_header(data) {
        Err(e) => Err(e),
        Ok((pos, salt, iv)) => match derived(passphrase, salt, iv) {
            Err(e) => Err(e),
            Ok((cipher_key, mac_key)) => Ok(
                Cursor { data, pos, cipher_key, mac_key, iv, verify, limit },
            ),
        },
    }
}

/// Decides on a declared length, given the four decrypted bytes of it.
pub fn declared_length(plain: &[u8], remaining: usize, limit: usize) -> (r: Result<usize, Error>)
    requires
        plain@.len() >= 4,
        remaining >= 4,
    ensures
        match length_decision(plain@, remaining as int, limit as int) {
            Ok(len) => r == Ok::<usize, Error>(len as usize) && LENGTH_HMAC <= len <= limit && 4
                + len <= remaining,
            Err(e) => r == Err::<usize, Error>(e),
        },
{
    let len: usize = read_be_u32(plain) as usize;
    if len > limit {
        return Err(Error::SanityLimit);
    }
    if len < LENGTH_HMAC {
        return Err(Error::MalformedFrame);
    }
    if remaining - 4 < len {
        return Err(Error::Io);
    }
    Ok(len)
}

/// Makes the record of a frame from its plaintext and the verdict on its
/// tag.
pub fn finish_frame(plain: Result<Vec<u8>, Error>, verdict: Result<(), Error>) -> (r: Result<
    Frame,
    Error,
>)
    requires
        plain is Ok ==> plain->Ok_0@.len() >= 4,
    ensures
        decoded(r) == finished_frame(plain_view(plain), verdict),
{
    match plain {
        Err(e) => Err(e),
        Ok(bytes) => match verdict {
            Err(e) => Err(e),
            Ok(_) => {
                let payload: &[u8] = slice_subrange(bytes.as_slice(), 4, bytes.len());
                assert(payload@ =~= bytes@.skip(4));
                Frame::parse(payload)
            },
        },
    }
}

/// Makes a body from its plaintext and the verdict on its tag.
pub fn finish_body(plain: Result<Vec<u8>, Error>, verdict: Result<(), Error>) -> (r: Result<
    Vec<u8>,
    Error,
>)
    ensures
        plain_view(r) == finished_body(plain_view(plain), verdict),
{
    match plain {
        Err(e) => Err(e),
        Ok(bytes) => match verdict {
            Err(e) => Err(e),
            Ok(_) => Ok(bytes),
        },
    }
}

/// Reads the declared length of the frame at `pos`. The decrypter is left
/// as it is.
pub fn read_length(data: &[u8], pos: usize, decrypter: &Decrypter, limit: usize) -> (r: Result<
    usize,
    Error,
>)
    requires
        pos <= data@.len(),
        decrypter.wf(),
    ensures
        match (Cursor {
            data: data@,
            pos: pos as int,
            cipher_key: decrypter.cipher_key(),
            mac_key: decrypter.mac_key(),
            iv: decrypter.iv(),
            verify: decrypter.verifies(),
            limit: limit as int,
        }).frame_length() {
            Ok(len) => r == Ok::<usize, Error>(len as usize) && LENGTH_HMAC <= len <= limit && pos
                + 4 + len <= data@.len(),
            Err(e) => r == Err::<usize, Error>(e),
        },
{
    let remaining: usize = data.len() - pos;
    if remaining == 0 {
        return Err(Error::UnexpectedEnd);
    }
    if remaining < 4 {
        return Err(Error::Io);
    }
    let sealed: &[u8] = slice_subrange(data, pos, pos + 4);
    match decrypter.peek_decrypt(sealed) {
        Ok(plain) => declared_length(plain.as_slice(), remaining, limit),
        Err(e) => Err(e),
    }
}

/// Decrypts, authenticates and decodes the frame of declared length `len` at
/// `pos`, and steps the counter block where the frame is authentic.
pub fn open_frame(data: &[u8], pos: usize, len: usize, decrypter: &mut Decrypter) -> (r: Result<
    Frame,
    Error,
>)
    requires
        LENGTH_HMAC <= len <= MAX_FRAME_LIMIT,
        pos + 4 + len <= data@.len(),
        old(decrypter).wf(),
        old(decrypter).mac_input() == Seq::<u8>::empty(),
    ensures
        final(decrypter).wf(),
        final(decrypter).mac_input() == Seq::<u8>::empty(),
        final(decrypter).same_keys(old(decrypter)),
        r is Ok ==> final(decrypter).iv() == next_iv(old(decrypter).iv()),
        decoded(r) == opened_frame(
            data@,
            pos as int,
            len as int,
            old(decrypter).cipher_key(),
            old(decrypter).mac_key(),
            old(decrypter).iv(),
            old(decrypter).verifies(),
        ),
{
    let total: usize = data.len();
    let end: usize = pos + 4 + len - LENGTH_HMAC;
    let sealed: &[u8] = slice_subrange(data, pos, end);
    let trailer: &[u8] = slice_subrange(data, end, end + LENGTH_HMAC);
    let plain: Result<Vec<u8>, Error> = decrypter.decrypt(sealed);
    assert(Seq::<u8>::empty() + sealed@ =~= sealed@);
    let verdict: Result<(), Error> = decrypter.verify_mac(trailer);
    if plain.is_ok() && verdict.is_ok() {
        decrypter.increase_iv();
    }
    finish_frame(plain, verdict)
}

/// Decrypts and authenticates the body of `len` bytes at `pos`, and steps
/// the counter block where the body is authentic.
pub fn open_body(data: &[u8], pos: usize, len: usize, decrypter: &mut Decrypter) -> (r: Result<
    Vec<u8>,
    Error,
>)
    requires
        pos <= data@.len(),
        old(decrypter).wf(),
        old(decrypter).mac_input() == Seq::<u8>::empty(),
    ensures
        final(decrypter).wf(),
        final(decrypter).mac_input() == Seq::<u8>::empty(),
        final(decrypter).same_keys(old(decrypter)),
        r is Ok ==> final(decrypter).iv() == next_iv(old(decrypter).iv()),
        r is Ok ==> pos + len + LENGTH_HMAC <= data@.len() && r->Ok_0@.len() == len,
        plain_view(r) == opened_body(
            data@,
            pos as int,
            len as int,
            old(decrypter).cipher_key(),
            old(decrypter).mac_key(),
            old(decrypter).iv(),
            old(decrypter).verifies(),
        ),
{
    let room: usize = data.len() - pos;
    if room < LENGTH_HMAC || room - LENGTH_HMAC < len {
        return Err(Error::Io);
    }
    let sealed: &[u8] = slice_subrange(data, pos, pos + len);
    let trailer: &[u8] = slice_subrange(data, pos + len, pos + len + LENGTH_HMAC);
    decrypter.mac_update_with_iv();
    assert(Seq::<u8>::empty() + decrypter.iv() =~= decrypter.iv());
    let plain: Result<Vec<u8>, Error> = decrypter.decrypt_in_pieces(sealed, MAX_PIECE);
    let verdict: Result<(), Error> = decrypter.verify_mac(trailer);
    if plain.is_ok() && verdict.is_ok() {
        decrypter.increase_iv();
    }
    finish_body(plain, verdict)
}

/// Reads the records of one backup in their order.
pub struct InputFile {
    data: Vec<u8>,
    /// Where the next frame starts.
    pos: usize,
    decrypter: Decrypter,
    count_frame: usize,
    count_byte: usize,
    file_bytes: u64,
    max_frame_size: usize,
    /// Set once the end record was read or a read failed.
    finished: bool,
}

impl InputFile {
    /// Where the reader stands.
    pub closed spec fn cursor(&self) -> Cursor {
        Cursor {
            data: self.data@,
            pos: self.pos as int,
            cipher_key: self.decrypter.cipher_key(),
            mac_key: self.decrypter.mac_key(),
            iv: self.decrypter.iv(),
            verify: self.decrypter.verifies(),
            limit: self.max_frame_size as int,
        }
    }

    /// The number of frames read, the header among them.
    pub closed spec fn frames(&self) -> int {
        self.count_frame as int
    }

    /// The byte counter.
    pub closed spec fn bytes(&self) -> int {
        self.count_byte as int
    }

    /// The size of the input.
    pub closed spec fn file_size(&self) -> int {
        self.file_bytes as int
    }

    /// Whether the end record was read or a read failed.
    pub closed spec fn finished(&self) -> bool {
        self.finished
    }

    /// The reader stands within its input between two frames, with an
    /// authenticator that has been fed nothing, and its byte counter is
    /// sixteen ahead of its position.
    pub closed spec fn wf(&self) -> bool {
        &&& self.pos <= self.data@.len()
        &&& self.data@.len() + HEADER_TRAILER <= usize::MAX
        &&& self.decrypter.wf()
        &&& self.decrypter.mac_input() == Seq::<u8>::empty()
        &&& self.count_byte == self.pos + HEADER_TRAILER
        &&& 1 <= self.count_frame <= self.pos
        &&& self.file_bytes == self.data@.len()
        &&& self.max_frame_size <= MAX_FRAME_LIMIT
    }

    /// Whether input, keys and settings are those of `other`.
    pub open spec fn same_backup(&self, other: &InputFile) -> bool {
        &&& self.cursor().data == other.cursor().data
        &&& self.cursor().cipher_key == other.cursor().cipher_key
        &&& self.cursor().mac_key == other.cursor().mac_key
        &&& self.cursor().verify == other.cursor().verify
        &&& self.cursor().limit == other.cursor().limit
        &&& self.file_size() == other.file_size()
    }

    /// The byte counter is sixteen ahead of the position, which lies within
    /// the input; the size of the input is the number of its bytes.
    pub proof fn lemma_byte_counter(&self)
        requires
            self.wf(),
        ensures
            self.bytes() == self.cursor().pos + HEADER_TRAILER,
            0 <= self.cursor().pos <= self.file_size(),
            self.file_size() == self.cursor().data.len(),
            1 <= self.frames(),
    {
    }

    /// Opens a backup: reads the header, which stands in the clear, and
    /// derives the keys from it and the passphrase.
    ///
    /// It fails exactly as `opened` says.
    pub fn new(data: Vec<u8>, password: &[u8], verify_mac: bool) -> (r: Result<InputFile, Error>)
        ensures
            match opened(data@, password@, verify_mac, MAX_FRAME_SIZE as int) {
                Err(e) => r is Err && r->Err_0 == e,
                Ok(cursor) => {
                    &&& r is Ok
                    &&& r->Ok_0.wf()
                    &&& r->Ok_0.cursor() == cursor
                    &&& r->Ok_0.frames() == 1
                    &&& r->Ok_0.bytes() == cursor.pos + HEADER_TRAILER
                    &&& r->Ok_0.file_size() == data@.len()
                    &&& !r->Ok_0.finished()
                },
            },
    {
        let total: usize = data.len();
        if total > usize::MAX - HEADER_TRAILER || total < 4 {
            return Err(Error::Io);
        }
        let len: usize = read_be_u32(data.as_slice()) as usize;
        if total - 4 < len {
            return Err(Error::Io);
        }
        let record: &[u8] = slice_subrange(data.as_slice(), 4, 4 + len);
        let decrypter: Decrypter = match Frame::parse(record) {
            Ok(Frame::Header { salt, iv }) => match Decrypter::new(
                password,
                salt.as_slice(),
                iv.as_slice(),
                verify_mac,
            ) {
                Ok(d) => d,
                Err(e) => {
                    return Err(e);
                },
            },
            _ => {
                return Err(Error::InvalidHeader);
            },
        };
        Ok(
            InputFile {
                data,
                pos: 4 + len,
                decrypter,
                count_frame: 1,
                count_byte: len + 4 + HEADER_TRAILER,
                file_bytes: total as u64,
                max_frame_size: MAX_FRAME_SIZE,
                finished: false,
            },
        )
    }

    /// Sets the largest frame that the reader accepts; a limit above what
    /// one call into the cipher library takes is lowered to that.
    pub fn with_max_frame_size(self, max_frame_size: usize) -> (r: InputFile)
        requires
            self.wf(),
        ensures
            r.wf(),
            r.cursor().limit == if max_frame_size <= MAX_FRAME_LIMIT {
                max_frame_size
            } else {
                MAX_FRAME_LIMIT
            },
            r.cursor().data == self.cursor().data,
            r.cursor().pos == self.cursor().pos,
            r.cursor().cipher_key == self.cursor().cipher_key,
            r.cursor().mac_key == self.cursor().mac_key,
            r.cursor().iv == self.cursor().iv,
            r.cursor().verify == self.cursor().verify,
            r.frames() == self.frames(),
            r.bytes() == self.bytes(),
            r.file_size() == self.file_size(),
            r.finished() == self.finished(),
    {
        let mut reader = self;
        reader.max_frame_size = if max_frame_size <= MAX_FRAME_LIMIT {
            max_frame_size
        } else {
            MAX_FRAME_LIMIT
        };
        reader
    }

    /// Reads the next frame, and the body behind it where the record has
    /// one.
    ///
    /// The outcome is what `Cursor::step` says of where the reader stood. On
    /// success the reader
    /// stands behind what it read, and both counters have gone up. After an
    /// error, and after the end record, the reader is finished. An error
    /// leaves position and counters as they were, so that the frame that
    /// failed is the one after those counted; nothing is said of the
    /// counter block then.
    pub fn read_frame(&mut self) -> (r: Result<Frame, Error>)
        requires
            old(self).wf(),
        ensures
            final(self).wf(),
            final(self).same_backup(old(self)),
            final(self).finished() == (old(self).finished() || r is Err || r->Ok_0@ is End),
            match old(self).cursor().step() {
                Ok((record, behind)) => {
                    &&& r is Ok
                    &&& r->Ok_0@ == record
                    &&& final(self).cursor() == behind
                    &&& final(self).frames() == old(self).frames() + 1
                    &&& final(self).bytes() == old(self).bytes() + (behind.pos - old(
                        self,
                    ).cursor().pos)
                    &&& final(self).bytes() > old(self).bytes()
                },
                Err(e) => r is Err && r->Err_0 == e,
            },
            r is Ok ==> !(r->Ok_0@ is Header),
            r is Err ==> {
                &&& final(self).cursor().pos == old(self).cursor().pos
                &&& final(self).frames() == old(self).frames()
                &&& final(self).bytes() == old(self).bytes()
            },
    {
        let len: usize = match read_length(
            self.data.as_slice(),
            self.pos,
            &self.decrypter,
            self.max_frame_size,
        ) {
            Ok(l) => l,
            Err(e) => {
                self.finished = true;
                return Err(e);
            },
        };
        let mut frame: Frame = match open_frame(
            self.data.as_slice(),
            self.pos,
            len,
            &mut self.decrypter,
        ) {
            Ok(f) => f,
            Err(e) => {
                self.finished = true;
                return Err(e);
            },
        };
        let mut pos: usize = self.pos + 4 + len;
        match frame.body_length() {
            Some(body_len) => {
                match open_body(self.data.as_slice(), pos, body_len, &mut self.decrypter) {
                    Ok(body) => {
                        frame.set_data(body);
                        pos = pos + body_len + LENGTH_HMAC;
                    },
                    Err(e) => {
                        self.finished = true;
                        return Err(e);
                    },
                }
            },
            None => {
                if frame.is_header() {
                    self.finished = true;
                    return Err(Error::UnexpectedHeader);
                }
            },
        }
        self.count_byte = self.count_byte + (pos - self.pos);
        self.pos = pos;
        self.count_frame = self.count_frame + 1;
        if frame.is_end() {
            self.finished = true;
        }
        Ok(frame)
    }

    /// The next record of the backup, or `None` once the reader is finished:
    /// the end record is not handed out, and nothing follows it or an error.
    pub fn next(&mut self) -> (r: Option<Result<Frame, Error>>)
        requires
            old(self).wf(),
        ensures
            final(self).wf(),
            final(self).same_backup(old(self)),
            old(self).finished() ==> {
                &&& r is None
                &&& final(self).finished()
                &&& final(self).cursor() == old(self).cursor()
                &&& final(self).frames() == old(self).frames()
                &&& final(self).bytes() == old(self).bytes()
            },
            !old(self).finished() ==> match old(self).cursor().step() {
                Ok((record, behind)) => {
                    &&& if record is End {
                        r is None
                    } else {
                        r is Some && r->Some_0 is Ok && r->Some_0->Ok_0@ == record
                    }
                    &&& final(self).finished() == (record is End)
                    &&& final(self).cursor() == behind
                    &&& final(self).frames() == old(self).frames() + 1
                    &&& final(self).bytes() > old(self).bytes()
                },
                Err(e) => r is Some && r->Some_0 is Err && r->Some_0->Err_0 == e,
            },
            r is None ==> final(self).finished(),
            r is Some && r->Some_0 is Err ==> {
                &&& final(self).finished()
                &&& final(self).cursor().pos == old(self).cursor().pos
                &&& final(self).frames() == old(self).frames()
                &&& final(self).bytes() == old(self).bytes()
            },
            r is Some && r->Some_0 is Ok ==> !(r->Some_0->Ok_0@ is End) && !(r->Some_0->Ok_0@
                is Header),
    {
        if self.finished {
            return None;
        }
        match self.read_frame() {
            Ok(frame) => if frame.is_end() {
                None
            } else {
                Some(Ok(frame))
            },
            Err(e) => Some(Err(e)),
        }
    }

    /// Reads all records that are left, up to the end record or the first
    /// error, and hands them out in their order with the error, if there
    /// was one. A reader that is finished has none left.
    ///
    /// What comes back is what `Cursor::records` says of where the reader
    /// stood.
    pub fn read_all(&mut self) -> (r: (Vec<Frame>, Option<Error>))
        requires
            old(self).wf(),
        ensures
            final(self).wf(),
            final(self).same_backup(old(self)),
            final(self).finished(),
            old(self).finished() ==> r.0@.len() == 0 && r.1 is None,
            !old(self).finished() ==> (frame_views(r.0@), r.1) == old(self).cursor().records(),
            forall|i: int|
                0 <= i < r.0@.len() ==> !((#[trigger] r.0@[i])@ is End) && !(r.0@[i]@ is Header),
    {
        let mut out: Vec<Frame> = Vec::new();
        if self.finished {
            return (out, None);
        }
        let ghost all = old(self).cursor().records();
        loop
            invariant
                self.wf(),
                self.same_backup(old(self)),
                !self.finished(),
                !old(self).finished(),
                all == old(self).cursor().records(),
                all.0 == frame_views(out@) + self.cursor().records().0,
                all.1 == self.cursor().records().1,
                forall|i: int|
                    0 <= i < out@.len() ==> !((#[trigger] out@[i])@ is End) && !(out@[i]@
                        is Header),
            decreases self.file_size() + HEADER_TRAILER - self.bytes(),
        {
            proof {
                self.lemma_byte_counter();
            }
            match self.read_frame() {
                Ok(frame) => {
                    proof {
                        self.lemma_byte_counter();
                    }
                    if frame.is_end() {
                        return (out, None);
                    }
                    out.push(frame);
                },
                Err(e) => {
                    return (out, Some(e));
                },
            }
        }
    }

    /// The number of frames read so far, the header among them. A read that
    /// fails leaves it as it was: the frame that failed is the one after it.
    pub fn get_count_frame(&self) -> (r: usize)
        ensures
            r == self.frames(),
    {
        self.count_frame
    }

    /// The byte counter.
    pub fn get_count_byte(&self) -> (r: usize)
        ensures
            r == self.bytes(),
    {
        self.count_byte
    }

    /// The size of the input in bytes.
    pub fn get_file_size(&self) -> (r: u64)
        ensures
            r == self.file_size(),
    {
        self.file_bytes
    }

    /// Whether the end record was read or a read failed.
    pub fn is_finished(&self) -> (r: bool)
        ensures
            r == self.finished(),
    {
        self.finished
    }
}

/// What a backup decodes to: the records behind its header up to the end
/// record, with the error that stopped the reading, if one did; or the
/// error that kept the backup from being opened.
pub open spec fn backup_records(data: Seq<u8>, passphrase: Seq<u8>, verify: bool) -> Result<
    (Seq<FrameView>, Option<Error>),
    Error,
> {
    match opened(data, passphrase, verify, MAX_FRAME_SIZE as int) {
        Err(e) => Err(e),
        Ok(cursor) => Ok(cursor.records()),
    }
}

/// Opens a backup and reads all its records. What comes back depends on the
/// bytes, the passphrase and the switch alone: the same backup read twice
/// gives the same records.
pub fn decode_backup(data: Vec<u8>, password: &[u8], verify_mac: bool) -> (r: Result<
    (Vec<Frame>, Option<Error>),
    Error,
>)
    ensures
        match backup_records(data@, password@, verify_mac) {
            Err(e) => r is Err && r->Err_0 == e,
            Ok((records, error)) => {
                &&& r is Ok
                &&& frame_views(r->Ok_0.0@) == records
                &&& r->Ok_0.1 == error
            },
        },
{
    match InputFile::new(data, password, verify_mac) {
        Ok(mut reader) => Ok(reader.read_all()),
        Err(e) => Err(e),
    }
}

} // verus!
