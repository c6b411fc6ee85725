//! The records of a backup as they stand on the wire: every field optional,
//! every record a list of numbered fields.

use vstd::prelude::*;
use crate::error::Error;
use crate::fields::bool_field;
use crate::fields::bytes_field;
use crate::fields::fixed32_field;
use crate::fields::fixed64_field;
use crate::fields::get_bool;
use crate::fields::get_bytes;
use crate::fields::get_fixed32;
use crate::fields::get_fixed64;
use crate::fields::get_int32;
use crate::fields::get_int64;
use crate::fields::get_message;
use crate::fields::get_repeated_bytes;
use crate::fields::get_text;
use crate::fields::get_uint32;
use crate::fields::get_uint64;
use crate::fields::int32_field;
use crate::fields::int64_field;
use crate::fields::lines;
use crate::fields::message_field;
use crate::fields::opt_bytes;
use crate::fields::opt_text;
use crate::fields::read_text;
use crate::fields::repeated_bytes;
use crate::fields::rows;
use crate::fields::text;
use crate::fields::text_field;
use crate::fields::uint32_field;
use crate::fields::uint64_field;
use crate::wire::fields_of;
use crate::wire::parse_fields;

verus! {

/// The first record of a backup: what the keys are derived from.
pub struct Header {
    pub iv: Option<Vec<u8>>,
    pub salt: Option<Vec<u8>>,
}

/// One bind value of a statement; the field that is present gives its type.
pub struct SqlParameter {
    pub string_paramter: Option<String>,
    pub integer_parameter: Option<u64>,
    /// The bits of a 64-bit floating-point number.
    pub double_parameter: Option<u64>,
    pub blob_parameter: Option<Vec<u8>>,
    pub nullparameter: Option<bool>,
}

/// A statement with its bind values in order.
pub struct SqlStatement {
    pub statement: Option<String>,
    pub parameters: Vec<SqlParameter>,
}

/// One entry of a preference file.
pub struct SharedPreference {
    pub file: Option<String>,
    pub key: Option<String>,
    pub value: Option<String>,
    pub boolean_value: Option<bool>,
    pub string_set_value: Vec<String>,
    pub is_string_set_value: Option<bool>,
}

/// The announcement of an attachment's body.
pub struct Attachment {
    pub row_id: Option<u64>,
    pub attachment_id: Option<u64>,
    pub length: Option<u32>,
}

/// The version of the database schema.
pub struct DatabaseVersion {
    pub version: Option<u32>,
}

/// The announcement of an avatar's body.
pub struct Avatar {
    pub name: Option<String>,
    pub length: Option<u32>,
}

/// The announcement of a sticker's body.
pub struct Sticker {
    pub row_id: Option<u64>,
    pub length: Option<u32>,
}

/// One entry of the key-value store.
pub struct KeyValue {
    pub key: Option<String>,
    pub blob_value: Option<Vec<u8>>,
    pub boolean_value: Option<bool>,
    /// The bits of a 32-bit floating-point number.
    pub float_value: Option<u32>,
    pub integer_value: Option<i32>,
    pub long_value: Option<i64>,
    pub string_value: Option<String>,
}

/// A record of the stream: at most one of its fields should be present.
pub struct BackupFrame {
    pub header: Option<Header>,
    pub statement: Option<SqlStatement>,
    pub preference: Option<SharedPreference>,
    pub attachment: Option<Attachment>,
    pub version: Option<DatabaseVersion>,
    pub end: Option<bool>,
    pub avatar: Option<Avatar>,
    pub sticker: Option<Sticker>,
    pub key_value: Option<KeyValue>,
}

/// A header as values.
pub ghost struct HeaderView {
    pub iv: Option<Seq<u8>>,
    pub salt: Option<Seq<u8>>,
}

/// A bind value of the wire as values.
pub ghost struct SqlParameterView {
    pub string_paramter: Option<Seq<char>>,
    pub integer_parameter: Option<u64>,
    pub double_parameter: Option<u64>,
    pub blob_parameter: Option<Seq<u8>>,
    pub nullparameter: Option<bool>,
}

/// A statement of the wire as values.
pub ghost struct SqlStatementView {
    pub statement: Option<Seq<char>>,
    pub parameters: Seq<SqlParameterView>,
}

/// A preference entry as values.
pub ghost struct SharedPreferenceView {
    pub file: Option<Seq<char>>,
    pub key: Option<Seq<char>>,
    pub value: Option<Seq<char>>,
    pub boolean_value: Option<bool>,
    pub string_set_value: Seq<Seq<char>>,
    pub is_string_set_value: Option<bool>,
}

/// A key-value entry as values.
pub ghost struct KeyValueView {
    pub key: Option<Seq<char>>,
    pub blob_value: Option<Seq<u8>>,
    pub boolean_value: Option<bool>,
    pub float_value: Option<u32>,
    pub integer_value: Option<i32>,
    pub long_value: Option<i64>,
    pub string_value: Option<Seq<char>>,
}

/// An avatar record as values.
pub ghost struct AvatarView {
    pub name: Option<Seq<char>>,
    pub length: Option<u32>,
}

/// A record of the stream as values.
pub ghost struct BackupFrameView {
    pub header: Option<HeaderView>,
    pub statement: Option<SqlStatementView>,
    pub preference: Option<SharedPreferenceView>,
    pub attachment: Option<Attachment>,
    pub version: Option<DatabaseVersion>,
    pub end: Option<bool>,
    pub avatar: Option<AvatarView>,
    pub sticker: Option<Sticker>,
    pub key_value: Option<KeyValueView>,
}

impl View for Header {
    type V = HeaderView;

    open spec fn view(&self) -> HeaderView {
        HeaderView { iv: opt_bytes(self.iv), salt: opt_bytes(self.salt) }
    }
}

impl View for SqlParameter {
    type V = SqlParameterView;

    open spec fn view(&self) -> SqlParameterView {
        SqlParameterView {
            string_paramter: opt_text(self.string_paramter),
            integer_parameter: self.integer_parameter,
            double_parameter: self.double_parameter,
            blob_parameter: opt_bytes(self.blob_parameter),
            nullparameter: self.nullparameter,
        }
    }
}

/// The bind values that `v` holds.
pub open spec fn parameter_views(v: Seq<SqlParameter>) -> Seq<SqlParameterView> {
    Seq::new(v.len(), |i: int| v[i]@)
}

impl View for SqlStatement {
    type V = SqlStatementView;

    open spec fn view(&self) -> SqlStatementView {
        SqlStatementView {
            statement: opt_text(self.statement),
            parameters: parameter_views(self.parameters@),
        }
    }
}

impl View for SharedPreference {
    type V = SharedPreferenceView;

    open spec fn view(&self) -> SharedPreferenceView {
        SharedPreferenceView {
            file: opt_text(self.file),
            key: opt_text(self.key),
            value: opt_text(self.value),
            boolean_value: self.boolean_value,
            string_set_value: lines(self.string_set_value@),
            is_string_set_value: self.is_string_set_value,
        }
    }
}

impl View for KeyValue {
    type V = KeyValueView;

    open spec fn view(&self) -> KeyValueView {
        KeyValueView {
            key: opt_text(self.key),
            blob_value: opt_bytes(self.blob_value),
            boolean_value: self.boolean_value,
            float_value: self.float_value,
            integer_value: self.integer_value,
            long_value: self.long_value,
            string_value: opt_text(self.string_value),
        }
    }
}

impl View for Avatar {
    type V = AvatarView;

    open spec fn view(&self) -> AvatarView {
        AvatarView { name: opt_text(self.name), length: self.length }
    }
}

/// The view of an optional record.
pub open spec fn opt_view<T: View>(o: Option<T>) -> Option<T::V> {
    match o {
        Some(t) => Some(t@),
        None => None,
    }
}

impl View for BackupFrame {
    type V = BackupFrameView;

    open spec fn view(&self) -> BackupFrameView {
        BackupFrameView {
            header: opt_view(self.header),
            statement: opt_view(self.statement),
            preference: opt_view(self.preference),
            attachment: self.attachment,
            version: self.version,
            end: self.end,
            avatar: opt_view(self.avatar),
            sticker: self.sticker,
            key_value: opt_view(self.key_value),
        }
    }
}

/// The view of what a decoder returned.
pub open spec fn decoded<T: View>(r: Result<T, Error>) -> Result<T::V, Error> {
    match r {
        Ok(t) => Ok(t@),
        Err(e) => Err(e),
    }
}

/// The texts that `chunks` spell, or the error of one that spells none.
pub open spec fn texts(chunks: Seq<Seq<u8>>) -> Result<Seq<Seq<char>>, Error>
    decreases chunks.len(),
{
    if chunks.len() == 0 {
        Ok(Seq::empty())
    } else {
        match (texts(chunks.drop_last()), text(chunks.last())) {
            (Ok(init), Ok(t)) => Ok(init.push(t)),
            _ => Err(Error::MalformedFrame),
        }
    }
}

/// The bind values that `chunks` hold, or the error of one that is broken.
pub open spec fn parameters(chunks: Seq<Seq<u8>>) -> Result<Seq<SqlParameterView>, Error>
    decreases chunks.len(),
{
    if chunks.len() == 0 {
        Ok(Seq::empty())
    } else {
        match (parameters(chunks.drop_last()), SqlParameterView::decode(chunks.last())) {
            (Ok(init), Ok(p)) => Ok(init.push(p)),
            _ => Err(Error::MalformedFrame),
        }
    }
}

/// An embedded record that is absent decodes to nothing; one that is present
/// decodes as `decode` says.
pub open spec fn embedded<V>(
    payload: Option<Seq<u8>>,
    decode: spec_fn(Seq<u8>) -> Result<V, Error>,
) -> Result<Option<V>, Error> {
    match payload {
        None => Ok(None),
        Some(b) => match decode(b) {
            Ok(v) => Ok(Some(v)),
            Err(e) => Err(e),
        },
    }
}

impl HeaderView {
    /// A header: the counter block is field 1, the salt field 2.
    pub open spec fn decode(b: Seq<u8>) -> Result<HeaderView, Error> {
        match fields_of(b) {
            None => Err(Error::MalformedFrame),
            Some(fs) => Ok(HeaderView { iv: bytes_field(b, fs, 1), salt: bytes_field(b, fs, 2) }),
        }
    }
}

impl SqlParameterView {
    /// A bind value: text is field 1, an integer field 2, a floating-point
    /// number field 3, a byte string field 4 and the null marker field 5.
    pub open spec fn decode(b: Seq<u8>) -> Result<SqlParameterView, Error> {
        match fields_of(b) {
            None => Err(Error::MalformedFrame),
            Some(fs) => match text_field(b, fs, 1) {
                Err(e) => Err(e),
                Ok(string_paramter) => Ok(
                    SqlParameterView {
                        string_paramter,
                        integer_parameter: uint64_field(fs, 2),
                        double_parameter: fixed64_field(fs, 3),
                        blob_parameter: bytes_field(b, fs, 4),
                        nullparameter: bool_field(fs, 5),
                    },
                ),
            },
        }
    }
}

impl SqlStatementView {
    /// A statement: the text is field 1, each bind value an occurrence of
    /// field 2.
    pub open spec fn decode(b: Seq<u8>) -> Result<SqlStatementView, Error> {
        match fields_of(b) {
            None => Err(Error::MalformedFrame),
            Some(fs) => match (text_field(b, fs, 1), parameters(repeated_bytes(b, fs, 2))) {
                (Ok(statement), Ok(parameters)) => Ok(SqlStatementView { statement, parameters }),
                _ => Err(Error::MalformedFrame),
            },
        }
    }
}

impl SharedPreferenceView {
    /// A preference: file, key and value are the texts of fields 1 to 3, the
    /// truth value is field 4, the members of a set of texts are the
    /// occurrences of field 5, and field 6 says whether the value is that
    /// set.
    pub open spec fn decode(b: Seq<u8>) -> Result<SharedPreferenceView, Error> {
        match fields_of(b) {
            None => Err(Error::MalformedFrame),
            Some(fs) => match (
                text_field(b, fs, 1),
                text_field(b, fs, 2),
                text_field(b, fs, 3),
                texts(repeated_bytes(b, fs, 5)),
            ) {
                (Ok(file), Ok(key), Ok(value), Ok(string_set_value)) => Ok(
                    SharedPreferenceView {
                        file,
                        key,
                        value,
                        boolean_value: bool_field(fs, 4),
                        string_set_value,
                        is_string_set_value: bool_field(fs, 6),
                    },
                ),
                _ => Err(Error::MalformedFrame),
            },
        }
    }
}

impl KeyValueView {
    /// An entry of the key-value store: the key is the text of field 1; the
    /// value is a byte string in field 2, a truth value in field 3, a 32-bit
    /// floating-point number in field 4, a 32-bit integer in field 5, a
    /// 64-bit integer in field 6 or a text in field 7.
    pub open spec fn decode(b: Seq<u8>) -> Result<KeyValueView, Error> {
        match fields_of(b) {
            None => Err(Error::MalformedFrame),
            Some(fs) => match (text_field(b, fs, 1), int32_field(fs, 5), text_field(b, fs, 7)) {
                (Ok(key), Ok(integer_value), Ok(string_value)) => Ok(
                    KeyValueView {
                        key,
                        blob_value: bytes_field(b, fs, 2),
                        boolean_value: bool_field(fs, 3),
                        float_value: fixed32_field(fs, 4),
                        integer_value,
                        long_value: int64_field(fs, 6),
                        string_value,
                    },
                ),
                _ => Err(Error::MalformedFrame),
            },
        }
    }
}

impl AvatarView {
    /// An avatar: the name is the text of field 1, the length field 2.
    pub open spec fn decode(b: Seq<u8>) -> Result<AvatarView, Error> {
        match fields_of(b) {
            None => Err(Error::MalformedFrame),
            Some(fs) => match (text_field(b, fs, 1), uint32_field(fs, 2)) {
                (Ok(name), Ok(length)) => Ok(AvatarView { name, length }),
                _ => Err(Error::MalformedFrame),
            },
        }
    }
}

impl Attachment {
    /// An attachment: the row is field 1, the identifier field 2, the length
    /// field 3.
    pub open spec fn spec_decode(b: Seq<u8>) -> Result<Attachment, Error> {
        match fields_of(b) {
            None => Err(Error::MalformedFrame),
            Some(fs) => match uint32_field(fs, 3) {
                Ok(length) => Ok(
                    Attachment {
                        row_id: uint64_field(fs, 1),
                        attachment_id: uint64_field(fs, 2),
                        length,
                    },
                ),
                Err(e) => Err(e),
            },
        }
    }

    /// Decodes an attachment record.
    pub fn decode(b: &[u8]) -> (r: Result<Attachment, Error>)
        ensures
            r == Attachment::spec_decode(b@),
    {
        let fields = match parse_fields(b) {
            Some(f) => f,
            None => {
                return Err(Error::MalformedFrame);
            },
        };
        let length = match get_uint32(&fields, 3) {
            Ok(v) => v,
            Err(e) => {
                return Err(e);
            },
        };
        Ok(Attachment { row_id: get_uint64(&fields, 1), attachment_id: get_uint64(&fields, 2), length })
    }
}

impl Sticker {
    /// A sticker: the row is field 1, the length field 2.
    pub open spec fn spec_decode(b: Seq<u8>) -> Result<Sticker, Error> {
        match fields_of(b) {
            None => Err(Error::MalformedFrame),
            Some(fs) => match uint32_field(fs, 2) {
                Ok(length) => Ok(Sticker { row_id: uint64_field(fs, 1), length }),
                Err(e) => Err(e),
            },
        }
    }

    /// Decodes a sticker record.
    pub fn decode(b: &[u8]) -> (r: Result<Sticker, Error>)
        ensures
            r == Sticker::spec_decode(b@),
    {
        let fields = match parse_fields(b) {
            Some(f) => f,
            None => {
                return Err(Error::MalformedFrame);
            },
        };
        match get_uint32(&fields, 2) {
            Ok(length) => Ok(Sticker { row_id: get_uint64(&fields, 1), length }),
            Err(e) => Err(e),
        }
    }
}

impl DatabaseVersion {
    /// A version record: the version is field 1.
    pub open spec fn spec_decode(b: Seq<u8>) -> Result<DatabaseVersion, Error> {
        match fields_of(b) {
            None => Err(Error::MalformedFrame),
            Some(fs) => match uint32_field(fs, 1) {
                Ok(version) => Ok(DatabaseVersion { version }),
                Err(e) => Err(e),
            },
        }
    }

    /// Decodes a version record.
    pub fn decode(b: &[u8]) -> (r: Result<DatabaseVersion, Error>)
        ensures
            r == DatabaseVersion::spec_decode(b@),
    {
        let fields = match parse_fields(b) {
            Some(f) => f,
            None => {
                return Err(Error::MalformedFrame);
            },
        };
        match get_uint32(&fields, 1) {
            Ok(version) => Ok(DatabaseVersion { version }),
            Err(e) => Err(e),
        }
    }
}

impl Header {
    /// Decodes a header record.
    pub fn decode(b: &[u8]) -> (r: Result<Header, Error>)
        ensures
            decoded(r) == HeaderView::decode(b@),
    {
        let fields = match parse_fields(b) {
            Some(f) => f,
            None => {
                return Err(Error::MalformedFrame);
            },
        };
        Ok(Header { iv: get_bytes(b, &fields, 1), salt: get_bytes(b, &fields, 2) })
    }
}

impl SqlParameter {
    /// Decodes a bind value.
    pub fn decode(b: &[u8]) -> (r: Result<SqlParameter, Error>)
        ensures
            decoded(r) == SqlParameterView::decode(b@),
    {
        let fields = match parse_fields(b) {
            Some(f) => f,
            None => {
                return Err(Error::MalformedFrame);
            },
        };
        let string_paramter = match get_text(b, &fields, 1) {
            Ok(v) => v,
            Err(e) => {
                return Err(e);
            },
        };
        Ok(
            SqlParameter {
                string_paramter,
                integer_parameter: get_uint64(&fields, 2),
                double_parameter: get_fixed64(&fields, 3),
                blob_parameter: get_bytes(b, &fields, 4),
                nullparameter: get_bool(&fields, 5),
            },
        )
    }
}

/// A broken member breaks every list that it is in.
pub proof fn lemma_parameters_prefix(chunks: Seq<Seq<u8>>, n: int)
    requires
        0 <= n <= chunks.len(),
        parameters(chunks.take(n)) is Err,
    ensures
        parameters(chunks) is Err,
    decreases chunks.len(),
{
    if n < chunks.len() {
        assert(chunks.drop_last().take(n) =~= chunks.take(n));
        lemma_parameters_prefix(chunks.drop_last(), n);
    } else {
        assert(chunks.take(n) =~= chunks);
    }
}

/// A broken member breaks every list that it is in.
pub proof fn lemma_texts_prefix(chunks: Seq<Seq<u8>>, n: int)
    requires
        0 <= n <= chunks.len(),
        texts(chunks.take(n)) is Err,
    ensures
        texts(chunks) is Err,
    decreases chunks.len(),
{
    if n < chunks.len() {
        assert(chunks.drop_last().take(n) =~= chunks.take(n));
        lemma_texts_prefix(chunks.drop_last(), n);
    } else {
        assert(chunks.take(n) =~= chunks);
    }
}

/// Decodes the bind values of a statement in order.
pub fn decode_parameters(chunks: Vec<Vec<u8>>) -> (r: Result<Vec<SqlParameter>, Error>)
    ensures
        r is Ok <==> parameters(rows(chunks@)) is Ok,
        r is Ok ==> Ok::<Seq<SqlParameterView>, Error>(parameter_views(r->Ok_0@)) == parameters(
            rows(chunks@),
        ),
        r is Err ==> r->Err_0 == Error::MalformedFrame,
{
    let mut out: Vec<SqlParameter> = Vec::new();
    let mut i: usize = 0;
    assert(parameter_views(out@) =~= Seq::<SqlParameterView>::empty());
    while i < chunks.len()
        invariant
            i <= chunks@.len(),
            parameters(rows(chunks@).take(i as int)) == Ok::<Seq<SqlParameterView>, Error>(
                parameter_views(out@),
            ),
        decreases chunks@.len() - i,
    {
        let ghost prefix = rows(chunks@).take(i + 1);
        assert(prefix.drop_last() =~= rows(chunks@).take(i as int));
        match SqlParameter::decode(chunks[i].as_slice()) {
            Ok(p) => {
                let ghost before = out@;
                out.push(p);
                assert(parameter_views(out@) =~= parameter_views(before).push(p@));
            },
            Err(_) => {
                proof {
                    lemma_parameters_prefix(rows(chunks@), i + 1);
                }
                return Err(Error::MalformedFrame);
            },
        }
        i = i + 1;
    }
    assert(rows(chunks@).take(i as int) =~= rows(chunks@));
    Ok(out)
}

/// Decodes the members of a set of texts in order.
pub fn decode_texts(given: Vec<Vec<u8>>) -> (r: Result<Vec<String>, Error>)
    ensures
        r is Ok <==> texts(rows(given@)) is Ok,
        r is Ok ==> Ok::<Seq<Seq<char>>, Error>(lines(r->Ok_0@)) == texts(rows(given@)),
        r is Err ==> r->Err_0 == Error::MalformedFrame,
{
    let ghost all = rows(given@);
    let mut chunks: Vec<Vec<u8>> = given;
    let mut out: Vec<String> = Vec::new();
    let mut i: usize = 0;
    let n: usize = chunks.len();
    assert(lines(out@) =~= Seq::<Seq<char>>::empty());
    while i < n
        invariant
            i <= n == chunks@.len() == all.len(),
            all == rows(given@),
            forall|j: int| i <= j < n ==> chunks@[j]@ == all[j],
            texts(all.take(i as int)) == Ok::<Seq<Seq<char>>, Error>(lines(out@)),
        decreases n - i,
    {
        let ghost prefix = all.take(i + 1);
        assert(prefix.drop_last() =~= all.take(i as int));
        let mut piece: Vec<u8> = Vec::new();
        std::mem::swap(&mut chunks[i], &mut piece);
        match read_text(piece) {
            Ok(s) => {
                let ghost before = out@;
                out.push(s);
                assert(lines(out@) =~= lines(before).push(s@));
            },
            Err(_) => {
                proof {
                    lemma_texts_prefix(all, i + 1);
                }
                return Err(Error::MalformedFrame);
            },
        }
        i = i + 1;
    }
    assert(all.take(i as int) =~= all);
    Ok(out)
}

impl SqlStatement {
    /// Decodes a statement record.
    pub fn decode(b: &[u8]) -> (r: Result<SqlStatement, Error>)
        ensures
            decoded(r) == SqlStatementView::decode(b@),
    {
        let fields = match parse_fields(b) {
            Some(f) => f,
            None => {
                return Err(Error::MalformedFrame);
            },
        };
        let statement = match get_text(b, &fields, 1) {
            Ok(v) => v,
            Err(_) => {
                return Err(Error::MalformedFrame);
            },
        };
        match decode_parameters(get_repeated_bytes(b, &fields, 2)) {
            Ok(parameters) => Ok(SqlStatement { statement, parameters }),
            Err(_) => Err(Error::MalformedFrame),
        }
    }
}

impl SharedPreference {
    /// Decodes a preference record.
    pub fn decode(b: &[u8]) -> (r: Result<SharedPreference, Error>)
        ensures
            decoded(r) == SharedPreferenceView::decode(b@),
    {
        let fields = match parse_fields(b) {
            Some(f) => f,
            None => {
                return Err(Error::MalformedFrame);
            },
        };
        let file = match get_text(b, &fields, 1) {
            Ok(v) => v,
            Err(_) => {
                return Err(Error::MalformedFrame);
            },
        };
        let key = match get_text(b, &fields, 2) {
            Ok(v) => v,
            Err(_) => {
                return Err(Error::MalformedFrame);
            },
        };
        let value = match get_text(b, &fields, 3) {
            Ok(v) => v,
            Err(_) => {
                return Err(Error::MalformedFrame);
            },
        };
        let string_set_value = match decode_texts(get_repeated_bytes(b, &fields, 5)) {
            Ok(v) => v,
            Err(_) => {
                return Err(Error::MalformedFrame);
            },
        };
        Ok(
            SharedPreference {
                file,
                key,
                value,
                boolean_value: get_bool(&fields, 4),
                string_set_value,
                is_string_set_value: get_bool(&fields, 6),
            },
        )
    }
}

impl KeyValue {
    /// Decodes an entry of the key-value store.
    pub fn decode(b: &[u8]) -> (r: Result<KeyValue, Error>)
        ensures
            decoded(r) == KeyValueView::decode(b@),
    {
        let fields = match parse_fields(b) {
            Some(f) => f,
            None => {
                return Err(Error::MalformedFrame);
            },
        };
        let key = match get_text(b, &fields, 1) {
            Ok(v) => v,
            Err(_) => {
                return Err(Error::MalformedFrame);
            },
        };
        let integer_value = match get_int32(&fields, 5) {
            Ok(v) => v,
            Err(_) => {
                return Err(Error::MalformedFrame);
            },
        };
        let string_value = match get_text(b, &fields, 7) {
            Ok(v) => v,
            Err(_) => {
                return Err(Error::MalformedFrame);
            },
        };
        Ok(
            KeyValue {
                key,
                blob_value: get_bytes(b, &fields, 2),
                boolean_value: get_bool(&fields, 3),
                float_value: get_fixed32(&fields, 4),
                integer_value,
                long_value: get_int64(&fields, 6),
                string_value,
            },
        )
    }
}

impl Avatar {
    /// Decodes an avatar record.
    pub fn decode(b: &[u8]) -> (r: Result<Avatar, Error>)
        ensures
            decoded(r) == AvatarView::decode(b@),
    {
        let fields = match parse_fields(b) {
            Some(f) => f,
            None => {
                return Err(Error::MalformedFrame);
            },
        };
        let name = match get_text(b, &fields, 1) {
            Ok(v) => v,
            Err(_) => {
                return Err(Error::MalformedFrame);
            },
        };
        match get_uint32(&fields, 2) {
            Ok(length) => Ok(Avatar { name, length }),
            Err(_) => Err(Error::MalformedFrame),
        }
    }
}

impl BackupFrameView {
    /// A record of the stream: the header is field 1, a statement field 2, a
    /// preference field 3, an attachment field 4, the version field 5, the
    /// end marker field 6, an avatar field 7, a sticker field 8 and an entry
    /// of the key-value store field 9. Fields of other numbers are passed
    /// over. A record is broken where its fields are, or where one of the
    /// records embedded in it is.
    pub open spec fn decode(b: Seq<u8>) -> Result<BackupFrameView, Error> {
        match fields_of(b) {
            None => Err(Error::MalformedFrame),
            Some(fs) => match (
                embedded(message_field(b, fs, 1), |x: Seq<u8>| HeaderView::decode(x)),
                embedded(message_field(b, fs, 2), |x: Seq<u8>| SqlStatementView::decode(x)),
                embedded(message_field(b, fs, 3), |x: Seq<u8>| SharedPreferenceView::decode(x)),
                embedded(message_field(b, fs, 4), |x: Seq<u8>| Attachment::spec_decode(x)),
                embedded(message_field(b, fs, 5), |x: Seq<u8>| DatabaseVersion::spec_decode(x)),
                embedded(message_field(b, fs, 7), |x: Seq<u8>| AvatarView::decode(x)),
                embedded(message_field(b, fs, 8), |x: Seq<u8>| Sticker::spec_decode(x)),
                embedded(message_field(b, fs, 9), |x: Seq<u8>| KeyValueView::decode(x)),
            ) {
                (
                    Ok(header),
                    Ok(statement),
                    Ok(preference),
                    Ok(attachment),
                    Ok(version),
                    Ok(avatar),
                    Ok(sticker),
                    Ok(key_value),
                ) => Ok(
                    BackupFrameView {
                        header,
                        statement,
                        preference,
                        attachment,
                        version,
                        end: bool_field(fs, 6),
                        avatar,
                        sticker,
                        key_value,
                    },
                ),
                _ => Err(Error::MalformedFrame),
            },
        }
    }

    /// How many of the nine fields are present.
    pub open spec fn populated(&self) -> int {
        (if self.header is Some { 1int } else { 0 })
        + (if self.statement is Some { 1int } else { 0 })
        + (if self.preference is Some { 1int } else { 0 })
        + (if self.attachment is Some { 1int } else { 0 })
        + (if self.version is Some { 1int } else { 0 })
        + (if self.end is Some { 1int } else { 0 })
        + (if self.avatar is Some { 1int } else { 0 })
        + (if self.sticker is Some { 1int } else { 0 })
        + (if self.key_value is Some { 1int } else { 0 })
    }
}

impl BackupFrame {
    /// Decodes a record of the stream.
    pub fn decode(b: &[u8]) -> (r: Result<BackupFrame, Error>)
        ensures
            decoded(r) == BackupFrameView::decode(b@),
    {
        let fields = match parse_fields(b) {
            Some(f) => f,
            None => {
                return Err(Error::MalformedFrame);
            },
        };
        let header = match get_message(b, &fields, 1) {
            Some(p) => match Header::decode(p.as_slice()) {
                Ok(v) => Some(v),
                Err(_) => {
                    return Err(Error::MalformedFrame);
                },
            },
            None => None,
        };
        let statement = match get_message(b, &fields, 2) {
            Some(p) => match SqlStatement::decode(p.as_slice()) {
                Ok(v) => Some(v),
                Err(_) => {
                    return Err(Error::MalformedFrame);
                },
            },
            None => None,
        };
        let preference = match get_message(b, &fields, 3) {
            Some(p) => match SharedPreference::decode(p.as_slice()) {
                Ok(v) => Some(v),
                Err(_) => {
                    return Err(Error::MalformedFrame);
                },
            },
            None => None,
        };
        let attachment = match get_message(b, &fields, 4) {
            Some(p) => match Attachment::decode(p.as_slice()) {
                Ok(v) => Some(v),
                Err(_) => {
                    return Err(Error::MalformedFrame);
                },
            },
            None => None,
        };
        let version = match get_message(b, &fields, 5) {
            Some(p) => match DatabaseVersion::decode(p.as_slice()) {
                Ok(v) => Some(v),
                Err(_) => {
                    return Err(Error::MalformedFrame);
                },
            },
            None => None,
        };
        let avatar = match get_message(b, &fields, 7) {
            Some(p) => match Avatar::decode(p.as_slice()) {
                Ok(v) => Some(v),
                Err(_) => {
                    return Err(Error::MalformedFrame);
                },
            },
            None => None,
        };
        let sticker = match get_message(b, &fields, 8) {
            Some(p) => match Sticker::decode(p.as_slice()) {
                Ok(v) => Some(v),
                Err(_) => {
                    return Err(Error::MalformedFrame);
                },
            },
            None => None,
        };
        let key_value = match get_message(b, &fields, 9) {
            Some(p) => match KeyValue::decode(p.as_slice()) {
                Ok(v) => Some(v),
                Err(_) => {
                    return Err(Error::MalformedFrame);
                },
            },
            None => None,
        };
        Ok(
            BackupFrame {
                header,
                statement,
                preference,
                attachment,
                version,
                end: get_bool(&fields, 6),
                avatar,
                sticker,
                key_value,
            },
        )
    }
}

} // verus!
