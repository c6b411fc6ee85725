//! The records that a reader hands out: one variant for each kind of record,
//! with the defaults filled in.

use vstd::prelude::*;
use crate::backups::decoded;
use crate::backups::BackupFrame;
use crate::backups::BackupFrameView;
use crate::backups::KeyValue;
use crate::backups::KeyValueView;
use crate::backups::SharedPreference;
use crate::backups::SharedPreferenceView;
use crate::backups::SqlParameter;
use crate::backups::SqlParameterView;
use crate::backups::parameter_views;
use crate::error::Error;
use crate::fields::signed;
use crate::fields::to_signed;

verus! {

/// A bind value of a statement.
pub enum TypedValue {
    Integer(i64),
    /// The bits of a 64-bit floating-point number.
    Real(u64),
    Text(String),
    Blob(Vec<u8>),
    Null,
}

/// A bind value as values.
pub ghost enum TypedValueView {
    Integer(i64),
    Real(u64),
    Text(Seq<char>),
    Blob(Seq<u8>),
    Null,
}

impl View for TypedValue {
    type V = TypedValueView;

    open spec fn view(&self) -> TypedValueView {
        match self {
            TypedValue::Integer(v) => TypedValueView::Integer(*v),
            TypedValue::Real(v) => TypedValueView::Real(*v),
            TypedValue::Text(s) => TypedValueView::Text(s@),
            TypedValue::Blob(b) => TypedValueView::Blob(b@),
            TypedValue::Null => TypedValueView::Null,
        }
    }
}

/// A record of a backup.
pub enum Frame {
    Header { salt: Vec<u8>, iv: Vec<u8> },
    Statement { statement: String, parameter: Vec<TypedValue> },
    Preference { preference: SharedPreference },
    Attachment { data_length: usize, id: u64, row: u64, data: Option<Vec<u8>> },
    Version { version: u32 },
    End,
    Avatar { data_length: usize, name: String, data: Option<Vec<u8>> },
    Sticker { data_length: usize, row: u64, data: Option<Vec<u8>> },
    KeyValue { key_value: KeyValue },
}

/// A record of a backup as values.
pub ghost enum FrameView {
    Header { salt: Seq<u8>, iv: Seq<u8> },
    Statement { statement: Seq<char>, parameter: Seq<TypedValueView> },
    Preference { preference: SharedPreferenceView },
    Attachment { data_length: usize, id: u64, row: u64, data: Option<Seq<u8>> },
    Version { version: u32 },
    End,
    Avatar { data_length: usize, name: Seq<char>, data: Option<Seq<u8>> },
    Sticker { data_length: usize, row: u64, data: Option<Seq<u8>> },
    KeyValue { key_value: KeyValueView },
}

/// The bind values that `v` holds.
pub open spec fn value_views(v: Seq<TypedValue>) -> Seq<TypedValueView> {
    Seq::new(v.len(), |i: int| v[i]@)
}

impl View for Frame {
    type V = FrameView;

    open spec fn view(&self) -> FrameView {
        match self {
            Frame::Header { salt, iv } => FrameView::Header { salt: salt@, iv: iv@ },
            Frame::Statement { statement, parameter } => FrameView::Statement {
                statement: statement@,
                parameter: value_views(parameter@),
            },
            Frame::Preference { preference } => FrameView::Preference { preference: preference@ },
            Frame::Attachment { data_length, id, row, data } => FrameView::Attachment {
                data_length: *data_length,
                id: *id,
                row: *row,
                data: crate::fields::opt_bytes(*data),
            },
            Frame::Version { version } => FrameView::Version { version: *version },
            Frame::End => FrameView::End,
            Frame::Avatar { data_length, name, data } => FrameView::Avatar {
                data_length: *data_length,
                name: name@,
                data: crate::fields::opt_bytes(*data),
            },
            Frame::Sticker { data_length, row, data } => FrameView::Sticker {
                data_length: *data_length,
                row: *row,
                data: crate::fields::opt_bytes(*data),
            },
            Frame::KeyValue { key_value } => FrameView::KeyValue { key_value: key_value@ },
        }
    }
}

/// The bytes of an optional byte string, none where it is absent.
pub open spec fn bytes_or_empty(o: Option<Seq<u8>>) -> Seq<u8> {
    match o {
        Some(b) => b,
        None => Seq::empty(),
    }
}

/// The text of an optional string, empty where it is absent.
pub open spec fn text_or_empty(o: Option<Seq<char>>) -> Seq<char> {
    match o {
        Some(t) => t,
        None => Seq::empty(),
    }
}

/// The number of an optional 64-bit field, zero where it is absent.
pub open spec fn u64_or_zero(o: Option<u64>) -> u64 {
    match o {
        Some(v) => v,
        None => 0,
    }
}

/// The number of an optional 32-bit field, zero where it is absent.
pub open spec fn u32_or_zero(o: Option<u32>) -> u32 {
    match o {
        Some(v) => v,
        None => 0,
    }
}

/// The bind value that a parameter stands for: the first of text, integer,
/// floating-point number, byte string and null marker that is present. The
/// integer is read as signed. A parameter with none of them is an error.
pub open spec fn typed_value(p: SqlParameterView) -> Result<TypedValueView, Error> {
    if p.string_paramter is Some {
        Ok(TypedValueView::Text(p.string_paramter->Some_0))
    } else if p.integer_parameter is Some {
        Ok(TypedValueView::Integer(signed(p.integer_parameter->Some_0) as i64))
    } else if p.double_parameter is Some {
        Ok(TypedValueView::Real(p.double_parameter->Some_0))
    } else if p.blob_parameter is Some {
        Ok(TypedValueView::Blob(p.blob_parameter->Some_0))
    } else if p.nullparameter is Some {
        Ok(TypedValueView::Null)
    } else {
        Err(Error::MalformedFrame)
    }
}

/// The bind values that parameters stand for, in their order.
pub open spec fn typed_values(ps: Seq<SqlParameterView>) -> Result<Seq<TypedValueView>, Error>
    decreases ps.len(),
{
    if ps.len() == 0 {
        Ok(Seq::empty())
    } else {
        match (typed_values(ps.drop_last()), typed_value(ps.last())) {
            (Ok(init), Ok(v)) => Ok(init.push(v)),
            _ => Err(Error::MalformedFrame),
        }
    }
}

/// The record that a decoded frame of the stream stands for. Exactly one of
/// its nine fields must be present; that field gives the variant, and fields
/// absent within it take their defaults: no bytes, the empty text, zero. The
/// body of an attachment, an avatar or a sticker is not yet there.
pub open spec fn frame_of(f: BackupFrameView) -> Result<FrameView, Error> {
    if f.populated() != 1 {
        Err(Error::MalformedFrame)
    } else if f.header is Some {
        Ok(
            FrameView::Header {
                salt: bytes_or_empty(f.header->Some_0.salt),
                iv: bytes_or_empty(f.header->Some_0.iv),
            },
        )
    } else if f.statement is Some {
        match typed_values(f.statement->Some_0.parameters) {
            Ok(parameter) => Ok(
                FrameView::Statement {
                    statement: text_or_empty(f.statement->Some_0.statement),
                    parameter,
                },
            ),
            Err(e) => Err(e),
        }
    } else if f.preference is Some {
        Ok(FrameView::Preference { preference: f.preference->Some_0 })
    } else if f.attachment is Some {
        Ok(
            FrameView::Attachment {
                data_length: u32_or_zero(f.attachment->Some_0.length) as usize,
                id: u64_or_zero(f.attachment->Some_0.attachment_id),
                row: u64_or_zero(f.attachment->Some_0.row_id),
                data: None,
            },
        )
    } else if f.version is Some {
        Ok(FrameView::Version { version: u32_or_zero(f.version->Some_0.version) })
    } else if f.end is Some {
        Ok(FrameView::End)
    } else if f.avatar is Some {
        Ok(
            FrameView::Avatar {
                data_length: u32_or_zero(f.avatar->Some_0.length) as usize,
                name: text_or_empty(f.avatar->Some_0.name),
                data: None,
            },
        )
    } else if f.sticker is Some {
        Ok(
            FrameView::Sticker {
                data_length: u32_or_zero(f.sticker->Some_0.length) as usize,
                row: u64_or_zero(f.sticker->Some_0.row_id),
                data: None,
            },
        )
    } else {
        Ok(FrameView::KeyValue { key_value: f.key_value->Some_0 })
    }
}

/// The record that the bytes of a frame's payload stand for.
#[verifier::opaque]
pub open spec fn frame_decoded(b: Seq<u8>) -> Result<FrameView, Error> {
    match BackupFrameView::decode(b) {
        Ok(f) => frame_of(f),
        Err(e) => Err(e),
    }
}

impl FrameView {
    /// The length of the body that follows this record in the stream, for
    /// the three kinds of record that have one.
    pub open spec fn body_length(self) -> Option<usize> {
        match self {
            FrameView::Attachment { data_length, .. } => Some(data_length),
            FrameView::Avatar { data_length, .. } => Some(data_length),
            FrameView::Sticker { data_length, .. } => Some(data_length),
            _ => None,
        }
    }

    /// This record with its body set.
    pub open spec fn with_data(self, body: Seq<u8>) -> FrameView {
        match self {
            FrameView::Attachment { data_length, id, row, data } => FrameView::Attachment {
                data_length,
                id,
                row,
                data: Some(body),
            },
            FrameView::Avatar { data_length, name, data } => FrameView::Avatar {
                data_length,
                name,
                data: Some(body),
            },
            FrameView::Sticker { data_length, row, data } => FrameView::Sticker {
                data_length,
                row,
                data: Some(body),
            },
            other => other,
        }
    }
}

/// A broken member breaks every list that it is in.
pub proof fn lemma_typed_values_prefix(ps: Seq<SqlParameterView>, n: int)
    requires
        0 <= n <= ps.len(),
        typed_values(ps.take(n)) is Err,
    ensures
        typed_values(ps) is Err,
    decreases ps.len(),
{
    if n < ps.len() {
        assert(ps.drop_last().take(n) =~= ps.take(n));
        lemma_typed_values_prefix(ps.drop_last(), n);
    } else {
        assert(ps.take(n) =~= ps);
    }
}

/// The bind value that a parameter stands for.
pub fn to_typed_value(p: SqlParameter) -> (r: Result<TypedValue, Error>)
    ensures
        decoded(r) == typed_value(p@),
{
    let SqlParameter { string_paramter, integer_parameter, double_parameter, blob_parameter, nullparameter } = p;
    if let Some(s) = string_paramter {
        Ok(TypedValue::Text(s))
    } else if let Some(v) = integer_parameter {
        Ok(TypedValue::Integer(to_signed(v)))
    } else if let Some(v) = double_parameter {
        Ok(TypedValue::Real(v))
    } else if let Some(b) = blob_parameter {
        Ok(TypedValue::Blob(b))
    } else if nullparameter.is_some() {
        Ok(TypedValue::Null)
    } else {
        Err(Error::MalformedFrame)
    }
}

/// The bind values that parameters stand for, in their order.
pub fn to_typed_values(given: Vec<SqlParameter>) -> (r: Result<Vec<TypedValue>, Error>)
    ensures
        r is Ok <==> typed_values(parameter_views(given@)) is Ok,
        r is Ok ==> Ok::<Seq<TypedValueView>, Error>(value_views(r->Ok_0@)) == typed_values(
            parameter_views(given@),
        ),
        r is Err ==> r->Err_0 == Error::MalformedFrame,
{
    let ghost all = parameter_views(given@);
    let mut rest: Vec<SqlParameter> = given;
    let mut reversed: Vec<SqlParameter> = Vec::new();
    let n: usize = rest.len();
    while rest.len() > 0
        invariant
            rest@.len() + reversed@.len() == n == all.len(),
            all == parameter_views(given@),
            forall|j: int| 0 <= j < rest@.len() ==> rest@[j]@ == all[j],
            forall|j: int| 0 <= j < reversed@.len() ==> (#[trigger] reversed@[j])@ == all[n - 1 - j],
        decreases rest@.len(),
    {
        match rest.pop() {
            Some(p) => {
                reversed.push(p);
            },
            None => {},
        }
    }
    let mut out: Vec<TypedValue> = Vec::new();
    assert(value_views(out@) =~= Seq::<TypedValueView>::empty());
    while reversed.len() > 0
        invariant
            out@.len() + reversed@.len() == n == all.len(),
            all == parameter_views(given@),
            forall|j: int| 0 <= j < reversed@.len() ==> (#[trigger] reversed@[j])@ == all[n - 1 - j],
            typed_values(all.take(out@.len() as int)) == Ok::<Seq<TypedValueView>, Error>(
                value_views(out@),
            ),
        decreases reversed@.len(),
    {
        let ghost i = out@.len() as int;
        let ghost prefix = all.take(i + 1);
        assert(prefix.drop_last() =~= all.take(i));
        match reversed.pop() {
            Some(p) => {
                match to_typed_value(p) {
                    Ok(v) => {
                        let ghost before = out@;
                        out.push(v);
                        assert(value_views(out@) =~= value_views(before).push(v@));
                    },
                    Err(_) => {
                        proof {
                            lemma_typed_values_prefix(all, i + 1);
                        }
                        return Err(Error::MalformedFrame);
                    },
                }
            },
            None => {},
        }
    }
    assert(all.take(out@.len() as int) =~= all);
    Ok(out)
}

/// The value of an optional field, or the default of its type.
pub fn bytes_or_default(o: Option<Vec<u8>>) -> (r: Vec<u8>)
    ensures
        r@ == bytes_or_empty(crate::fields::opt_bytes(o)),
{
    match o {
        Some(v) => v,
        None => Vec::new(),
    }
}

/// The value of an optional field, or the default of its type.
pub fn text_or_default(o: Option<String>) -> (r: String)
    ensures
        r@ == text_or_empty(crate::fields::opt_text(o)),
{
    match o {
        Some(v) => v,
        None => String::new(),
    }
}

/// The value of an optional field, or the default of its type.
pub fn u64_or_default(o: Option<u64>) -> (r: u64)
    ensures
        r == u64_or_zero(o),
{
    match o {
        Some(v) => v,
        None => 0,
    }
}

/// The value of an optional field, or the default of its type.
pub fn u32_or_default(o: Option<u32>) -> (r: u32)
    ensures
        r == u32_or_zero(o),
{
    match o {
        Some(v) => v,
        None => 0,
    }
}

impl Frame {
    /// Makes the record that a decoded frame of the stream stands for.
    ///
    /// It fails where not exactly one of the nine fields is present, and
    /// where a parameter of a statement has none of the five shapes.
    pub fn new(frame: BackupFrame) -> (r: Result<Frame, Error>)
        ensures
            decoded(r) == frame_of(frame@),
            r is Ok <==> frame@.populated() == 1 && (frame@.statement is Some ==> typed_values(
                frame@.statement->Some_0.parameters,
            ) is Ok),
            r is Err ==> r->Err_0 == Error::MalformedFrame,
    {
        let BackupFrame {
            header,
            statement,
            preference,
            attachment,
            version,
            end,
            avatar,
            sticker,
            key_value,
        } = frame;
        let mut fields_count: u8 = 0;
        let mut ret: Option<Frame> = None;

        if let Some(header) = header {
            fields_count = fields_count + 1;
            ret = Some(
                Frame::Header { salt: bytes_or_default(header.salt), iv: bytes_or_default(header.iv) },
            );
        }
        if let Some(statement) = statement {
            fields_count = fields_count + 1;
            let parameter = match to_typed_values(statement.parameters) {
                Ok(v) => v,
                Err(e) => {
                    return Err(e);
                },
            };
            ret = Some(Frame::Statement { statement: text_or_default(statement.statement), parameter });
        }
        if let Some(preference) = preference {
            fields_count = fields_count + 1;
            ret = Some(Frame::Preference { preference });
        }
        if let Some(attachment) = attachment {
            fields_count = fields_count + 1;
            ret = Some(
                Frame::Attachment {
                    data_length: u32_or_default(attachment.length) as usize,
                    id: u64_or_default(attachment.attachment_id),
                    row: u64_or_default(attachment.row_id),
                    data: None,
                },
            );
        }
        if let Some(version) = version {
            fields_count = fields_count + 1;
            ret = Some(Frame::Version { version: u32_or_default(version.version) });
        }
        if end.is_some() {
            fields_count = fields_count + 1;
            ret = Some(Frame::End);
        }
        if let Some(avatar) = avatar {
            fields_count = fields_count + 1;
            ret = Some(
                Frame::Avatar {
                    data_length: u32_or_default(avatar.length) as usize,
                    name: text_or_default(avatar.name),
                    data: None,
                },
            );
        }
        if let Some(sticker) = sticker {
            fields_count = fields_count + 1;
            ret = Some(
                Frame::Sticker {
                    data_length: u32_or_default(sticker.length) as usize,
                    row: u64_or_default(sticker.row_id),
                    data: None,
                },
            );
        }
        if let Some(key_value) = key_value {
            fields_count = fields_count + 1;
            ret = Some(Frame::KeyValue { key_value });
        }
        if fields_count != 1 {
            return Err(Error::MalformedFrame);
        }
        match ret {
            Some(f) => Ok(f),
            None => Err(Error::MalformedFrame),
        }
    }

    /// Decodes the payload of a frame into a record.
    pub fn parse(data: &[u8]) -> (r: Result<Frame, Error>)
        ensures
            decoded(r) == frame_decoded(data@),
    {
        reveal(frame_decoded);
        match BackupFrame::decode(data) {
            Ok(frame) => Frame::new(frame),
            Err(e) => Err(e),
        }
    }

    /// Whether this is a header.
    pub fn is_header(&self) -> (r: bool)
        ensures
            r == (self@ is Header),
    {
        match self {
            Frame::Header { .. } => true,
            _ => false,
        }
    }

    /// Whether this is the end record.
    pub fn is_end(&self) -> (r: bool)
        ensures
            r == (self@ is End),
    {
        match self {
            Frame::End => true,
            _ => false,
        }
    }

    /// The length of the body that follows this record in the stream.
    pub fn body_length(&self) -> (r: Option<usize>)
        ensures
            r == self@.body_length(),
    {
        match self {
            Frame::Attachment { data_length, .. } => Some(*data_length),
            Frame::Avatar { data_length, .. } => Some(*data_length),
            Frame::Sticker { data_length, .. } => Some(*data_length),
            _ => None,
        }
    }

    /// Sets the body of an attachment, an avatar or a sticker. The other
    /// kinds of record have no body to set.
    pub fn set_data(&mut self, data_add: Vec<u8>)
        requires
            old(self)@.body_length() is Some,
        ensures
            final(self)@ == old(self)@.with_data(data_add@),
    {
        match self {
            Frame::Attachment { data, .. } => *data = Some(data_add),
            Frame::Avatar { data, .. } => *data = Some(data_add),
            Frame::Sticker { data, .. } => *data = Some(data_add),
            _ => {},
        }
    }
}

} // verus!
