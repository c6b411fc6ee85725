use backup_decode::backups::Attachment;
use backup_decode::backups::Avatar;
use backup_decode::backups::BackupFrame;
use backup_decode::backups::DatabaseVersion;
use backup_decode::backups::Header;
use backup_decode::backups::KeyValue;
use backup_decode::backups::SharedPreference;
use backup_decode::backups::SqlParameter;
use backup_decode::backups::SqlStatement;
use backup_decode::backups::Sticker;
use backup_decode::error::Error;
use backup_decode::fields::find_last;
use backup_decode::fields::get_bool;
use backup_decode::fields::get_bytes;
use backup_decode::fields::get_fixed32;
use backup_decode::fields::get_fixed64;
use backup_decode::fields::get_int32;
use backup_decode::fields::get_int64;
use backup_decode::fields::get_message;
use backup_decode::fields::get_repeated_bytes;
use backup_decode::fields::get_text;
use backup_decode::fields::get_uint32;
use backup_decode::fields::get_uint64;
use backup_decode::fields::read_text;
use backup_decode::fields::to_signed;
use backup_decode::frame::to_typed_value;
use backup_decode::frame::Frame;
use backup_decode::frame::TypedValue;
use backup_decode::wire::parse_fields;
use backup_decode::wire::read_field;
use backup_decode::wire::read_le;
use backup_decode::wire::read_varint;
use backup_decode::wire::Field;
use backup_decode::wire::WireValue;

enum Val {
    U64(u64),
    U32(u32),
    I32(i32),
    I64(i64),
    Bool(bool),
    Bytes(Vec<u8>),
    Text(String),
    Double(f64),
    Float(f32),
}

fn encode(fields: &[(u32, Val)]) -> Vec<u8> {
    let mut out: Vec<u8> = Vec::new();
    {
        let mut os = protobuf::CodedOutputStream::vec(&mut out);
        for (number, value) in fields {
            match value {
                Val::U64(v) => os.write_uint64(*number, *v).unwrap(),
                Val::U32(v) => os.write_uint32(*number, *v).unwrap(),
                Val::I32(v) => os.write_int32(*number, *v).unwrap(),
                Val::I64(v) => os.write_int64(*number, *v).unwrap(),
                Val::Bool(v) => os.write_bool(*number, *v).unwrap(),
                Val::Bytes(v) => os.write_bytes(*number, v).unwrap(),
                Val::Text(v) => os.write_string(*number, v).unwrap(),
                Val::Double(v) => os.write_double(*number, *v).unwrap(),
                Val::Float(v) => os.write_float(*number, *v).unwrap(),
            }
        }
        os.flush().unwrap();
    }
    out
}

fn text(s: &str) -> Val {
    Val::Text(s.to_string())
}

fn empty_frame() -> BackupFrame {
    BackupFrame {
        header: None,
        statement: None,
        preference: None,
        attachment: None,
        version: None,
        end: None,
        avatar: None,
        sticker: None,
        key_value: None,
    }
}

fn empty_parameter() -> SqlParameter {
    SqlParameter {
        string_paramter: None,
        integer_parameter: None,
        double_parameter: None,
        blob_parameter: None,
        nullparameter: None,
    }
}

#[test]
fn varints() {
    assert_eq!(read_varint(&[0], 0), Some((0, 1)));
    assert_eq!(read_varint(&[1], 0), Some((1, 1)));
    assert_eq!(read_varint(&[0x7f], 0), Some((127, 1)));
    assert_eq!(read_varint(&[0x80, 0x01], 0), Some((128, 2)));
    assert_eq!(read_varint(&[0xac, 0x02], 0), Some((300, 2)));
    assert_eq!(read_varint(&[9, 9, 0xac, 0x02, 9], 2), Some((300, 2)));
    assert_eq!(
        read_varint(&[0xff, 0xff, 0xff, 0xff, 0xff, 0xff, 0xff, 0xff, 0xff, 0x01], 0),
        Some((u64::MAX, 10))
    );
    assert_eq!(
        read_varint(&[0x80, 0x80, 0x80, 0x80, 0x80, 0x80, 0x80, 0x80, 0x80, 0x01], 0),
        Some((1 << 63, 10))
    );
    assert_eq!(read_varint(&[0x80, 0x80, 0x00], 0), Some((0, 3)));
}

#[test]
fn broken_varints() {
    assert_eq!(read_varint(&[], 0), None);
    assert_eq!(read_varint(&[1], 1), None);
    assert_eq!(read_varint(&[1], 7), None);
    assert_eq!(read_varint(&[0x80], 0), None);
    assert_eq!(read_varint(&[0xff, 0xff], 0), None);
    assert_eq!(
        read_varint(&[0xff, 0xff, 0xff, 0xff, 0xff, 0xff, 0xff, 0xff, 0xff, 0x02], 0),
        None
    );
    assert_eq!(
        read_varint(&[0xff, 0xff, 0xff, 0xff, 0xff, 0xff, 0xff, 0xff, 0xff, 0x81, 0x00], 0),
        None
    );
}

#[test]
fn varints_as_the_encoder_writes_them() {
    for v in [0u64, 1, 127, 128, 16383, 16384, 1 << 32, u64::MAX - 1, u64::MAX] {
        let mut out: Vec<u8> = Vec::new();
        {
            let mut os = protobuf::CodedOutputStream::vec(&mut out);
            os.write_raw_varint64(v).unwrap();
            os.flush().unwrap();
        }
        assert_eq!(read_varint(&out, 0), Some((v, out.len())));
    }
}

#[test]
fn little_endian_numbers() {
    assert_eq!(read_le(&[1, 2, 3, 4], 0, 4), 0x0403_0201);
    assert_eq!(read_le(&[9, 1, 2, 3, 4, 5, 6, 7, 8], 1, 8), 0x0807_0605_0403_0201);
    assert_eq!(read_le(&[0xff; 8], 0, 8), u64::MAX);
    assert_eq!(read_le(&[5], 0, 0), 0);
    assert_eq!(read_le(&[5, 6], 1, 1), 6);
}

#[test]
fn one_field_of_each_kind() {
    assert_eq!(
        read_field(&[0x08, 0x96, 0x01], 0),
        Some((Field { number: 1, value: WireValue::Varint(150) }, 3))
    );
    assert_eq!(
        read_field(&[0x11, 1, 0, 0, 0, 0, 0, 0, 0], 0),
        Some((Field { number: 2, value: WireValue::Fixed64(1) }, 9))
    );
    assert_eq!(
        read_field(&[0x1a, 2, 7, 8], 0),
        Some((Field { number: 3, value: WireValue::Bytes { start: 2, end: 4 } }, 4))
    );
    assert_eq!(
        read_field(&[0x25, 0, 0, 0, 0x3f], 0),
        Some((Field { number: 4, value: WireValue::Fixed32(0x3f00_0000) }, 5))
    );
    assert_eq!(
        read_field(&[0, 0, 0x1a, 0], 2),
        Some((Field { number: 3, value: WireValue::Bytes { start: 4, end: 4 } }, 4))
    );
}

#[test]
fn broken_fields() {
    assert_eq!(read_field(&[], 0), None);
    assert_eq!(read_field(&[0x08], 0), None);
    assert_eq!(read_field(&[0x00, 0x01], 0), None);
    assert_eq!(read_field(&[0x07, 0x01], 0), None);
    assert_eq!(read_field(&[0x0b, 0x01], 0), None);
    assert_eq!(read_field(&[0x0c, 0x01], 0), None);
    assert_eq!(read_field(&[0x0e, 0x01], 0), None);
    assert_eq!(read_field(&[0x0f, 0x01], 0), None);
    assert_eq!(read_field(&[0x11, 1, 2, 3, 4, 5, 6, 7], 0), None);
    assert_eq!(read_field(&[0x15, 1, 2, 3], 0), None);
    assert_eq!(read_field(&[0x1a, 3, 7, 8], 0), None);
    assert_eq!(read_field(&[0x1a], 0), None);
    assert_eq!(read_field(&[0x80, 0x80, 0x80, 0x80, 0x10, 0x01], 0), None);
    assert_eq!(
        read_field(&[0xf8, 0xff, 0xff, 0xff, 0x0f, 0x01], 0),
        Some((Field { number: 0x1fff_ffff, value: WireValue::Varint(1) }, 6))
    );
}

#[test]
fn records_split_into_fields() {
    let record = encode(&[
        (1, Val::U64(150)),
        (2, text("hi")),
        (3, Val::Double(2.5)),
        (4, Val::Float(0.5)),
        (1, Val::U64(7)),
    ]);
    let fields = parse_fields(&record).unwrap();
    assert_eq!(fields.len(), 5);
    assert_eq!(fields[0], Field { number: 1, value: WireValue::Varint(150) });
    assert_eq!(fields[1], Field { number: 2, value: WireValue::Bytes { start: 5, end: 7 } });
    assert_eq!(fields[2].value, WireValue::Fixed64(2.5f64.to_bits()));
    assert_eq!(fields[3].value, WireValue::Fixed32(0.5f32.to_bits()));
    assert_eq!(fields[4], Field { number: 1, value: WireValue::Varint(7) });
    assert_eq!(parse_fields(&[]), Some(vec![]));
    assert_eq!(parse_fields(&[0x08, 0x01, 0x08]), None);
    assert_eq!(parse_fields(&[0x08, 0x01, 0x0b, 0x0c]), None);
}

#[test]
fn last_value_of_a_number_wins() {
    let record = encode(&[
        (1, Val::U64(1)),
        (1, text("in between")),
        (1, Val::U64(2)),
        (2, Val::U64(3)),
        (1, Val::Double(1.0)),
    ]);
    let fields = parse_fields(&record).unwrap();
    assert_eq!(find_last(&fields, 1, 0), Some(WireValue::Varint(2)));
    assert_eq!(find_last(&fields, 2, 0), Some(WireValue::Varint(3)));
    assert_eq!(find_last(&fields, 3, 0), None);
    assert_eq!(find_last(&fields, 2, 2), None);
    assert_eq!(get_uint64(&fields, 1), Some(2));
    assert_eq!(get_fixed64(&fields, 1), Some(1.0f64.to_bits()));
    assert_eq!(get_bytes(&record, &fields, 1), Some(b"in between".to_vec()));
    assert_eq!(get_text(&record, &fields, 1), Ok(Some("in between".to_string())));
    assert_eq!(get_text(&record, &fields, 2), Ok(None));
    assert_eq!(get_fixed32(&fields, 1), None);
}

#[test]
fn typed_values_of_fields() {
    let record = encode(&[
        (1, Val::Bool(true)),
        (2, Val::Bool(false)),
        (3, Val::U64(2)),
        (4, Val::I64(-1)),
        (5, Val::I32(-5)),
        (6, Val::U64(u32::MAX as u64)),
        (7, Val::U64(u32::MAX as u64 + 1)),
        (8, Val::I64(i32::MIN as i64 - 1)),
        (9, Val::I64(i32::MAX as i64)),
        (10, Val::Float(0.5)),
        (11, Val::I64(i64::MIN)),
    ]);
    let fields = parse_fields(&record).unwrap();
    assert_eq!(get_bool(&fields, 1), Some(true));
    assert_eq!(get_bool(&fields, 2), Some(false));
    assert_eq!(get_bool(&fields, 3), Some(true));
    assert_eq!(get_bool(&fields, 12), None);
    assert_eq!(get_int64(&fields, 4), Some(-1));
    assert_eq!(get_uint64(&fields, 4), Some(u64::MAX));
    assert_eq!(get_int64(&fields, 11), Some(i64::MIN));
    assert_eq!(get_int32(&fields, 5), Ok(Some(-5)));
    assert_eq!(get_int32(&fields, 9), Ok(Some(i32::MAX)));
    assert_eq!(get_int32(&fields, 8), Err(Error::MalformedFrame));
    assert_eq!(get_int32(&fields, 7), Err(Error::MalformedFrame));
    assert_eq!(get_int32(&fields, 12), Ok(None));
    assert_eq!(get_uint32(&fields, 6), Ok(Some(u32::MAX)));
    assert_eq!(get_uint32(&fields, 7), Err(Error::MalformedFrame));
    assert_eq!(get_uint32(&fields, 12), Ok(None));
    assert_eq!(get_fixed32(&fields, 10), Some(0x3f00_0000));
}

#[test]
fn signed_reading() {
    assert_eq!(to_signed(0), 0);
    assert_eq!(to_signed(7), 7);
    assert_eq!(to_signed(i64::MAX as u64), i64::MAX);
    assert_eq!(to_signed(1 << 63), i64::MIN);
    assert_eq!(to_signed(u64::MAX), -1);
    assert_eq!(to_signed(u64::MAX - 41), -42);
}

#[test]
fn repeated_fields_and_embedded_records() {
    let record = encode(&[
        (5, text("a")),
        (1, Val::U64(1)),
        (5, text("")),
        (5, Val::U64(9)),
        (5, text("bc")),
    ]);
    let fields = parse_fields(&record).unwrap();
    assert_eq!(
        get_repeated_bytes(&record, &fields, 5),
        vec![b"a".to_vec(), b"".to_vec(), b"bc".to_vec()]
    );
    assert_eq!(get_repeated_bytes(&record, &fields, 1), Vec::<Vec<u8>>::new());
    assert_eq!(get_message(&record, &fields, 5), Some(b"bc".to_vec()));
    assert_eq!(get_message(&record, &fields, 1), None);
    assert_eq!(get_message(&record, &fields, 6), None);
}

#[test]
fn text_must_be_utf8() {
    assert_eq!(read_text(b"plain".to_vec()), Ok("plain".to_string()));
    assert_eq!(read_text("gr\u{fc}n \u{1f600}".as_bytes().to_vec()), Ok("gr\u{fc}n \u{1f600}".to_string()));
    assert_eq!(read_text(vec![]), Ok(String::new()));
    assert_eq!(read_text(vec![0xff]), Err(Error::MalformedFrame));
    assert_eq!(read_text(vec![0xc3]), Err(Error::MalformedFrame));
    assert_eq!(read_text(vec![0xed, 0xa0, 0x80]), Err(Error::MalformedFrame));
    assert_eq!(read_text(vec![0xc0, 0x80]), Err(Error::MalformedFrame));
}

#[test]
fn header_record() {
    let h = Header::decode(&encode(&[(1, Val::Bytes(vec![1; 16])), (2, Val::Bytes(vec![2; 32]))]))
        .ok()
        .unwrap();
    assert_eq!(h.iv, Some(vec![1; 16]));
    assert_eq!(h.salt, Some(vec![2; 32]));
    let h = Header::decode(&[]).ok().unwrap();
    assert_eq!(h.iv, None);
    assert_eq!(h.salt, None);
    assert!(Header::decode(&[0x0a]).is_err());
}

#[test]
fn small_records() {
    let a = Attachment::decode(&encode(&[(1, Val::U64(7)), (2, Val::U64(42)), (3, Val::U32(9))]))
        .ok()
        .unwrap();
    assert_eq!((a.row_id, a.attachment_id, a.length), (Some(7), Some(42), Some(9)));
    let a = Attachment::decode(&encode(&[(3, Val::U64(1 << 32))]));
    assert_eq!(a.err(), Some(Error::MalformedFrame));
    let s = Sticker::decode(&encode(&[(1, Val::U64(3)), (2, Val::U32(4))])).ok().unwrap();
    assert_eq!((s.row_id, s.length), (Some(3), Some(4)));
    let s = Sticker::decode(&[]).ok().unwrap();
    assert_eq!((s.row_id, s.length), (None, None));
    let v = DatabaseVersion::decode(&encode(&[(1, Val::U32(99))])).ok().unwrap();
    assert_eq!(v.version, Some(99));
    let v = Avatar::decode(&encode(&[(1, text("n")), (3, text("r")), (2, Val::U32(8))]))
        .ok()
        .unwrap();
    assert_eq!((v.name, v.length), (Some("n".to_string()), Some(8)));
    assert_eq!(Avatar::decode(&encode(&[(1, Val::Bytes(vec![0xff]))])).err(), Some(Error::MalformedFrame));
}

#[test]
fn key_value_record() {
    let record = encode(&[
        (1, text("k")),
        (2, Val::Bytes(vec![1, 2])),
        (3, Val::Bool(true)),
        (4, Val::Float(0.5)),
        (5, Val::I32(-3)),
        (6, Val::I64(-4)),
        (7, text("s")),
    ]);
    let kv = KeyValue::decode(&record).ok().unwrap();
    assert_eq!(kv.key, Some("k".to_string()));
    assert_eq!(kv.blob_value, Some(vec![1, 2]));
    assert_eq!(kv.boolean_value, Some(true));
    assert_eq!(kv.float_value.map(f32::from_bits), Some(0.5));
    assert_eq!(kv.integer_value, Some(-3));
    assert_eq!(kv.long_value, Some(-4));
    assert_eq!(kv.string_value, Some("s".to_string()));
    let kv = KeyValue::decode(&encode(&[(1, text("only"))])).ok().unwrap();
    assert_eq!(kv.key, Some("only".to_string()));
    assert_eq!(kv.blob_value, None);
    assert_eq!(kv.integer_value, None);
    assert!(KeyValue::decode(&encode(&[(5, Val::I64(1 << 40))])).is_err());
    assert!(KeyValue::decode(&encode(&[(7, Val::Bytes(vec![0x80]))])).is_err());
}

#[test]
fn preference_record() {
    let record = encode(&[
        (1, text("file")),
        (2, text("key")),
        (3, text("value")),
        (4, Val::Bool(false)),
        (5, text("one")),
        (5, text("two")),
        (6, Val::Bool(true)),
    ]);
    let p = SharedPreference::decode(&record).ok().unwrap();
    assert_eq!(p.file, Some("file".to_string()));
    assert_eq!(p.key, Some("key".to_string()));
    assert_eq!(p.value, Some("value".to_string()));
    assert_eq!(p.boolean_value, Some(false));
    assert_eq!(p.string_set_value, vec!["one".to_string(), "two".to_string()]);
    assert_eq!(p.is_string_set_value, Some(true));
    let broken = encode(&[(5, text("one")), (5, Val::Bytes(vec![0xff])), (5, text("three"))]);
    assert!(SharedPreference::decode(&broken).is_err());
}

#[test]
fn statement_record() {
    let record = encode(&[
        (1, text("SELECT ?")),
        (2, Val::Bytes(encode(&[(4, Val::Bytes(vec![1, 2, 3]))]))),
        (2, Val::Bytes(vec![])),
    ]);
    let s = SqlStatement::decode(&record).ok().unwrap();
    assert_eq!(s.statement, Some("SELECT ?".to_string()));
    assert_eq!(s.parameters.len(), 2);
    assert_eq!(s.parameters[0].blob_parameter, Some(vec![1, 2, 3]));
    assert_eq!(s.parameters[1].blob_parameter, None);
    assert_eq!(s.parameters[1].nullparameter, None);
    let broken = encode(&[(2, Val::Bytes(vec![0x08]))]);
    assert!(SqlStatement::decode(&broken).is_err());
}

#[test]
fn parameter_shapes_in_their_order_of_preference() {
    let mut p = empty_parameter();
    p.nullparameter = Some(false);
    assert!(matches!(to_typed_value(p), Ok(TypedValue::Null)));
    let mut p = empty_parameter();
    p.nullparameter = Some(true);
    p.blob_parameter = Some(vec![1]);
    assert!(matches!(to_typed_value(p), Ok(TypedValue::Blob(b)) if b == vec![1]));
    let mut p = empty_parameter();
    p.blob_parameter = Some(vec![1]);
    p.double_parameter = Some(2.5f64.to_bits());
    assert!(matches!(to_typed_value(p), Ok(TypedValue::Real(b)) if f64::from_bits(b) == 2.5));
    let mut p = empty_parameter();
    p.double_parameter = Some(0);
    p.integer_parameter = Some(u64::MAX);
    assert!(matches!(to_typed_value(p), Ok(TypedValue::Integer(-1))));
    let mut p = empty_parameter();
    p.integer_parameter = Some(5);
    p.string_paramter = Some("s".to_string());
    assert!(matches!(to_typed_value(p), Ok(TypedValue::Text(t)) if t == "s"));
    assert!(matches!(to_typed_value(empty_parameter()), Err(Error::MalformedFrame)));
}

#[test]
fn exactly_one_variant() {
    assert!(matches!(Frame::new(empty_frame()), Err(Error::MalformedFrame)));
    let mut f = empty_frame();
    f.end = Some(false);
    assert!(matches!(Frame::new(f), Ok(Frame::End)));
    let mut f = empty_frame();
    f.end = Some(true);
    f.version = Some(DatabaseVersion { version: Some(1) });
    assert!(matches!(Frame::new(f), Err(Error::MalformedFrame)));
    let mut f = empty_frame();
    f.header = Some(Header { iv: None, salt: None });
    f.key_value = Some(KeyValue::decode(&[]).ok().unwrap());
    assert!(matches!(Frame::new(f), Err(Error::MalformedFrame)));
    let mut f = empty_frame();
    f.header = Some(Header { iv: None, salt: None });
    f.statement = Some(SqlStatement { statement: None, parameters: vec![] });
    f.preference = Some(SharedPreference::decode(&[]).ok().unwrap());
    f.attachment = Some(Attachment { row_id: None, attachment_id: None, length: None });
    f.version = Some(DatabaseVersion { version: None });
    f.end = Some(true);
    f.avatar = Some(Avatar { name: None, length: None });
    f.sticker = Some(Sticker { row_id: None, length: None });
    f.key_value = Some(KeyValue::decode(&[]).ok().unwrap());
    assert!(matches!(Frame::new(f), Err(Error::MalformedFrame)));
}

#[test]
fn each_variant_with_its_defaults() {
    let mut f = empty_frame();
    f.header = Some(Header { iv: None, salt: Some(vec![1]) });
    assert!(matches!(Frame::new(f), Ok(Frame::Header { salt, iv }) if salt == vec![1] && iv.is_empty()));
    let mut f = empty_frame();
    f.statement = Some(SqlStatement { statement: None, parameters: vec![] });
    assert!(matches!(
        Frame::new(f),
        Ok(Frame::Statement { statement, parameter }) if statement.is_empty() && parameter.is_empty()
    ));
    let mut f = empty_frame();
    f.statement = Some(SqlStatement { statement: None, parameters: vec![empty_parameter()] });
    assert!(matches!(Frame::new(f), Err(Error::MalformedFrame)));
    let mut f = empty_frame();
    f.attachment = Some(Attachment { row_id: None, attachment_id: Some(4), length: None });
    assert!(matches!(
        Frame::new(f),
        Ok(Frame::Attachment { data_length: 0, id: 4, row: 0, data: None })
    ));
    let mut f = empty_frame();
    f.version = Some(DatabaseVersion { version: None });
    assert!(matches!(Frame::new(f), Ok(Frame::Version { version: 0 })));
    let mut f = empty_frame();
    f.avatar = Some(Avatar { name: None, length: Some(u32::MAX) });
    assert!(matches!(
        Frame::new(f),
        Ok(Frame::Avatar { data_length, name, data: None })
            if data_length == u32::MAX as usize && name.is_empty()
    ));
    let mut f = empty_frame();
    f.sticker = Some(Sticker { row_id: Some(9), length: Some(2) });
    assert!(matches!(Frame::new(f), Ok(Frame::Sticker { data_length: 2, row: 9, data: None })));
    let mut f = empty_frame();
    f.preference = Some(SharedPreference::decode(&encode(&[(2, text("k"))])).ok().unwrap());
    assert!(matches!(
        Frame::new(f),
        Ok(Frame::Preference { preference }) if preference.key == Some("k".to_string())
    ));
    let mut f = empty_frame();
    f.key_value = Some(KeyValue::decode(&encode(&[(6, Val::I64(-9))])).ok().unwrap());
    assert!(matches!(
        Frame::new(f),
        Ok(Frame::KeyValue { key_value }) if key_value.long_value == Some(-9)
    ));
}

#[test]
fn parameters_keep_their_order() {
    let parameters: Vec<SqlParameter> = (0..5u64)
        .map(|i| {
            let mut p = empty_parameter();
            p.integer_parameter = Some(i * 10);
            p
        })
        .collect();
    let mut f = empty_frame();
    f.statement = Some(SqlStatement { statement: Some("q".to_string()), parameters });
    match Frame::new(f) {
        Ok(Frame::Statement { statement, parameter }) => {
            assert_eq!(statement, "q");
            let seen: Vec<i64> = parameter
                .iter()
                .map(|p| match p {
                    TypedValue::Integer(v) => *v,
                    _ => -1,
                })
                .collect();
            assert_eq!(seen, vec![0, 10, 20, 30, 40]);
        }
        _ => panic!("not a statement"),
    }
}

#[test]
fn frames_from_bytes() {
    assert!(matches!(Frame::parse(&encode(&[(6, Val::Bool(true))])), Ok(Frame::End)));
    assert!(matches!(Frame::parse(&[]), Err(Error::MalformedFrame)));
    assert!(matches!(Frame::parse(&[0x30]), Err(Error::MalformedFrame)));
    let version = encode(&[(5, Val::Bytes(encode(&[(1, Val::U32(12))])))]);
    assert!(matches!(Frame::parse(&version), Ok(Frame::Version { version: 12 })));
    let with_unknown = encode(&[
        (20, text("passed over")),
        (5, Val::Bytes(encode(&[(1, Val::U32(12)), (9, Val::U64(1))]))),
        (21, Val::U64(5)),
    ]);
    assert!(matches!(Frame::parse(&with_unknown), Ok(Frame::Version { version: 12 })));
    let wrong_kind = encode(&[(5, Val::U64(3)), (6, Val::Bool(true))]);
    assert!(matches!(Frame::parse(&wrong_kind), Ok(Frame::End)));
    let broken_inner = encode(&[(5, Val::Bytes(vec![0x08]))]);
    assert!(matches!(Frame::parse(&broken_inner), Err(Error::MalformedFrame)));
    let bad_text = encode(&[(7, Val::Bytes(encode(&[(1, Val::Bytes(vec![0xff]))])))]);
    assert!(matches!(Frame::parse(&bad_text), Err(Error::MalformedFrame)));
    let no_shape = encode(&[(2, Val::Bytes(encode(&[(2, Val::Bytes(vec![]))])))]);
    assert!(matches!(Frame::parse(&no_shape), Err(Error::MalformedFrame)));
}

#[test]
fn later_occurrence_of_an_embedded_record_takes_the_place_of_an_earlier() {
    let twice = encode(&[
        (4, Val::Bytes(encode(&[(1, Val::U64(7)), (3, Val::U32(1))]))),
        (4, Val::Bytes(encode(&[(2, Val::U64(42)), (3, Val::U32(2))]))),
    ]);
    assert!(matches!(
        Frame::parse(&twice),
        Ok(Frame::Attachment { data_length: 2, id: 42, row: 0, data: None })
    ));
}

#[test]
fn bodies_are_set_on_the_three_kinds() {
    let mut f = Frame::Attachment { data_length: 2, id: 1, row: 2, data: None };
    assert_eq!(f.body_length(), Some(2));
    f.set_data(vec![8, 9]);
    assert!(matches!(&f, Frame::Attachment { data_length: 2, id: 1, row: 2, data: Some(d) } if d == &vec![8, 9]));
    let mut f = Frame::Avatar { data_length: 1, name: "n".to_string(), data: None };
    assert_eq!(f.body_length(), Some(1));
    f.set_data(vec![7]);
    assert!(matches!(&f, Frame::Avatar { data: Some(d), name, .. } if d == &vec![7] && name == "n"));
    let mut f = Frame::Sticker { data_length: 0, row: 3, data: Some(vec![1]) };
    f.set_data(vec![]);
    assert!(matches!(&f, Frame::Sticker { data: Some(d), row: 3, .. } if d.is_empty()));
    assert_eq!(Frame::End.body_length(), None);
    assert_eq!(Frame::Version { version: 1 }.body_length(), None);
    assert!(Frame::End.is_end());
    assert!(!Frame::End.is_header());
    assert!(Frame::Header { salt: vec![], iv: vec![] }.is_header());
}
