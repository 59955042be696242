use xmlbind::codec::{decode_scalar, encode_scalar, Scalar, ScalarKind};
use xmlbind::read::{read_record, ReadError};
use xmlbind::schema::{Descriptor, EventKind, FieldKind, Occurs, SchemaError, VariantDescriptor};
use xmlbind::text::{render, tokenize};
use xmlbind::value::{FieldValue, RecordValue};
use xmlbind::variant::read_variant;
use xmlbind::vertical_alignment::{VerticalAlignment, VerticalAlignmentType};
use xmlbind::write::write_record;

fn b(s: &str) -> Vec<u8> {
    s.as_bytes().to_vec()
}

fn text_record_desc() -> Descriptor {
    Descriptor {
        tag: b("tag1"),
        kind: EventKind::Start,
        fields: vec![
            FieldKind::Attribute { key: b("att1"), kind: ScalarKind::Bytes, optional: true },
            FieldKind::Text { kind: ScalarKind::Bytes, optional: false },
        ],
        extends_attributes: false,
    }
}

fn text_record(att1: Option<&str>, content: &str) -> RecordValue {
    RecordValue {
        fields: vec![
            FieldValue::OptScalar(att1.map(|v| Scalar::Bytes(b(v)))),
            FieldValue::Scalar(Scalar::Bytes(b(content))),
        ],
        extra_attributes: Vec::new(),
    }
}

#[test]
fn scalar_codec_exact_values() {
    assert_eq!(encode_scalar(&Scalar::Boolean(true)), b("true"));
    assert_eq!(encode_scalar(&Scalar::Boolean(false)), b("false"));
    assert_eq!(encode_scalar(&Scalar::Unsigned(0)), b("0"));
    assert_eq!(encode_scalar(&Scalar::Unsigned(10470)), b("10470"));
    assert_eq!(
        encode_scalar(&Scalar::Unsigned(u64::MAX)),
        b("18446744073709551615")
    );
    assert_eq!(
        decode_scalar(ScalarKind::Boolean, &b("true")),
        Some(Scalar::Boolean(true))
    );
    assert_eq!(decode_scalar(ScalarKind::Boolean, &b("True")), None);
    assert_eq!(decode_scalar(ScalarKind::Boolean, &b("")), None);
    assert_eq!(
        decode_scalar(ScalarKind::Unsigned, &b("10470")),
        Some(Scalar::Unsigned(10470))
    );
    assert_eq!(decode_scalar(ScalarKind::Unsigned, &b("")), None);
    assert_eq!(decode_scalar(ScalarKind::Unsigned, &b("12x")), None);
    assert_eq!(
        decode_scalar(ScalarKind::Unsigned, &b("18446744073709551616")),
        None
    );
    assert_eq!(
        decode_scalar(ScalarKind::Bytes, &b("payload")),
        Some(Scalar::Bytes(b("payload")))
    );
}

#[test]
fn text_record_with_attribute_writes_exactly() {
    // the populated optional attribute appears; the text is the body
    let out = render(&write_record(
        &text_record_desc(),
        &text_record(Some("x"), "hi"),
    ));
    assert_eq!(String::from_utf8(out).unwrap(), r#"<tag1 att1="x">hi</tag1>"#);
    // the absent optional attribute contributes nothing
    let out = render(&write_record(&text_record_desc(), &text_record(None, "hi")));
    assert_eq!(String::from_utf8(out).unwrap(), r#"<tag1>hi</tag1>"#);
}

fn flag_desc() -> Descriptor {
    Descriptor {
        tag: b("tag3"),
        kind: EventKind::Start,
        fields: vec![FieldKind::FlattenEmpty { tag: b("tag4") }],
        extends_attributes: false,
    }
}

fn flag_record(on: bool) -> RecordValue {
    RecordValue { fields: vec![FieldValue::Flag(on)], extra_attributes: Vec::new() }
}

#[test]
fn flatten_empty_flag_writes_bare_element_iff_true() {
    let out = render(&write_record(&flag_desc(), &flag_record(true)));
    assert_eq!(String::from_utf8(out).unwrap(), r#"<tag3><tag4/></tag3>"#);
    let out = render(&write_record(&flag_desc(), &flag_record(false)));
    assert_eq!(String::from_utf8(out).unwrap(), r#"<tag3></tag3>"#);
}

fn two_attr_desc() -> Descriptor {
    Descriptor {
        tag: b("tag2"),
        kind: EventKind::Empty,
        fields: vec![
            FieldKind::Attribute { key: b("att1"), kind: ScalarKind::Bytes, optional: false },
            FieldKind::Attribute { key: b("att2"), kind: ScalarKind::Bytes, optional: false },
        ],
        extends_attributes: false,
    }
}

#[test]
fn attribute_order_in_source_does_not_matter() {
    let expected = RecordValue {
        fields: vec![
            FieldValue::Scalar(Scalar::Bytes(b("att1"))),
            FieldValue::Scalar(Scalar::Bytes(b("att2"))),
        ],
        extra_attributes: Vec::new(),
    };
    let evs = tokenize(&b(r#"<tag2 att2="att2" att1="att1"/>"#)).unwrap();
    assert_eq!(read_record(&two_attr_desc(), &evs, 0).unwrap().0, expected);
    let evs = tokenize(&b(r#"<tag2 att1="att1" att2="att2"/>"#)).unwrap();
    assert_eq!(read_record(&two_attr_desc(), &evs, 0).unwrap().0, expected);
}

#[test]
fn write_is_deterministic() {
    let a = render(&write_record(
        &text_record_desc(),
        &text_record(Some("x"), "hi"),
    ));
    let c = render(&write_record(
        &text_record_desc(),
        &text_record(Some("x"), "hi"),
    ));
    assert_eq!(a, c);
}

#[test]
fn sequence_children_accumulate_in_order() {
    let desc = Descriptor {
        tag: b("list"),
        kind: EventKind::Start,
        fields: vec![FieldKind::Child {
            occurs: Occurs::Repeated,
            descriptor: Box::new(text_record_desc()),
        }],
        extends_attributes: false,
    };
    let evs = tokenize(&b(
        r#"<list><tag1>one</tag1><tag1>two</tag1><tag1>three</tag1></list>"#,
    ))
    .unwrap();
    let rec = read_record(&desc, &evs, 0).unwrap().0;
    assert_eq!(
        rec.fields[0],
        FieldValue::Children(vec![
            text_record(None, "one"),
            text_record(None, "two"),
            text_record(None, "three"),
        ])
    );
}

#[test]
fn duplicate_variant_tag_fails_at_construction() {
    let r = VariantDescriptor::new(vec![text_record_desc(), text_record_desc()]);
    assert_eq!(r.unwrap_err(), SchemaError::DuplicateVariantTag);
    assert!(VariantDescriptor::new(vec![text_record_desc(), two_attr_desc()]).is_ok());
}

#[test]
fn read_errors_are_reported() {
    // a boolean attribute that does not parse
    let desc = Descriptor {
        tag: b("tag2"),
        kind: EventKind::Empty,
        fields: vec![FieldKind::Attribute {
            key: b("att1"),
            kind: ScalarKind::Boolean,
            optional: false,
        }],
        extends_attributes: false,
    };
    let evs = tokenize(&b(r#"<tag2 att1="sideways"/>"#)).unwrap();
    assert_eq!(
        read_record(&desc, &evs, 0).unwrap_err(),
        ReadError::DecodeError
    );

    // an element tag that matches no declared role
    let evs = tokenize(&b(r#"<tag3><nope/></tag3>"#)).unwrap();
    assert_eq!(
        read_record(&flag_desc(), &evs, 0).unwrap_err(),
        ReadError::UnexpectedTag
    );

    // a second occurrence of a non-sequence child
    let desc = Descriptor {
        tag: b("outer"),
        kind: EventKind::Start,
        fields: vec![FieldKind::Child {
            occurs: Occurs::Optional,
            descriptor: Box::new(two_attr_desc()),
        }],
        extends_attributes: false,
    };
    let evs = tokenize(&b(
        r#"<outer><tag2 att1="a" att2="b"/><tag2 att1="c" att2="d"/></outer>"#,
    ))
    .unwrap();
    assert_eq!(
        read_record(&desc, &evs, 0).unwrap_err(),
        ReadError::DuplicateChild
    );

    // a stream ending before the close event
    let evs = tokenize(&b(r#"<tag3><tag4/>"#)).unwrap();
    assert_eq!(
        read_record(&flag_desc(), &evs, 0).unwrap_err(),
        ReadError::UnexpectedEof
    );

    // text where no text role is declared
    let evs = tokenize(&b(r#"<tag3>stray</tag3>"#)).unwrap();
    assert_eq!(
        read_record(&flag_desc(), &evs, 0).unwrap_err(),
        ReadError::UnexpectedEvent
    );

    // a tag no variant answers to
    let vd = VariantDescriptor::new(vec![text_record_desc(), two_attr_desc()]).unwrap();
    let evs = tokenize(&b(r#"<other/>"#)).unwrap();
    assert_eq!(
        read_variant(&vd, &evs, 0).unwrap_err(),
        ReadError::InvalidEnumVariant
    );
}

#[test]
fn record_round_trips_through_events() {
    let value = text_record(Some("x"), "hi");
    let evs = write_record(&text_record_desc(), &value);
    let (back, used) = read_record(&text_record_desc(), &evs, 0).unwrap();
    assert_eq!(back, value);
    assert_eq!(used, evs.len());
}

#[test]
fn vertical_alignment_round_trip() {
    let d = VerticalAlignment::descriptor();
    let out = render(&write_record(&d, &VerticalAlignment::superscript().to_record()));
    assert_eq!(
        String::from_utf8(out).unwrap(),
        r#"<w:vertAlign w:val="superscript"/>"#
    );
    let evs = tokenize(&b(r#"<w:vertAlign w:val="subscript"/>"#)).unwrap();
    let rec = read_record(&d, &evs, 0).unwrap().0;
    assert_eq!(rec, VerticalAlignment::subscript().to_record());
    assert_eq!(
        VerticalAlignmentType::Superscript.value_bytes(),
        b("superscript")
    );
    assert_eq!(VerticalAlignment::default(), VerticalAlignment { val: None });
}
