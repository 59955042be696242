use xmlbind::codec::{Scalar, ScalarKind};
use xmlbind::read::{read_record, VariantValue};
use xmlbind::schema::{Descriptor, EventKind, FieldKind, VariantDescriptor};
use xmlbind::text::{render, tokenize};
use xmlbind::value::{FieldValue, RecordValue};
use xmlbind::variant::{read_variant, write_variant};
use xmlbind::write::write_record;

fn b(s: &str) -> Vec<u8> {
    s.as_bytes().to_vec()
}

fn tag1_desc() -> Descriptor {
    Descriptor {
        tag: b("tag1"),
        kind: EventKind::Start,
        fields: vec![
            FieldKind::Attribute { key: b("att1"), kind: ScalarKind::Bytes, optional: true },
            FieldKind::Text { kind: ScalarKind::Bytes, optional: false },
        ],
        extends_attributes: false,
    }
}

fn tag1_value(att1: Option<&str>, content: &str) -> RecordValue {
    RecordValue {
        fields: vec![
            FieldValue::OptScalar(att1.map(|v| Scalar::Bytes(b(v)))),
            FieldValue::Scalar(Scalar::Bytes(b(content))),
        ],
        extra_attributes: Vec::new(),
    }
}

fn tag2_desc() -> Descriptor {
    Descriptor {
        tag: b("tag2"),
        kind: EventKind::Empty,
        fields: vec![
            FieldKind::Attribute { key: b("att1"), kind: ScalarKind::Bytes, optional: false },
            FieldKind::Attribute { key: b("att2"), kind: ScalarKind::Bytes, optional: false },
        ],
        extends_attributes: false,
    }
}

fn tag2_value(att1: &str, att2: &str) -> RecordValue {
    RecordValue {
        fields: vec![
            FieldValue::Scalar(Scalar::Bytes(b(att1))),
            FieldValue::Scalar(Scalar::Bytes(b(att2))),
        ],
        extra_attributes: Vec::new(),
    }
}

fn tag3_desc() -> Descriptor {
    Descriptor {
        tag: b("tag3"),
        kind: EventKind::Start,
        fields: vec![
            FieldKind::Attribute { key: b("att1"), kind: ScalarKind::Bytes, optional: false },
            FieldKind::Child {
                occurs: xmlbind::schema::Occurs::Repeated,
                descriptor: Box::new(tag1_desc()),
            },
            FieldKind::Child {
                occurs: xmlbind::schema::Occurs::Optional,
                descriptor: Box::new(tag2_desc()),
            },
            FieldKind::FlattenText { tag: b("text"), kind: ScalarKind::Bytes, optional: true },
            FieldKind::FlattenEmpty { tag: b("tag4") },
            FieldKind::FlattenEmptyAttr {
                tag: b("tag5"),
                key: b("att1"),
                kind: ScalarKind::Bytes,
                optional: true,
            },
        ],
        extends_attributes: false,
    }
}

fn tag3_value(
    att1: &str,
    tag1: Vec<RecordValue>,
    tag2: Option<RecordValue>,
    text: Option<&str>,
    tag4: bool,
    tag5: Option<&str>,
) -> RecordValue {
    RecordValue {
        fields: vec![
            FieldValue::Scalar(Scalar::Bytes(b(att1))),
            FieldValue::Children(tag1),
            FieldValue::OptChild(tag2.map(Box::new)),
            FieldValue::OptScalar(text.map(|v| Scalar::Bytes(b(v)))),
            FieldValue::Flag(tag4),
            FieldValue::OptScalar(tag5.map(|v| Scalar::Bytes(b(v)))),
        ],
        extra_attributes: Vec::new(),
    }
}

fn tag_variant() -> VariantDescriptor {
    VariantDescriptor::new(vec![tag1_desc(), tag2_desc(), tag3_desc()]).unwrap()
}

fn written(d: &Descriptor, r: &RecordValue) -> String {
    String::from_utf8(render(&write_record(d, r))).unwrap()
}

#[test]
fn test_write() {
    assert_eq!(
        r#"<tag3 att1="att1"><tag1 att1="tag1_att1">tag1_content</tag1><tag2 att1="tag2_att1" att2="tag2_att2"/></tag3>"#,
        written(
            &tag3_desc(),
            &tag3_value(
                "att1",
                vec![tag1_value(Some("tag1_att1"), "tag1_content")],
                Some(tag2_value("tag2_att1", "tag2_att2")),
                None,
                false,
                None,
            ),
        )
    );

    assert_eq!(
        r#"<tag3 att1="att1"><tag1>tag1_content</tag1><text>tag3_content</text><tag4/><tag5 att1="tag5_att1"/></tag3>"#,
        written(
            &tag3_desc(),
            &tag3_value(
                "att1",
                vec![tag1_value(None, "tag1_content")],
                None,
                Some("tag3_content"),
                true,
                Some("tag5_att1"),
            ),
        )
    );

    assert_eq!(
        r#"<tag3 att1="att1"><tag1>content</tag1><tag1>tag1</tag1><text>tag3_content</text><tag5 att1="tag5_att1"/></tag3>"#,
        written(
            &tag3_desc(),
            &tag3_value(
                "att1",
                vec![tag1_value(None, "content"), tag1_value(None, "tag1")],
                None,
                Some("tag3_content"),
                false,
                Some("tag5_att1"),
            ),
        )
    );

    assert_eq!(
        r#"<tag1>tag1_content</tag1>"#,
        String::from_utf8(render(&write_variant(
            &tag_variant(),
            0,
            &tag1_value(None, "tag1_content"),
        )))
        .unwrap()
    );
}

#[test]
fn test_read() {
    let evs = tokenize(&b(
        r#"<tag3 att1="att1"><text>tag3_content</text><tag2 att2="att2" att1="att1"/><tag1 att1="att1">content</tag1></tag3>"#,
    ))
    .unwrap();
    assert_eq!(
        read_record(&tag3_desc(), &evs, 0).unwrap().0,
        tag3_value(
            "att1",
            vec![tag1_value(Some("att1"), "content")],
            Some(tag2_value("att1", "att2")),
            Some("tag3_content"),
            false,
            None,
        )
    );

    let evs = tokenize(&b(
        r#"<tag3 att1="att1"><tag1>content</tag1><text>tag3_content</text><tag4/><tag5 att1="tag5_att1"/></tag3>"#,
    ))
    .unwrap();
    assert_eq!(
        read_record(&tag3_desc(), &evs, 0).unwrap().0,
        tag3_value(
            "att1",
            vec![tag1_value(None, "content")],
            None,
            Some("tag3_content"),
            true,
            Some("tag5_att1"),
        )
    );

    let evs = tokenize(&b(
        r#"<tag3 att1="att1"><tag1 att1="att11">content1</tag1><tag1 att1="att12">content2</tag1></tag3>"#,
    ))
    .unwrap();
    assert_eq!(
        read_record(&tag3_desc(), &evs, 0).unwrap().0,
        tag3_value(
            "att1",
            vec![
                tag1_value(Some("att11"), "content1"),
                tag1_value(Some("att12"), "content2"),
            ],
            None,
            None,
            false,
            None,
        )
    );

    let evs = tokenize(&b(r#"<tag1 att1="att1">content</tag1>"#)).unwrap();
    assert_eq!(
        read_variant(&tag_variant(), &evs, 0).unwrap().0,
        VariantValue { index: 0, record: tag1_value(Some("att1"), "content") }
    );

    let evs = tokenize(&b(r#"<tag2 att2="att2" att1="att1"/>"#)).unwrap();
    assert_eq!(
        read_variant(&tag_variant(), &evs, 0).unwrap().0,
        VariantValue { index: 1, record: tag2_value("att1", "att2") }
    );
}
