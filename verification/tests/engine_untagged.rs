use xmlserde::schema::{
    Arity, Container, EleType, EnumVariant, FieldPayload, ScalarKind, StructField,
};
use xmlserde::value::Value;
use xmlserde::{xml_deserialize_from_str, xml_serialize};

fn cs(s: &str) -> Vec<char> {
    s.chars().collect()
}

fn string_of(v: &Vec<char>) -> String {
    v.iter().collect()
}

fn field(ty: EleType, name: Option<&str>, arity: Arity, payload: FieldPayload) -> StructField {
    StructField {
        ty,
        name: name.map(cs),
        mapped_names: vec![],
        field_ident: cs("field"),
        skip_serializing: false,
        default: None,
        vec_size: None,
        generic: arity,
        payload,
    }
}

fn rec(fields: Vec<StructField>, roots: Vec<&str>) -> Container {
    Container {
        struct_fields: fields,
        enum_variants: vec![],
        with_ns: None,
        custom_ns: vec![],
        roots: roots.into_iter().map(cs).collect(),
        deny_unknown: false,
        rename_all: None,
    }
}

fn sum(variants: Vec<EnumVariant>) -> Container {
    Container {
        struct_fields: vec![],
        enum_variants: variants,
        with_ns: None,
        custom_ns: vec![],
        roots: vec![],
        deny_unknown: false,
        rename_all: None,
    }
}

fn attr_field(name: &str, kind: ScalarKind) -> StructField {
    field(EleType::Attr, Some(name), Arity::Scalar, FieldPayload::Scalar(kind))
}

fn rfield(v: &Value, i: usize) -> &Value {
    match v {
        Value::Record(fields) => &fields[i],
        _ => panic!("not a record"),
    }
}

fn as_str(v: &Value) -> String {
    match v {
        Value::Str(s) => string_of(s),
        _ => panic!("not a string"),
    }
}

fn as_u64(v: &Value) -> u64 {
    match v {
        Value::UInt(n) => *n,
        _ => panic!("not an unsigned number"),
    }
}

fn as_list(v: &Value) -> &Vec<Value> {
    match v {
        Value::List(items) => items,
        _ => panic!("not a list"),
    }
}

fn as_opt(v: &Value) -> Option<&Value> {
    match v {
        Value::Opt(o) => o.as_deref(),
        _ => panic!("not an optional"),
    }
}

fn as_variant(v: &Value) -> (usize, Option<&Value>) {
    match v {
        Value::Variant(i, p) => (*i, p.as_deref()),
        _ => panic!("not a variant"),
    }
}

fn parameter_type() -> Container {
    let ty = rec(vec![attr_field("name", ScalarKind::SString)], vec![]);
    sum(vec![
        EnumVariant { name: Some(cs("varargs")), ele_type: EleType::Child, payload: None },
        EnumVariant {
            name: Some(cs("type")),
            ele_type: EleType::Child,
            payload: Some(FieldPayload::Nested(Box::new(ty))),
        },
        EnumVariant {
            name: None,
            ele_type: EleType::Text,
            payload: Some(FieldPayload::Scalar(ScalarKind::SString)),
        },
    ])
}

#[test]
fn test_untag_enum_no_type_child_and_text() {
    let parameter = rec(
        vec![field(
            EleType::Untag,
            None,
            Arity::Scalar,
            FieldPayload::Nested(Box::new(parameter_type())),
        )],
        vec!["parameter"],
    );

    let xml = r#"<parameter><varargs /></parameter>"#;
    let p = xml_deserialize_from_str(&parameter, xml).unwrap();
    let (idx, payload) = as_variant(rfield(&p, 0));
    assert_eq!(idx, 0);
    assert!(payload.is_none());

    let expect = xml_serialize(&parameter, &p);
    assert_eq!(expect, "<parameter><varargs/></parameter>");

    let xml = r#"<parameter><type name="n"/></parameter>"#;
    let p = xml_deserialize_from_str(&parameter, xml).unwrap();
    let (idx, payload) = as_variant(rfield(&p, 0));
    assert_eq!(idx, 1);
    assert_eq!(as_str(rfield(payload.unwrap(), 0)), "n");
    let expect = xml_serialize(&parameter, &p);
    assert_eq!(expect, xml);

    let xml = r#"<parameter>ttttt</parameter>"#;
    let p = xml_deserialize_from_str(&parameter, xml).unwrap();
    let (idx, payload) = as_variant(rfield(&p, 0));
    assert_eq!(idx, 2);
    assert_eq!(as_str(payload.unwrap()), "ttttt");
    let expect = xml_serialize(&parameter, &p);
    assert_eq!(expect, xml);
}

#[test]
fn test_untag_enum_vec_and_text() {
    let text_span = rec(
        vec![{
            let mut f = field(
                EleType::Text,
                Some("p"),
                Arity::Scalar,
                FieldPayload::Scalar(ScalarKind::SString),
            );
            f.name = Some(cs("p"));
            f
        }],
        vec![],
    );
    let content = sum(vec![
        EnumVariant {
            name: None,
            ele_type: EleType::Text,
            payload: Some(FieldPayload::Scalar(ScalarKind::SString)),
        },
        EnumVariant {
            name: Some(cs("text:span")),
            ele_type: EleType::Child,
            payload: Some(FieldPayload::Nested(Box::new(text_span))),
        },
    ]);
    let text_p = rec(
        vec![field(EleType::Untag, None, Arity::List, FieldPayload::Nested(Box::new(content)))],
        vec!["text:p"],
    );

    let xml = "<text:p>\n            <text:span> text1 </text:span>\n            <text:span>text2</text:span>\n        </text:p>";
    let value = xml_deserialize_from_str(&text_p, xml).unwrap();
    let content_items = as_list(rfield(&value, 0));
    assert_eq!(content_items.len(), 2);
    let (idx, payload) = as_variant(&content_items[0]);
    assert_eq!(idx, 1);
    assert_eq!(as_str(rfield(payload.unwrap(), 0)), " text1 ");
    let (idx, payload) = as_variant(&content_items[1]);
    assert_eq!(idx, 1);
    assert_eq!(as_str(rfield(payload.unwrap(), 0)), "text2");

    let expect = xml_serialize(&text_p, &value);
    assert_eq!(
        expect,
        "<text:p><text:span> text1 </text:span><text:span>text2</text:span></text:p>"
    );

    let xml = r#"<text:p>abcdefg</text:p>"#;
    let value = xml_deserialize_from_str(&text_p, xml).unwrap();
    let content_items = as_list(rfield(&value, 0));
    assert_eq!(content_items.len(), 1);
    let (idx, payload) = as_variant(&content_items[0]);
    assert_eq!(idx, 0);
    assert_eq!(as_str(payload.unwrap()), "abcdefg");
    let expect = xml_serialize(&text_p, &value);
    assert_eq!(expect, xml);
}

fn pet_schema(deny_unknown: bool) -> Container {
    let mut c = rec(vec![attr_field("name", ScalarKind::SString)], vec!["pet"]);
    c.deny_unknown = deny_unknown;
    c
}

#[test]
#[should_panic]
fn test_unknown_fields_in_struct_deny_unknown_attr() {
    let xml = r#"<pet name="Chaplin" age="1"/>"#;
    let _ = xml_deserialize_from_str(&pet_schema(true), xml).unwrap();
}

#[test]
fn test_unknown_fields_in_struct_accept_unknown_attr() {
    let xml = r#"<pet name="Chaplin" age="1"/>"#;
    let _ = xml_deserialize_from_str(&pet_schema(false), xml).unwrap();
}

#[test]
#[should_panic]
fn test_unknown_fields_in_struct_deny_unknown_field() {
    let xml = r#"<pet name="Chaplin"><weight/></pet>"#;
    let _ = xml_deserialize_from_str(&pet_schema(true), xml).unwrap();
}

#[test]
fn test_unknown_fields_in_struct_accept_unknown_field() {
    let xml = r#"<pet name="Chaplin"><weight/></pet>"#;
    let _ = xml_deserialize_from_str(&pet_schema(false), xml).unwrap();
}

#[test]
fn test_issue_52() {
    let bar = rec(vec![], vec![]);
    let foo = rec(
        vec![field(EleType::Child, Some("Bar"), Arity::Scalar, FieldPayload::Nested(Box::new(bar)))],
        vec![],
    );
    let wrapper = rec(
        vec![
            attr_field("header", ScalarKind::SString),
            field(EleType::Untag, None, Arity::Scalar, FieldPayload::Nested(Box::new(foo))),
        ],
        vec!["root"],
    );
    let value = Value::Record(vec![
        Value::Str(cs("")),
        Value::Record(vec![Value::Record(vec![])]),
    ]);
    let r = xml_serialize(&wrapper, &value);
    assert_eq!(r, r#"<root header=""><Bar/></root>"#);
}

#[test]
fn test_issue_52_enum_body() {
    let variant_a_value = rec(
        vec![field(EleType::Text, None, Arity::Scalar, FieldPayload::Scalar(ScalarKind::SString))],
        vec![],
    );
    let variant_b_value = rec(
        vec![field(EleType::Text, None, Arity::Scalar, FieldPayload::Scalar(ScalarKind::SI32))],
        vec![],
    );
    let body_enum = sum(vec![
        EnumVariant {
            name: Some(cs("VariantA")),
            ele_type: EleType::Child,
            payload: Some(FieldPayload::Nested(Box::new(variant_a_value))),
        },
        EnumVariant {
            name: Some(cs("VariantB")),
            ele_type: EleType::Child,
            payload: Some(FieldPayload::Nested(Box::new(variant_b_value))),
        },
    ]);
    let wrapper = rec(
        vec![
            attr_field("header", ScalarKind::SString),
            field(EleType::Untag, None, Arity::Scalar, FieldPayload::Nested(Box::new(body_enum))),
        ],
        vec!["root"],
    );

    let wrapper_a = Value::Record(vec![
        Value::Str(cs("header_a")),
        Value::Variant(0, Some(Box::new(Value::Record(vec![Value::Str(cs("value_a"))])))),
    ]);
    let r_a = xml_serialize(&wrapper, &wrapper_a);
    assert_eq!(r_a, r#"<root header="header_a"><VariantA>value_a</VariantA></root>"#);

    let wrapper_b = Value::Record(vec![
        Value::Str(cs("header_b")),
        Value::Variant(1, Some(Box::new(Value::Record(vec![Value::Int(42)])))),
    ]);
    let r_b = xml_serialize(&wrapper, &wrapper_b);
    assert_eq!(r_b, r#"<root header="header_b"><VariantB>42</VariantB></root>"#);
}

fn bar_schema() -> Container {
    let a = rec(vec![attr_field("attr1", ScalarKind::SU16)], vec![]);
    let c = rec(vec![attr_field("attr2", ScalarKind::SU16)], vec![]);
    rec(
        vec![
            field(EleType::Child, Some("a"), Arity::Scalar, FieldPayload::Nested(Box::new(a))),
            field(EleType::Child, Some("c"), Arity::Scalar, FieldPayload::Nested(Box::new(c))),
        ],
        vec![],
    )
}

#[test]
fn test_de_untagged_struct() {
    let foo = rec(
        vec![field(
            EleType::UntaggedStruct,
            None,
            Arity::Scalar,
            FieldPayload::Nested(Box::new(bar_schema())),
        )],
        vec!["foo"],
    );
    let xml = r#"<foo><a attr1="12"/><c attr2="200"/></foo>"#;
    let value = xml_deserialize_from_str(&foo, xml).unwrap();
    let bar = rfield(&value, 0);
    assert_eq!(as_u64(rfield(rfield(bar, 0), 0)), 12);
    assert_eq!(as_u64(rfield(rfield(bar, 1), 0)), 200);

    let foo_option = rec(
        vec![field(
            EleType::UntaggedStruct,
            None,
            Arity::Optional,
            FieldPayload::Nested(Box::new(bar_schema())),
        )],
        vec!["foo"],
    );
    let xml = r#"<foo><a attr1="12"/><c attr2="200"/></foo>"#;
    let value = xml_deserialize_from_str(&foo_option, xml).unwrap();
    let bar = as_opt(rfield(&value, 0)).unwrap();
    assert_eq!(as_u64(rfield(rfield(bar, 0), 0)), 12);
    assert_eq!(as_u64(rfield(rfield(bar, 1), 0)), 200);

    let xml = r#"<foo>></foo>"#;
    let value = xml_deserialize_from_str(&foo_option, xml).unwrap();
    assert!(as_opt(rfield(&value, 0)).is_none());
}

#[test]
fn test_issue_60() {
    let parameters = rec(
        vec![
            field(
                EleType::Child,
                Some("parameter"),
                Arity::List,
                FieldPayload::Nested(Box::new(rec(vec![], vec![]))),
            ),
            field(
                EleType::Child,
                Some("instance-parameter"),
                Arity::Optional,
                FieldPayload::Nested(Box::new(rec(vec![], vec![]))),
            ),
        ],
        vec![],
    );
    assert_eq!(parameters.struct_fields.len(), 2);
}

#[test]
fn test_vec_deserialize() {
    let properties = rec(vec![], vec![]);
    let a = rec(vec![], vec![]);
    let text_runs = sum(vec![EnumVariant {
        name: Some(cs("a")),
        ele_type: EleType::Child,
        payload: Some(FieldPayload::Nested(Box::new(a))),
    }]);
    let ct_text_paragraph = rec(
        vec![
            field(
                EleType::Child,
                Some("pPr"),
                Arity::Optional,
                FieldPayload::Nested(Box::new(properties)),
            ),
            field(
                EleType::UntaggedEnum,
                None,
                Arity::List,
                FieldPayload::Nested(Box::new(text_runs)),
            ),
        ],
        vec![],
    );
    assert_eq!(ct_text_paragraph.struct_fields.len(), 2);
}
