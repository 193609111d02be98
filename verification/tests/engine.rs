use xmlserde::case::Case;
use xmlserde::de::{parse_scalar, XmlError};
use xmlserde::schema::{
    Arity, Container, EleType, EnumMapping, EnumValueVariant, EnumVariant, FieldPayload,
    ScalarKind, StructField, VecSize,
};
use xmlserde::ser::render_scalar;
use xmlserde::value::Value;
use xmlserde::{xml_deserialize_from_str, xml_serialize};

fn cs(s: &str) -> Vec<char> {
    s.chars().collect()
}

fn string_of(v: &Vec<char>) -> String {
    v.iter().collect()
}

fn field(ty: EleType, name: Option<&str>, arity: Arity, payload: FieldPayload) -> StructField {
    StructField {
        ty,
        name: name.map(cs),
        mapped_names: vec![],
        field_ident: cs("field"),
        skip_serializing: false,
        default: None,
        vec_size: None,
        generic: arity,
        payload,
    }
}

fn rec(fields: Vec<StructField>, roots: Vec<&str>) -> Container {
    Container {
        struct_fields: fields,
        enum_variants: vec![],
        with_ns: None,
        custom_ns: vec![],
        roots: roots.into_iter().map(cs).collect(),
        deny_unknown: false,
        rename_all: None,
    }
}

fn attr_field(name: &str, kind: ScalarKind) -> StructField {
    field(EleType::Attr, Some(name), Arity::Scalar, FieldPayload::Scalar(kind))
}

fn text_field(kind: ScalarKind) -> StructField {
    field(EleType::Text, None, Arity::Scalar, FieldPayload::Scalar(kind))
}

fn rfield(v: &Value, i: usize) -> &Value {
    match v {
        Value::Record(fields) => &fields[i],
        _ => panic!("not a record"),
    }
}

fn as_u64(v: &Value) -> u64 {
    match v {
        Value::UInt(n) => *n,
        _ => panic!("not an unsigned number"),
    }
}

fn as_i64(v: &Value) -> i64 {
    match v {
        Value::Int(n) => *n,
        _ => panic!("not a signed number"),
    }
}

fn as_str(v: &Value) -> String {
    match v {
        Value::Str(s) => string_of(s),
        _ => panic!("not a string"),
    }
}

fn as_bool(v: &Value) -> bool {
    match v {
        Value::Bool(b) => *b,
        _ => panic!("not a boolean"),
    }
}

fn as_list(v: &Value) -> &Vec<Value> {
    match v {
        Value::List(items) => items,
        _ => panic!("not a list"),
    }
}

fn as_opt(v: &Value) -> Option<&Value> {
    match v {
        Value::Opt(o) => o.as_deref(),
        _ => panic!("not an optional"),
    }
}

fn as_variant(v: &Value) -> (usize, Option<&Value>) {
    match v {
        Value::Variant(i, p) => (*i, p.as_deref()),
        _ => panic!("not a variant"),
    }
}

fn enum_variant(value: &str) -> EnumValueVariant {
    EnumValueVariant { value: cs(value), mapped: vec![], is_other: false }
}

#[test]
fn xml_serde_enum_test() {
    let mapping = EnumMapping {
        variants: vec![
            enum_variant("a"),
            enum_variant("b"),
            enum_variant("c"),
            EnumValueVariant { value: cs(""), mapped: vec![], is_other: true },
        ],
    };
    let kind = ScalarKind::SEnum(mapping);
    assert!(matches!(parse_scalar(&kind, &cs("c")), Some(Value::EnumUnit(2))));
    assert!(matches!(parse_scalar(&kind, &cs("b")), Some(Value::EnumUnit(1))));
    assert!(matches!(parse_scalar(&kind, &cs("a")), Some(Value::EnumUnit(0))));
    match parse_scalar(&kind, &cs("d2")) {
        Some(Value::EnumOther(3, s)) => assert_eq!(string_of(&s), "d2"),
        _ => panic!(),
    }
    assert_eq!(string_of(&render_scalar(&kind, &Value::EnumUnit(0))), "a");
}

#[test]
fn default_for_child() {
    // the nested property record
    let property = rec(vec![attr_field("name", ScalarKind::SString)], vec![]);
    let properties = rec(
        vec![field(
            EleType::Child,
            Some("property"),
            Arity::List,
            FieldPayload::Nested(Box::new(property)),
        )],
        vec![],
    );
    let mut props_field = field(
        EleType::Child,
        Some("properties"),
        Arity::Scalar,
        FieldPayload::Nested(Box::new(properties)),
    );
    props_field.default = Some(Value::Record(vec![Value::List(vec![])]));
    let namespace = rec(vec![props_field], vec!["namespace"]);

    let xml = "<namespace>\n        </namespace>";
    let result = xml_deserialize_from_str(&namespace, xml).unwrap();
    let inner = rfield(&result, 0);
    assert!(as_list(rfield(inner, 0)).is_empty());

    let xml = "<namespace>\n            <properties>\n                <property name=\"test\" />\n            </properties>\n        </namespace>";
    let result = xml_deserialize_from_str(&namespace, xml).unwrap();
    let inner = rfield(&result, 0);
    let items = as_list(rfield(inner, 0));
    assert_eq!(as_str(rfield(&items[0], 0)), "test");
}

#[test]
fn self_closed_boolean_child() {
    let font = rec(
        vec![
            field(EleType::SelfClosedChild, Some("b"), Arity::Scalar, FieldPayload::Flag),
            field(EleType::SelfClosedChild, Some("i"), Arity::Scalar, FieldPayload::Flag),
            attr_field("size", ScalarKind::SDecimal),
        ],
        vec!["font"],
    );
    let xml = "<font size=\"12.2\">\n            <b/>\n            <i/>\n        </font>";
    let result = xml_deserialize_from_str(&font, xml);
    match result {
        Ok(f) => {
            assert!(as_bool(rfield(&f, 0)));
            assert!(as_bool(rfield(&f, 1)));
            match rfield(&f, 2) {
                Value::Decimal(s) => assert_eq!(string_of(s).parse::<f64>().unwrap(), 12.2),
                _ => panic!(),
            }
        },
        Err(_) => panic!(),
    }
}

fn aa_schema(vec_size: VecSize) -> Container {
    let child = rec(
        vec![attr_field("age", ScalarKind::SU16), text_field(ScalarKind::SString)],
        vec![],
    );
    let mut f = field(EleType::Child, Some("f"), Arity::List, FieldPayload::Nested(Box::new(child)));
    f.vec_size = Some(vec_size);
    let mut cnt = attr_field("cnt", ScalarKind::SU32);
    cnt.field_ident = cs("cnt");
    cnt.default = Some(Value::UInt(0));
    rec(vec![f, cnt], vec!["root"])
}

#[test]
fn derive_deserialize_vec_with_init_size_from_attr() {
    let schema = aa_schema(VecSize::FromAttr(cs("cnt")));
    let xml = "<root cnt=\"2\">\n            <f age=\"15\"> Tom</f>\n            <f age=\"9\">Jerry</f>\n        </root>";
    let result = xml_deserialize_from_str(&schema, xml);
    match result {
        Ok(result) => {
            let items = as_list(rfield(&result, 0));
            assert_eq!(items.len(), 2);
            assert_eq!(as_u64(rfield(&result, 1)), 2);
            let first = &items[0];
            assert_eq!(as_u64(rfield(first, 0)), 15);
            assert_eq!(as_str(rfield(first, 1)), String::from(" Tom"));
            let second = &items[1];
            assert_eq!(as_u64(rfield(second, 0)), 9);
            assert_eq!(as_str(rfield(second, 1)), String::from("Jerry"));
        },
        Err(_) => panic!(),
    }
}

#[test]
fn derive_deserialize_vec_with_init_size() {
    let schema = aa_schema(VecSize::Fixed(10));
    let xml = "<root cnt=\"2\">\n            <f age=\"15\">Tom</f>\n            <f age=\"9\">Jerry</f>\n        </root>";
    let result = xml_deserialize_from_str(&schema, xml).unwrap();
    match rfield(&result, 0) {
        Value::List(items) => assert_eq!(items.capacity(), 10),
        _ => panic!(),
    }
}

#[test]
fn serialize_attr_and_text() {
    let person = rec(
        vec![
            attr_field("age", ScalarKind::SU16),
            attr_field("male", ScalarKind::SBool),
            {
                let mut f = text_field(ScalarKind::SString);
                f.name = Some(cs("name"));
                f
            },
        ],
        vec!["Person"],
    );
    let value = Value::Record(vec![
        Value::UInt(12),
        Value::Bool(true),
        Value::Str(cs("Tom")),
    ]);
    let result = xml_serialize(&person, &value);
    assert_eq!(result, "<Person age=\"12\" male=\"1\">Tom</Person>");
}

#[test]
fn serialize_attr_and_sfc() {
    let person = rec(
        vec![
            attr_field("age", ScalarKind::SU16),
            field(EleType::SelfClosedChild, Some("male"), Arity::Scalar, FieldPayload::Flag),
            field(EleType::SelfClosedChild, Some("lefty"), Arity::Scalar, FieldPayload::Flag),
        ],
        vec!["Person"],
    );
    let p1 = Value::Record(vec![Value::UInt(16), Value::Bool(false), Value::Bool(true)]);
    let result = xml_serialize(&person, &p1);
    assert_eq!(result, "<Person age=\"16\"><lefty/></Person>");
}

#[test]
fn serialize_children() {
    let skills = rec(
        vec![
            attr_field("eng", ScalarKind::SBool),
            field(EleType::SelfClosedChild, Some("jap"), Arity::Scalar, FieldPayload::Flag),
        ],
        vec![],
    );
    let person = rec(
        vec![
            attr_field("age", ScalarKind::SU16),
            field(EleType::Child, Some("skills"), Arity::Scalar, FieldPayload::Nested(Box::new(skills))),
        ],
        vec!["Person"],
    );
    let p = Value::Record(vec![
        Value::UInt(32),
        Value::Record(vec![Value::Bool(false), Value::Bool(true)]),
    ]);
    let result = xml_serialize(&person, &p);
    assert_eq!(result, "<Person age=\"32\"><skills eng=\"0\"><jap/></skills></Person>");
}

#[test]
fn serialize_opt_attr() {
    let person = rec(
        vec![field(
            EleType::Attr,
            Some("age"),
            Arity::Optional,
            FieldPayload::Scalar(ScalarKind::SU16),
        )],
        vec!["Person"],
    );
    let p = Value::Record(vec![Value::Opt(Some(Box::new(Value::UInt(2))))]);
    let result = xml_serialize(&person, &p);
    assert_eq!(result, "<Person age=\"2\"/>");
    let p = Value::Record(vec![Value::Opt(None)]);
    let result = xml_serialize(&person, &p);
    assert_eq!(result, "<Person/>");
}

#[test]
fn deserialize_opt_attr() {
    let person = rec(
        vec![field(
            EleType::Attr,
            Some("age"),
            Arity::Optional,
            FieldPayload::Scalar(ScalarKind::SU16),
        )],
        vec!["Person"],
    );
    let xml = r#"<Person age="2"></Person>"#;
    let result = xml_deserialize_from_str(&person, xml);
    match result {
        Ok(p) => match as_opt(rfield(&p, 0)) {
            Some(v) => assert_eq!(as_u64(v), 2),
            None => panic!(),
        },
        Err(_) => panic!(),
    }
}

#[test]
fn deserialize_default() {
    let person = rec(
        vec![
            {
                let mut f = attr_field("age", ScalarKind::SU16);
                f.default = Some(Value::UInt(12));
                f
            },
            {
                let mut f = text_field(ScalarKind::SString);
                f.name = Some(cs("name"));
                f
            },
        ],
        vec!["Person"],
    );
    let xml = r#"<Person>Tom</Person>"#;
    let result = xml_deserialize_from_str(&person, xml);
    match result {
        Ok(p) => {
            assert_eq!(as_u64(rfield(&p, 0)), 12);
            assert_eq!(as_str(rfield(&p, 1)), "Tom");
        },
        Err(_) => panic!(),
    }
}

#[test]
fn serialize_skip_default() {
    let person = rec(
        vec![
            {
                let mut f = attr_field("age", ScalarKind::SU16);
                f.default = Some(Value::UInt(12));
                f
            },
            {
                let mut f = text_field(ScalarKind::SString);
                f.name = Some(cs("name"));
                f
            },
        ],
        vec!["Person"],
    );
    let p = Value::Record(vec![Value::UInt(12), Value::Str(cs("Tom"))]);
    let result = xml_serialize(&person, &p);
    assert_eq!(result, "<Person>Tom</Person>")
}

#[test]
fn serialize_with_ns() {
    let mut person = rec(
        vec![
            attr_field("age", ScalarKind::SU16),
            {
                let mut f = text_field(ScalarKind::SString);
                f.name = Some(cs("name"));
                f
            },
        ],
        vec!["Person"],
    );
    person.with_ns = Some(cs("namespace"));
    let p = Value::Record(vec![Value::UInt(12), Value::Str(cs("Tom"))]);
    let result = xml_serialize(&person, &p);
    assert_eq!(result, "<Person xmlns=\"namespace\" age=\"12\">Tom</Person>");
}

#[test]
fn scf_and_child_test() {
    let child = rec(vec![attr_field("age", ScalarKind::SU16)], vec![]);
    let person = rec(
        vec![
            field(EleType::SelfClosedChild, Some("lefty"), Arity::Scalar, FieldPayload::Flag),
            field(EleType::Child, Some("c"), Arity::Scalar, FieldPayload::Nested(Box::new(child))),
        ],
        vec!["Person"],
    );
    let xml = r#"<Person><lefty/><c age="12"/></Person>"#;
    let p = xml_deserialize_from_str(&person, xml).unwrap();
    let result = xml_serialize(&person, &p);
    assert_eq!(xml, result);
}

#[test]
fn custom_ns_test() {
    let mut child = rec(vec![attr_field("age", ScalarKind::SU16)], vec!["Child"]);
    child.custom_ns = vec![(cs("a"), cs("c"))];
    let c = Value::Record(vec![Value::UInt(12)]);
    let p = xml_serialize(&child, &c);
    assert_eq!(p, "<Child xmlns:a=\"c\" age=\"12\"/>");
}

fn test_enum_schema() -> Container {
    let test_a = rec(vec![attr_field("age", ScalarKind::SU16)], vec![]);
    let test_b = rec(vec![attr_field("name", ScalarKind::SString)], vec![]);
    Container {
        struct_fields: vec![],
        enum_variants: vec![
            EnumVariant {
                name: Some(cs("testA")),
                ele_type: EleType::Child,
                payload: Some(FieldPayload::Nested(Box::new(test_a))),
            },
            EnumVariant {
                name: Some(cs("testB")),
                ele_type: EleType::Child,
                payload: Some(FieldPayload::Nested(Box::new(test_b))),
            },
        ],
        with_ns: None,
        custom_ns: vec![],
        roots: vec![],
        deny_unknown: false,
        rename_all: None,
    }
}

#[test]
fn enum_serialize_test() {
    let child = rec(
        vec![field(
            EleType::Child,
            Some("dummy"),
            Arity::Scalar,
            FieldPayload::Nested(Box::new(test_enum_schema())),
        )],
        vec!["Child"],
    );
    let obj = Value::Record(vec![Value::Variant(
        0,
        Some(Box::new(Value::Record(vec![Value::UInt(23)]))),
    )]);
    let xml = xml_serialize(&child, &obj);
    let p = xml_deserialize_from_str(&child, &xml).unwrap();
    let (idx, payload) = as_variant(rfield(&p, 0));
    assert_eq!(idx, 0);
    assert_eq!(as_u64(rfield(payload.unwrap(), 0)), 23);
}

#[test]
fn unparsed_serde_test() {
    let test_a = rec(
        vec![field(EleType::Child, Some("others"), Arity::Scalar, FieldPayload::Opaque)],
        vec!["TestA"],
    );
    let xml = r#"<TestA><others age="16" name="Tom"><gf/><parent><f/><m name="Lisa">1999</m></parent></others></TestA>"#;
    let p = xml_deserialize_from_str(&test_a, xml).unwrap();
    let ser = xml_serialize(&test_a, &p);
    assert_eq!(xml, ser);
}

fn untag_enum_a() -> Container {
    let astruct = rec(vec![attr_field("aAttr", ScalarKind::SU32)], vec![]);
    let bstruct = rec(vec![attr_field("bAttr", ScalarKind::SU32)], vec![]);
    Container {
        struct_fields: vec![],
        enum_variants: vec![
            EnumVariant {
                name: Some(cs("a")),
                ele_type: EleType::Child,
                payload: Some(FieldPayload::Nested(Box::new(astruct))),
            },
            EnumVariant {
                name: Some(cs("b")),
                ele_type: EleType::Child,
                payload: Some(FieldPayload::Nested(Box::new(bstruct))),
            },
        ],
        with_ns: None,
        custom_ns: vec![],
        roots: vec![],
        deny_unknown: false,
        rename_all: None,
    }
}

#[test]
fn untag_serde_test() {
    let root = rec(
        vec![field(EleType::Untag, None, Arity::Scalar, FieldPayload::Nested(Box::new(untag_enum_a())))],
        vec!["Root"],
    );
    let xml = r#"<Root><a aAttr="3"/></Root>"#;
    let p = xml_deserialize_from_str(&root, xml).unwrap();
    let (idx, payload) = as_variant(rfield(&p, 0));
    assert_eq!(idx, 0);
    assert_eq!(as_u64(rfield(payload.unwrap(), 0)), 3);
    let ser = xml_serialize(&root, &p);
    assert_eq!(xml, &ser);
}

#[test]
fn vec_untag_serde_test() {
    let root = rec(
        vec![field(EleType::Untag, None, Arity::List, FieldPayload::Nested(Box::new(untag_enum_a())))],
        vec!["Root"],
    );
    let xml = r#"<Root><a aAttr="3"/><b bAttr="5"/><a aAttr="4"/></Root>"#;
    let p = xml_deserialize_from_str(&root, xml).unwrap();
    assert_eq!(as_list(rfield(&p, 0)).len(), 3);
    let ser = xml_serialize(&root, &p);
    assert_eq!(xml, &ser);
}

#[test]
fn option_untag_serde_test() {
    let astruct = rec(vec![attr_field("aAttr", ScalarKind::SU32)], vec![]);
    let enum_a = Container {
        struct_fields: vec![],
        enum_variants: vec![EnumVariant {
            name: Some(cs("a")),
            ele_type: EleType::Child,
            payload: Some(FieldPayload::Nested(Box::new(astruct))),
        }],
        with_ns: None,
        custom_ns: vec![],
        roots: vec![],
        deny_unknown: false,
        rename_all: None,
    };
    let root = rec(
        vec![field(EleType::Untag, None, Arity::Optional, FieldPayload::Nested(Box::new(enum_a)))],
        vec!["Root"],
    );
    let xml = r#"<Root/>"#;
    let p = xml_deserialize_from_str(&root, xml).unwrap();
    assert!(as_opt(rfield(&p, 0)).is_none());
    let xml = r#"<Root><a aAttr="3"/></Root>"#;
    let p = xml_deserialize_from_str(&root, xml).unwrap();
    match as_opt(rfield(&p, 0)) {
        Some(v) => {
            let (idx, payload) = as_variant(v);
            assert_eq!(idx, 0);
            assert_eq!(as_u64(rfield(payload.unwrap(), 0)), 3);
        },
        None => panic!(),
    }
    let ser = xml_serialize(&root, &p);
    assert_eq!(xml, &ser);
}

#[test]
fn ser_opt_text() {
    let a_struct = rec(
        vec![field(
            EleType::Text,
            None,
            Arity::Optional,
            FieldPayload::Scalar(ScalarKind::SString),
        )],
        vec!["ttt"],
    );
    let instance = Value::Record(vec![Value::Opt(Some(Box::new(Value::Str(cs(
        "hello world!",
    )))))]);
    let expect = xml_serialize(&a_struct, &instance);
    assert_eq!(expect, "<ttt>hello world!</ttt>");
}

#[test]
fn test_generics() {
    // the engine is schema-driven: any nested schema stands in for a type
    // parameter, as the untagged optional here
    let root = rec(
        vec![field(
            EleType::Untag,
            None,
            Arity::Optional,
            FieldPayload::Nested(Box::new(untag_enum_a())),
        )],
        vec!["Root"],
    );
    let _ = xml_deserialize_from_str(&root, "<Root/>").unwrap();
    let a_struct = rec(
        vec![field(EleType::Text, None, Arity::Optional, FieldPayload::Scalar(ScalarKind::SString))],
        vec!["ttt"],
    );
    let _ = xml_serialize(&a_struct, &Value::Record(vec![Value::Opt(None)]));
}
