use xmlserde::case::{parse_case, Case};
use xmlserde::de::XmlError;
use xmlserde::schema::{
    Arity, Container, EleType, FieldPayload, ScalarKind, StructField,
};
use xmlserde::value::{Unparsed, Value};
use xmlserde::xmlvalue::XmlValue;
use xmlserde::{xml_deserialize_from_str, xml_serialize, xml_serialize_with_decl};

fn cs(s: &str) -> Vec<char> {
    s.chars().collect()
}

fn string_of(v: &Vec<char>) -> String {
    v.iter().collect()
}

fn field(ty: EleType, name: Option<&str>, arity: Arity, payload: FieldPayload) -> StructField {
    StructField {
        ty,
        name: name.map(cs),
        mapped_names: vec![],
        field_ident: cs("field"),
        skip_serializing: false,
        default: None,
        vec_size: None,
        generic: arity,
        payload,
    }
}

fn rec(fields: Vec<StructField>, roots: Vec<&str>) -> Container {
    Container {
        struct_fields: fields,
        enum_variants: vec![],
        with_ns: None,
        custom_ns: vec![],
        roots: roots.into_iter().map(cs).collect(),
        deny_unknown: false,
        rename_all: None,
    }
}

fn rfield(v: &Value, i: usize) -> &Value {
    match v {
        Value::Record(fields) => &fields[i],
        _ => panic!("not a record"),
    }
}

fn as_bool(v: &Value) -> bool {
    match v {
        Value::Bool(b) => *b,
        _ => panic!("not a boolean"),
    }
}

fn as_str(v: &Value) -> String {
    match v {
        Value::Str(s) => string_of(s),
        _ => panic!("not a string"),
    }
}

#[test]
fn absent_markers_stay_false() {
    let font = rec(
        vec![
            field(EleType::SelfClosedChild, Some("b"), Arity::Scalar, FieldPayload::Flag),
            field(EleType::SelfClosedChild, Some("i"), Arity::Scalar, FieldPayload::Flag),
        ],
        vec!["font"],
    );
    let v = xml_deserialize_from_str(&font, "<font><b/></font>").unwrap();
    assert!(as_bool(rfield(&v, 0)));
    assert!(!as_bool(rfield(&v, 1)));
    let v = xml_deserialize_from_str(&font, "<font></font>").unwrap();
    assert!(!as_bool(rfield(&v, 0)));
    assert!(!as_bool(rfield(&v, 1)));
}

#[test]
fn escaped_text_and_attributes_round_trip() {
    let note = rec(
        vec![
            field(EleType::Attr, Some("title"), Arity::Scalar, FieldPayload::Scalar(ScalarKind::SString)),
            field(EleType::Text, None, Arity::Scalar, FieldPayload::Scalar(ScalarKind::SString)),
        ],
        vec!["note"],
    );
    let v = Value::Record(vec![
        Value::Str(cs("a<b>&\"c\"")),
        Value::Str(cs("1 < 2 & 3 > 2")),
    ]);
    let xml = xml_serialize(&note, &v);
    assert_eq!(
        xml,
        "<note title=\"a&lt;b&gt;&amp;&quot;c&quot;\">1 &lt; 2 &amp; 3 &gt; 2</note>"
    );
    let back = xml_deserialize_from_str(&note, &xml).unwrap();
    assert_eq!(as_str(rfield(&back, 0)), "a<b>&\"c\"");
    assert_eq!(as_str(rfield(&back, 1)), "1 < 2 & 3 > 2");
}

#[test]
fn entities_and_apostrophes_are_read() {
    let note = rec(
        vec![
            field(EleType::Attr, Some("title"), Arity::Scalar, FieldPayload::Scalar(ScalarKind::SString)),
            field(EleType::Text, None, Arity::Scalar, FieldPayload::Scalar(ScalarKind::SString)),
        ],
        vec!["note"],
    );
    let xml = "<note title='it&apos;s &quot;here&quot;'>&lt;&gt;&amp;</note>";
    let v = xml_deserialize_from_str(&note, xml).unwrap();
    assert_eq!(as_str(rfield(&v, 0)), "it's \"here\"");
    assert_eq!(as_str(rfield(&v, 1)), "<>&");
}

#[test]
fn comments_and_declarations_are_skipped() {
    let note = rec(
        vec![field(EleType::Text, None, Arity::Scalar, FieldPayload::Scalar(ScalarKind::SString))],
        vec!["note"],
    );
    let xml = "<?xml version=\"1.0\"?><!-- a comment --><note>hi</note>";
    let v = xml_deserialize_from_str(&note, xml).unwrap();
    assert_eq!(as_str(rfield(&v, 0)), "hi");
}

#[test]
fn malformed_markup_is_a_stream_error() {
    let note = rec(
        vec![field(EleType::Text, None, Arity::Scalar, FieldPayload::Scalar(ScalarKind::SString))],
        vec!["note"],
    );
    let r = xml_deserialize_from_str(&note, "<note>hi</note");
    assert!(matches!(r, Err(XmlError::StreamError)));
}

#[test]
fn unexpected_root_is_reported() {
    let note = rec(
        vec![field(EleType::Text, None, Arity::Scalar, FieldPayload::Scalar(ScalarKind::SString))],
        vec!["note"],
    );
    let r = xml_deserialize_from_str(&note, "<memo>hi</memo>");
    assert!(matches!(r, Err(XmlError::UnexpectedRoot)));
}

#[test]
fn missing_required_field_is_reported() {
    let person = rec(
        vec![field(EleType::Attr, Some("age"), Arity::Scalar, FieldPayload::Scalar(ScalarKind::SU16))],
        vec!["person"],
    );
    let r = xml_deserialize_from_str(&person, "<person/>");
    assert!(matches!(r, Err(XmlError::MissingRequiredField)));
}

#[test]
fn scalar_parse_failure_is_reported() {
    let person = rec(
        vec![field(EleType::Attr, Some("age"), Arity::Scalar, FieldPayload::Scalar(ScalarKind::SU16))],
        vec!["person"],
    );
    let r = xml_deserialize_from_str(&person, "<person age=\"old\"/>");
    assert!(matches!(r, Err(XmlError::ScalarParseFailure)));
    let r = xml_deserialize_from_str(&person, "<person age=\"70000\"/>");
    assert!(matches!(r, Err(XmlError::ScalarParseFailure)));
}

#[test]
fn serialize_with_declaration() {
    let person = rec(
        vec![field(EleType::Attr, Some("age"), Arity::Scalar, FieldPayload::Scalar(ScalarKind::SU16))],
        vec!["person"],
    );
    let v = Value::Record(vec![Value::UInt(3)]);
    let xml = xml_serialize_with_decl(&person, &v);
    assert_eq!(
        xml,
        "<?xml version=\"1.0\" encoding=\"UTF-8\" standalone=\"yes\"?><person age=\"3\"/>"
    );
}

#[test]
fn uppercase_root_matches_lowercase_policy() {
    let mut status = rec(
        vec![field(EleType::Attr, Some("pigeon"), Arity::Scalar, FieldPayload::Scalar(ScalarKind::SString))],
        vec!["status"],
    );
    status.rename_all = Some(Case::Lowercase);
    let v = xml_deserialize_from_str(&status, "<STATUS pigeon=\"up\"></STATUS>").unwrap();
    assert_eq!(as_str(rfield(&v, 0)), "up");
}

#[test]
fn parse_case_names() {
    assert!(matches!(parse_case("snake_case"), Some(Case::SnakeCase)));
    assert!(matches!(parse_case("camelCase"), Some(Case::CamelCase)));
    assert!(matches!(parse_case("SCREAMING-KEBAB-CASE"), Some(Case::ShoutyKebabCase)));
    assert!(parse_case("whatever").is_none());
    assert_eq!(Case::KebabCase.convert("one_two_three"), "one-two-three");
    assert_eq!(Case::ShoutySnakeCase.convert("oneTwo"), "ONE_TWO");
    assert_eq!(Case::ShoutyKebabCase.convert("oneTwo"), "ONE-TWO");
    assert_eq!(Case::SnakeCase.convert("oneTwo"), "one_two");
    assert_eq!(Case::CamelCase.convert("one_two"), "oneTwo");
    assert_eq!(Case::PascalCase.convert("one_two"), "OneTwo");
    assert_eq!(Case::Lowercase.convert("OneTWO"), "onetwo");
    assert_eq!(Case::Uppercase.convert("oneTwo"), "ONETWO");
    assert_eq!(Case::Identity.convert("oNe"), "oNe");
    assert_eq!(Case::SnakeCase.to_rename_all_variant(), "SnakeCase");
}

#[test]
fn scalar_values_round_trip_text() {
    assert_eq!(XmlValue::serialize(&true), "1");
    assert_eq!(XmlValue::serialize(&false), "0");
    assert_eq!(<bool as XmlValue>::deserialize("TRUE").unwrap(), true);
    assert_eq!(<bool as XmlValue>::deserialize("0").unwrap(), false);
    assert!(<bool as XmlValue>::deserialize("2").is_err());
    assert_eq!(XmlValue::serialize(&18446744073709551615u64), "18446744073709551615");
    assert_eq!(<u64 as XmlValue>::deserialize("+42").unwrap(), 42);
    assert_eq!(XmlValue::serialize(&(-9223372036854775808i64)), "-9223372036854775808");
    assert_eq!(
        <i64 as XmlValue>::deserialize("-9223372036854775808").unwrap(),
        i64::MIN
    );
    assert!(<i64 as XmlValue>::deserialize("-9223372036854775809").is_err());
    assert!(<u16 as XmlValue>::deserialize("65536").is_err());
    assert_eq!(<u32 as XmlValue>::deserialize("4294967295").unwrap(), u32::MAX);
    assert_eq!(<i32 as XmlValue>::deserialize("-2147483648").unwrap(), i32::MIN);
    assert_eq!(XmlValue::serialize(&String::from("hi")), "hi");
}

#[test]
fn unparsed_capture_replays_to_a_schema() {
    let inner = rec(
        vec![field(EleType::Attr, Some("age"), Arity::Scalar, FieldPayload::Scalar(ScalarKind::SU16))],
        vec![],
    );
    let outer = rec(
        vec![field(EleType::Child, Some("pet"), Arity::Scalar, FieldPayload::Opaque)],
        vec!["zoo"],
    );
    let v = xml_deserialize_from_str(&outer, "<zoo><pet age=\"4\"><toy/></pet></zoo>").unwrap();
    match rfield(&v, 0) {
        Value::Unparsed(u) => {
            let replayed = Unparsed::deserialize_to(u, &inner).unwrap();
            match rfield(&replayed, 0) {
                Value::UInt(n) => assert_eq!(*n, 4),
                _ => panic!(),
            }
        },
        _ => panic!(),
    }
}

#[test]
fn validate_rejects_text_beside_children() {
    let bad = rec(
        vec![
            field(EleType::Text, None, Arity::Scalar, FieldPayload::Scalar(ScalarKind::SString)),
            field(EleType::SelfClosedChild, Some("b"), Arity::Scalar, FieldPayload::Flag),
        ],
        vec!["x"],
    );
    assert!(bad.validate().is_err());
    let good = rec(
        vec![
            field(EleType::Text, None, Arity::Scalar, FieldPayload::Scalar(ScalarKind::SString)),
            field(EleType::Attr, Some("a"), Arity::Scalar, FieldPayload::Scalar(ScalarKind::SString)),
        ],
        vec!["x"],
    );
    assert!(good.validate().is_ok());
    let mut named_untag = field(
        EleType::Untag,
        Some("oops"),
        Arity::Scalar,
        FieldPayload::Nested(Box::new(rec(vec![], vec![]))),
    );
    named_untag.field_ident = cs("u");
    let bad2 = rec(vec![named_untag], vec!["x"]);
    assert!(bad2.validate().is_err());
}

#[test]
fn round_trip_record_with_text() {
    let person = rec(
        vec![
            field(EleType::Attr, Some("age"), Arity::Scalar, FieldPayload::Scalar(ScalarKind::SU16)),
            field(EleType::Attr, Some("id"), Arity::Scalar, FieldPayload::Scalar(ScalarKind::SI64)),
            field(EleType::Attr, Some("tall"), Arity::Scalar, FieldPayload::Scalar(ScalarKind::SBool)),
            field(EleType::Text, None, Arity::Scalar, FieldPayload::Scalar(ScalarKind::SString)),
        ],
        vec!["person"],
    );
    let v = Value::Record(vec![
        Value::UInt(41),
        Value::Int(-7),
        Value::Bool(true),
        Value::Str(cs("Ada")),
    ]);
    let xml = xml_serialize(&person, &v);
    let back = xml_deserialize_from_str(&person, &xml).unwrap();
    assert!(xmlserde::value::value_eq(&v, &back));
}

#[test]
fn default_equal_child_still_written_beside_content() {
    // a child equal to its default is elided only when the whole element
    // collapses to its self-closing form; beside other content it is
    // still written
    let inner = rec(
        vec![field(EleType::Attr, Some("n"), Arity::Scalar, FieldPayload::Scalar(ScalarKind::SU16))],
        vec![],
    );
    let mut defaulted = field(
        EleType::Child,
        Some("a"),
        Arity::Scalar,
        FieldPayload::Nested(Box::new(rec(
            vec![field(EleType::Attr, Some("n"), Arity::Scalar, FieldPayload::Scalar(ScalarKind::SU16))],
            vec![],
        ))),
    );
    defaulted.default = Some(Value::Record(vec![Value::UInt(0)]));
    let outer = rec(
        vec![
            defaulted,
            field(EleType::Child, Some("b"), Arity::Scalar, FieldPayload::Nested(Box::new(inner))),
        ],
        vec!["outer"],
    );
    // both children at play: the default-equal one is still written
    let v = Value::Record(vec![
        Value::Record(vec![Value::UInt(0)]),
        Value::Record(vec![Value::UInt(7)]),
    ]);
    let xml = xml_serialize(&outer, &v);
    assert_eq!(xml, "<outer><a n=\"0\"/><b n=\"7\"/></outer>");
    // with nothing else to write, the element collapses
    let solo = rec(
        vec![{
            let mut f = field(
                EleType::Child,
                Some("a"),
                Arity::Scalar,
                FieldPayload::Nested(Box::new(rec(
                    vec![field(EleType::Attr, Some("n"), Arity::Scalar, FieldPayload::Scalar(ScalarKind::SU16))],
                    vec![],
                ))),
            );
            f.default = Some(Value::Record(vec![Value::UInt(0)]));
            f
        }],
        vec!["outer"],
    );
    let v = Value::Record(vec![Value::Record(vec![Value::UInt(0)])]);
    assert_eq!(xml_serialize(&solo, &v), "<outer/>");
}

#[test]
fn child_tags_dispatch_case_insensitively() {
    let inner = rec(
        vec![field(EleType::Attr, Some("n"), Arity::Scalar, FieldPayload::Scalar(ScalarKind::SU16))],
        vec![],
    );
    let outer = rec(
        vec![field(EleType::Child, Some("kid"), Arity::Scalar, FieldPayload::Nested(Box::new(inner)))],
        vec!["outer"],
    );
    let v = xml_deserialize_from_str(&outer, "<outer><KID n=\"5\"></KID></outer>").unwrap();
    match rfield(rfield(&v, 0), 0) {
        Value::UInt(n) => assert_eq!(*n, 5),
        _ => panic!(),
    }
}
