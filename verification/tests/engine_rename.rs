use xmlserde::case::Case;
use xmlserde::de::parse_scalar;
use xmlserde::schema::{
    Arity, Container, EleType, EnumMapping, EnumValueVariant, EnumVariant, FieldPayload,
    ScalarKind, StructField,
};
use xmlserde::ser::render_scalar;
use xmlserde::value::Value;
use xmlserde::{xml_deserialize_from_str, xml_serialize};

fn cs(s: &str) -> Vec<char> {
    s.chars().collect()
}

fn string_of(v: &Vec<char>) -> String {
    v.iter().collect()
}

fn field(ty: EleType, name: Option<&str>, arity: Arity, payload: FieldPayload) -> StructField {
    StructField {
        ty,
        name: name.map(cs),
        mapped_names: vec![],
        field_ident: cs("field"),
        skip_serializing: false,
        default: None,
        vec_size: None,
        generic: arity,
        payload,
    }
}

fn rec(fields: Vec<StructField>, roots: Vec<&str>) -> Container {
    Container {
        struct_fields: fields,
        enum_variants: vec![],
        with_ns: None,
        custom_ns: vec![],
        roots: roots.into_iter().map(cs).collect(),
        deny_unknown: false,
        rename_all: None,
    }
}

fn ident_attr(ident: &str, kind: ScalarKind) -> StructField {
    let mut f = field(EleType::Attr, None, Arity::Scalar, FieldPayload::Scalar(kind));
    f.field_ident = cs(ident);
    f
}

fn rfield(v: &Value, i: usize) -> &Value {
    match v {
        Value::Record(fields) => &fields[i],
        _ => panic!("not a record"),
    }
}

fn as_str(v: &Value) -> String {
    match v {
        Value::Str(s) => string_of(s),
        _ => panic!("not a string"),
    }
}

fn as_u64(v: &Value) -> u64 {
    match v {
        Value::UInt(n) => *n,
        _ => panic!("not an unsigned number"),
    }
}

fn as_bool(v: &Value) -> bool {
    match v {
        Value::Bool(b) => *b,
        _ => panic!("not a boolean"),
    }
}

#[test]
fn test_enum_map_attribute() {
    let mapping = EnumMapping {
        variants: vec![
            EnumValueVariant { value: cs("cat"), mapped: vec![], is_other: false },
            EnumValueVariant { value: cs("dog"), mapped: vec![], is_other: false },
            EnumValueVariant {
                value: cs("Bird"),
                mapped: vec![cs("parrot"), cs("pigeon")],
                is_other: false,
            },
            EnumValueVariant { value: cs(""), mapped: vec![], is_other: true },
            EnumValueVariant { value: cs("Unknown"), mapped: vec![], is_other: false },
        ],
    };
    let kind = ScalarKind::SEnum(mapping);

    assert_eq!(string_of(&render_scalar(&kind, &Value::EnumUnit(0))), "cat");
    assert_eq!(string_of(&render_scalar(&kind, &Value::EnumUnit(1))), "dog");
    assert_eq!(string_of(&render_scalar(&kind, &Value::EnumUnit(2))), "Bird");
    assert_eq!(
        string_of(&render_scalar(&kind, &Value::EnumOther(3, cs("unknown")))),
        "unknown"
    );

    assert!(matches!(parse_scalar(&kind, &cs("cat")), Some(Value::EnumUnit(0))));
    assert!(matches!(parse_scalar(&kind, &cs("dog")), Some(Value::EnumUnit(1))));
    assert!(matches!(parse_scalar(&kind, &cs("parrot")), Some(Value::EnumUnit(2))));
    assert!(matches!(parse_scalar(&kind, &cs("pigeon")), Some(Value::EnumUnit(2))));
    match parse_scalar(&kind, &cs("unknown")) {
        Some(Value::EnumOther(3, s)) => assert_eq!(string_of(&s), "unknown"),
        _ => panic!(),
    }
}

fn status_schema(map: Vec<&str>, arity: Arity, default: Option<&str>) -> Container {
    let mut f = field(EleType::Attr, None, arity, FieldPayload::Scalar(ScalarKind::SString));
    f.mapped_names = map.into_iter().map(cs).collect();
    f.field_ident = cs("bird");
    if let Some(d) = default {
        f.default = Some(Value::Str(cs(d)));
    }
    rec(vec![f], vec!["status"])
}

#[test]
fn test_struct_map_attribute() {
    let status = status_schema(vec!["parrot", "pigeon"], Arity::Scalar, None);
    let xml = r#"<status parrot="talking"></status>"#;
    let v = xml_deserialize_from_str(&status, xml).unwrap();
    assert_eq!(as_str(rfield(&v, 0)), "talking");

    let xml = r#"<status pigeon="flying"></status>"#;
    let v = xml_deserialize_from_str(&status, xml).unwrap();
    assert_eq!(as_str(rfield(&v, 0)), "flying");

    let v = Value::Record(vec![Value::Str(cs("talking"))]);
    let xml = xml_serialize(&status, &v);
    assert!(xml.contains("parrot=\"talking\""));
    assert!(!xml.contains("pigeon=\"talking\""));
}

#[test]
fn test_struct_map_attribute_optional() {
    let status = status_schema(vec!["parrot", "pigeon"], Arity::Optional, None);
    let xml = r#"<status parrot="talking"></status>"#;
    let v = xml_deserialize_from_str(&status, xml).unwrap();
    match rfield(&v, 0) {
        Value::Opt(Some(inner)) => assert_eq!(as_str(inner), "talking"),
        _ => panic!(),
    }

    let xml = r#"<status pigeon="flying"></status>"#;
    let v = xml_deserialize_from_str(&status, xml).unwrap();
    match rfield(&v, 0) {
        Value::Opt(Some(inner)) => assert_eq!(as_str(inner), "flying"),
        _ => panic!(),
    }

    let xml = r#"<status></status>"#;
    let v = xml_deserialize_from_str(&status, xml).unwrap();
    assert!(matches!(rfield(&v, 0), Value::Opt(None)));

    let v = Value::Record(vec![Value::Opt(Some(Box::new(Value::Str(cs("talking")))))]);
    let xml = xml_serialize(&status, &v);
    assert!(xml.contains("parrot=\"talking\""));
    assert!(!xml.contains("pigeon=\"talking\""));

    let v = Value::Record(vec![Value::Opt(None)]);
    let xml = xml_serialize(&status, &v);
    assert!(!xml.contains("parrot"));
    assert!(!xml.contains("pigeon"));
}

#[test]
fn test_struct_map_attribute_with_default() {
    let status = status_schema(vec!["parrot", "pigeon"], Arity::Scalar, Some("unknown"));
    let xml = r#"<status parrot="talking"></status>"#;
    let v = xml_deserialize_from_str(&status, xml).unwrap();
    assert_eq!(as_str(rfield(&v, 0)), "talking");

    let xml = r#"<status pigeon="flying"></status>"#;
    let v = xml_deserialize_from_str(&status, xml).unwrap();
    assert_eq!(as_str(rfield(&v, 0)), "flying");

    let xml = r#"<status></status>"#;
    let v = xml_deserialize_from_str(&status, xml).unwrap();
    assert_eq!(as_str(rfield(&v, 0)), "unknown");

    let v = Value::Record(vec![Value::Str(cs("talking"))]);
    let xml = xml_serialize(&status, &v);
    assert!(xml.contains("parrot=\"talking\""));
    assert!(!xml.contains("pigeon=\"talking\""));

    let v = Value::Record(vec![Value::Str(cs("unknown"))]);
    let xml = xml_serialize(&status, &v);
    assert!(!xml.contains("parrot"));
    assert!(!xml.contains("pigeon"));

    let status2 = status_schema(vec!["pigeon", "parrot"], Arity::Scalar, Some("unknown"));
    let v = Value::Record(vec![Value::Str(cs("cooing"))]);
    let xml = xml_serialize(&status2, &v);
    assert!(!xml.contains("parrot"));
    assert!(xml.contains("pigeon=\"cooing\""));
}

#[test]
fn test_struct_rename_all() {
    let mut status = rec(
        vec![{
            let mut f = field(
                EleType::Attr,
                Some("pigeon"),
                Arity::Scalar,
                FieldPayload::Scalar(ScalarKind::SString),
            );
            f.field_ident = cs("bird");
            f
        }],
        vec!["status"],
    );
    status.rename_all = Some(Case::Lowercase);

    let v = Value::Record(vec![Value::Str(cs("talking"))]);
    let xml = xml_serialize(&status, &v);
    assert!(xml.contains("pigeon=\"talking\""));

    for xml in [
        r#"<status pigeon="talking"></status>"#,
        r#"<status Pigeon="talking"></status>"#,
        r#"<status PIGEON="talking"></status>"#,
        r#"<status PiGeOn="talking"></status>"#,
        r#"<status pigeoN="talking"></status>"#,
    ] {
        let v = xml_deserialize_from_str(&status, xml).unwrap();
        assert_eq!(as_str(rfield(&v, 0)), "talking");
    }
}

fn person_case_schema(case: Case) -> Container {
    let mut person = rec(
        vec![
            ident_attr("first_name", ScalarKind::SString),
            ident_attr("last_name", ScalarKind::SString),
            ident_attr("is_active", ScalarKind::SBool),
        ],
        vec!["person"],
    );
    person.rename_all = Some(case);
    person
}

#[test]
fn test_struct_rename_all_cases() {
    let person = person_case_schema(Case::Lowercase);
    let v = Value::Record(vec![
        Value::Str(cs("John")),
        Value::Str(cs("Doe")),
        Value::Bool(true),
    ]);
    let xml = xml_serialize(&person, &v);
    assert!(xml.contains("first_name=\"John\""));
    assert!(xml.contains("last_name=\"Doe\""));
    assert!(xml.contains("is_active=\"1\""));

    let xml = r#"<person first_name="John" last_name="Doe" is_active="1"></person>"#;
    let v = xml_deserialize_from_str(&person, xml).unwrap();
    assert_eq!(as_str(rfield(&v, 0)), "John");
    assert_eq!(as_str(rfield(&v, 1)), "Doe");
    assert!(as_bool(rfield(&v, 2)));

    let xml = r#"<person First_Name="John" LAST_NAME="Doe" IS_ACTIVE="1"></person>"#;
    let v = xml_deserialize_from_str(&person, xml).unwrap();
    assert_eq!(as_str(rfield(&v, 0)), "John");
    assert_eq!(as_str(rfield(&v, 1)), "Doe");
    assert!(as_bool(rfield(&v, 2)));

    let person = person_case_schema(Case::Uppercase);
    let v = Value::Record(vec![
        Value::Str(cs("John")),
        Value::Str(cs("Doe")),
        Value::Bool(true),
    ]);
    let xml = xml_serialize(&person, &v);
    assert!(xml.contains("FIRST_NAME=\"John\""));
    assert!(xml.contains("LAST_NAME=\"Doe\""));
    assert!(xml.contains("IS_ACTIVE=\"1\""));

    let person = person_case_schema(Case::CamelCase);
    let v = Value::Record(vec![
        Value::Str(cs("John")),
        Value::Str(cs("Doe")),
        Value::Bool(true),
    ]);
    let xml = xml_serialize(&person, &v);
    assert!(xml.contains("firstName=\"John\""));
    assert!(xml.contains("lastName=\"Doe\""));
    assert!(xml.contains("isActive=\"1\""));

    let person = person_case_schema(Case::PascalCase);
    let v = Value::Record(vec![
        Value::Str(cs("John")),
        Value::Str(cs("Doe")),
        Value::Bool(true),
    ]);
    let xml = xml_serialize(&person, &v);
    assert!(xml.contains("FirstName=\"John\""));
    assert!(xml.contains("LastName=\"Doe\""));
    assert!(xml.contains("IsActive=\"1\""));
}

#[test]
fn test_rename_all_with_mapped_names() {
    let mut person = rec(
        vec![
            {
                let mut f = field(
                    EleType::Attr,
                    None,
                    Arity::Scalar,
                    FieldPayload::Scalar(ScalarKind::SString),
                );
                f.mapped_names = vec![cs("first_name"), cs("firstName"), cs("FirstName")];
                f.field_ident = cs("first_name");
                f
            },
            {
                let mut f = field(
                    EleType::Attr,
                    None,
                    Arity::Scalar,
                    FieldPayload::Scalar(ScalarKind::SString),
                );
                f.mapped_names = vec![cs("last_name"), cs("lastName"), cs("LastName")];
                f.field_ident = cs("last_name");
                f
            },
        ],
        vec!["person"],
    );
    person.rename_all = Some(Case::SnakeCase);

    let v = Value::Record(vec![Value::Str(cs("John")), Value::Str(cs("Doe"))]);
    let xml = xml_serialize(&person, &v);
    assert!(xml.contains("first_name=\"John\""));
    assert!(xml.contains("last_name=\"Doe\""));

    for xml in [
        r#"<person first_name="John" last_name="Doe"></person>"#,
        r#"<person firstName="John" lastName="Doe"></person>"#,
        r#"<person FirstName="John" LastName="Doe"></person>"#,
    ] {
        let v = xml_deserialize_from_str(&person, xml).unwrap();
        assert_eq!(as_str(rfield(&v, 0)), "John");
        assert_eq!(as_str(rfield(&v, 1)), "Doe");
    }
}

#[test]
fn test_nested_struct_rename_all() {
    let mut address = rec(
        vec![
            ident_attr("street_name", ScalarKind::SString),
            ident_attr("house_number", ScalarKind::SU32),
        ],
        vec![],
    );
    address.rename_all = Some(Case::CamelCase);
    let mut person = rec(
        vec![
            ident_attr("first_name", ScalarKind::SString),
            {
                let mut f = field(
                    EleType::Child,
                    None,
                    Arity::Scalar,
                    FieldPayload::Nested(Box::new(address)),
                );
                f.field_ident = cs("address");
                f
            },
        ],
        vec!["person"],
    );
    person.rename_all = Some(Case::SnakeCase);

    let v = Value::Record(vec![
        Value::Str(cs("John")),
        Value::Record(vec![Value::Str(cs("Main Street")), Value::UInt(123)]),
    ]);
    let xml = xml_serialize(&person, &v);
    assert!(xml.contains("first_name=\"John\""));
    assert!(xml.contains("streetName=\"Main Street\""));
    assert!(xml.contains("houseNumber=\"123\""));

    let xml = r#"<person first_name="John"><address streetName="Main Street" houseNumber="123"/></person>"#;
    let v = xml_deserialize_from_str(&person, xml).unwrap();
    assert_eq!(as_str(rfield(&v, 0)), "John");
    let address = rfield(&v, 1);
    assert_eq!(as_str(rfield(address, 0)), "Main Street");
    assert_eq!(as_u64(rfield(address, 1)), 123);

    let xml = r#"<Person first_name="John"><address streetName="Main Street2" houseNumber="123"/></Person>"#;
    let v = xml_deserialize_from_str(&person, xml).unwrap();
    assert_eq!(as_str(rfield(&v, 0)), "John");
    let address = rfield(&v, 1);
    assert_eq!(as_str(rfield(address, 0)), "Main Street2");
    assert_eq!(as_u64(rfield(address, 1)), 123);

    let xml = r#"<person First_Name="John"><address StreetName="Main Street" HouseNumber="123"/></person>"#;
    let v = xml_deserialize_from_str(&person, xml).unwrap();
    assert_eq!(as_str(rfield(&v, 0)), "John");
    let address = rfield(&v, 1);
    assert_eq!(as_str(rfield(address, 0)), "Main Street");
    assert_eq!(as_u64(rfield(address, 1)), 123);
}

#[test]
fn test_rename_all_root_case_insensitive() {
    let mut person = rec(
        vec![
            ident_attr("first_name", ScalarKind::SString),
            ident_attr("last_name", ScalarKind::SString),
        ],
        vec!["person"],
    );
    person.rename_all = Some(Case::CamelCase);

    for xml in [
        r#"<Person firstName="John" lastName="Doe"></Person>"#,
        r#"<PERSON firstName="John" lastName="Doe"></PERSON>"#,
        r#"<person firstName="John" lastName="Doe"></person>"#,
    ] {
        let v = xml_deserialize_from_str(&person, xml).unwrap();
        assert_eq!(as_str(rfield(&v, 0)), "John");
        assert_eq!(as_str(rfield(&v, 1)), "Doe");
    }

    let v = Value::Record(vec![Value::Str(cs("John")), Value::Str(cs("Doe"))]);
    let xml = xml_serialize(&person, &v);
    assert!(xml.contains("person"));
    assert!(xml.contains("firstName=\"John\""));
    assert!(xml.contains("lastName=\"Doe\""));
}

#[test]
fn test_multiple_roots() {
    let person = rec(
        vec![
            field(EleType::Attr, Some("age"), Arity::Scalar, FieldPayload::Scalar(ScalarKind::SU16)),
            {
                let mut f = field(
                    EleType::Text,
                    Some("name"),
                    Arity::Scalar,
                    FieldPayload::Scalar(ScalarKind::SString),
                );
                f.name = Some(cs("name"));
                f
            },
        ],
        vec!["person", "employee"],
    );

    let xml = r#"<person age="25">John</person>"#;
    let v = xml_deserialize_from_str(&person, xml).unwrap();
    assert_eq!(as_u64(rfield(&v, 0)), 25);
    assert_eq!(as_str(rfield(&v, 1)), "John");

    let xml = r#"<employee age="30">Jane</employee>"#;
    let v = xml_deserialize_from_str(&person, xml).unwrap();
    assert_eq!(as_u64(rfield(&v, 0)), 30);
    assert_eq!(as_str(rfield(&v, 1)), "Jane");

    let v = Value::Record(vec![Value::UInt(25), Value::Str(cs("John"))]);
    let xml = xml_serialize(&person, &v);
    assert_eq!(xml, "<person age=\"25\">John</person>");
}

#[test]
fn test_bird_observation() {
    let location = rec(
        vec![field(EleType::Attr, Some("id"), Arity::Scalar, FieldPayload::Scalar(ScalarKind::SI32))],
        vec![],
    );
    let observer = rec(
        vec![field(EleType::Attr, Some("id"), Arity::Scalar, FieldPayload::Scalar(ScalarKind::SI32))],
        vec![],
    );
    let tree_nest = rec(
        vec![
            field(
                EleType::Attr,
                Some("Species"),
                Arity::Scalar,
                FieldPayload::Scalar(ScalarKind::SString),
            ),
            field(
                EleType::Child,
                Some("Location"),
                Arity::Scalar,
                FieldPayload::Nested(Box::new(location)),
            ),
            field(
                EleType::Child,
                Some("Observer"),
                Arity::Scalar,
                FieldPayload::Nested(Box::new(observer)),
            ),
        ],
        vec![],
    );
    let nest_details = Container {
        struct_fields: vec![],
        enum_variants: vec![EnumVariant {
            name: Some(cs("TreeNest")),
            ele_type: EleType::Child,
            payload: Some(FieldPayload::Nested(Box::new(tree_nest))),
        }],
        with_ns: None,
        custom_ns: vec![],
        roots: vec![],
        deny_unknown: false,
        rename_all: None,
    };
    let bird_observation = rec(
        vec![
            field(
                EleType::Attr,
                Some("Species"),
                Arity::Scalar,
                FieldPayload::Scalar(ScalarKind::SString),
            ),
            field(
                EleType::Attr,
                Some("Mood"),
                Arity::Scalar,
                FieldPayload::Scalar(ScalarKind::SString),
            ),
            field(
                EleType::Attr,
                Some("Notes"),
                Arity::Scalar,
                FieldPayload::Scalar(ScalarKind::SString),
            ),
            field(
                EleType::Attr,
                Some("ObservationTime"),
                Arity::Scalar,
                FieldPayload::Scalar(ScalarKind::SString),
            ),
            field(
                EleType::Attr,
                Some("Count"),
                Arity::Scalar,
                FieldPayload::Scalar(ScalarKind::SI32),
            ),
            field(
                EleType::Child,
                Some("NestDetails"),
                Arity::Optional,
                FieldPayload::Nested(Box::new(nest_details)),
            ),
        ],
        vec!["BirdObservation"],
    );

    let xml = r#"<BirdObservation
            Species="Robin"
            Mood="Chirpy"
            Notes="Singing a lovely song."
            ObservationTime="2024-07-27T10:30:00"
            Count="2"
        >
            <NestDetails>
                <TreeNest Species="Robin">
                    <Location id="12345" />
                    <Observer id="98765" />
                </TreeNest>
            </NestDetails>
        </BirdObservation>"#;

    let result = xml_deserialize_from_str(&bird_observation, xml);
    match result {
        Ok(observation) => {
            println!("Deserialized observation: {:#?}", observation);
            assert_eq!(as_str(rfield(&observation, 0)), "Robin");
            assert_eq!(as_str(rfield(&observation, 1)), "Chirpy");
            assert_eq!(as_str(rfield(&observation, 2)), "Singing a lovely song.");
            assert_eq!(as_str(rfield(&observation, 3)), "2024-07-27T10:30:00");
            assert_eq!(match rfield(&observation, 4) {
                Value::Int(n) => *n,
                _ => panic!(),
            }, 2);
            let nest_details = rfield(&observation, 5);
            println!("Nest details: {:?}", nest_details);
            match nest_details {
                Value::Opt(Some(nd)) => match nd.as_ref() {
                    Value::Variant(0, Some(nest)) => {
                        assert_eq!(as_str(rfield(nest, 0)), "Robin");
                        match rfield(nest, 1) {
                            Value::Record(loc) => match &loc[0] {
                                Value::Int(n) => assert_eq!(*n, 12345),
                                _ => panic!(),
                            },
                            _ => panic!(),
                        }
                        match rfield(nest, 2) {
                            Value::Record(obs) => match &obs[0] {
                                Value::Int(n) => assert_eq!(*n, 98765),
                                _ => panic!(),
                            },
                            _ => panic!(),
                        }
                    },
                    _ => panic!(),
                },
                _ => panic!("Deserialization failed"),
            }
        },
        Err(e) => {
            println!("Deserialization error: {}", e.message());
            panic!("Deserialization failed");
        },
    }
}
