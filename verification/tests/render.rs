use generator::policy::{
    decode_name, decode_number, encode_name, field_context, field_policy, omit_number, skip_name,
    Decode, Encode, FieldContext, FieldPolicy, Skip,
};
use generator::registry::{TypeDetails, TypeId, TypeSpace};
use generator::render::{basic_name, metadata_of, shape_is_optional, shape_of_basic, Failure, WireShape};
use generator::schema::{copy_opt_text, copy_texts, BasicType, Metadata, PropertyNode, SchemaKind, SchemaNode};

fn meta() -> Metadata {
    Metadata { description: None, default: None, always_default: false }
}

fn node(kind: SchemaKind) -> SchemaNode {
    SchemaNode { name: None, meta: meta(), kind }
}

fn prim(b: BasicType) -> SchemaNode {
    node(SchemaKind::Primitive(b))
}

fn reference(n: &str) -> SchemaNode {
    node(SchemaKind::Reference(n.to_string()))
}

fn array(n: SchemaNode) -> SchemaNode {
    node(SchemaKind::Array(Box::new(n)))
}

const ALL: [BasicType; 12] = [
    BasicType::Text,
    BasicType::Bool,
    BasicType::Int32,
    BasicType::Int64,
    BasicType::UInt32,
    BasicType::UInt64,
    BasicType::Float32,
    BasicType::Float64,
    BasicType::Date,
    BasicType::DateTime,
    BasicType::Url,
    BasicType::Json,
];

fn plain() -> FieldContext {
    FieldContext { request: false, calendar_times: false, optional_booleans: false, always_written: false }
}

#[test]
fn primitives_have_their_type_expressions() {
    let names = [
        "String", "bool", "i32", "i64", "u32", "u64", "f32", "f64", "Option<chrono::NaiveDate>",
        "Option<chrono::DateTime<chrono::Utc>>", "Option<url::Url>", "serde_json::Value",
    ];
    let mut ts = TypeSpace::new();
    for (b, n) in ALL.iter().zip(names) {
        assert_eq!(basic_name(*b), n);
        let id = ts.select(None, &prim(*b), "");
        assert_eq!(ts.render_type(&id, true), Ok(n.to_string()));
        assert_eq!(ts.render_type(&id, false), Ok(n.to_string()));
        assert_eq!(ts.wire_shape(id), shape_of_basic(*b));
    }
}

#[test]
fn wrappers_are_written_around_what_they_wrap() {
    let mut ts = TypeSpace::new();
    let list = ts.select(None, &array(array(prim(BasicType::Int64))), "");
    assert_eq!(ts.render_type(&list, true), Ok("Vec<Vec<i64>>".to_string()));
    assert_eq!(ts.wire_shape(list), WireShape::List);
    let dict = ts.select(None, &node(SchemaKind::Dictionary(Box::new(prim(BasicType::Bool)))), "");
    assert_eq!(
        ts.render_type(&dict, true),
        Ok("std::collections::HashMap<String, bool>".to_string())
    );
    assert_eq!(ts.wire_shape(dict), WireShape::Dictionary);
    let text = ts.select(None, &prim(BasicType::Text), "");
    let opt = ts.add_if_not_exists(None, TypeDetails::Optional(text, meta()));
    assert_eq!(ts.render_type(&opt, true), Ok("Option<String>".to_string()));
    assert_eq!(ts.wire_shape(opt), WireShape::Optional);
    let opt_opt = ts.add_if_not_exists(None, TypeDetails::Optional(opt, meta()));
    assert_eq!(ts.render_type(&opt_opt, true), Ok("Option<String>".to_string()));
    assert_eq!(ts.wire_shape(opt_opt), WireShape::Optional);
    let date = ts.select(None, &prim(BasicType::Date), "");
    let opt_date = ts.add_if_not_exists(None, TypeDetails::Optional(date, meta()));
    assert_eq!(ts.render_type(&opt_date, true), Ok("Option<chrono::NaiveDate>".to_string()));
    assert_eq!(ts.wire_shape(opt_date), WireShape::OptionalDate);
}

#[test]
fn named_types_go_by_their_names() {
    let mut ts = TypeSpace::new();
    let rec = ts.select(Some("error details"), &node(SchemaKind::Record(vec![])), "");
    assert_eq!(ts.render_type(&rec, true), Ok("ErrorDetails".to_string()));
    assert_eq!(ts.render_type(&rec, false), Ok("crate::types::ErrorDetails".to_string()));
    assert_eq!(ts.wire_shape(rec), WireShape::Other);
    let en = ts.select(Some("SortMode"), &node(SchemaKind::Enumeration(vec!["a".to_string()])), "");
    assert_eq!(ts.render_type(&en, true), Ok("SortMode".to_string()));
    assert_eq!(ts.wire_shape(en), WireShape::Choice { has_default: false });
    let with_default = SchemaNode {
        name: Some("Mode".to_string()),
        meta: Metadata { description: None, default: Some("a".to_string()), always_default: false },
        kind: SchemaKind::Enumeration(vec!["a".to_string()]),
    };
    let en = ts.select(None, &with_default, "");
    assert_eq!(ts.wire_shape(en), WireShape::Choice { has_default: true });
    let alias = ts.select(Some("Alias"), &reference("error details"), "");
    assert_eq!(ts.render_type(&alias, true), Ok("ErrorDetails".to_string()));
    let named_text = ts.select(Some("Id"), &prim(BasicType::Text), "");
    assert_eq!(ts.render_type(&named_text, true), Ok("String".to_string()));
    let list = ts.select(None, &array(reference("error details")), "");
    assert_eq!(ts.render_type(&list, false), Ok("Vec<crate::types::ErrorDetails>".to_string()));
}

#[test]
fn types_without_a_name_are_written_loosely() {
    let mut ts = TypeSpace::new();
    let rec = ts.select(None, &node(SchemaKind::Record(vec![])), "");
    assert_eq!(ts.render_type(&rec, true), Ok("serde_json::Value".to_string()));
    let en = ts.select(None, &node(SchemaKind::Enumeration(vec!["a".to_string()])), "");
    assert_eq!(ts.render_type(&en, true), Ok("String".to_string()));
    assert_eq!(ts.wire_shape(en), WireShape::Text);
    let one = ts.select(None, &node(SchemaKind::OneOf(vec![])), "");
    assert_eq!(ts.render_type(&one, true), Ok("serde_json::Value".to_string()));
}

#[test]
fn what_cannot_be_rendered_says_why() {
    let mut ts = TypeSpace::new();
    assert_eq!(ts.render_type(&TypeId(7), true), Err(Failure::Unrenderable));
    assert_eq!(ts.wire_shape(TypeId(7)), WireShape::Other);
    let unknown = ts.select(None, &node(SchemaKind::Unrecognized), "");
    assert_eq!(ts.render_type(&unknown, true), Err(Failure::Unresolvable));
    let pending = ts.select(None, &reference("Later"), "");
    assert_eq!(ts.render_type(&pending, true), Err(Failure::Unresolvable));
    let list = ts.select(None, &array(reference("Later")), "");
    assert_eq!(ts.render_type(&list, true), Err(Failure::Unrenderable));
    let looped = ts.select(Some("Loop"), &array(reference("Loop")), "");
    assert_eq!(ts.render_type(&looped, true), Err(Failure::Unrenderable));
    assert_eq!(ts.wire_shape(looped), WireShape::List);
}

#[test]
fn documentation_is_the_description() {
    let mut ts = TypeSpace::new();
    let described = SchemaNode {
        name: None,
        meta: Metadata {
            description: Some("The rack's\nunique ID.".to_string()),
            default: None,
            always_default: false,
        },
        kind: SchemaKind::Primitive(BasicType::Text),
    };
    let id = ts.select(None, &described, "");
    assert_eq!(ts.render_docs(&id), "The rack's\nunique ID.");
    let bare = ts.select(None, &prim(BasicType::Text), "");
    assert_eq!(ts.render_docs(&bare), "");
    assert_eq!(ts.render_docs(&TypeId(99)), "");
    let unknown = ts.select(None, &node(SchemaKind::Unrecognized), "");
    assert_eq!(ts.render_docs(&unknown), "");
    assert_eq!(metadata_of(&TypeDetails::Unknown), None);
    assert_eq!(metadata_of(&TypeDetails::Array(TypeId(0), meta())), Some(&meta()));
}

#[test]
fn optional_shapes() {
    let optional = [
        WireShape::Optional,
        WireShape::OptionalUrl,
        WireShape::OptionalDate,
        WireShape::OptionalDateTime,
    ];
    for s in optional {
        assert!(shape_is_optional(s));
    }
    for s in [WireShape::Text, WireShape::List, WireShape::Bool, WireShape::Other, WireShape::Int64] {
        assert!(!shape_is_optional(s));
    }
}

#[test]
fn copies_keep_the_text() {
    assert_eq!(copy_opt_text(&Some("a".to_string())), Some("a".to_string()));
    assert_eq!(copy_opt_text(&None), None);
    assert_eq!(copy_texts(&vec!["a".to_string(), "".to_string()]), vec!["a".to_string(), "".to_string()]);
    let m = Metadata {
        description: Some("d".to_string()),
        default: Some("x".to_string()),
        always_default: false,
    };
    assert_eq!(m.duplicate(), m);
    assert_eq!(Metadata::empty(), meta());
}

#[test]
fn the_context_of_a_field() {
    assert_eq!(field_context("User", "Oxide", "name"), plain());
    assert!(field_context("PostMailSendRequest", "SendGrid", "name").request);
    assert!(!field_context("RequestLog", "SendGrid", "name").request);
    assert!(field_context("Event", "Google Calendar", "start").calendar_times);
    assert!(field_context("File", "Google Drive", "starred").optional_booleans);
    assert!(field_context("Branch", "GitHub", "restrictions").always_written);
    assert!(field_context("Branch", "GitHub", "required_status_checks").always_written);
    assert!(field_context("Branch", "GitHub", "required_pull_request_reviews").always_written);
    assert!(!field_context("Branch", "GitHub", "name").always_written);
    assert!(!field_context("Branch", "GitLab", "restrictions").always_written);
}

#[test]
fn the_policy_of_each_shape() {
    let lenient = |skip, decode| FieldPolicy {
        default: true,
        skip,
        decode,
        encode: Encode::Plain,
        optional_bool: false,
    };
    let p = plain();
    assert_eq!(field_policy(WireShape::Text, p), lenient(Skip::EmptyText, Decode::NullText));
    assert_eq!(field_policy(WireShape::List, p), lenient(Skip::EmptyList, Decode::NullList));
    assert_eq!(field_policy(WireShape::Dictionary, p), lenient(Skip::EmptyDictionary, Decode::Plain));
    assert_eq!(field_policy(WireShape::OptionalUrl, p), lenient(Skip::Absent, Decode::EmptyUrl));
    assert_eq!(field_policy(WireShape::OptionalDate, p), lenient(Skip::Absent, Decode::Date));
    assert_eq!(field_policy(WireShape::OptionalDateTime, p), lenient(Skip::Absent, Decode::DateTime));
    assert_eq!(field_policy(WireShape::Optional, p), lenient(Skip::Absent, Decode::Plain));
    assert_eq!(field_policy(WireShape::Bool, p), lenient(Skip::Never, Decode::NullBool));
    assert_eq!(field_policy(WireShape::Int32, p), lenient(Skip::ZeroInt32, Decode::NullInt32));
    assert_eq!(field_policy(WireShape::Int64, p), lenient(Skip::ZeroInt64, Decode::NullInt64));
    assert_eq!(field_policy(WireShape::UInt32, p), lenient(Skip::ZeroUInt32, Decode::NullUInt32));
    assert_eq!(field_policy(WireShape::UInt64, p), lenient(Skip::ZeroUInt64, Decode::NullUInt64));
    assert_eq!(field_policy(WireShape::Float32, p), lenient(Skip::ZeroFloat32, Decode::NullFloat32));
    assert_eq!(field_policy(WireShape::Float64, p), lenient(Skip::ZeroFloat64, Decode::NullFloat64));
    assert_eq!(
        field_policy(WireShape::Choice { has_default: false }, p),
        lenient(Skip::Noop, Decode::Plain)
    );
    assert_eq!(
        field_policy(WireShape::Choice { has_default: true }, p),
        lenient(Skip::Never, Decode::Plain)
    );
    assert_eq!(
        field_policy(WireShape::Other, p),
        FieldPolicy {
            default: false,
            skip: Skip::Never,
            decode: Decode::Plain,
            encode: Encode::Plain,
            optional_bool: false
        }
    );
}

#[test]
fn the_exceptions_of_the_policy() {
    let calendar = FieldContext { calendar_times: true, ..plain() };
    assert_eq!(field_policy(WireShape::OptionalDateTime, calendar).encode, Encode::CalendarDateTime);
    assert_eq!(field_policy(WireShape::OptionalDate, calendar).encode, Encode::Plain);
    let written = FieldContext { always_written: true, ..plain() };
    assert_eq!(field_policy(WireShape::Optional, written).skip, Skip::Never);
    assert_eq!(field_policy(WireShape::OptionalUrl, written).skip, Skip::Absent);
    let contexts =
        [FieldContext { request: true, ..plain() }, FieldContext { optional_booleans: true, ..plain() }];
    for ctx in contexts {
        assert_eq!(
            field_policy(WireShape::Bool, ctx),
            FieldPolicy {
                default: true,
                skip: Skip::Absent,
                decode: Decode::Plain,
                encode: Encode::Plain,
                optional_bool: true
            }
        );
    }
}

#[test]
fn a_null_number_reads_as_zero_and_is_not_written() {
    for shape in [WireShape::Int32, WireShape::Int64, WireShape::UInt32, WireShape::UInt64] {
        let every = FieldContext {
            request: true,
            calendar_times: true,
            optional_booleans: true,
            always_written: true,
        };
        for ctx in [plain(), every] {
            let p = field_policy(shape, ctx);
            let value = decode_number(&p, None);
            assert_eq!(value, Some(0));
            assert!(omit_number(&p, value.unwrap()));
            assert_eq!(decode_number(&p, Some(7)), Some(7));
            assert!(!omit_number(&p, 7));
            assert!(!omit_number(&p, -1));
        }
    }
    let text = field_policy(WireShape::Text, plain());
    assert_eq!(decode_number(&text, None), None);
    assert_eq!(decode_number(&text, Some(3)), Some(3));
    assert!(!omit_number(&text, 0));
    let other = field_policy(WireShape::Other, plain());
    assert_eq!(decode_number(&other, None), None);
}

#[test]
fn the_names_behind_the_policy() {
    assert_eq!(skip_name(Skip::Never, "T"), None);
    assert_eq!(skip_name(Skip::EmptyText, "T"), Some("String::is_empty".to_string()));
    assert_eq!(skip_name(Skip::EmptyList, "T"), Some("Vec::is_empty".to_string()));
    assert_eq!(
        skip_name(Skip::EmptyDictionary, "T"),
        Some("std::collections::HashMap::is_empty".to_string())
    );
    assert_eq!(skip_name(Skip::Absent, "T"), Some("Option::is_none".to_string()));
    assert_eq!(skip_name(Skip::ZeroInt32, "T"), Some("crate::utils::zero_i32".to_string()));
    assert_eq!(skip_name(Skip::ZeroInt64, "T"), Some("crate::utils::zero_i64".to_string()));
    assert_eq!(skip_name(Skip::ZeroUInt32, "T"), Some("crate::utils::zero_u32".to_string()));
    assert_eq!(skip_name(Skip::ZeroUInt64, "T"), Some("crate::utils::zero_u64".to_string()));
    assert_eq!(skip_name(Skip::ZeroFloat32, "T"), Some("crate::utils::zero_f32".to_string()));
    assert_eq!(skip_name(Skip::ZeroFloat64, "T"), Some("crate::utils::zero_f64".to_string()));
    assert_eq!(skip_name(Skip::Noop, "SortMode"), Some("SortMode::is_noop".to_string()));
    assert_eq!(decode_name(Decode::Plain), None);
    assert_eq!(decode_name(Decode::NullText), Some("crate::utils::deserialize_null_string::deserialize"));
    assert_eq!(decode_name(Decode::NullList), Some("crate::utils::deserialize_null_vector::deserialize"));
    assert_eq!(decode_name(Decode::EmptyUrl), Some("crate::utils::deserialize_empty_url::deserialize"));
    assert_eq!(decode_name(Decode::Date), Some("crate::utils::date_format::deserialize"));
    assert_eq!(decode_name(Decode::DateTime), Some("crate::utils::date_time_format::deserialize"));
    assert_eq!(decode_name(Decode::NullBool), Some("crate::utils::deserialize_null_boolean::deserialize"));
    assert_eq!(decode_name(Decode::NullInt32), Some("crate::utils::deserialize_null_i32::deserialize"));
    assert_eq!(decode_name(Decode::NullInt64), Some("crate::utils::deserialize_null_i64::deserialize"));
    assert_eq!(decode_name(Decode::NullUInt32), Some("crate::utils::deserialize_null_u32::deserialize"));
    assert_eq!(decode_name(Decode::NullUInt64), Some("crate::utils::deserialize_null_u64::deserialize"));
    assert_eq!(decode_name(Decode::NullFloat32), Some("crate::utils::deserialize_null_f32::deserialize"));
    assert_eq!(decode_name(Decode::NullFloat64), Some("crate::utils::deserialize_null_f64::deserialize"));
    assert_eq!(encode_name(Encode::Plain), None);
    assert_eq!(
        encode_name(Encode::CalendarDateTime),
        Some("crate::utils::google_calendar_date_time_format::serialize")
    );
}

#[test]
fn property_nodes_compare_by_structure() {
    let a = PropertyNode { name: "a".to_string(), required: true, node: prim(BasicType::Text) };
    let b = PropertyNode { name: "a".to_string(), required: true, node: prim(BasicType::Text) };
    assert_eq!(a, b);
}
