use generator::enums::{render_param, EnumDef, EnumVariant};
use generator::flatten::{field_named, flat_base_name, flat_name, merge_field, FlatDef, FlatField};
use generator::policy::{Decode, Encode, FieldPolicy, Skip};
use generator::records::{default_constructible, default_name_table, EmitError, FieldDef, RecordDef};
use generator::registry::{Property, TypeDetails, TypeId, TypeSpace};
use generator::render::Failure;
use generator::schema::{BasicType, Metadata, PropertyNode, SchemaKind, SchemaNode, SchemaStore};
use generator::types::{do_all_of_type, do_of_type, generate_types, synthesize};
use generator::unions::{insert_id, sort_ids, UnionDef, UnionVariant};

const DERIVE: &str = "#[derive(Serialize, Deserialize, PartialEq, Debug, Clone, JsonSchema)]\n";
const HEADER: &str = "//! The data types sent to and returned from the API client.\n\
\x20   use schemars::JsonSchema;\n\
\x20   use serde::{Serialize, Deserialize};\n\n";

fn meta() -> Metadata {
    Metadata { description: None, default: None, always_default: false }
}

fn node(kind: SchemaKind) -> SchemaNode {
    SchemaNode { name: None, meta: meta(), kind }
}

fn named(name: &str, kind: SchemaKind) -> SchemaNode {
    SchemaNode { name: Some(name.to_string()), meta: meta(), kind }
}

fn described(name: &str, d: &str, kind: SchemaKind) -> SchemaNode {
    SchemaNode {
        name: Some(name.to_string()),
        meta: Metadata { description: Some(d.to_string()), default: None, always_default: false },
        kind,
    }
}

fn prim(b: BasicType) -> SchemaNode {
    node(SchemaKind::Primitive(b))
}

fn reference(n: &str) -> SchemaNode {
    node(SchemaKind::Reference(n.to_string()))
}

fn array(n: SchemaNode) -> SchemaNode {
    node(SchemaKind::Array(Box::new(n)))
}

fn prop(name: &str, required: bool, n: SchemaNode) -> PropertyNode {
    PropertyNode { name: name.to_string(), required, node: n }
}

fn literal(v: &str) -> SchemaNode {
    node(SchemaKind::Enumeration(vec![v.to_string()]))
}

fn tagged(name: &str, tag: &str, payload: BasicType) -> SchemaNode {
    named(
        name,
        SchemaKind::Record(vec![prop("kind", true, literal(tag)), prop("data", true, prim(payload))]),
    )
}

fn texts(v: &[&str]) -> Vec<String> {
    v.iter().map(|s| s.to_string()).collect()
}

fn variant(name: &str, literal: &str) -> EnumVariant {
    EnumVariant { name: name.to_string(), literal: literal.to_string() }
}

#[test]
fn a_choice_has_a_variant_for_each_literal() {
    let literals = texts(&["name-ascending", "", "id-ascending", "name_ascending"]);
    let e = EnumDef::new("SortMode", &literals, "", None);
    assert_eq!(e.name, "SortMode");
    assert_eq!(
        e.variants,
        vec![variant("NameAscending", "name-ascending"), variant("IdAscending", "id-ascending")]
    );
    assert_eq!(e.default_variant, None);
    let e = EnumDef::new("M", &texts(&["a", "b"]), "d", Some("b"));
    assert_eq!(e.default_variant, Some("B".to_string()));
    assert_eq!(e.description, "d");
    let e = EnumDef::new("M", &texts(&["a", "b"]), "", Some("c"));
    assert_eq!(e.default_variant, None);
    let e = EnumDef::new("M", &texts(&["a", ""]), "", Some(""));
    assert_eq!(e.default_variant, None);
    assert_eq!(EnumDef::new("M", &vec![], "", None).variants, vec![]);
}

#[test]
fn the_text_of_a_choice() {
    let expected = "/// Supported set of sort modes.\n/// Ascending only.\n\
#[derive(Serialize, Deserialize, PartialEq, Debug, Clone, JsonSchema)]\n\
pub enum IdSortMode {\n\
\x20   #[serde(rename = \"id-ascending\")]\n\
\x20   IdAscending,\n\
\x20   #[serde(rename = \"\")]\n\
\x20   Noop,\n\
\x20   #[serde(other)]\n\
\x20   FallthroughString,\n\
}\n\
\n\
impl std::fmt::Display for IdSortMode {\n\
\x20   fn fmt(&self, f: &mut std::fmt::Formatter) -> std::fmt::Result {\n\
\x20       match self {\n\
\x20           IdSortMode::IdAscending => \"id-ascending\",\n\
\x20           IdSortMode::Noop => \"\",\n\
\x20           IdSortMode::FallthroughString => \"*\",\n\
\x20       }\n\
\x20       .fmt(f)\n\
\x20   }\n\
}\n\
\n\
impl Default for IdSortMode {\n\
\x20   fn default() -> IdSortMode {\n\
\x20       IdSortMode::Noop\n\
\x20   }\n\
}\n\
\n\
impl IdSortMode {\n\
\x20   pub fn is_noop(&self) -> bool {\n\
\x20       matches!(self, IdSortMode::Noop)\n\
\x20   }\n\
}\n\
\n";
    let text = render_param(
        "IdSortMode",
        &texts(&["id-ascending"]),
        "Supported set of sort modes.\nAscending only.",
        None,
    );
    assert_eq!(text, expected);
    let with_default = render_param("IdSortMode", &texts(&["id-ascending"]), "", Some("id-ascending"));
    assert!(with_default.starts_with(DERIVE));
    assert!(with_default
        .contains("    fn default() -> IdSortMode {\n        IdSortMode::IdAscending\n    }\n"));
    let mut out = "before\n".to_string();
    let description = "Supported set of sort modes.\nAscending only.";
    EnumDef::new("IdSortMode", &texts(&["id-ascending"]), description, None).render(&mut out);
    assert_eq!(out, format!("before\n{}", expected));
}

fn policy(default: bool, skip: Skip, decode: Decode) -> FieldPolicy {
    FieldPolicy { default, skip, decode, encode: Encode::Plain, optional_bool: false }
}

fn field_of(
    ts: &TypeSpace,
    record: &str,
    provider: &str,
    name: &str,
    tid: TypeId,
) -> Result<FieldDef, EmitError> {
    ts.field_def(record, provider, &Property { name: name.to_string(), tid })
}

#[test]
fn the_field_of_a_property() {
    let mut ts = TypeSpace::new();
    let text = ts.select(None, &prim(BasicType::Text), "");
    let int = ts.select(None, &prim(BasicType::Int32), "");
    let flag = ts.select(None, &prim(BasicType::Bool), "");
    let time = ts.select(None, &prim(BasicType::DateTime), "");
    let page = ts.select(Some("RackResultsPage"), &node(SchemaKind::Record(vec![])), "");
    let opt = ts.add_if_not_exists(None, TypeDetails::Optional(page, meta()));
    let f = field_of(&ts, "User", "Oxide", "displayName", text).unwrap();
    assert_eq!(
        f,
        FieldDef {
            name: "display_name".to_string(),
            wire_name: "displayName".to_string(),
            ty: "String".to_string(),
            docs: "".to_string(),
            policy: policy(true, Skip::EmptyText, Decode::NullText),
        }
    );
    let f = field_of(&ts, "User", "Oxide", "next", int).unwrap();
    assert_eq!((f.name.as_str(), f.ty.as_str()), ("next", "String"));
    assert_eq!(f.policy, policy(true, Skip::EmptyText, Decode::NullText));
    let f = field_of(&ts, "User", "Oxide", "count", int).unwrap();
    assert_eq!((f.name.as_str(), f.ty.as_str()), ("count", "i32"));
    assert_eq!(f.policy, policy(true, Skip::ZeroInt32, Decode::NullInt32));
    let f = field_of(&ts, "User", "Oxide", "active", flag).unwrap();
    assert_eq!(f.ty, "bool");
    assert_eq!(f.policy, policy(true, Skip::Never, Decode::NullBool));
    for (record, provider) in [("CreateUserRequest", "Oxide"), ("User", "Google Drive")] {
        let f = field_of(&ts, record, provider, "active", flag).unwrap();
        assert_eq!(f.ty, "Option<bool>");
        assert_eq!(
            f.policy,
            FieldPolicy {
                default: true,
                skip: Skip::Absent,
                decode: Decode::Plain,
                encode: Encode::Plain,
                optional_bool: true
            }
        );
    }
    let f = field_of(&ts, "Event", "Google Calendar", "start", time).unwrap();
    assert_eq!(f.policy.encode, Encode::CalendarDateTime);
    let f = field_of(&ts, "Event", "Oxide", "start", time).unwrap();
    assert_eq!(f.policy.encode, Encode::Plain);
    let f = field_of(&ts, "Branch", "GitHub", "restrictions", opt).unwrap();
    assert_eq!(f.policy.skip, Skip::Never);
    let f = field_of(&ts, "Branch", "Oxide", "restrictions", opt).unwrap();
    assert_eq!(f.policy.skip, Skip::Absent);
    let f = field_of(&ts, "Listing", "Oxide", "page", page).unwrap();
    assert_eq!(f.ty, "RackResultsPage");
    assert_eq!(f.policy, policy(true, Skip::Never, Decode::Plain));
    let f = field_of(&ts, "Listing", "Oxide", "firstPage", page).unwrap();
    assert_eq!(f.policy, policy(false, Skip::Never, Decode::Plain));
    assert_eq!(f.name, "first_page");
}

#[test]
fn a_field_whose_type_cannot_be_rendered_fails() {
    let mut ts = TypeSpace::new();
    let unknown = ts.select(None, &node(SchemaKind::Unrecognized), "");
    let e = field_of(&ts, "User", "Oxide", "what", unknown).unwrap_err();
    assert_eq!(
        e,
        EmitError { failure: Failure::Unresolvable, property: "what".to_string(), tid: unknown }
    );
    assert_eq!(e.message(), "rendering type what TypeId(0) failed");
    let e = field_of(&ts, "User", "Oxide", "gone", TypeId(12)).unwrap_err();
    assert_eq!(
        e,
        EmitError { failure: Failure::Unrenderable, property: "gone".to_string(), tid: TypeId(12) }
    );
    assert_eq!(e.message(), "rendering type gone TypeId(12) failed");
}

#[test]
fn the_text_of_a_field() {
    let f = FieldDef {
        name: "type_".to_string(),
        wire_name: "type".to_string(),
        ty: "SortMode".to_string(),
        docs: "The sort mode.".to_string(),
        policy: FieldPolicy {
            default: true,
            skip: Skip::Noop,
            decode: Decode::DateTime,
            encode: Encode::CalendarDateTime,
            optional_bool: false,
        },
    };
    let mut out = String::new();
    f.render(&mut out, "/// A record.");
    assert_eq!(
        out,
        "/**\nThe sort mode.\n*/\n#[serde(\ndefault,\nskip_serializing_if = \"SortMode::is_noop\",\n\
deserialize_with = \"crate::utils::date_time_format::deserialize\",\n\
serialize_with = \"crate::utils::google_calendar_date_time_format::serialize\",\n\
rename = \"type\",\n)]\npub type_: SortMode,\n"
    );
    let mut out = String::new();
    f.render(&mut out, "The sort mode.");
    assert!(out.starts_with("#[serde(\n"));
    let bare = FieldDef {
        name: "rack".to_string(),
        wire_name: "rack".to_string(),
        ty: "Rack".to_string(),
        docs: "".to_string(),
        policy: policy(false, Skip::Never, Decode::Plain),
    };
    let mut out = String::new();
    bare.render(&mut out, "");
    assert_eq!(out, "#[serde(\n)]\npub rack: Rack,\n");
    let mut out = String::new();
    bare.render_policy(&mut out);
    assert_eq!(out, "#[serde(\n)]\n");
}

#[test]
fn records_that_are_default_constructible() {
    for n in [
        "Page", "RackResultsPage", "PagesSourceHash", "PagesHttpsCertificate", "ErrorDetails",
        "EnvelopeDefinition", "Event", "User", "Group", "CalendarResource", "Building", "Repo",
        "Payload", "Actor", "File", "PostMailSendRequest", "FromEmailObject", "Personalizations",
        "DescriptionlessJobOptions", "DescriptionlessJobOptionsData",
        "DescriptionlessJobOptionsDataType", "SubmitJobOptions", "SubmitJobOptionsData",
    ] {
        assert!(default_constructible(n, false), "{}", n);
    }
    for n in ["Rack", "Pages", "Users", "page", ""] {
        assert!(!default_constructible(n, false), "{}", n);
        assert!(default_constructible(n, true), "{}", n);
    }
    assert_eq!(default_name_table().len(), 21);
    let mut ts = TypeSpace::new();
    let annotated = SchemaNode {
        name: Some("Rack".to_string()),
        meta: Metadata { description: None, default: None, always_default: true },
        kind: SchemaKind::Record(vec![]),
    };
    ts.select(None, &annotated, "");
    ts.select(Some("Sled"), &node(SchemaKind::Record(vec![])), "");
    assert_eq!(
        generate_types(&ts, "Oxide"),
        Ok(format!(
            "{}#[derive(Serialize, Default, Deserialize, PartialEq, Debug, Clone, JsonSchema)]
pub struct Rack {{
}}

{}pub struct Sled {{
}}

",
            HEADER, DERIVE
        ))
    );
}

#[test]
fn the_text_of_a_record() {
    let mut ts = TypeSpace::new();
    let rack = described(
        "Rack",
        "A rack.\nClient view.",
        SchemaKind::Record(vec![
            prop("id", true, prim(BasicType::Text)),
            prop("timeCreated", false, prim(BasicType::DateTime)),
            prop("slots", true, prim(BasicType::UInt32)),
        ]),
    );
    let id = ts.select(None, &rack, "");
    let (props, m) = match &ts.get(id).unwrap().details {
        TypeDetails::Object(p, m) => (p, m),
        _ => unreachable!(),
    };
    let def = ts.record_def("Oxide", "Rack", props, m).unwrap();
    assert_eq!(def.name, "Rack");
    assert_eq!(def.description, Some("A rack.\nClient view.".to_string()));
    assert!(!def.default_constructible);
    assert_eq!(def.fields.len(), 3);
    let mut out = String::new();
    def.render(&mut out);
    let expected = "/// A rack.\n/// Client view.\n\
#[derive(Serialize, Deserialize, PartialEq, Debug, Clone, JsonSchema)]\n\
pub struct Rack {\n\
#[serde(\ndefault,\nskip_serializing_if = \"String::is_empty\",\n\
deserialize_with = \"crate::utils::deserialize_null_string::deserialize\",\n)]\n\
pub id: String,\n\
#[serde(\ndefault,\nskip_serializing_if = \"Option::is_none\",\n\
deserialize_with = \"crate::utils::date_time_format::deserialize\",\n\
rename = \"timeCreated\",\n)]\n\
pub time_created: Option<chrono::DateTime<chrono::Utc>>,\n\
#[serde(\ndefault,\nskip_serializing_if = \"crate::utils::zero_u32\",\n\
deserialize_with = \"crate::utils::deserialize_null_u32::deserialize\",\n)]\n\
pub slots: u32,\n\
}\n\n";
    assert_eq!(out, expected);
    assert_eq!(generate_types(&ts, "Oxide"), Ok(format!("{}{}", HEADER, expected)));
    let empty = RecordDef {
        name: "User".to_string(),
        description: None,
        default_constructible: true,
        fields: vec![],
    };
    let mut out = String::new();
    empty.render(&mut out);
    assert_eq!(
        out,
        "#[derive(Serialize, Default, Deserialize, PartialEq, Debug, Clone, JsonSchema)]\n\
pub struct User {\n}\n\n"
    );
}

#[test]
fn identities_are_sorted_and_taken_once() {
    let ids = |v: &[u64]| v.iter().map(|i| TypeId(*i)).collect::<Vec<_>>();
    assert_eq!(sort_ids(&ids(&[5, 1, 3, 1, 5, 2])), ids(&[1, 2, 3, 5]));
    assert_eq!(sort_ids(&ids(&[])), ids(&[]));
    assert_eq!(sort_ids(&ids(&[2, 3, 1])), sort_ids(&ids(&[1, 1, 3, 2, 3])));
    let mut v = ids(&[1, 4]);
    insert_id(&mut v, TypeId(2));
    insert_id(&mut v, TypeId(4));
    insert_id(&mut v, TypeId(0));
    insert_id(&mut v, TypeId(9));
    assert_eq!(v, ids(&[0, 1, 2, 4, 9]));
}

#[test]
fn a_discriminated_union_is_detected() {
    let mut ts = TypeSpace::new();
    let a = ts.select(None, &tagged("CircleShape", "a", BasicType::Int64), "");
    let b = ts.select(None, &tagged("SquareShape", "b", BasicType::Text), "");
    let c = ts.select(None, &tagged("OtherShape", "c", BasicType::Bool), "");
    assert!(a < b && b < c);
    let expected = UnionDef {
        name: "Shape".to_string(),
        tag: Some("kind".to_string()),
        content: Some("data".to_string()),
        variants: vec![
            UnionVariant { name: "A".to_string(), payload: texts(&["i64"]) },
            UnionVariant { name: "B".to_string(), payload: texts(&["String"]) },
            UnionVariant { name: "C".to_string(), payload: texts(&["bool"]) },
        ],
    };
    for order in [vec![a, b, c], vec![c, a, b], vec![b, c, a, a, c]] {
        assert_eq!(ts.union_def("Shape", &order), Ok(expected.clone_def()));
    }
    let text = do_of_type(&ts, &vec![c, b, a], "Shape".to_string()).unwrap();
    assert_eq!(
        text,
        format!(
            "{}#[serde(rename_all = \"lowercase\")]\n#[serde(tag = \"kind\"\n, content = \"data\"\n)]\n\
pub enum Shape {{\nA(\ni64,\n),\nB(\nString,\n),\nC(\nbool,\n),\n}}\n\n",
            DERIVE
        )
    );
}

trait CloneDef {
    fn clone_def(&self) -> UnionDef;
}

impl CloneDef for UnionDef {
    fn clone_def(&self) -> UnionDef {
        UnionDef {
            name: self.name.clone(),
            tag: self.tag.clone(),
            content: self.content.clone(),
            variants: self
                .variants
                .iter()
                .map(|v| UnionVariant { name: v.name.clone(), payload: v.payload.clone() })
                .collect(),
        }
    }
}

#[test]
fn a_union_of_one_resolved_in_the_document() {
    let shape = named(
        "Shape",
        SchemaKind::OneOf(vec![reference("C"), reference("A"), reference("B")]),
    );
    let document = vec![
        tagged("A", "a", BasicType::Int64),
        tagged("B", "b", BasicType::Text),
        tagged("C", "c", BasicType::Bool),
        shape,
    ];
    let text = synthesize(&SchemaStore::new(document), "Oxide").unwrap();
    let at = text.find("#[serde(tag = \"kind\"\n, content = \"data\"\n)]\npub enum Shape {\n").unwrap();
    assert_eq!(
        &text[at..],
        "#[serde(tag = \"kind\"\n, content = \"data\"\n)]\npub enum Shape {\n\
A(\ni64,\n),\nB(\nString,\n),\nC(\nbool,\n),\n}\n\n\n"
    );
}

#[test]
fn the_discriminator_must_be_the_only_single_literal() {
    let mut ts = TypeSpace::new();
    let two_tags = ts.select(
        None,
        &node(SchemaKind::Record(vec![
            prop("kind", true, literal("a")),
            prop("sort", true, literal("b")),
        ])),
        "",
    );
    let props = match &ts.get(two_tags).unwrap().details {
        TypeDetails::Object(p, _) => p,
        _ => unreachable!(),
    };
    assert_eq!(ts.discriminator_of(props), None);
    assert!(ts.discriminated_alt(two_tags).is_none());
    let only_tag = ts.select(None, &node(SchemaKind::Record(vec![prop("kind", true, literal("solo"))])), "");
    let (p, k, l) = ts.discriminated_alt(only_tag).unwrap();
    assert_eq!((p.len(), k, l.as_str()), (1, 0, "solo"));
    assert_eq!(ts.single_literal_of(TypeId(0)), Some(&"a".to_string()));
    assert_eq!(ts.single_literal_of(two_tags), None);
    assert_eq!(ts.single_literal_of(TypeId(77)), None);
    let wide = ts.select(
        None,
        &node(SchemaKind::Record(vec![
            prop("x", true, prim(BasicType::Int64)),
            prop("kind", true, literal("wide")),
            prop("y", true, prim(BasicType::Text)),
        ])), ""
    );
    assert_eq!(ts.discriminated_alt(wide).map(|(_, k, l)| (k, l.clone())), Some((1, "wide".to_string())));
    let u = ts.union_def("U", &vec![wide, only_tag]).unwrap();
    assert_eq!(u.tag, Some("kind".to_string()));
    assert_eq!(u.content, None);
    assert_eq!(
        u.variants,
        vec![
            UnionVariant { name: "Solo".to_string(), payload: vec![] },
            UnionVariant { name: "Wide".to_string(), payload: texts(&["i64", "String"]) },
        ]
    );
    let mut out = String::new();
    u.render(&mut out);
    assert_eq!(
        out,
        format!(
            "{}#[serde(rename_all = \"lowercase\")]\n#[serde(tag = \"kind\"\n)]\n\
pub enum U {{\nSolo,\nWide(\ni64,\nString,\n),\n}}\n\n",
            DERIVE
        )
    );
}

#[test]
fn a_union_without_a_discriminator_is_untagged() {
    let mut ts = TypeSpace::new();
    let text = ts.select(None, &prim(BasicType::Text), "");
    let rack_node = node(SchemaKind::Record(vec![prop("id", true, prim(BasicType::Text))]));
    let rack = ts.select(Some("Rack"), &rack_node, "");
    let list = ts.select(None, &array(prim(BasicType::Int64)), "");
    let u = ts.union_def("Any", &vec![list, rack, text]).unwrap();
    assert_eq!((u.tag.clone(), u.content.clone()), (None, None));
    assert_eq!(
        u.variants,
        vec![
            UnionVariant { name: "String".to_string(), payload: texts(&["String"]) },
            UnionVariant { name: "Rack".to_string(), payload: texts(&["Rack"]) },
            UnionVariant { name: "VecI64".to_string(), payload: texts(&["Vec<i64>"]) },
        ]
    );
    assert_eq!(ts.union_variant(rack).unwrap().name, "Rack");
    assert_eq!(
        do_of_type(&ts, &vec![text, rack], "Any".to_string()),
        Ok(format!("{}pub enum Any {{\nString(\nString,\n),\nRack(\nRack,\n),\n}}\n\n", DERIVE))
    );
    assert_eq!(
        do_of_type(&ts, &vec![], "Empty".to_string()),
        Ok(format!("{}pub enum Empty {{\n}}\n\n", DERIVE))
    );
}

#[test]
fn a_union_fails_on_what_cannot_be_rendered() {
    let mut ts = TypeSpace::new();
    let text = ts.select(None, &prim(BasicType::Text), "");
    let unknown = ts.select(None, &node(SchemaKind::Unrecognized), "");
    let bad_payload = ts.select(
        None,
        &node(SchemaKind::Record(vec![
            prop("kind", true, literal("k")),
            prop("data", true, node(SchemaKind::Unrecognized)),
        ])),
        "",
    );
    assert_eq!(
        ts.union_def("U", &vec![text, unknown]),
        Err(EmitError { failure: Failure::Unresolvable, property: "".to_string(), tid: unknown })
    );
    assert_eq!(
        do_of_type(&ts, &vec![bad_payload], "U".to_string()),
        Err(EmitError { failure: Failure::Unresolvable, property: "data".to_string(), tid: unknown })
    );
    assert_eq!(
        ts.union_def("U", &vec![TypeId(40), unknown]),
        Err(EmitError { failure: Failure::Unresolvable, property: "".to_string(), tid: unknown })
    );
    assert_eq!(
        ts.union_def("U", &vec![TypeId(40)]),
        Err(EmitError { failure: Failure::Unrenderable, property: "".to_string(), tid: TypeId(40) })
    );
}

#[test]
fn the_names_of_flattened_fields() {
    assert_eq!(flat_base_name("User"), "User");
    assert_eq!(flat_base_name("Vec<User>"), "UserVector");
    assert_eq!(flat_base_name("Vec<Vec<serde_json::Value>>"), "ValueVector");
    assert_eq!(flat_base_name("serde_json::Value"), "Value");
    assert_eq!(flat_base_name("Option<chrono::NaiveDate>"), "OptionChronoNaiveDate");
    assert_eq!(flat_name("Vec<User>"), "user_vector");
    assert_eq!(flat_name("RackResultsPage"), "rack_results_page");
    assert_eq!(flat_name("serde_json::Value"), "value");
    assert_eq!(flat_name("i64"), "i64");
}

#[test]
fn alternatives_with_the_same_field_name_are_merged() {
    let mut ts = TypeSpace::new();
    let user = ts.select(Some("User"), &node(SchemaKind::Record(vec![])), "");
    let same_node = node(SchemaKind::Record(vec![prop("x", true, prim(BasicType::Bool))]));
    let same = ts.select(Some("user"), &same_node, "");
    let group = ts.select(Some("Group"), &node(SchemaKind::Record(vec![])), "");
    assert_ne!(user, same);
    let d = ts.flat_def("Both", &vec![user, same, group, user]).unwrap();
    assert_eq!(
        d.fields,
        vec![
            FlatField { name: "user".to_string(), ty: "User".to_string(), docs: "".to_string() },
            FlatField { name: "group".to_string(), ty: "Group".to_string(), docs: "".to_string() },
        ]
    );
    assert_eq!(
        d.description,
        "All of the following types are flattened into one object:\n\n\
- `User`\n- `User`\n- `Group`\n- `User`\n"
    );
    assert!(!d.default_constructible);
    let mut fields = vec![];
    let f = |n: &str, t: &str| FlatField { name: n.to_string(), ty: t.to_string(), docs: "".to_string() };
    merge_field(&mut fields, f("a", "A"));
    merge_field(&mut fields, f("b", "B"));
    merge_field(&mut fields, f("a", "C"));
    assert_eq!(fields, vec![f("a", "A"), f("b", "B")]);
    assert!(field_named(&fields, "b"));
    assert!(!field_named(&fields, "c"));
}

#[test]
fn the_text_of_a_flattened_record() {
    let mut ts = TypeSpace::new();
    let user = ts.select(None, &described("User", "A user.", SchemaKind::Record(vec![])), "");
    let list = ts.select(None, &array(prim(BasicType::Json)), "");
    let text = do_all_of_type(&ts, &vec![user, list, user], "UserAllOf".to_string()).unwrap();
    assert_eq!(
        text,
        "/// All of the following types are flattened into one object:\n/// \n/// - `User`\n\
/// - `Vec<serde_json::Value>`\n/// - `User`\n/// \n\
#[derive(Serialize, Deserialize, PartialEq, Debug, Clone, JsonSchema)]\n\
pub struct UserAllOf {\n\
/**\nA user.\n*/\n#[serde(flatten)]\npub user: User,\n\
#[serde(flatten)]\npub value_vector: Vec<serde_json::Value>,\n\
}\n\n"
    );
    let d = ts.flat_def("SubmitJobOptionsAllOf", &vec![]).unwrap();
    assert!(d.default_constructible);
    assert!(ts.flat_def("DescriptionlessJobOptionsAllOf", &vec![]).unwrap().default_constructible);
    let mut out = String::new();
    d.render(&mut out);
    assert_eq!(
        out,
        "/// All of the following types are flattened into one object:\n/// \n/// \n\
#[derive(Serialize, Deserialize, Default, PartialEq, Debug, Clone, JsonSchema)]\n\
pub struct SubmitJobOptionsAllOf {\n}\n\n"
    );
    let plain = FlatDef {
        name: "X".to_string(),
        description: "d".to_string(),
        default_constructible: false,
        fields: vec![],
    };
    let mut out = String::new();
    plain.render(&mut out);
    assert_eq!(out, format!("/// d\n{}pub struct X {{\n}}\n\n", DERIVE));
    let f = FlatField { name: "a".to_string(), ty: "A".to_string(), docs: "/// d".to_string() };
    let mut out = String::new();
    f.render(&mut out, "/// d");
    assert_eq!(out, "#[serde(flatten)]\npub a: A,\n");
}

#[test]
fn a_flattened_record_fails_on_what_cannot_be_rendered() {
    let mut ts = TypeSpace::new();
    let user = ts.select(Some("User"), &node(SchemaKind::Record(vec![])), "");
    let pending = ts.select(None, &reference("Later"), "");
    assert_eq!(ts.alt_type_names(&vec![user]), Ok(texts(&["User"])));
    assert_eq!(
        ts.alt_type_names(&vec![user, pending, TypeId(9)]),
        Err(EmitError { failure: Failure::Unresolvable, property: "".to_string(), tid: pending })
    );
    assert_eq!(
        do_all_of_type(&ts, &vec![TypeId(9), pending], "X".to_string()),
        Err(EmitError { failure: Failure::Unrenderable, property: "".to_string(), tid: TypeId(9) })
    );
}

#[test]
fn only_named_types_are_emitted_in_the_order_of_discovery() {
    let mut ts = TypeSpace::new();
    assert_eq!(generate_types(&ts, "Oxide"), Ok(HEADER.to_string()));
    ts.select(None, &node(SchemaKind::Record(vec![prop("a", true, prim(BasicType::Text))])), "");
    ts.select(None, &node(SchemaKind::Enumeration(texts(&["x"]))), "");
    ts.select(Some("Id"), &prim(BasicType::Text), "");
    ts.select(Some("Ids"), &array(reference("Id")), "");
    ts.select(Some("Alias"), &reference("Id"), "");
    ts.select(None, &reference("Pending"), "");
    assert_eq!(generate_types(&ts, "Oxide"), Ok(HEADER.to_string()));
    ts.select(Some("Zeta"), &node(SchemaKind::Record(vec![])), "");
    ts.select(Some("Alpha"), &node(SchemaKind::Enumeration(texts(&["x"]))), "");
    ts.select(Some("Mid"), &node(SchemaKind::AllOf(vec![reference("Zeta")])), "");
    ts.select(Some("Any"), &node(SchemaKind::AnyOf(vec![reference("Zeta")])), "");
    ts.select(Some("One"), &node(SchemaKind::OneOf(vec![reference("Zeta")])), "");
    let text = generate_types(&ts, "Oxide").unwrap();
    let at = |s: &str| text.find(s).unwrap_or_else(|| panic!("{} is missing", s));
    let places = [
        at("pub struct Zeta {"),
        at("pub enum Alpha {"),
        at("pub struct Mid {"),
        at("pub struct Any {"),
        at("pub enum One {"),
    ];
    assert!(places.windows(2).all(|w| w[0] < w[1]));
    let heads =
        ["pub struct Zeta {", "pub enum Alpha {", "pub struct Mid {", "pub struct Any {", "pub enum One {"];
    for s in heads {
        assert_eq!(text.matches(s).count(), 1);
    }
    assert!(text.ends_with("pub enum One {\nZeta(\nZeta,\n),\n}\n\n\n"));
}

#[test]
fn emission_fails_on_the_first_field_that_cannot_be_rendered() {
    let mut ts = TypeSpace::new();
    ts.select(Some("Good"), &node(SchemaKind::Record(vec![prop("a", true, prim(BasicType::Text))])), "");
    ts.select(
        Some("Bad"),
        &node(SchemaKind::Record(vec![
            prop("fine", true, prim(BasicType::Text)),
            prop("first", true, reference("Missing")),
            prop("second", true, node(SchemaKind::Unrecognized)),
        ])), ""
    );
    let missing = ts.lookup("Missing").unwrap();
    let e = generate_types(&ts, "Oxide").unwrap_err();
    assert_eq!(e, EmitError { failure: Failure::Unresolvable, property: "first".to_string(), tid: missing });
    assert_eq!(e.message(), format!("rendering type first TypeId({}) failed", missing.0));
    ts.select(Some("Missing"), &prim(BasicType::Bool), "");
    let e = generate_types(&ts, "Oxide").unwrap_err();
    assert_eq!(e.property, "second");
    assert_eq!(e.failure, Failure::Unresolvable);
}

#[test]
fn synthesis_is_deterministic() {
    let document = || {
        vec![
            tagged("A", "a", BasicType::Int64),
            described(
                "User",
                "A user.",
                SchemaKind::Record(vec![
                    prop("id", true, prim(BasicType::Int64)),
                    prop("friend", false, reference("User")),
                    prop("next", true, prim(BasicType::Int32)),
                    prop("@odata", true, array(reference("A"))),
                    prop("mode", true, node(SchemaKind::Enumeration(texts(&["x", "y"])))),
                ]),
            ),
            named("Mode", SchemaKind::Enumeration(texts(&["name-ascending", "id-ascending"]))),
            named("Both", SchemaKind::AllOf(vec![reference("User"), reference("A")])),
            named("Either", SchemaKind::OneOf(vec![reference("User"), reference("A")])),
        ]
    };
    let first = synthesize(&SchemaStore::new(document()), "Oxide").unwrap();
    let second = synthesize(&SchemaStore::new(document()), "Oxide").unwrap();
    assert_eq!(first.as_bytes(), second.as_bytes());
    let mut ts = TypeSpace::new();
    let d = document();
    ts.select_all(&d);
    assert_eq!(generate_types(&ts, "Oxide"), Ok(first.clone()));
    assert_eq!(generate_types(&ts, "Oxide"), Ok(first.clone()));
    assert!(first.starts_with(HEADER));
    assert!(first.contains("rename = \"@odata\",\n)]\npub odata_at_: Vec<A>,\n"));
    assert!(first.contains("pub friend: Option<User>,\n"));
    assert!(first.contains("pub next: String,\n"));
    assert!(first.contains("skip_serializing_if = \"UserMode::is_noop\",\n)]\npub mode: UserMode,\n"));
    assert!(first.contains("pub enum UserMode {\n    #[serde(rename = \"x\")]\n    X,\n"));
    let failing = SchemaStore::new(vec![named(
        "Bad",
        SchemaKind::Record(vec![prop("x", true, node(SchemaKind::Unrecognized))]),
    )]);
    assert_eq!(synthesize(&failing, "Oxide"), synthesize(&failing, "Oxide"));
    assert!(synthesize(&failing, "Oxide").is_err());
}

#[test]
fn sigils_do_not_make_two_fields_of_one_record_alike() {
    let mut ts = TypeSpace::new();
    let record = node(SchemaKind::Record(vec![
        prop("type", true, prim(BasicType::Text)),
        prop("@type", true, prim(BasicType::Text)),
        prop("_type", true, prim(BasicType::Text)),
        prop("$type", true, prim(BasicType::Text)),
        prop("@_a_", true, prim(BasicType::Text)),
    ]));
    let id = ts.select(Some("Tagged"), &record, "");
    let (props, m) = match &ts.get(id).unwrap().details {
        TypeDetails::Object(p, m) => (p, m),
        _ => unreachable!(),
    };
    let def = ts.record_def("Oxide", "Tagged", props, m).unwrap();
    let names: Vec<&str> = def.fields.iter().map(|f| f.name.as_str()).collect();
    assert_eq!(names, vec!["type_", "type__at_", "type__us_", "type__", "a__at__us_"]);
    let wire: Vec<&str> = def.fields.iter().map(|f| f.wire_name.as_str()).collect();
    assert_eq!(wire, vec!["type", "@type", "_type", "$type", "@_a_"]);
    let renamed = names.iter().map(|n| prop(n, true, prim(BasicType::Text))).collect();
    let again = SchemaNode { name: None, meta: meta(), kind: SchemaKind::Record(renamed) };
    let id = ts.select(Some("Again"), &again, "");
    let (props, m) = match &ts.get(id).unwrap().details {
        TypeDetails::Object(p, m) => (p, m),
        _ => unreachable!(),
    };
    let second = ts.record_def("Oxide", "Again", props, m).unwrap();
    let same: Vec<&str> = second.fields.iter().map(|f| f.name.as_str()).collect();
    assert_eq!(same, names);
    let text = generate_types(&ts, "Oxide").unwrap();
    assert!(text.contains("rename = \"@type\",\n)]\npub type__at_: String,\n"));
    assert!(text.contains("rename = \"_type\",\n)]\npub type__us_: String,\n"));
    assert!(text.contains("rename = \"$type\",\n)]\npub type__: String,\n"));
    assert!(text.contains("rename = \"type\",\n)]\npub type_: String,\n"));
}

#[test]
fn a_union_that_names_itself_is_written_once() {
    let mut ts = TypeSpace::new();
    let tree = named("Tree", SchemaKind::OneOf(vec![reference("Tree")]));
    let id = ts.select(None, &tree, "");
    assert_eq!(ts.len(), 1);
    assert_eq!(ts.get(id).unwrap().details, TypeDetails::OneOf(vec![id], meta()));
    let text = do_of_type(&ts, &vec![id], "Tree".to_string()).unwrap();
    assert_eq!(text, format!("{}pub enum Tree {{\nTree(\nTree,\n),\n}}\n\n", DERIVE));
    let all = generate_types(&ts, "Oxide").unwrap();
    assert_eq!(all.matches("pub enum Tree {").count(), 1);
    let mut ts = TypeSpace::new();
    let link = named("Link", SchemaKind::OneOf(vec![reference("Step"), prim(BasicType::Text)]));
    ts.select(None, &link, "");
    ts.select(Some("Step"), &reference("Link"), "");
    let all = generate_types(&ts, "Oxide").unwrap();
    assert_eq!(all.matches("pub enum Link {").count(), 1);
    assert!(all.contains("pub enum Link {\nLink(\nLink,\n),\nString(\nString,\n),\n}\n"));
}
