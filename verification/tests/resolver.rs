use generator::registry::{Property, TypeDetails, TypeEntry, TypeId, TypeSpace};
use generator::resolve::{kind_is_emittable, label_of};
use generator::schema::{BasicType, Metadata, PropertyNode, SchemaKind, SchemaNode, SchemaStore};

fn meta() -> Metadata {
    Metadata { description: None, default: None, always_default: false }
}

fn node(kind: SchemaKind) -> SchemaNode {
    SchemaNode { name: None, meta: meta(), kind }
}

fn named(name: &str, kind: SchemaKind) -> SchemaNode {
    SchemaNode { name: Some(name.to_string()), meta: meta(), kind }
}

fn prim(b: BasicType) -> SchemaNode {
    node(SchemaKind::Primitive(b))
}

fn reference(n: &str) -> SchemaNode {
    node(SchemaKind::Reference(n.to_string()))
}

fn prop(name: &str, required: bool, n: SchemaNode) -> PropertyNode {
    PropertyNode { name: name.to_string(), required, node: n }
}

fn field(name: &str, tid: u64) -> Property {
    Property { name: name.to_string(), tid: TypeId(tid) }
}

fn envelope() -> SchemaNode {
    node(SchemaKind::Record(vec![
        prop("code", true, prim(BasicType::Int32)),
        prop("message", true, prim(BasicType::Text)),
    ]))
}

#[test]
fn a_new_registry_is_empty() {
    let ts = TypeSpace::new();
    assert_eq!(ts.len(), 0);
    assert_eq!(ts.get(TypeId(0)), None);
    assert_eq!(ts.lookup("User"), None);
}

#[test]
fn a_name_gets_one_identity() {
    let mut ts = TypeSpace::new();
    let a = ts.id_for_name("User");
    let b = ts.id_for_name("Group");
    let c = ts.id_for_name("User");
    assert_eq!((a, b, c), (TypeId(0), TypeId(1), TypeId(0)));
    assert_eq!(ts.len(), 2);
    assert_eq!(ts.lookup("Group"), Some(TypeId(1)));
    assert_eq!(
        ts.get(a),
        Some(&TypeEntry { name: Some("User".to_string()), details: TypeDetails::Unknown })
    );
}

#[test]
fn a_placeholder_is_filled_and_details_are_kept() {
    let mut ts = TypeSpace::new();
    let id = ts.id_for_name("Id");
    let a = ts.add_if_not_exists(Some("Id"), TypeDetails::Basic(BasicType::Text, meta()));
    assert_eq!(a, id);
    assert_eq!(ts.get(id).unwrap().details, TypeDetails::Basic(BasicType::Text, meta()));
    let b = ts.add_if_not_exists(Some("Id"), TypeDetails::Basic(BasicType::Int64, meta()));
    assert_eq!(b, id);
    assert_eq!(ts.get(id).unwrap().details, TypeDetails::Basic(BasicType::Text, meta()));
    assert_eq!(ts.len(), 1);
}

#[test]
fn details_without_a_name_share_one_entry() {
    let mut ts = TypeSpace::new();
    let a = ts.add_if_not_exists(None, TypeDetails::Basic(BasicType::Text, meta()));
    let b = ts.add_if_not_exists(None, TypeDetails::Basic(BasicType::Bool, meta()));
    let c = ts.add_if_not_exists(None, TypeDetails::Basic(BasicType::Text, meta()));
    assert_eq!((a, b, c), (TypeId(0), TypeId(1), TypeId(0)));
    let d = ts.add_if_not_exists(
        None,
        TypeDetails::Basic(
            BasicType::Text,
            Metadata { description: Some("x".to_string()), default: None, always_default: false },
        ),
    );
    assert_eq!(d, TypeId(2));
    let e = ts.add_if_not_exists(Some("Text"), TypeDetails::Basic(BasicType::Text, meta()));
    assert_eq!(e, TypeId(3));
    assert_eq!(ts.add_if_not_exists(None, TypeDetails::Basic(BasicType::Text, meta())), TypeId(0));
    assert_eq!(ts.len(), 4);
}

#[test]
fn identical_inline_schemas_resolve_to_one_identity() {
    let mut ts = TypeSpace::new();
    let first = ts.select(None, &envelope(), "");
    let n = ts.len();
    let second = ts.select(None, &envelope(), "");
    assert_eq!(first, second);
    assert_eq!(ts.len(), n);
    for _ in 0..50 {
        assert_eq!(ts.select(None, &envelope(), ""), first);
    }
    assert_eq!(ts.len(), n);
    assert_eq!(
        ts.get(first).unwrap(),
        &TypeEntry {
            name: None,
            details: TypeDetails::Object(vec![field("code", 0), field("message", 1)], meta()),
        }
    );
}

#[test]
fn different_inline_schemas_get_different_identities() {
    let mut ts = TypeSpace::new();
    let a = ts.select(None, &envelope(), "");
    let other = node(SchemaKind::Record(vec![
        prop("code", true, prim(BasicType::Int64)),
        prop("message", true, prim(BasicType::Text)),
    ]));
    let b = ts.select(None, &other, "");
    assert_ne!(a, b);
}

#[test]
fn a_property_that_is_not_required_is_optional() {
    let mut ts = TypeSpace::new();
    let rec = node(SchemaKind::Record(vec![
        prop("a", false, prim(BasicType::Text)),
        prop("b", false, prim(BasicType::Text)),
        prop("c", true, prim(BasicType::Text)),
    ]));
    let id = ts.select(Some("Rec"), &rec, "");
    assert_eq!(id, TypeId(0));
    assert_eq!(ts.get(TypeId(1)).unwrap().details, TypeDetails::Basic(BasicType::Text, meta()));
    assert_eq!(ts.get(TypeId(2)).unwrap().details, TypeDetails::Optional(TypeId(1), meta()));
    assert_eq!(
        ts.get(id).unwrap().details,
        TypeDetails::Object(vec![field("a", 2), field("b", 2), field("c", 1)], meta())
    );
    assert_eq!(ts.len(), 3);
}

#[test]
fn a_self_reference_resolves_to_one_type() {
    let mut ts = TypeSpace::new();
    let tree = named("Node", SchemaKind::Record(vec![prop("next", true, reference("Node"))]));
    let id = ts.select(None, &tree, "");
    assert_eq!(id, TypeId(0));
    assert_eq!(ts.len(), 1);
    assert_eq!(
        ts.get(id).unwrap(),
        &TypeEntry {
            name: Some("Node".to_string()),
            details: TypeDetails::Object(vec![field("next", 0)], meta()),
        }
    );
    assert_eq!(ts.render_type(&id, true), Ok("Node".to_string()));
}

#[test]
fn a_cycle_through_another_schema_resolves() {
    let mut ts = TypeSpace::new();
    let a = named("A", SchemaKind::Record(vec![prop("b", true, reference("B"))]));
    let b = named(
        "B",
        SchemaKind::Record(vec![prop("items", true, node(SchemaKind::Array(Box::new(reference("A")))))]),
    );
    let ia = ts.select(None, &a, "");
    let ib = ts.select(None, &b, "");
    assert_eq!((ia, ib), (TypeId(0), TypeId(1)));
    assert_eq!(ts.get(ia).unwrap().details, TypeDetails::Object(vec![field("b", 1)], meta()));
    assert_eq!(ts.get(TypeId(2)).unwrap().details, TypeDetails::Array(TypeId(0), meta()));
    assert_eq!(ts.get(ib).unwrap().details, TypeDetails::Object(vec![field("items", 2)], meta()));
    assert_eq!(ts.len(), 3);
    assert_eq!(ts.select(None, &a, ""), ia);
    assert_eq!(ts.select(None, &b, ""), ib);
    assert_eq!(ts.len(), 3);
}

#[test]
fn an_alias_chain_that_returns_to_itself_resolves() {
    let mut ts = TypeSpace::new();
    let a = ts.select(Some("A"), &reference("B"), "");
    let b = ts.select(Some("B"), &reference("A"), "");
    assert_eq!(ts.len(), 2);
    assert_eq!(ts.get(a).unwrap().details, TypeDetails::NamedType(b, meta()));
    assert_eq!(ts.get(b).unwrap().details, TypeDetails::NamedType(a, meta()));
    assert!(ts.render_type(&a, true).is_err());
}

#[test]
fn a_reference_means_the_name() {
    let mut ts = TypeSpace::new();
    let r = ts.select(None, &reference("User"), "");
    assert_eq!(ts.get(r).unwrap().details, TypeDetails::Unknown);
    let u = ts.select(Some("User"), &prim(BasicType::Text), "");
    assert_eq!(r, u);
    assert_eq!(ts.select(Some("User"), &reference("User"), ""), u);
    let alias = ts.select(Some("Person"), &reference("User"), "");
    assert_ne!(alias, u);
    assert_eq!(ts.get(alias).unwrap().details, TypeDetails::NamedType(u, meta()));
}

#[test]
fn the_hint_goes_before_the_declared_name() {
    let mut ts = TypeSpace::new();
    let n = named("Declared", SchemaKind::Primitive(BasicType::Bool));
    let a = ts.select(Some("Hint"), &n, "");
    assert_eq!(ts.get(a).unwrap().name, Some("Hint".to_string()));
    let b = ts.select(None, &n, "");
    assert_eq!(ts.get(b).unwrap().name, Some("Declared".to_string()));
}

#[test]
fn every_kind_is_classified() {
    let mut ts = TypeSpace::new();
    let e = ts.select(None, &node(SchemaKind::Enumeration(vec!["a".to_string(), "b".to_string()])), "");
    assert_eq!(
        ts.get(e).unwrap().details,
        TypeDetails::Enum(vec!["a".to_string(), "b".to_string()], meta())
    );
    let d = ts.select(None, &node(SchemaKind::Dictionary(Box::new(prim(BasicType::Int64)))), "");
    assert!(matches!(ts.get(d).unwrap().details, TypeDetails::Dictionary(_, _)));
    let one_of = node(SchemaKind::OneOf(vec![prim(BasicType::Int64), prim(BasicType::Text)]));
    let o = ts.select(None, &one_of, "");
    assert!(matches!(&ts.get(o).unwrap().details, TypeDetails::OneOf(ids, _) if ids.len() == 2));
    let a = ts.select(None, &node(SchemaKind::AnyOf(vec![prim(BasicType::Int64)])), "");
    assert!(matches!(&ts.get(a).unwrap().details, TypeDetails::AnyOf(ids, _) if ids.len() == 1));
    let l = ts.select(None, &node(SchemaKind::AllOf(vec![])), "");
    assert!(matches!(&ts.get(l).unwrap().details, TypeDetails::AllOf(ids, _) if ids.is_empty()));
    let u = ts.select(None, &node(SchemaKind::Unrecognized), "");
    assert_eq!(ts.get(u).unwrap(), &TypeEntry { name: None, details: TypeDetails::Unknown });
}

#[test]
fn lists_are_resolved_in_order() {
    let mut ts = TypeSpace::new();
    let nodes = vec![prim(BasicType::Text), prim(BasicType::Bool), prim(BasicType::Text)];
    assert_eq!(ts.select_all(&nodes), vec![TypeId(0), TypeId(1), TypeId(0)]);
    assert_eq!(ts.select_all(&vec![]), vec![]);
    let props = vec![prop("x", true, prim(BasicType::Bool)), prop("y", false, prim(BasicType::Bool))];
    assert_eq!(ts.select_properties(&props, ""), vec![field("x", 1), field("y", 2)]);
    assert_eq!(ts.select_properties(&props, "Parent"), vec![field("x", 1), field("y", 2)]);
    assert_eq!(ts.len(), 3);
}

#[test]
fn inline_types_are_named_after_parent_and_property() {
    let mut ts = TypeSpace::new();
    let address = node(SchemaKind::Record(vec![prop("city", true, prim(BasicType::Text))]));
    let state = node(SchemaKind::Enumeration(vec!["open".to_string(), "closed".to_string()]));
    let user = node(SchemaKind::Record(vec![
        prop("address", true, address),
        prop("state", false, state),
        prop("name", true, prim(BasicType::Text)),
        prop("tags", true, node(SchemaKind::Array(Box::new(node(SchemaKind::Record(vec![])))))),
        prop("titled", true, named("Title", SchemaKind::Record(vec![]))),
        prop("friend", true, reference("User")),
    ]));
    let id = ts.select(Some("User"), &user, "");
    assert_eq!(id, TypeId(0));
    let name_of = |ts: &TypeSpace, n: &str| ts.get(ts.lookup(n).unwrap()).unwrap().details.clone_kind();
    assert_eq!(name_of(&ts, "User address"), "object");
    assert_eq!(name_of(&ts, "User state"), "enum");
    assert_eq!(name_of(&ts, "User tags"), "object");
    assert_eq!(name_of(&ts, "Title"), "object");
    assert_eq!(ts.lookup("User name"), None);
    assert_eq!(ts.lookup("User friend"), None);
    assert_eq!(ts.lookup("User address city"), None);
    let address = ts.lookup("User address").unwrap();
    assert_eq!(ts.render_type(&address, true), Ok("UserAddress".to_string()));
    let fields = match &ts.get(id).unwrap().details {
        TypeDetails::Object(fields, _) => fields,
        _ => unreachable!(),
    };
    assert_eq!(fields[0], Property { name: "address".to_string(), tid: address });
    assert_eq!(ts.render_type(&fields[1].tid, true), Ok("Option<UserState>".to_string()));
    assert_eq!(ts.render_type(&fields[3].tid, true), Ok("Vec<UserTags>".to_string()));
    assert_eq!(ts.render_type(&fields[5].tid, true), Ok("User".to_string()));
}

trait KindName {
    fn clone_kind(&self) -> &'static str;
}

impl KindName for TypeDetails {
    fn clone_kind(&self) -> &'static str {
        match self {
            TypeDetails::Object(..) => "object",
            TypeDetails::Enum(..) => "enum",
            _ => "other",
        }
    }
}

#[test]
fn nested_inline_types_carry_the_whole_path() {
    let mut ts = TypeSpace::new();
    let inner = node(SchemaKind::Record(vec![prop("z", true, node(SchemaKind::Record(vec![])))]));
    let outer = named("Outer", SchemaKind::Record(vec![prop("y", true, inner)]));
    ts.select(None, &outer, "");
    assert!(ts.lookup("Outer y").is_some());
    assert!(ts.lookup("Outer y z").is_some());
    assert_eq!(ts.len(), 3);
    let anonymous = node(SchemaKind::Record(vec![prop("y", true, node(SchemaKind::Record(vec![])))]));
    let id = ts.select(None, &anonymous, "");
    assert_eq!(ts.get(id).unwrap().name, None);
    assert_eq!(ts.lookup("y"), None);
    assert_eq!(ts.len(), 5);
}

#[test]
fn the_name_of_a_node() {
    let record = node(SchemaKind::Record(vec![]));
    let titled = named("Title", SchemaKind::Record(vec![]));
    let text = prim(BasicType::Text);
    assert_eq!(label_of(Some("Key"), &titled, ""), Some("Key".to_string()));
    assert_eq!(label_of(None, &titled, ""), Some("Title".to_string()));
    assert_eq!(label_of(None, &record, ""), None);
    assert_eq!(label_of(Some("prop"), &record, "Parent"), Some("Parent prop".to_string()));
    assert_eq!(label_of(Some("prop"), &titled, "Parent"), Some("Title".to_string()));
    assert_eq!(label_of(Some("prop"), &text, "Parent"), None);
    assert_eq!(label_of(None, &record, "Parent"), None);
    assert!(kind_is_emittable(&record.kind));
    assert!(kind_is_emittable(&SchemaKind::Enumeration(vec![])));
    assert!(kind_is_emittable(&SchemaKind::OneOf(vec![])));
    assert!(kind_is_emittable(&SchemaKind::AnyOf(vec![])));
    assert!(kind_is_emittable(&SchemaKind::AllOf(vec![])));
    assert!(!kind_is_emittable(&text.kind));
    assert!(!kind_is_emittable(&SchemaKind::Reference("X".to_string())));
    assert!(!kind_is_emittable(&SchemaKind::Unrecognized));
}

#[test]
fn the_store_keeps_the_document() {
    let store = SchemaStore::new(vec![prim(BasicType::Text), named("A", SchemaKind::Unrecognized)]);
    assert_eq!(store.len(), 2);
    assert_eq!(store.get(0), Some(&prim(BasicType::Text)));
    assert_eq!(store.get(1).unwrap().name, Some("A".to_string()));
    assert_eq!(store.get(2), None);
    assert_eq!(store.nodes().len(), 2);
    assert_eq!(SchemaStore::new(vec![]).len(), 0);
}
