//! The resolver: from a schema node to its identity in the registry.
//!
//! [`resolve`] is the model: a function from a registry and a node to the
//! registry after the node has been resolved and to the node's identity.
//! [`TypeSpace::select`] computes it. A reference never descends into its
//! target: it only asks for the identity of the target's name, which is a
//! placeholder until the target itself is resolved. So the descent follows the
//! inline children of a node and nothing else, and ends.

use crate::registry::{
    define, define_anonymous, define_named, opt_str, props_view, with_name, DetailsView, EntryView,
    PropView, Property, TypeDetails, TypeId, TypeSpace,
};
use crate::schema::{
    copy_opt_text, copy_texts, kind_view, lemma_nodes_view, lemma_properties_view, nodes_view,
    opt_text, properties_view, KindView, MetaView, Metadata, NodeView, PropertyNode, PropertyView,
    SchemaKind, SchemaNode,
};
use crate::stability::{lemma_resolve_each_well_formed, lemma_resolve_well_formed, well_formed};
use crate::text::{concat3, str_eq};
use vstd::prelude::*;
use vstd::string::*;

verus! {

/// Whether a node of this kind becomes a type of its own when it has a name.
pub open spec fn is_emittable(kind: KindView) -> bool {
    kind is Record || kind is Enumeration || kind is OneOf || kind is AnyOf || kind is AllOf
}

/// The name under which a node is registered.
///
/// Without a parent the node goes by the name that the caller has for it,
/// else by the name that it declares. Under a parent it goes by the name that
/// it declares; where it declares none and would become a type of its own, it
/// is named after the parent and the property it stands under.
pub open spec fn effective_name(hint: Option<Seq<char>>, node: NodeView, parent: Seq<char>)
    -> Option<Seq<char>> {
    if parent.len() == 0 {
        if hint is Some {
            hint
        } else {
            node.name
        }
    } else if node.name is Some {
        node.name
    } else if is_emittable(node.kind) && hint is Some {
        Some(parent + " "@ + hint->Some_0)
    } else {
        None
    }
}

/// The registry in which `name`, if there is one, has an identity.
pub open spec fn reserve(reg: Seq<EntryView>, name: Option<Seq<char>>) -> Seq<EntryView> {
    match name {
        Some(n) => with_name(reg, n).0,
        None => reg,
    }
}

/// The name that a record hands to its properties as their parent: its own,
/// or none.
pub open spec fn parent_of(name: Option<Seq<char>>) -> Seq<char> {
    match name {
        Some(n) => n,
        None => Seq::empty(),
    }
}

/// The registry after `node` has been resolved in `reg`, and the identity of
/// the node; `hint` and `parent` give the node its name, see
/// [`effective_name`].
///
/// A reference resolves to the identity of its target's name; under a name of
/// its own that differs from the target's it is an alias for that identity.
/// Any other node is registered with the details that its shape gives, after
/// its inline children. A name gets its identity before the children are
/// resolved, so that a child that refers to the name finds it. A list or a
/// dictionary without a name hands its hint and its parent on to what it
/// holds.
pub open spec fn resolve(
    reg: Seq<EntryView>,
    hint: Option<Seq<char>>,
    node: NodeView,
    parent: Seq<char>,
) -> (Seq<EntryView>, TypeId)
    decreases node, 0nat,
{
    let name = effective_name(hint, node, parent);
    match node.kind {
        KindView::Reference(target) => {
            let (r1, t) = with_name(reg, target);
            match name {
                Some(n) => if n == target {
                    (r1, t)
                } else {
                    define_named(r1, n, DetailsView::NamedType(t, node.meta))
                },
                None => (r1, t),
            }
        },
        KindView::Primitive(b) => define(reg, name, DetailsView::Basic(b, node.meta)),
        KindView::Enumeration(values) => define(reg, name, DetailsView::Enum(values, node.meta)),
        KindView::Unrecognized => define(reg, name, DetailsView::Unknown),
        KindView::Array(item) => {
            let (r1, t) = if name is Some {
                resolve(reserve(reg, name), None, *item, Seq::empty())
            } else {
                resolve(reg, hint, *item, parent)
            };
            define(r1, name, DetailsView::Array(t, node.meta))
        },
        KindView::Dictionary(value) => {
            let (r1, t) = if name is Some {
                resolve(reserve(reg, name), None, *value, Seq::empty())
            } else {
                resolve(reg, hint, *value, parent)
            };
            define(r1, name, DetailsView::Dictionary(t, node.meta))
        },
        KindView::Record(props) => {
            let (r1, fields) = resolve_props(
                reserve(reg, name),
                props,
                props.len(),
                parent_of(name),
            );
            define(r1, name, DetailsView::Object(fields, node.meta))
        },
        KindView::OneOf(alts) => {
            let (r1, ids) = resolve_each(reserve(reg, name), alts, alts.len());
            define(r1, name, DetailsView::OneOf(ids, node.meta))
        },
        KindView::AnyOf(alts) => {
            let (r1, ids) = resolve_each(reserve(reg, name), alts, alts.len());
            define(r1, name, DetailsView::AnyOf(ids, node.meta))
        },
        KindView::AllOf(alts) => {
            let (r1, ids) = resolve_each(reserve(reg, name), alts, alts.len());
            define(r1, name, DetailsView::AllOf(ids, node.meta))
        },
    }
}

/// The registry after the first `n` nodes of `nodes` have been resolved one
/// after the other, each by the name that it declares, and their identities
/// in that order.
pub open spec fn resolve_each(reg: Seq<EntryView>, nodes: Seq<NodeView>, n: nat) -> (
    Seq<EntryView>,
    Seq<TypeId>,
)
    decreases nodes, n,
{
    if n == 0 || n > nodes.len() {
        (reg, Seq::empty())
    } else {
        let (r1, ids) = resolve_each(reg, nodes, (n - 1) as nat);
        let (r2, t) = resolve(r1, None, nodes[n - 1], Seq::empty());
        (r2, ids.push(t))
    }
}

/// The hint that a property of a record with the name `parent` gives to its
/// node: its own name, where the record has one.
pub open spec fn property_hint(parent: Seq<char>, property: Seq<char>) -> Option<Seq<char>> {
    if parent.len() == 0 {
        None
    } else {
        Some(property)
    }
}

/// The registry after the first `n` properties of `props` have been resolved
/// one after the other under the parent `parent`, and the properties with
/// their identities. A property that is not required has the optional form
/// of its node's identity.
pub open spec fn resolve_props(
    reg: Seq<EntryView>,
    props: Seq<PropertyView>,
    n: nat,
    parent: Seq<char>,
) -> (Seq<EntryView>, Seq<PropView>)
    decreases props, n,
{
    if n == 0 || n > props.len() {
        (reg, Seq::empty())
    } else {
        let (r1, fields) = resolve_props(reg, props, (n - 1) as nat, parent);
        let p = props[n - 1];
        let (r2, t) = resolve(r1, property_hint(parent, p.name), p.node, parent);
        let (r3, tid) = if p.required {
            (r2, t)
        } else {
            define_anonymous(r2, DetailsView::Optional(t, MetaView::empty()))
        };
        (r3, fields.push(PropView { name: p.name, tid }))
    }
}

/// Whether a node of this kind becomes a type of its own when it has a name.
pub fn kind_is_emittable(kind: &SchemaKind) -> (r: bool)
    ensures
        r == is_emittable(kind_view(*kind)),
{
    match kind {
        SchemaKind::Record(_) => true,
        SchemaKind::Enumeration(_) => true,
        SchemaKind::OneOf(_) => true,
        SchemaKind::AnyOf(_) => true,
        SchemaKind::AllOf(_) => true,
        _ => false,
    }
}

/// The name under which `node` is registered; see [`effective_name`].
pub fn label_of(name: Option<&str>, node: &SchemaNode, parent_name: &str) -> (r: Option<String>)
    ensures
        opt_text(r) == effective_name(opt_str(name), node@, parent_name@),
{
    if parent_name.is_empty() {
        match name {
            Some(n) => Some(String::from_str(n)),
            None => copy_opt_text(&node.name),
        }
    } else {
        match &node.name {
            Some(d) => Some(d.clone()),
            None => match name {
                Some(p) => if kind_is_emittable(&node.kind) {
                    Some(concat3(parent_name, " ", p))
                } else {
                    None
                },
                None => None,
            },
        }
    }
}

impl TypeSpace {
    /// Resolves `node` and returns its identity. Without a parent, `name` is
    /// the name under which the caller knows the node, and without it the
    /// node goes by the name that it declares, if any. Under the parent
    /// `parent_name`, `name` is the property that the node stands under.
    pub fn select(&mut self, name: Option<&str>, node: &SchemaNode, parent_name: &str) -> (id:
        TypeId)
        ensures
            (final(self)@, id) == resolve(old(self)@, opt_str(name), node@, parent_name@),
            id.0 < final(self)@.len(),
            well_formed(old(self)@) ==> well_formed(final(self)@),
        decreases node, 0nat,
    {
        proof {
            if well_formed(old(self)@) {
                lemma_resolve_well_formed(old(self)@, opt_str(name), node@, parent_name@);
            }
        }
        let hint = name;
        let label = label_of(hint, node, parent_name);
        let name: Option<&str> = match &label {
            Some(s) => Some(s.as_str()),
            None => None,
        };
        assert(opt_str(name) == effective_name(opt_str(hint), node@, parent_name@));
        proof {
            reveal_strlit("");
            assert(""@ =~= Seq::<char>::empty());
        }
        match &node.kind {
            SchemaKind::Reference(target) => {
                let t = self.id_for_name(target.as_str());
                match name {
                    Some(n) => {
                        if str_eq(n, target.as_str()) {
                            t
                        } else {
                            self.add_if_not_exists(
                                Some(n),
                                TypeDetails::NamedType(t, node.meta.duplicate()),
                            )
                        }
                    },
                    None => t,
                }
            },
            SchemaKind::Primitive(b) => self.add_if_not_exists(
                name,
                TypeDetails::Basic(*b, node.meta.duplicate()),
            ),
            SchemaKind::Enumeration(values) => self.add_if_not_exists(
                name,
                TypeDetails::Enum(copy_texts(values), node.meta.duplicate()),
            ),
            SchemaKind::Unrecognized => self.add_if_not_exists(name, TypeDetails::Unknown),
            SchemaKind::Array(item) => {
                let t = match name {
                    Some(n) => {
                        self.id_for_name(n);
                        self.select(None, item, "")
                    },
                    None => self.select(hint, item, parent_name),
                };
                self.add_if_not_exists(name, TypeDetails::Array(t, node.meta.duplicate()))
            },
            SchemaKind::Dictionary(value) => {
                let t = match name {
                    Some(n) => {
                        self.id_for_name(n);
                        self.select(None, value, "")
                    },
                    None => self.select(hint, value, parent_name),
                };
                self.add_if_not_exists(name, TypeDetails::Dictionary(t, node.meta.duplicate()))
            },
            SchemaKind::Record(props) => {
                proof {
                    lemma_properties_view(props@, props@.len());
                }
                self.reserve_name(name);
                let own: &str = match name {
                    Some(n) => n,
                    None => "",
                };
                let fields = self.select_props(props, props.len(), own);
                self.add_if_not_exists(name, TypeDetails::Object(fields, node.meta.duplicate()))
            },
            SchemaKind::OneOf(alts) => {
                proof {
                    lemma_nodes_view(alts@, alts@.len());
                }
                self.reserve_name(name);
                let ids = self.select_each(alts, alts.len());
                self.add_if_not_exists(name, TypeDetails::OneOf(ids, node.meta.duplicate()))
            },
            SchemaKind::AnyOf(alts) => {
                proof {
                    lemma_nodes_view(alts@, alts@.len());
                }
                self.reserve_name(name);
                let ids = self.select_each(alts, alts.len());
                self.add_if_not_exists(name, TypeDetails::AnyOf(ids, node.meta.duplicate()))
            },
            SchemaKind::AllOf(alts) => {
                proof {
                    lemma_nodes_view(alts@, alts@.len());
                }
                self.reserve_name(name);
                let ids = self.select_each(alts, alts.len());
                self.add_if_not_exists(name, TypeDetails::AllOf(ids, node.meta.duplicate()))
            },
        }
    }

    fn reserve_name(&mut self, name: Option<&str>)
        ensures
            final(self)@ == reserve(old(self)@, opt_str(name)),
    {
        match name {
            Some(n) => {
                self.id_for_name(n);
            },
            None => {},
        }
    }

    /// Resolves the nodes of `nodes` one after the other, each by the name
    /// that it declares, and returns their identities in that order.
    pub fn select_all(&mut self, nodes: &Vec<SchemaNode>) -> (ids: Vec<TypeId>)
        ensures
            (final(self)@, ids@) == resolve_each(
                old(self)@,
                nodes_view(nodes@, nodes@.len()),
                nodes@.len(),
            ),
            well_formed(old(self)@) ==> well_formed(final(self)@),
    {
        proof {
            if well_formed(old(self)@) {
                lemma_resolve_each_well_formed(
                    old(self)@,
                    nodes_view(nodes@, nodes@.len()),
                    nodes@.len(),
                );
            }
        }
        self.select_each(nodes, nodes.len())
    }

    /// Resolves the properties of a record with the name `parent_name`, which
    /// is empty for a record without a name, one after the other.
    pub fn select_properties(&mut self, props: &Vec<PropertyNode>, parent_name: &str) -> (fields:
        Vec<Property>)
        ensures
            (final(self)@, props_view(fields@)) == resolve_props(
                old(self)@,
                properties_view(props@, props@.len()),
                props@.len(),
                parent_name@,
            ),
    {
        self.select_props(props, props.len(), parent_name)
    }

    fn select_each(&mut self, nodes: &Vec<SchemaNode>, n: usize) -> (ids: Vec<TypeId>)
        requires
            n <= nodes.len(),
        ensures
            (final(self)@, ids@) == resolve_each(
                old(self)@,
                nodes_view(nodes@, nodes@.len()),
                n as nat,
            ),
        decreases nodes, n,
    {
        proof {
            lemma_nodes_view(nodes@, nodes@.len());
            reveal_strlit("");
            assert(""@ =~= Seq::<char>::empty());
        }
        if n == 0 {
            Vec::new()
        } else {
            let mut ids = self.select_each(nodes, n - 1);
            let t = self.select(None, &nodes[n - 1], "");
            ids.push(t);
            ids
        }
    }

    fn select_props(&mut self, props: &Vec<PropertyNode>, n: usize, parent_name: &str) -> (fields:
        Vec<Property>)
        requires
            n <= props.len(),
        ensures
            (final(self)@, props_view(fields@)) == resolve_props(
                old(self)@,
                properties_view(props@, props@.len()),
                n as nat,
                parent_name@,
            ),
        decreases props, n,
    {
        proof {
            lemma_properties_view(props@, props@.len());
        }
        if n == 0 {
            let fields: Vec<Property> = Vec::new();
            assert(props_view(fields@) =~= Seq::<PropView>::empty());
            fields
        } else {
            let mut fields = self.select_props(props, n - 1, parent_name);
            let p = &props[n - 1];
            let hint: Option<&str> = if parent_name.is_empty() {
                None
            } else {
                Some(p.name.as_str())
            };
            let t = self.select(hint, &p.node, parent_name);
            let tid = if p.required {
                t
            } else {
                self.add_if_not_exists(None, TypeDetails::Optional(t, Metadata::empty()))
            };
            let ghost before = props_view(fields@);
            let f = Property { name: p.name.clone(), tid };
            fields.push(f);
            assert(props_view(fields@) =~= before.push(PropView { name: p.name@, tid }));
            fields
        }
    }
}

} // verus!
