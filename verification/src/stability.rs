//! Laws of the resolver: resolution only adds to the registry, and a node
//! that has been resolved resolves to the same identity ever after, without
//! another entry.

use crate::registry::{
    define, define_anonymous, define_named, find_anonymous, find_name, id_at,
    lemma_find_anonymous_bounds, lemma_find_name_bounds, with_name, DetailsView, EntryView,
    PropView, TypeId,
};
use crate::resolve::{
    effective_name, parent_of, property_hint, reserve, resolve, resolve_each, resolve_props,
};
use crate::schema::{KindView, MetaView, NodeView, PropertyView};
use vstd::prelude::*;

verus! {

/// Whether the entry `y` can stand where `x` stood: it has the same name; an
/// entry without a name stays as it is; and details other than those of a
/// placeholder stay as they are.
pub open spec fn keeps(x: EntryView, y: EntryView) -> bool {
    &&& y.name == x.name
    &&& x.name is None ==> y == x
    &&& !(x.details is Unknown) ==> y.details == x.details
}

/// Whether the registry `b` carries on from `a`: it has every entry of `a`
/// at its place, changed at most by the filling of a placeholder.
pub open spec fn extends(a: Seq<EntryView>, b: Seq<EntryView>) -> bool {
    &&& a.len() <= b.len()
    &&& forall|i: int| 0 <= i < a.len() ==> keeps(a[i], #[trigger] b[i])
}

/// Every registry carries on from itself.
pub proof fn lemma_extends_refl(a: Seq<EntryView>)
    ensures
        extends(a, a),
{
}

/// What carries on from a registry that carries on from `a` carries on from
/// `a`.
pub proof fn lemma_extends_trans(a: Seq<EntryView>, b: Seq<EntryView>, c: Seq<EntryView>)
    requires
        extends(a, b),
        extends(b, c),
    ensures
        extends(a, c),
{
    assert forall|i: int| 0 <= i < a.len() implies keeps(a[i], #[trigger] c[i]) by {
        assert(keeps(a[i], b[i]));
        assert(keeps(b[i], c[i]));
    }
}

/// The first entry with the name `name` is at `i`, if no entry before `i`
/// has that name and the entry at `i`, if there is one, has it.
pub proof fn lemma_find_name_is(reg: Seq<EntryView>, name: Seq<char>, i: int, from: int)
    requires
        0 <= from <= i <= reg.len(),
        forall|j: int| from <= j < i ==> (#[trigger] reg[j]).name != Some(name),
        i == reg.len() || reg[i].name == Some(name),
    ensures
        find_name(reg, name, from) == i,
    decreases i - from,
{
    if from < i {
        assert(reg[from].name != Some(name));
        lemma_find_name_is(reg, name, i, from + 1);
    }
}

/// The first entry without a name and with the details `details` is at `i`,
/// if no such entry stands before `i` and the entry at `i`, if there is one,
/// is such an entry.
pub proof fn lemma_find_anonymous_is(reg: Seq<EntryView>, details: DetailsView, i: int, from: int)
    requires
        0 <= from <= i <= reg.len(),
        forall|j: int|
            from <= j < i ==> !((#[trigger] reg[j]).name is None && reg[j].details == details),
        i == reg.len() || (reg[i].name is None && reg[i].details == details),
    ensures
        find_anonymous(reg, details, from) == i,
    decreases i - from,
{
    if from < i {
        assert(!(reg[from].name is None && reg[from].details == details));
        lemma_find_anonymous_is(reg, details, i, from + 1);
    }
}

/// Giving a name an identity only adds to the registry, and the name then
/// has that identity.
pub proof fn lemma_with_name_extends(reg: Seq<EntryView>, name: Seq<char>)
    ensures
        extends(reg, with_name(reg, name).0),
        find_name(with_name(reg, name).0, name, 0) < with_name(reg, name).0.len(),
        with_name(reg, name).1 == id_at(find_name(with_name(reg, name).0, name, 0)),
{
    lemma_find_name_bounds(reg, name, 0);
    let i = find_name(reg, name, 0);
    let after = with_name(reg, name).0;
    assert forall|j: int| 0 <= j < reg.len() implies keeps(reg[j], #[trigger] after[j]) by {}
    assert forall|j: int| 0 <= j < i implies (#[trigger] after[j]).name != Some(name) by {
        assert(after[j] == reg[j]);
    }
    lemma_find_name_is(after, name, i, 0);
}

/// A name that has an identity keeps it in every registry that carries on.
pub proof fn lemma_with_name_stable(reg: Seq<EntryView>, name: Seq<char>, later: Seq<EntryView>)
    requires
        extends(with_name(reg, name).0, later),
    ensures
        with_name(later, name) == (later, with_name(reg, name).1),
{
    lemma_with_name_extends(reg, name);
    let after = with_name(reg, name).0;
    let i = find_name(after, name, 0);
    lemma_find_name_bounds(after, name, 0);
    assert forall|j: int| 0 <= j < i implies (#[trigger] later[j]).name != Some(name) by {
        assert(keeps(after[j], later[j]));
    }
    assert(keeps(after[i], later[i]));
    lemma_find_name_is(later, name, i, 0);
}

/// Defining a name only adds to the registry.
pub proof fn lemma_define_named_extends(reg: Seq<EntryView>, name: Seq<char>, d: DetailsView)
    ensures
        extends(reg, define_named(reg, name, d).0),
{
    lemma_find_name_bounds(reg, name, 0);
    let after = define_named(reg, name, d).0;
    assert forall|j: int| 0 <= j < reg.len() implies keeps(reg[j], #[trigger] after[j]) by {}
}

/// A name that has been defined keeps its identity, and defining it again
/// with the same details changes nothing, in every registry that carries on.
pub proof fn lemma_define_named_stable(
    reg: Seq<EntryView>,
    name: Seq<char>,
    d: DetailsView,
    later: Seq<EntryView>,
)
    requires
        extends(define_named(reg, name, d).0, later),
    ensures
        define_named(later, name, d) == (later, define_named(reg, name, d).1),
{
    lemma_find_name_bounds(reg, name, 0);
    let i = find_name(reg, name, 0);
    let after = define_named(reg, name, d).0;
    assert forall|j: int| 0 <= j < i implies (#[trigger] later[j]).name != Some(name) by {
        assert(keeps(after[j], later[j]));
        assert(after[j] == reg[j]);
    }
    assert(keeps(after[i], later[i]));
    lemma_find_name_is(later, name, i, 0);
    if later[i].details is Unknown {
        assert(d is Unknown);
        assert(later.update(i, EntryView { name: Some(name), details: d }) =~= later);
    }
}

/// Registering details without a name only adds to the registry.
pub proof fn lemma_define_anonymous_extends(reg: Seq<EntryView>, d: DetailsView)
    ensures
        extends(reg, define_anonymous(reg, d).0),
{
    lemma_find_anonymous_bounds(reg, d, 0);
    let after = define_anonymous(reg, d).0;
    assert forall|j: int| 0 <= j < reg.len() implies keeps(reg[j], #[trigger] after[j]) by {}
}

/// Details without a name that have been registered keep their identity in
/// every registry that carries on, and get no second entry.
pub proof fn lemma_define_anonymous_stable(
    reg: Seq<EntryView>,
    d: DetailsView,
    later: Seq<EntryView>,
)
    requires
        extends(define_anonymous(reg, d).0, later),
    ensures
        define_anonymous(later, d) == (later, define_anonymous(reg, d).1),
{
    lemma_find_anonymous_bounds(reg, d, 0);
    let i = find_anonymous(reg, d, 0);
    let after = define_anonymous(reg, d).0;
    assert forall|j: int| 0 <= j < i implies !((#[trigger] later[j]).name is None
        && later[j].details == d) by {
        assert(keeps(after[j], later[j]));
        assert(after[j] == reg[j]);
    }
    assert(keeps(after[i], later[i]));
    lemma_find_anonymous_is(later, d, i, 0);
}

/// Registering details only adds to the registry.
pub proof fn lemma_define_extends(reg: Seq<EntryView>, name: Option<Seq<char>>, d: DetailsView)
    ensures
        extends(reg, define(reg, name, d).0),
{
    match name {
        Some(n) => lemma_define_named_extends(reg, n, d),
        None => lemma_define_anonymous_extends(reg, d),
    }
}

/// Details that have been registered keep their identity in every registry
/// that carries on, and registering them again changes nothing.
pub proof fn lemma_define_stable(
    reg: Seq<EntryView>,
    name: Option<Seq<char>>,
    d: DetailsView,
    later: Seq<EntryView>,
)
    requires
        extends(define(reg, name, d).0, later),
    ensures
        define(later, name, d) == (later, define(reg, name, d).1),
{
    match name {
        Some(n) => lemma_define_named_stable(reg, n, d, later),
        None => lemma_define_anonymous_stable(reg, d, later),
    }
}

/// Giving a name its identity ahead of time only adds to the registry.
pub proof fn lemma_reserve_extends(reg: Seq<EntryView>, name: Option<Seq<char>>)
    ensures
        extends(reg, reserve(reg, name)),
{
    match name {
        Some(n) => lemma_with_name_extends(reg, n),
        None => {},
    }
}

/// A name that has its identity needs none in a registry that carries on.
pub proof fn lemma_reserve_stable(
    reg: Seq<EntryView>,
    name: Option<Seq<char>>,
    later: Seq<EntryView>,
)
    requires
        extends(reserve(reg, name), later),
    ensures
        reserve(later, name) == later,
{
    match name {
        Some(n) => lemma_with_name_stable(reg, n, later),
        None => {},
    }
}

/// Resolution only adds to the registry: every entry keeps its place and its
/// name, and only a placeholder is ever changed.
pub proof fn lemma_resolve_extends(
    reg: Seq<EntryView>,
    hint: Option<Seq<char>>,
    node: NodeView,
    parent: Seq<char>,
)
    ensures
        extends(reg, resolve(reg, hint, node, parent).0),
    decreases node, 0nat,
{
    let name = effective_name(hint, node, parent);
    let r0 = reserve(reg, name);
    let inner_hint = if name is Some {
        None
    } else {
        hint
    };
    let inner_parent = if name is Some {
        Seq::empty()
    } else {
        parent
    };
    lemma_reserve_extends(reg, name);
    match node.kind {
        KindView::Reference(target) => {
            let (r1, t) = with_name(reg, target);
            lemma_with_name_extends(reg, target);
            match name {
                Some(n) => {
                    if n != target {
                        let d = DetailsView::NamedType(t, node.meta);
                        lemma_define_named_extends(r1, n, d);
                        lemma_extends_trans(reg, r1, define_named(r1, n, d).0);
                    }
                },
                None => {},
            }
        },
        KindView::Primitive(b) => {
            lemma_define_extends(reg, name, DetailsView::Basic(b, node.meta));
        },
        KindView::Enumeration(values) => {
            lemma_define_extends(reg, name, DetailsView::Enum(values, node.meta));
        },
        KindView::Unrecognized => {
            lemma_define_extends(reg, name, DetailsView::Unknown);
        },
        KindView::Array(item) => {
            let (r1, t) = resolve(r0, inner_hint, *item, inner_parent);
            lemma_resolve_extends(r0, inner_hint, *item, inner_parent);
            let d = DetailsView::Array(t, node.meta);
            lemma_define_extends(r1, name, d);
            lemma_extends_trans(reg, r0, r1);
            lemma_extends_trans(reg, r1, define(r1, name, d).0);
        },
        KindView::Dictionary(value) => {
            let (r1, t) = resolve(r0, inner_hint, *value, inner_parent);
            lemma_resolve_extends(r0, inner_hint, *value, inner_parent);
            let d = DetailsView::Dictionary(t, node.meta);
            lemma_define_extends(r1, name, d);
            lemma_extends_trans(reg, r0, r1);
            lemma_extends_trans(reg, r1, define(r1, name, d).0);
        },
        KindView::Record(props) => {
            let (r1, fields) = resolve_props(r0, props, props.len(), parent_of(name));
            lemma_resolve_props_extends(r0, props, props.len(), parent_of(name));
            let d = DetailsView::Object(fields, node.meta);
            lemma_define_extends(r1, name, d);
            lemma_extends_trans(reg, r0, r1);
            lemma_extends_trans(reg, r1, define(r1, name, d).0);
        },
        KindView::OneOf(alts) => {
            let (r1, ids) = resolve_each(r0, alts, alts.len());
            lemma_resolve_each_extends(r0, alts, alts.len());
            let d = DetailsView::OneOf(ids, node.meta);
            lemma_define_extends(r1, name, d);
            lemma_extends_trans(reg, r0, r1);
            lemma_extends_trans(reg, r1, define(r1, name, d).0);
        },
        KindView::AnyOf(alts) => {
            let (r1, ids) = resolve_each(r0, alts, alts.len());
            lemma_resolve_each_extends(r0, alts, alts.len());
            let d = DetailsView::AnyOf(ids, node.meta);
            lemma_define_extends(r1, name, d);
            lemma_extends_trans(reg, r0, r1);
            lemma_extends_trans(reg, r1, define(r1, name, d).0);
        },
        KindView::AllOf(alts) => {
            let (r1, ids) = resolve_each(r0, alts, alts.len());
            lemma_resolve_each_extends(r0, alts, alts.len());
            let d = DetailsView::AllOf(ids, node.meta);
            lemma_define_extends(r1, name, d);
            lemma_extends_trans(reg, r0, r1);
            lemma_extends_trans(reg, r1, define(r1, name, d).0);
        },
    }
}

/// [`lemma_resolve_extends`] for a list of nodes.
pub proof fn lemma_resolve_each_extends(reg: Seq<EntryView>, nodes: Seq<NodeView>, n: nat)
    ensures
        extends(reg, resolve_each(reg, nodes, n).0),
    decreases nodes, n,
{
    if !(n == 0 || n > nodes.len()) {
        let (r1, ids) = resolve_each(reg, nodes, (n - 1) as nat);
        lemma_resolve_each_extends(reg, nodes, (n - 1) as nat);
        lemma_resolve_extends(r1, None, nodes[n - 1], Seq::empty());
        lemma_extends_trans(reg, r1, resolve(r1, None, nodes[n - 1], Seq::empty()).0);
    }
}

/// [`lemma_resolve_extends`] for the properties of a record.
pub proof fn lemma_resolve_props_extends(
    reg: Seq<EntryView>,
    props: Seq<PropertyView>,
    n: nat,
    parent: Seq<char>,
)
    ensures
        extends(reg, resolve_props(reg, props, n, parent).0),
    decreases props, n,
{
    if !(n == 0 || n > props.len()) {
        let (r1, fields) = resolve_props(reg, props, (n - 1) as nat, parent);
        lemma_resolve_props_extends(reg, props, (n - 1) as nat, parent);
        let p = props[n - 1];
        let (r2, t) = resolve(r1, property_hint(parent, p.name), p.node, parent);
        lemma_resolve_extends(r1, property_hint(parent, p.name), p.node, parent);
        lemma_extends_trans(reg, r1, r2);
        if !p.required {
            let d = DetailsView::Optional(t, MetaView::empty());
            lemma_define_anonymous_extends(r2, d);
            lemma_extends_trans(reg, r2, define_anonymous(r2, d).0);
        }
    }
}

/// A node that has been resolved resolves to the same identity in every
/// registry that carries on from there, and resolving it again leaves that
/// registry as it is: no second entry is made for it or for any node in it.
pub proof fn lemma_resolve_stable(
    reg: Seq<EntryView>,
    hint: Option<Seq<char>>,
    node: NodeView,
    parent: Seq<char>,
    later: Seq<EntryView>,
)
    requires
        extends(resolve(reg, hint, node, parent).0, later),
    ensures
        resolve(later, hint, node, parent) == (later, resolve(reg, hint, node, parent).1),
    decreases node, 0nat,
{
    let name = effective_name(hint, node, parent);
    let r0 = reserve(reg, name);
    let inner_hint = if name is Some {
        None
    } else {
        hint
    };
    let inner_parent = if name is Some {
        Seq::empty()
    } else {
        parent
    };
    lemma_reserve_extends(reg, name);
    match node.kind {
        KindView::Reference(target) => {
            let (r1, t) = with_name(reg, target);
            lemma_with_name_extends(reg, target);
            match name {
                Some(n) => {
                    if n != target {
                        let d = DetailsView::NamedType(t, node.meta);
                        lemma_define_named_extends(r1, n, d);
                        lemma_extends_trans(r1, define_named(r1, n, d).0, later);
                        lemma_with_name_stable(reg, target, later);
                        lemma_define_named_stable(r1, n, d, later);
                    } else {
                        lemma_with_name_stable(reg, target, later);
                    }
                },
                None => {
                    lemma_with_name_stable(reg, target, later);
                },
            }
        },
        KindView::Primitive(b) => {
            lemma_define_stable(reg, name, DetailsView::Basic(b, node.meta), later);
        },
        KindView::Enumeration(values) => {
            lemma_define_stable(reg, name, DetailsView::Enum(values, node.meta), later);
        },
        KindView::Unrecognized => {
            lemma_define_stable(reg, name, DetailsView::Unknown, later);
        },
        KindView::Array(item) => {
            let (r1, t) = resolve(r0, inner_hint, *item, inner_parent);
            lemma_resolve_extends(r0, inner_hint, *item, inner_parent);
            let d = DetailsView::Array(t, node.meta);
            lemma_define_extends(r1, name, d);
            let r2 = define(r1, name, d).0;
            lemma_extends_trans(r1, r2, later);
            lemma_extends_trans(r0, r1, later);
            lemma_reserve_stable(reg, name, later);
            lemma_resolve_stable(r0, inner_hint, *item, inner_parent, later);
            lemma_define_stable(r1, name, d, later);
        },
        KindView::Dictionary(value) => {
            let (r1, t) = resolve(r0, inner_hint, *value, inner_parent);
            lemma_resolve_extends(r0, inner_hint, *value, inner_parent);
            let d = DetailsView::Dictionary(t, node.meta);
            lemma_define_extends(r1, name, d);
            let r2 = define(r1, name, d).0;
            lemma_extends_trans(r1, r2, later);
            lemma_extends_trans(r0, r1, later);
            lemma_reserve_stable(reg, name, later);
            lemma_resolve_stable(r0, inner_hint, *value, inner_parent, later);
            lemma_define_stable(r1, name, d, later);
        },
        KindView::Record(props) => {
            let (r1, fields) = resolve_props(r0, props, props.len(), parent_of(name));
            lemma_resolve_props_extends(r0, props, props.len(), parent_of(name));
            let d = DetailsView::Object(fields, node.meta);
            lemma_define_extends(r1, name, d);
            let r2 = define(r1, name, d).0;
            lemma_extends_trans(r1, r2, later);
            lemma_extends_trans(r0, r1, later);
            lemma_reserve_stable(reg, name, later);
            lemma_resolve_props_stable(r0, props, props.len(), parent_of(name), later);
            lemma_define_stable(r1, name, d, later);
        },
        KindView::OneOf(alts) => {
            let (r1, ids) = resolve_each(r0, alts, alts.len());
            lemma_resolve_each_extends(r0, alts, alts.len());
            let d = DetailsView::OneOf(ids, node.meta);
            lemma_define_extends(r1, name, d);
            let r2 = define(r1, name, d).0;
            lemma_extends_trans(r1, r2, later);
            lemma_extends_trans(r0, r1, later);
            lemma_reserve_stable(reg, name, later);
            lemma_resolve_each_stable(r0, alts, alts.len(), later);
            lemma_define_stable(r1, name, d, later);
        },
        KindView::AnyOf(alts) => {
            let (r1, ids) = resolve_each(r0, alts, alts.len());
            lemma_resolve_each_extends(r0, alts, alts.len());
            let d = DetailsView::AnyOf(ids, node.meta);
            lemma_define_extends(r1, name, d);
            let r2 = define(r1, name, d).0;
            lemma_extends_trans(r1, r2, later);
            lemma_extends_trans(r0, r1, later);
            lemma_reserve_stable(reg, name, later);
            lemma_resolve_each_stable(r0, alts, alts.len(), later);
            lemma_define_stable(r1, name, d, later);
        },
        KindView::AllOf(alts) => {
            let (r1, ids) = resolve_each(r0, alts, alts.len());
            lemma_resolve_each_extends(r0, alts, alts.len());
            let d = DetailsView::AllOf(ids, node.meta);
            lemma_define_extends(r1, name, d);
            let r2 = define(r1, name, d).0;
            lemma_extends_trans(r1, r2, later);
            lemma_extends_trans(r0, r1, later);
            lemma_reserve_stable(reg, name, later);
            lemma_resolve_each_stable(r0, alts, alts.len(), later);
            lemma_define_stable(r1, name, d, later);
        },
    }
}

/// [`lemma_resolve_stable`] for a list of nodes.
pub proof fn lemma_resolve_each_stable(
    reg: Seq<EntryView>,
    nodes: Seq<NodeView>,
    n: nat,
    later: Seq<EntryView>,
)
    requires
        extends(resolve_each(reg, nodes, n).0, later),
    ensures
        resolve_each(later, nodes, n) == (later, resolve_each(reg, nodes, n).1),
    decreases nodes, n,
{
    if !(n == 0 || n > nodes.len()) {
        let (r1, ids) = resolve_each(reg, nodes, (n - 1) as nat);
        let (r2, t) = resolve(r1, None, nodes[n - 1], Seq::empty());
        lemma_resolve_extends(r1, None, nodes[n - 1], Seq::empty());
        lemma_extends_trans(r1, r2, later);
        lemma_resolve_each_stable(reg, nodes, (n - 1) as nat, later);
        lemma_resolve_stable(r1, None, nodes[n - 1], Seq::empty(), later);
    }
}

/// [`lemma_resolve_stable`] for the properties of a record.
pub proof fn lemma_resolve_props_stable(
    reg: Seq<EntryView>,
    props: Seq<PropertyView>,
    n: nat,
    parent: Seq<char>,
    later: Seq<EntryView>,
)
    requires
        extends(resolve_props(reg, props, n, parent).0, later),
    ensures
        resolve_props(later, props, n, parent) == (later, resolve_props(reg, props, n, parent).1),
    decreases props, n,
{
    if !(n == 0 || n > props.len()) {
        let (r1, fields) = resolve_props(reg, props, (n - 1) as nat, parent);
        let p = props[n - 1];
        let (r2, t) = resolve(r1, property_hint(parent, p.name), p.node, parent);
        lemma_resolve_extends(r1, property_hint(parent, p.name), p.node, parent);
        let d = DetailsView::Optional(t, MetaView::empty());
        if !p.required {
            lemma_define_anonymous_extends(r2, d);
            lemma_extends_trans(r2, define_anonymous(r2, d).0, later);
        }
        lemma_extends_trans(r1, r2, later);
        lemma_resolve_props_stable(reg, props, (n - 1) as nat, parent, later);
        lemma_resolve_stable(r1, property_hint(parent, p.name), p.node, parent, later);
        if !p.required {
            lemma_define_anonymous_stable(r2, d, later);
        }
    }
}

/// Two nodes of the same structure resolve to the same identity, and the
/// second adds no entry: what the first has registered is found again.
pub proof fn lemma_same_structure_same_identity(
    reg: Seq<EntryView>,
    hint: Option<Seq<char>>,
    first: NodeView,
    second: NodeView,
    parent: Seq<char>,
)
    requires
        first == second,
    ensures
        ({
            let (r1, t1) = resolve(reg, hint, first, parent);
            resolve(r1, hint, second, parent) == (r1, t1)
        }),
{
    lemma_extends_refl(resolve(reg, hint, first, parent).0);
    lemma_resolve_stable(reg, hint, first, parent, resolve(reg, hint, first, parent).0);
}

/// Whether no name and no details without a name have two entries: a declared
/// name stands on one entry, and what has no name is registered once.
pub open spec fn well_formed(reg: Seq<EntryView>) -> bool {
    forall|i: int, j: int|
        0 <= i < j < reg.len() ==> {
            &&& (#[trigger] reg[i]).name is Some ==> reg[i].name != (#[trigger] reg[j]).name
            &&& reg[i].name is None && reg[j].name is None ==> reg[i].details != reg[j].details
        }
}

/// Giving a name an identity keeps the registry well formed.
pub proof fn lemma_with_name_well_formed(reg: Seq<EntryView>, name: Seq<char>)
    requires
        well_formed(reg),
    ensures
        well_formed(with_name(reg, name).0),
{
    lemma_find_name_bounds(reg, name, 0);
    let after = with_name(reg, name).0;
    assert forall|i: int, j: int| 0 <= i < j < after.len() implies {
        &&& (#[trigger] after[i]).name is Some ==> after[i].name != (#[trigger] after[j]).name
        &&& after[i].name is None && after[j].name is None ==> after[i].details != after[j].details
    } by {
        if j < reg.len() {
            assert(after[i] == reg[i] && after[j] == reg[j]);
        } else {
            assert(after[i] == reg[i]);
        }
    }
}

/// Registering details keeps the registry well formed.
pub proof fn lemma_define_well_formed(reg: Seq<EntryView>, name: Option<Seq<char>>, d: DetailsView)
    requires
        well_formed(reg),
    ensures
        well_formed(define(reg, name, d).0),
{
    let after = define(reg, name, d).0;
    match name {
        Some(n) => {
            lemma_find_name_bounds(reg, n, 0);
            let k = find_name(reg, n, 0);
            assert forall|i: int, j: int| 0 <= i < j < after.len() implies {
                &&& (#[trigger] after[i]).name is Some ==> after[i].name != (
                #[trigger] after[j]).name
                &&& after[i].name is None && after[j].name is None ==> after[i].details
                    != after[j].details
            } by {
                if j < reg.len() {
                    assert(after[i].name == reg[i].name && after[j].name == reg[j].name);
                    if i != k {
                        assert(after[i] == reg[i]);
                    }
                    if j != k {
                        assert(after[j] == reg[j]);
                    }
                } else {
                    assert(after[i] == reg[i]);
                }
            }
        },
        None => {
            lemma_find_anonymous_bounds(reg, d, 0);
            assert forall|i: int, j: int| 0 <= i < j < after.len() implies {
                &&& (#[trigger] after[i]).name is Some ==> after[i].name != (
                #[trigger] after[j]).name
                &&& after[i].name is None && after[j].name is None ==> after[i].details
                    != after[j].details
            } by {
                if j < reg.len() {
                    assert(after[i] == reg[i] && after[j] == reg[j]);
                } else {
                    assert(after[i] == reg[i]);
                }
            }
        },
    }
}

/// Resolution keeps the registry well formed: whatever is resolved, a
/// declared name stands on one entry and is so emitted at most once, and what
/// has no name is registered once.
pub proof fn lemma_resolve_well_formed(
    reg: Seq<EntryView>,
    hint: Option<Seq<char>>,
    node: NodeView,
    parent: Seq<char>,
)
    requires
        well_formed(reg),
    ensures
        well_formed(resolve(reg, hint, node, parent).0),
    decreases node, 0nat,
{
    let name = effective_name(hint, node, parent);
    let r0 = reserve(reg, name);
    let inner_hint = if name is Some {
        None
    } else {
        hint
    };
    let inner_parent = if name is Some {
        Seq::empty()
    } else {
        parent
    };
    match name {
        Some(n) => lemma_with_name_well_formed(reg, n),
        None => {},
    }
    match node.kind {
        KindView::Reference(target) => {
            let (r1, t) = with_name(reg, target);
            lemma_with_name_well_formed(reg, target);
            lemma_define_well_formed(r1, name, DetailsView::NamedType(t, node.meta));
        },
        KindView::Primitive(b) => {
            lemma_define_well_formed(reg, name, DetailsView::Basic(b, node.meta));
        },
        KindView::Enumeration(values) => {
            lemma_define_well_formed(reg, name, DetailsView::Enum(values, node.meta));
        },
        KindView::Unrecognized => {
            lemma_define_well_formed(reg, name, DetailsView::Unknown);
        },
        KindView::Array(item) => {
            let (r1, t) = resolve(r0, inner_hint, *item, inner_parent);
            lemma_resolve_well_formed(r0, inner_hint, *item, inner_parent);
            lemma_define_well_formed(r1, name, DetailsView::Array(t, node.meta));
        },
        KindView::Dictionary(value) => {
            let (r1, t) = resolve(r0, inner_hint, *value, inner_parent);
            lemma_resolve_well_formed(r0, inner_hint, *value, inner_parent);
            lemma_define_well_formed(r1, name, DetailsView::Dictionary(t, node.meta));
        },
        KindView::Record(props) => {
            let (r1, fields) = resolve_props(r0, props, props.len(), parent_of(name));
            lemma_resolve_props_well_formed(r0, props, props.len(), parent_of(name));
            lemma_define_well_formed(r1, name, DetailsView::Object(fields, node.meta));
        },
        KindView::OneOf(alts) => {
            let (r1, ids) = resolve_each(r0, alts, alts.len());
            lemma_resolve_each_well_formed(r0, alts, alts.len());
            lemma_define_well_formed(r1, name, DetailsView::OneOf(ids, node.meta));
        },
        KindView::AnyOf(alts) => {
            let (r1, ids) = resolve_each(r0, alts, alts.len());
            lemma_resolve_each_well_formed(r0, alts, alts.len());
            lemma_define_well_formed(r1, name, DetailsView::AnyOf(ids, node.meta));
        },
        KindView::AllOf(alts) => {
            let (r1, ids) = resolve_each(r0, alts, alts.len());
            lemma_resolve_each_well_formed(r0, alts, alts.len());
            lemma_define_well_formed(r1, name, DetailsView::AllOf(ids, node.meta));
        },
    }
}

/// [`lemma_resolve_well_formed`] for a list of nodes.
pub proof fn lemma_resolve_each_well_formed(reg: Seq<EntryView>, nodes: Seq<NodeView>, n: nat)
    requires
        well_formed(reg),
    ensures
        well_formed(resolve_each(reg, nodes, n).0),
    decreases nodes, n,
{
    if !(n == 0 || n > nodes.len()) {
        lemma_resolve_each_well_formed(reg, nodes, (n - 1) as nat);
        lemma_resolve_well_formed(
            resolve_each(reg, nodes, (n - 1) as nat).0,
            None,
            nodes[n - 1],
            Seq::empty(),
        );
    }
}

/// [`lemma_resolve_well_formed`] for the properties of a record.
pub proof fn lemma_resolve_props_well_formed(
    reg: Seq<EntryView>,
    props: Seq<PropertyView>,
    n: nat,
    parent: Seq<char>,
)
    requires
        well_formed(reg),
    ensures
        well_formed(resolve_props(reg, props, n, parent).0),
    decreases props, n,
{
    if !(n == 0 || n > props.len()) {
        let (r1, fields) = resolve_props(reg, props, (n - 1) as nat, parent);
        lemma_resolve_props_well_formed(reg, props, (n - 1) as nat, parent);
        let p = props[n - 1];
        let (r2, t) = resolve(r1, property_hint(parent, p.name), p.node, parent);
        lemma_resolve_well_formed(r1, property_hint(parent, p.name), p.node, parent);
        if !p.required {
            lemma_define_well_formed(r2, None, DetailsView::Optional(t, MetaView::empty()));
        }
    }
}

/// A node with a name has the identity of that name: the one that the name
/// had before, or has from the moment the node is entered. So a reference to
/// the name that comes before the node, stands inside it or comes after it
/// means the node.
pub proof fn lemma_named_identity(
    reg: Seq<EntryView>,
    hint: Option<Seq<char>>,
    node: NodeView,
    parent: Seq<char>,
)
    requires
        effective_name(hint, node, parent) is Some,
        !(node.kind is Reference),
    ensures
        resolve(reg, hint, node, parent).1 == with_name(
            reg,
            effective_name(hint, node, parent)->Some_0,
        ).1,
        with_name(resolve(reg, hint, node, parent).0, effective_name(hint, node, parent)->Some_0)
            == (resolve(reg, hint, node, parent).0, resolve(reg, hint, node, parent).1),
{
    let n = effective_name(hint, node, parent)->Some_0;
    let name = Some(n);
    let (r0, id) = with_name(reg, n);
    lemma_with_name_extends(reg, n);
    lemma_resolve_extends(reg, hint, node, parent);
    let mid: Seq<EntryView> = match node.kind {
        KindView::Array(item) => resolve(r0, None, *item, Seq::empty()).0,
        KindView::Dictionary(value) => resolve(r0, None, *value, Seq::empty()).0,
        KindView::Record(props) => resolve_props(r0, props, props.len(), n).0,
        KindView::OneOf(alts) => resolve_each(r0, alts, alts.len()).0,
        KindView::AnyOf(alts) => resolve_each(r0, alts, alts.len()).0,
        KindView::AllOf(alts) => resolve_each(r0, alts, alts.len()).0,
        _ => reg,
    };
    match node.kind {
        KindView::Array(item) => lemma_resolve_extends(r0, None, *item, Seq::empty()),
        KindView::Dictionary(value) => lemma_resolve_extends(r0, None, *value, Seq::empty()),
        KindView::Record(props) => lemma_resolve_props_extends(r0, props, props.len(), n),
        KindView::OneOf(alts) => lemma_resolve_each_extends(r0, alts, alts.len()),
        KindView::AnyOf(alts) => lemma_resolve_each_extends(r0, alts, alts.len()),
        KindView::AllOf(alts) => lemma_resolve_each_extends(r0, alts, alts.len()),
        _ => {},
    }
    if mid != reg {
        lemma_with_name_stable(reg, n, mid);
    }
    let last = resolve(reg, hint, node, parent).0;
    lemma_find_name_bounds(mid, n, 0);
    let i = find_name(mid, n, 0);
    assert(resolve(reg, hint, node, parent).1 == id_at(i));
    assert forall|j: int| 0 <= j < i implies (#[trigger] last[j]).name != Some(n) by {
        assert(last[j] == mid[j]);
    }
    lemma_find_name_is(last, n, i, 0);
}

/// The record `name` whose one property `property` refers to the record
/// itself resolves, where the name is new, to a single entry whose property
/// has the identity of the entry.
pub proof fn lemma_self_reference(
    reg: Seq<EntryView>,
    name: Seq<char>,
    property: Seq<char>,
    meta: MetaView,
    inner: MetaView,
)
    requires
        find_name(reg, name, 0) == reg.len(),
    ensures
        ({
            let node = NodeView {
                name: Some(name),
                meta,
                kind: KindView::Record(
                    seq![
                        PropertyView {
                            name: property,
                            required: true,
                            node: NodeView {
                                name: None,
                                meta: inner,
                                kind: KindView::Reference(name),
                            },
                        },
                    ],
                ),
            };
            let id = id_at(reg.len() as int);
            resolve(reg, None, node, Seq::empty()) == (
                reg.push(
                    EntryView {
                        name: Some(name),
                        details: DetailsView::Object(
                            seq![PropView { name: property, tid: id }],
                            meta,
                        ),
                    },
                ),
                id,
            )
        }),
{
    let target = NodeView { name: None, meta: inner, kind: KindView::Reference(name) };
    let props = seq![PropertyView { name: property, required: true, node: target }];
    let node = NodeView { name: Some(name), meta, kind: KindView::Record(props) };
    let id = id_at(reg.len() as int);
    let r0 = reserve(reg, Some(name));
    assert(r0 == reg.push(EntryView { name: Some(name), details: DetailsView::Unknown }));
    lemma_find_name_bounds(reg, name, 0);
    assert forall|j: int| 0 <= j < reg.len() implies (#[trigger] r0[j]).name != Some(name) by {
        assert(r0[j] == reg[j]);
    }
    lemma_find_name_is(r0, name, reg.len() as int, 0);
    assert(resolve(r0, property_hint(name, property), target, name) == (r0, id));
    assert(resolve_props(r0, props, 0, name) == (r0, Seq::<PropView>::empty()));
    assert(props[0] == PropertyView { name: property, required: true, node: target });
    assert(resolve_props(r0, props, 1, name) == (
        r0,
        Seq::<PropView>::empty().push(PropView { name: property, tid: id }),
    ));
    assert(Seq::<PropView>::empty().push(PropView { name: property, tid: id }) =~= seq![
        PropView { name: property, tid: id },
    ]);
    let fields = seq![PropView { name: property, tid: id }];
    let entry = EntryView { name: Some(name), details: DetailsView::Object(fields, meta) };
    assert(r0.update(reg.len() as int, entry) =~= reg.push(entry));
}

/// The union `name` that lists itself as its one alternative resolves, where
/// the name is new, to a single entry whose alternative has the identity of
/// the entry: the alternative reuses the identity that the union's name got
/// before its alternatives were looked at.
pub proof fn lemma_self_union(
    reg: Seq<EntryView>,
    name: Seq<char>,
    meta: MetaView,
    inner: MetaView,
)
    requires
        find_name(reg, name, 0) == reg.len(),
    ensures
        ({
            let node = NodeView {
                name: Some(name),
                meta,
                kind: KindView::OneOf(
                    seq![NodeView { name: None, meta: inner, kind: KindView::Reference(name) }],
                ),
            };
            let id = id_at(reg.len() as int);
            resolve(reg, None, node, Seq::empty()) == (
                reg.push(
                    EntryView { name: Some(name), details: DetailsView::OneOf(seq![id], meta) },
                ),
                id,
            )
        }),
{
    let target = NodeView { name: None, meta: inner, kind: KindView::Reference(name) };
    let alts = seq![target];
    let id = id_at(reg.len() as int);
    let r0 = reserve(reg, Some(name));
    assert(r0 == reg.push(EntryView { name: Some(name), details: DetailsView::Unknown }));
    lemma_find_name_bounds(reg, name, 0);
    assert forall|j: int| 0 <= j < reg.len() implies (#[trigger] r0[j]).name != Some(name) by {
        assert(r0[j] == reg[j]);
    }
    lemma_find_name_is(r0, name, reg.len() as int, 0);
    assert(resolve(r0, None, target, Seq::empty()) == (r0, id));
    assert(resolve_each(r0, alts, 0) == (r0, Seq::<TypeId>::empty()));
    assert(alts[0] == target);
    assert(resolve_each(r0, alts, 1) == (r0, Seq::<TypeId>::empty().push(id)));
    assert(Seq::<TypeId>::empty().push(id) =~= seq![id]);
    let entry = EntryView { name: Some(name), details: DetailsView::OneOf(seq![id], meta) };
    assert(r0.update(reg.len() as int, entry) =~= reg.push(entry));
}

} // verus!
