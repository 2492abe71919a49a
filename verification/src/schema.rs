//! The schema graph that the synthesizer reads.

use vstd::prelude::*;

verus! {

/// The primitive shapes a schema node can have.
#[derive(Clone, Copy, Debug, PartialEq, Eq, Structural)]
pub enum BasicType {
    Text,
    Bool,
    Int32,
    Int64,
    UInt32,
    UInt64,
    Float32,
    Float64,
    Date,
    DateTime,
    Url,
    Json,
}

/// The view of an optional text.
pub open spec fn opt_text(o: Option<String>) -> Option<Seq<char>> {
    match o {
        Some(s) => Some(s@),
        None => None,
    }
}

/// What a schema says about itself besides its shape.
#[derive(Clone, Debug, PartialEq, Eq)]
pub struct Metadata {
    pub description: Option<String>,
    pub default: Option<String>,
    /// The schema asks that an empty value of its type can always be built.
    pub always_default: bool,
}

/// The view of [`Metadata`].
pub struct MetaView {
    pub description: Option<Seq<char>>,
    pub default: Option<Seq<char>>,
    pub always_default: bool,
}

impl View for Metadata {
    type V = MetaView;

    open spec fn view(&self) -> MetaView {
        MetaView {
            description: opt_text(self.description),
            default: opt_text(self.default),
            always_default: self.always_default,
        }
    }
}

/// The structural kind of a schema node.
#[derive(Debug, PartialEq, Eq)]
pub enum SchemaKind {
    Primitive(BasicType),
    Array(Box<SchemaNode>),
    Dictionary(Box<SchemaNode>),
    Record(Vec<PropertyNode>),
    Enumeration(Vec<String>),
    OneOf(Vec<SchemaNode>),
    AnyOf(Vec<SchemaNode>),
    AllOf(Vec<SchemaNode>),
    Reference(String),
    Unrecognized,
}

/// A node of the source document.
#[derive(Debug, PartialEq, Eq)]
pub struct SchemaNode {
    pub name: Option<String>,
    pub meta: Metadata,
    pub kind: SchemaKind,
}

/// One named property of a record node.
#[derive(Debug, PartialEq, Eq)]
pub struct PropertyNode {
    pub name: String,
    pub required: bool,
    pub node: SchemaNode,
}

/// The view of a [`SchemaKind`].
pub enum KindView {
    Primitive(BasicType),
    Array(Box<NodeView>),
    Dictionary(Box<NodeView>),
    Record(Seq<PropertyView>),
    Enumeration(Seq<Seq<char>>),
    OneOf(Seq<NodeView>),
    AnyOf(Seq<NodeView>),
    AllOf(Seq<NodeView>),
    Reference(Seq<char>),
    Unrecognized,
}

/// The view of a [`SchemaNode`]: its structure, with every text as a
/// sequence of characters.
pub struct NodeView {
    pub name: Option<Seq<char>>,
    pub meta: MetaView,
    pub kind: KindView,
}

/// The view of a [`PropertyNode`].
pub struct PropertyView {
    pub name: Seq<char>,
    pub required: bool,
    pub node: NodeView,
}

/// The views of the texts in `v`, in order.
pub open spec fn texts_view(v: Seq<String>) -> Seq<Seq<char>> {
    Seq::new(v.len(), |i: int| v[i]@)
}

/// The view of the node `n`.
pub open spec fn node_view(n: SchemaNode) -> NodeView
    decreases n, 0nat,
{
    NodeView { name: opt_text(n.name), meta: n.meta@, kind: kind_view(n.kind) }
}

/// The view of the kind `k`.
pub open spec fn kind_view(k: SchemaKind) -> KindView
    decreases k, 0nat,
{
    match k {
        SchemaKind::Primitive(b) => KindView::Primitive(b),
        SchemaKind::Array(n) => KindView::Array(Box::new(node_view(*n))),
        SchemaKind::Dictionary(n) => KindView::Dictionary(Box::new(node_view(*n))),
        SchemaKind::Record(ps) => KindView::Record(properties_view(ps@, ps@.len())),
        SchemaKind::Enumeration(vs) => KindView::Enumeration(texts_view(vs@)),
        SchemaKind::OneOf(ns) => KindView::OneOf(nodes_view(ns@, ns@.len())),
        SchemaKind::AnyOf(ns) => KindView::AnyOf(nodes_view(ns@, ns@.len())),
        SchemaKind::AllOf(ns) => KindView::AllOf(nodes_view(ns@, ns@.len())),
        SchemaKind::Reference(r) => KindView::Reference(r@),
        SchemaKind::Unrecognized => KindView::Unrecognized,
    }
}

/// The views of the first `n` nodes of `ns`.
pub open spec fn nodes_view(ns: Seq<SchemaNode>, n: nat) -> Seq<NodeView>
    decreases ns, n,
{
    if n == 0 || n > ns.len() {
        Seq::empty()
    } else {
        nodes_view(ns, (n - 1) as nat).push(node_view(ns[n - 1]))
    }
}

/// The views of the first `n` properties of `ps`.
pub open spec fn properties_view(ps: Seq<PropertyNode>, n: nat) -> Seq<PropertyView>
    decreases ps, n,
{
    if n == 0 || n > ps.len() {
        Seq::empty()
    } else {
        properties_view(ps, (n - 1) as nat).push(
            PropertyView {
                name: ps[n - 1].name@,
                required: ps[n - 1].required,
                node: node_view(ps[n - 1].node),
            },
        )
    }
}

/// The views of the first `n` nodes are the views of those nodes, one for
/// one.
pub proof fn lemma_nodes_view(ns: Seq<SchemaNode>, n: nat)
    requires
        n <= ns.len(),
    ensures
        nodes_view(ns, n).len() == n,
        forall|i: int| 0 <= i < n ==> #[trigger] nodes_view(ns, n)[i] == node_view(ns[i]),
        n > 0 ==> nodes_view(ns, n).drop_last() == nodes_view(ns, (n - 1) as nat),
    decreases n,
{
    if n > 0 {
        lemma_nodes_view(ns, (n - 1) as nat);
        assert(nodes_view(ns, n).drop_last() =~= nodes_view(ns, (n - 1) as nat));
    }
}

/// The views of the first `n` properties are the views of those properties,
/// one for one.
pub proof fn lemma_properties_view(ps: Seq<PropertyNode>, n: nat)
    requires
        n <= ps.len(),
    ensures
        properties_view(ps, n).len() == n,
        forall|i: int|
            0 <= i < n ==> #[trigger] properties_view(ps, n)[i] == (PropertyView {
                name: ps[i].name@,
                required: ps[i].required,
                node: node_view(ps[i].node),
            }),
        n > 0 ==> properties_view(ps, n).drop_last() == properties_view(ps, (n - 1) as nat),
    decreases n,
{
    if n > 0 {
        lemma_properties_view(ps, (n - 1) as nat);
        assert(properties_view(ps, n).drop_last() =~= properties_view(ps, (n - 1) as nat));
    }
}

impl Metadata {
    /// Metadata that says nothing.
    pub fn empty() -> (m: Metadata)
        ensures
            m@ == MetaView::empty(),
    {
        Metadata { description: None, default: None, always_default: false }
    }

    /// A copy of this metadata.
    pub fn duplicate(&self) -> (m: Metadata)
        ensures
            m@ == self@,
    {
        Metadata {
            description: copy_opt_text(&self.description),
            default: copy_opt_text(&self.default),
            always_default: self.always_default,
        }
    }
}

impl MetaView {
    /// Metadata that says nothing.
    pub open spec fn empty() -> MetaView {
        MetaView { description: None, default: None, always_default: false }
    }
}

/// A copy of an optional text.
pub fn copy_opt_text(o: &Option<String>) -> (r: Option<String>)
    ensures
        opt_text(r) == opt_text(*o),
{
    match o {
        Some(s) => Some(s.clone()),
        None => None,
    }
}

/// A copy of a list of texts.
pub fn copy_texts(v: &Vec<String>) -> (r: Vec<String>)
    ensures
        texts_view(r@) == texts_view(v@),
{
    let mut r: Vec<String> = Vec::new();
    let mut i: usize = 0;
    while i < v.len()
        invariant
            i <= v.len(),
            r@.len() == i,
            forall|j: int| 0 <= j < i ==> r@[j]@ == v@[j]@,
        decreases v.len() - i,
    {
        r.push(v[i].clone());
        i += 1;
    }
    assert(texts_view(r@) =~= texts_view(v@));
    r
}

impl View for SchemaNode {
    type V = NodeView;

    open spec fn view(&self) -> NodeView {
        node_view(*self)
    }
}

/// The schema store: the nodes of the source document, in the order of the
/// document. It is filled when it is made and never changes.
#[derive(Debug, PartialEq, Eq)]
pub struct SchemaStore {
    nodes: Vec<SchemaNode>,
}

impl View for SchemaStore {
    type V = Seq<NodeView>;

    closed spec fn view(&self) -> Seq<NodeView> {
        nodes_view(self.nodes@, self.nodes@.len())
    }
}

impl SchemaStore {
    /// The store of the nodes `nodes`.
    pub fn new(nodes: Vec<SchemaNode>) -> (s: SchemaStore)
        ensures
            s@ == nodes_view(nodes@, nodes@.len()),
    {
        SchemaStore { nodes }
    }

    /// The number of nodes.
    pub fn len(&self) -> (n: usize)
        ensures
            n == self@.len(),
    {
        proof {
            lemma_nodes_view(self.nodes@, self.nodes@.len());
        }
        self.nodes.len()
    }

    /// The node at position `i`, if there is one.
    pub fn get(&self, i: usize) -> (r: Option<&SchemaNode>)
        ensures
            match r {
                Some(n) => i < self@.len() && n@ == self@[i as int],
                None => i >= self@.len(),
            },
    {
        proof {
            lemma_nodes_view(self.nodes@, self.nodes@.len());
        }
        if i < self.nodes.len() {
            Some(&self.nodes[i])
        } else {
            None
        }
    }

    /// All nodes, in the order of the document.
    pub fn nodes(&self) -> (r: &Vec<SchemaNode>)
        ensures
            nodes_view(r@, r@.len()) == self@,
    {
        &self.nodes
    }
}

} // verus!
