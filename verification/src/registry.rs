//! The type registry: one identity for every distinct resolved schema node.
//!
//! The registry is a list of entries, and the identity of an entry is its
//! position in that list: identities are handed out in the order of discovery
//! and never change. A declared name occurs on at most one entry that this
//! module adds; an entry without a name is shared by all nodes that resolve to
//! the same details.

use crate::schema::{opt_text, texts_view, BasicType, MetaView, Metadata};
use crate::text::str_eq;
use vstd::prelude::*;
use vstd::string::*;

verus! {

/// The identity of a resolved schema node.
#[derive(Clone, Copy, Debug, PartialEq, Eq, Structural, PartialOrd, Ord, Hash)]
pub struct TypeId(pub u64);

/// One property of an object type.
#[derive(Debug, PartialEq, Eq)]
pub struct Property {
    pub name: String,
    pub tid: TypeId,
}

/// The view of a [`Property`].
pub struct PropView {
    pub name: Seq<char>,
    pub tid: TypeId,
}

impl View for Property {
    type V = PropView;

    open spec fn view(&self) -> PropView {
        PropView { name: self.name@, tid: self.tid }
    }
}

/// The views of the properties in `v`, in order.
pub open spec fn props_view(v: Seq<Property>) -> Seq<PropView> {
    Seq::new(v.len(), |i: int| v[i]@)
}

/// What a resolved schema node is.
#[derive(Debug, PartialEq, Eq)]
pub enum TypeDetails {
    Unknown,
    Basic(BasicType, Metadata),
    NamedType(TypeId, Metadata),
    Enum(Vec<String>, Metadata),
    Array(TypeId, Metadata),
    Optional(TypeId, Metadata),
    Dictionary(TypeId, Metadata),
    Object(Vec<Property>, Metadata),
    OneOf(Vec<TypeId>, Metadata),
    AnyOf(Vec<TypeId>, Metadata),
    AllOf(Vec<TypeId>, Metadata),
}

/// The view of [`TypeDetails`].
pub enum DetailsView {
    Unknown,
    Basic(BasicType, MetaView),
    NamedType(TypeId, MetaView),
    Enum(Seq<Seq<char>>, MetaView),
    Array(TypeId, MetaView),
    Optional(TypeId, MetaView),
    Dictionary(TypeId, MetaView),
    Object(Seq<PropView>, MetaView),
    OneOf(Seq<TypeId>, MetaView),
    AnyOf(Seq<TypeId>, MetaView),
    AllOf(Seq<TypeId>, MetaView),
}

impl View for TypeDetails {
    type V = DetailsView;

    open spec fn view(&self) -> DetailsView {
        match *self {
            TypeDetails::Unknown => DetailsView::Unknown,
            TypeDetails::Basic(b, m) => DetailsView::Basic(b, m@),
            TypeDetails::NamedType(t, m) => DetailsView::NamedType(t, m@),
            TypeDetails::Enum(vs, m) => DetailsView::Enum(texts_view(vs@), m@),
            TypeDetails::Array(t, m) => DetailsView::Array(t, m@),
            TypeDetails::Optional(t, m) => DetailsView::Optional(t, m@),
            TypeDetails::Dictionary(t, m) => DetailsView::Dictionary(t, m@),
            TypeDetails::Object(ps, m) => DetailsView::Object(props_view(ps@), m@),
            TypeDetails::OneOf(ts, m) => DetailsView::OneOf(ts@, m@),
            TypeDetails::AnyOf(ts, m) => DetailsView::AnyOf(ts@, m@),
            TypeDetails::AllOf(ts, m) => DetailsView::AllOf(ts@, m@),
        }
    }
}

/// One entry of the registry: the declared name, if there is one, and the
/// details. An entry with a name and the details `Unknown` is a placeholder:
/// the name was referred to and its schema has not been resolved yet.
#[derive(Debug, PartialEq, Eq)]
pub struct TypeEntry {
    pub name: Option<String>,
    pub details: TypeDetails,
}

/// The view of a [`TypeEntry`].
pub struct EntryView {
    pub name: Option<Seq<char>>,
    pub details: DetailsView,
}

impl View for TypeEntry {
    type V = EntryView;

    open spec fn view(&self) -> EntryView {
        EntryView { name: opt_text(self.name), details: self.details@ }
    }
}

/// The views of the entries in `v`, in order.
pub open spec fn entries_view(v: Seq<TypeEntry>) -> Seq<EntryView> {
    Seq::new(v.len(), |i: int| v[i]@)
}

/// The view of an optional text slice.
pub open spec fn opt_str(o: Option<&str>) -> Option<Seq<char>> {
    match o {
        Some(s) => Some(s@),
        None => None,
    }
}

/// The identity of the entry at position `i`.
pub open spec fn id_at(i: int) -> TypeId {
    TypeId(i as u64)
}

/// The first position from `from` on whose entry is named `name`; the length
/// of the registry if there is none.
pub open spec fn find_name(reg: Seq<EntryView>, name: Seq<char>, from: int) -> int
    decreases reg.len() - from,
{
    if from < 0 || from >= reg.len() {
        reg.len() as int
    } else if reg[from].name == Some(name) {
        from
    } else {
        find_name(reg, name, from + 1)
    }
}

/// The first position from `from` on whose entry has no name and the details
/// `details`; the length of the registry if there is none.
pub open spec fn find_anonymous(reg: Seq<EntryView>, details: DetailsView, from: int) -> int
    decreases reg.len() - from,
{
    if from < 0 || from >= reg.len() {
        reg.len() as int
    } else if reg[from].name is None && reg[from].details == details {
        from
    } else {
        find_anonymous(reg, details, from + 1)
    }
}

/// The identity that the name `name` has in `reg`, if it has one.
pub open spec fn lookup_name(reg: Seq<EntryView>, name: Seq<char>) -> Option<TypeId> {
    let i = find_name(reg, name, 0);
    if i < reg.len() {
        Some(id_at(i))
    } else {
        None
    }
}

/// The registry with an identity for the name `name`, and that identity: the
/// one it has, or that of a new placeholder at the end.
pub open spec fn with_name(reg: Seq<EntryView>, name: Seq<char>) -> (Seq<EntryView>, TypeId) {
    let i = find_name(reg, name, 0);
    if i < reg.len() {
        (reg, id_at(i))
    } else {
        (reg.push(EntryView { name: Some(name), details: DetailsView::Unknown }), id_at(i))
    }
}

/// The registry in which the name `name` stands for `details`, and the
/// identity of the name. Details that the name already has are kept: only a
/// placeholder is filled.
pub open spec fn define_named(reg: Seq<EntryView>, name: Seq<char>, details: DetailsView) -> (
    Seq<EntryView>,
    TypeId,
) {
    let i = find_name(reg, name, 0);
    if i < reg.len() {
        if reg[i].details is Unknown {
            (reg.update(i, EntryView { name: Some(name), details }), id_at(i))
        } else {
            (reg, id_at(i))
        }
    } else {
        (reg.push(EntryView { name: Some(name), details }), id_at(i))
    }
}

/// The registry with an entry without a name for `details`, and its identity:
/// the first such entry that is there, or a new one at the end.
pub open spec fn define_anonymous(reg: Seq<EntryView>, details: DetailsView) -> (
    Seq<EntryView>,
    TypeId,
) {
    let i = find_anonymous(reg, details, 0);
    if i < reg.len() {
        (reg, id_at(i))
    } else {
        (reg.push(EntryView { name: None, details }), id_at(i))
    }
}

/// [`define_named`] where there is a name, [`define_anonymous`] where there is
/// none.
pub open spec fn define(reg: Seq<EntryView>, name: Option<Seq<char>>, details: DetailsView) -> (
    Seq<EntryView>,
    TypeId,
) {
    match name {
        Some(n) => define_named(reg, n, details),
        None => define_anonymous(reg, details),
    }
}

/// What [`find_name`] finds is the first entry with the name.
pub proof fn lemma_find_name_bounds(reg: Seq<EntryView>, name: Seq<char>, from: int)
    requires
        0 <= from <= reg.len(),
    ensures
        from <= find_name(reg, name, from) <= reg.len(),
        find_name(reg, name, from) < reg.len() ==> reg[find_name(reg, name, from)].name == Some(
            name,
        ),
        forall|j: int| from <= j < find_name(reg, name, from) ==> reg[j].name != Some(name),
    decreases reg.len() - from,
{
    if from < reg.len() && reg[from].name != Some(name) {
        lemma_find_name_bounds(reg, name, from + 1);
    }
}

/// What [`find_anonymous`] finds is the first entry without a name that has
/// the details.
pub proof fn lemma_find_anonymous_bounds(reg: Seq<EntryView>, details: DetailsView, from: int)
    requires
        0 <= from <= reg.len(),
    ensures
        from <= find_anonymous(reg, details, from) <= reg.len(),
        find_anonymous(reg, details, from) < reg.len() ==> {
            let i = find_anonymous(reg, details, from);
            reg[i].name is None && reg[i].details == details
        },
        forall|j: int|
            from <= j < find_anonymous(reg, details, from) ==> !(reg[j].name is None
                && reg[j].details == details),
    decreases reg.len() - from,
{
    if from < reg.len() && !(reg[from].name is None && reg[from].details == details) {
        lemma_find_anonymous_bounds(reg, details, from + 1);
    }
}

/// Whether the two optional texts are the same.
pub fn opt_text_eq(a: &Option<String>, b: &Option<String>) -> (r: bool)
    ensures
        r == (opt_text(*a) == opt_text(*b)),
{
    match (a, b) {
        (Some(x), Some(y)) => str_eq(x.as_str(), y.as_str()),
        (None, None) => true,
        _ => false,
    }
}

/// Whether the two metadata say the same.
pub fn meta_eq(a: &Metadata, b: &Metadata) -> (r: bool)
    ensures
        r == (a@ == b@),
{
    opt_text_eq(&a.description, &b.description) && opt_text_eq(&a.default, &b.default)
        && a.always_default == b.always_default
}

/// Whether the two lists hold the same texts in the same order.
pub fn texts_eq(a: &Vec<String>, b: &Vec<String>) -> (r: bool)
    ensures
        r == (texts_view(a@) == texts_view(b@)),
{
    if a.len() != b.len() {
        assert(texts_view(a@).len() != texts_view(b@).len());
        return false;
    }
    let mut i: usize = 0;
    while i < a.len()
        invariant
            i <= a.len(),
            a.len() == b.len(),
            forall|j: int| 0 <= j < i ==> a@[j]@ == b@[j]@,
        decreases a.len() - i,
    {
        if !str_eq(a[i].as_str(), b[i].as_str()) {
            assert(texts_view(a@)[i as int] != texts_view(b@)[i as int]);
            return false;
        }
        i += 1;
    }
    assert(texts_view(a@) =~= texts_view(b@));
    true
}

/// Whether the two lists hold the same identities in the same order.
pub fn ids_eq(a: &Vec<TypeId>, b: &Vec<TypeId>) -> (r: bool)
    ensures
        r == (a@ == b@),
{
    if a.len() != b.len() {
        return false;
    }
    let mut i: usize = 0;
    while i < a.len()
        invariant
            i <= a.len(),
            a.len() == b.len(),
            forall|j: int| 0 <= j < i ==> a@[j] == b@[j],
        decreases a.len() - i,
    {
        if a[i].0 != b[i].0 {
            return false;
        }
        i += 1;
    }
    assert(a@ =~= b@);
    true
}

/// Whether the two lists hold the same properties in the same order.
pub fn props_eq(a: &Vec<Property>, b: &Vec<Property>) -> (r: bool)
    ensures
        r == (props_view(a@) == props_view(b@)),
{
    if a.len() != b.len() {
        assert(props_view(a@).len() != props_view(b@).len());
        return false;
    }
    let mut i: usize = 0;
    while i < a.len()
        invariant
            i <= a.len(),
            a.len() == b.len(),
            forall|j: int| 0 <= j < i ==> a@[j]@ == b@[j]@,
        decreases a.len() - i,
    {
        if a[i].tid.0 != b[i].tid.0 || !str_eq(a[i].name.as_str(), b[i].name.as_str()) {
            assert(props_view(a@)[i as int] != props_view(b@)[i as int]);
            return false;
        }
        i += 1;
    }
    assert(props_view(a@) =~= props_view(b@));
    true
}

/// Whether the two details are the same: of the same kind, with the same
/// children and the same metadata.
pub fn details_eq(a: &TypeDetails, b: &TypeDetails) -> (r: bool)
    ensures
        r == (a@ == b@),
{
    match (a, b) {
        (TypeDetails::Unknown, TypeDetails::Unknown) => true,
        (TypeDetails::Basic(x, m), TypeDetails::Basic(y, n)) => *x == *y && meta_eq(m, n),
        (TypeDetails::NamedType(x, m), TypeDetails::NamedType(y, n)) => x.0 == y.0 && meta_eq(
            m,
            n,
        ),
        (TypeDetails::Enum(x, m), TypeDetails::Enum(y, n)) => texts_eq(x, y) && meta_eq(m, n),
        (TypeDetails::Array(x, m), TypeDetails::Array(y, n)) => x.0 == y.0 && meta_eq(m, n),
        (TypeDetails::Optional(x, m), TypeDetails::Optional(y, n)) => x.0 == y.0 && meta_eq(m, n),
        (TypeDetails::Dictionary(x, m), TypeDetails::Dictionary(y, n)) => x.0 == y.0 && meta_eq(
            m,
            n,
        ),
        (TypeDetails::Object(x, m), TypeDetails::Object(y, n)) => props_eq(x, y) && meta_eq(m, n),
        (TypeDetails::OneOf(x, m), TypeDetails::OneOf(y, n)) => ids_eq(x, y) && meta_eq(m, n),
        (TypeDetails::AnyOf(x, m), TypeDetails::AnyOf(y, n)) => ids_eq(x, y) && meta_eq(m, n),
        (TypeDetails::AllOf(x, m), TypeDetails::AllOf(y, n)) => ids_eq(x, y) && meta_eq(m, n),
        _ => false,
    }
}

/// The registry of one synthesis run.
pub struct TypeSpace {
    entries: Vec<TypeEntry>,
}

impl View for TypeSpace {
    type V = Seq<EntryView>;

    closed spec fn view(&self) -> Seq<EntryView> {
        entries_view(self.entries@)
    }
}

impl TypeSpace {
    /// A registry without entries.
    pub fn new() -> (ts: TypeSpace)
        ensures
            ts@ == Seq::<EntryView>::empty(),
    {
        let ts = TypeSpace { entries: Vec::new() };
        assert(ts@ =~= Seq::<EntryView>::empty());
        ts
    }

    /// The number of entries, which is also the next identity.
    pub fn len(&self) -> (n: usize)
        ensures
            n == self@.len(),
    {
        self.entries.len()
    }

    /// The entry with the identity `id`, if there is one.
    pub fn get(&self, id: TypeId) -> (e: Option<&TypeEntry>)
        ensures
            match e {
                Some(e) => id.0 < self@.len() && e@ == self@[id.0 as int],
                None => id.0 >= self@.len(),
            },
    {
        if id.0 < self.entries.len() as u64 {
            Some(&self.entries[id.0 as usize])
        } else {
            None
        }
    }

    /// The identity of the name `name`, if it has one.
    pub fn lookup(&self, name: &str) -> (r: Option<TypeId>)
        ensures
            r == lookup_name(self@, name@),
            match r {
                Some(id) => id.0 < self@.len() && find_name(self@, name@, 0) == id.0,
                None => find_name(self@, name@, 0) == self@.len(),
            },
    {
        let mut i: usize = 0;
        while i < self.entries.len()
            invariant
                i <= self.entries.len(),
                find_name(self@, name@, 0) == find_name(self@, name@, i as int),
            decreases self.entries.len() - i,
        {
            let hit = match &self.entries[i].name {
                Some(n) => str_eq(n.as_str(), name),
                None => false,
            };
            if hit {
                return Some(TypeId(i as u64));
            }
            i += 1;
        }
        None
    }

    /// The identity of the first entry without a name whose details are
    /// `details`, if there is one.
    fn lookup_details(&self, details: &TypeDetails) -> (r: Option<TypeId>)
        ensures
            match r {
                Some(id) => id.0 < self@.len() && id == id_at(
                    find_anonymous(self@, details@, 0),
                ) && find_anonymous(self@, details@, 0) == id.0,
                None => find_anonymous(self@, details@, 0) == self@.len(),
            },
    {
        let mut i: usize = 0;
        while i < self.entries.len()
            invariant
                i <= self.entries.len(),
                find_anonymous(self@, details@, 0) == find_anonymous(self@, details@, i as int),
            decreases self.entries.len() - i,
        {
            let e = &self.entries[i];
            if e.name.is_none() && details_eq(&e.details, details) {
                return Some(TypeId(i as u64));
            }
            i += 1;
        }
        None
    }

    fn push_entry(&mut self, e: TypeEntry) -> (id: TypeId)
        ensures
            final(self)@ == old(self)@.push(e@),
            id == id_at(old(self)@.len() as int),
            id.0 == old(self)@.len(),
    {
        let n = self.entries.len();
        self.entries.push(e);
        assert(self@ =~= old(self)@.push(e@));
        TypeId(n as u64)
    }

    /// The identity of the name `name`, which gets a placeholder if it has no
    /// entry yet.
    pub fn id_for_name(&mut self, name: &str) -> (id: TypeId)
        ensures
            (final(self)@, id) == with_name(old(self)@, name@),
            id.0 < final(self)@.len(),
    {
        match self.lookup(name) {
            Some(id) => id,
            None => self.push_entry(
                TypeEntry { name: Some(String::from_str(name)), details: TypeDetails::Unknown },
            ),
        }
    }

    /// Registers `details`, under `name` if there is one, and returns the
    /// identity: a name keeps the identity and the details it has, a
    /// placeholder is filled, and details without a name share one entry.
    pub fn add_if_not_exists(&mut self, name: Option<&str>, details: TypeDetails) -> (id: TypeId)
        ensures
            (final(self)@, id) == define(old(self)@, opt_str(name), details@),
            id.0 < final(self)@.len(),
    {
        match name {
            Some(n) => self.add_named(n, details),
            None => {
                match self.lookup_details(&details) {
                    Some(id) => id,
                    None => self.push_entry(TypeEntry { name: None, details }),
                }
            },
        }
    }

    fn add_named(&mut self, n: &str, details: TypeDetails) -> (id: TypeId)
        ensures
            (final(self)@, id) == define_named(old(self)@, n@, details@),
            id.0 < final(self)@.len(),
    {
        match self.lookup(n) {
            Some(id) => {
                let len = self.entries.len();
                assert(id.0 < len);
                let k: usize = id.0 as usize;
                let placeholder = match &self.entries[k].details {
                    TypeDetails::Unknown => true,
                    _ => false,
                };
                assert(placeholder == (self@[k as int].details is Unknown));
                if placeholder {
                    let e = TypeEntry { name: Some(String::from_str(n)), details };
                    let ghost ev = e@;
                    self.entries.set(k, e);
                    assert(self@ =~= old(self)@.update(k as int, ev));
                }
                id
            },
            None => self.push_entry(TypeEntry { name: Some(String::from_str(n)), details }),
        }
    }
}

} // verus!
