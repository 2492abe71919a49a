//! Type expressions, documentation and wire shapes of resolved identities.

use crate::names::{struct_name, type_name_of};
use crate::registry::{DetailsView, EntryView, TypeDetails, TypeId, TypeSpace};
use crate::schema::{opt_text, BasicType, MetaView, Metadata};
use crate::text::{concat2, concat3};
use vstd::prelude::*;
use vstd::string::*;

verus! {

/// How a value of a type travels: what the field policy depends on.
#[derive(Clone, Copy, Debug, PartialEq, Eq, Structural)]
pub enum WireShape {
    Text,
    List,
    Dictionary,
    Optional,
    OptionalUrl,
    OptionalDate,
    OptionalDateTime,
    Bool,
    Int32,
    Int64,
    UInt32,
    UInt64,
    Float32,
    Float64,
    Choice { has_default: bool },
    Other,
}

/// Why an identity has no type expression.
#[derive(Clone, Copy, Debug, PartialEq, Eq, Structural)]
pub enum Failure {
    /// The identity stands for a node that matched no known shape, or for a
    /// name that was referred to and never resolved.
    Unresolvable,
    /// The identity has no entry, or its entry leads to none.
    Unrenderable,
}

/// The type expression of a primitive.
pub open spec fn basic_text(b: BasicType) -> Seq<char> {
    match b {
        BasicType::Text => "String"@,
        BasicType::Bool => "bool"@,
        BasicType::Int32 => "i32"@,
        BasicType::Int64 => "i64"@,
        BasicType::UInt32 => "u32"@,
        BasicType::UInt64 => "u64"@,
        BasicType::Float32 => "f32"@,
        BasicType::Float64 => "f64"@,
        BasicType::Date => "Option<chrono::NaiveDate>"@,
        BasicType::DateTime => "Option<chrono::DateTime<chrono::Utc>>"@,
        BasicType::Url => "Option<url::Url>"@,
        BasicType::Json => "serde_json::Value"@,
    }
}

/// The wire shape of a primitive.
pub open spec fn basic_shape(b: BasicType) -> WireShape {
    match b {
        BasicType::Text => WireShape::Text,
        BasicType::Bool => WireShape::Bool,
        BasicType::Int32 => WireShape::Int32,
        BasicType::Int64 => WireShape::Int64,
        BasicType::UInt32 => WireShape::UInt32,
        BasicType::UInt64 => WireShape::UInt64,
        BasicType::Float32 => WireShape::Float32,
        BasicType::Float64 => WireShape::Float64,
        BasicType::Date => WireShape::OptionalDate,
        BasicType::DateTime => WireShape::OptionalDateTime,
        BasicType::Url => WireShape::OptionalUrl,
        BasicType::Json => WireShape::Other,
    }
}

/// Whether a value of this shape can already be absent.
pub open spec fn is_optional_shape(s: WireShape) -> bool {
    s is Optional || s is OptionalUrl || s is OptionalDate || s is OptionalDateTime
}

/// The wire shape of the identity `tid`. A wrapper that passes through
/// (an alias, an optional) is followed for at most `fuel` steps.
pub open spec fn shape_of(reg: Seq<EntryView>, tid: TypeId, fuel: nat) -> WireShape
    decreases fuel,
{
    if tid.0 >= reg.len() {
        WireShape::Other
    } else {
        let e = reg[tid.0 as int];
        match e.details {
            DetailsView::Basic(b, _) => basic_shape(b),
            DetailsView::Array(_, _) => WireShape::List,
            DetailsView::Dictionary(_, _) => WireShape::Dictionary,
            DetailsView::NamedType(t, _) => if fuel == 0 {
                WireShape::Other
            } else {
                shape_of(reg, t, (fuel - 1) as nat)
            },
            DetailsView::Optional(t, _) => if fuel == 0 {
                WireShape::Optional
            } else {
                let inner = shape_of(reg, t, (fuel - 1) as nat);
                if is_optional_shape(inner) {
                    inner
                } else {
                    WireShape::Optional
                }
            },
            DetailsView::Enum(_, m) => if e.name is Some {
                WireShape::Choice { has_default: m.default is Some }
            } else {
                WireShape::Text
            },
            _ => WireShape::Other,
        }
    }
}

/// The path in front of a type name: none inside the module of the types.
pub open spec fn module_prefix(in_mod: bool) -> Seq<char> {
    if in_mod {
        ""@
    } else {
        "crate::types::"@
    }
}

/// The type expression of the identity `tid`, if it has one. A type that is
/// emitted goes by its name; one without a name is written as the loosest
/// type that holds it; a wrapper is written around what it wraps, which is
/// followed for at most `fuel` steps.
pub open spec fn rendered(reg: Seq<EntryView>, tid: TypeId, in_mod: bool, fuel: nat) -> Option<
    Seq<char>,
>
    decreases fuel,
{
    if tid.0 >= reg.len() {
        None
    } else {
        let e = reg[tid.0 as int];
        match e.details {
            DetailsView::Unknown => None,
            DetailsView::Basic(b, _) => Some(basic_text(b)),
            DetailsView::NamedType(t, _) => if fuel == 0 {
                None
            } else {
                rendered(reg, t, in_mod, (fuel - 1) as nat)
            },
            DetailsView::Array(t, _) => if fuel == 0 {
                None
            } else {
                match rendered(reg, t, in_mod, (fuel - 1) as nat) {
                    Some(s) => Some("Vec<"@ + s + ">"@),
                    None => None,
                }
            },
            DetailsView::Dictionary(t, _) => if fuel == 0 {
                None
            } else {
                match rendered(reg, t, in_mod, (fuel - 1) as nat) {
                    Some(s) => Some("std::collections::HashMap<String, "@ + s + ">"@),
                    None => None,
                }
            },
            DetailsView::Optional(t, _) => if fuel == 0 {
                None
            } else {
                match rendered(reg, t, in_mod, (fuel - 1) as nat) {
                    Some(s) => if is_optional_shape(shape_of(reg, t, (fuel - 1) as nat)) {
                        Some(s)
                    } else {
                        Some("Option<"@ + s + ">"@)
                    },
                    None => None,
                }
            },
            DetailsView::Enum(_, _) => match e.name {
                Some(n) => Some(module_prefix(in_mod) + type_name_of(n)),
                None => Some("String"@),
            },
            _ => match e.name {
                Some(n) => Some(module_prefix(in_mod) + type_name_of(n)),
                None => Some("serde_json::Value"@),
            },
        }
    }
}

/// Why the identity `tid` has no type expression.
pub open spec fn failure_of(reg: Seq<EntryView>, tid: TypeId) -> Failure {
    if tid.0 < reg.len() && reg[tid.0 as int].details is Unknown {
        Failure::Unresolvable
    } else {
        Failure::Unrenderable
    }
}

/// The metadata that details carry.
pub open spec fn meta_of(d: DetailsView) -> MetaView {
    match d {
        DetailsView::Unknown => MetaView::empty(),
        DetailsView::Basic(_, m) => m,
        DetailsView::NamedType(_, m) => m,
        DetailsView::Enum(_, m) => m,
        DetailsView::Array(_, m) => m,
        DetailsView::Optional(_, m) => m,
        DetailsView::Dictionary(_, m) => m,
        DetailsView::Object(_, m) => m,
        DetailsView::OneOf(_, m) => m,
        DetailsView::AnyOf(_, m) => m,
        DetailsView::AllOf(_, m) => m,
    }
}

/// The documentation of the identity `tid`: the description of its schema,
/// and nothing where it has none.
pub open spec fn docs_of(reg: Seq<EntryView>, tid: TypeId) -> Seq<char> {
    if tid.0 >= reg.len() {
        Seq::empty()
    } else {
        match meta_of(reg[tid.0 as int].details).description {
            Some(d) => d,
            None => Seq::empty(),
        }
    }
}

/// The type expression of a primitive.
pub fn basic_name(b: BasicType) -> (s: &'static str)
    ensures
        s@ == basic_text(b),
{
    match b {
        BasicType::Text => "String",
        BasicType::Bool => "bool",
        BasicType::Int32 => "i32",
        BasicType::Int64 => "i64",
        BasicType::UInt32 => "u32",
        BasicType::UInt64 => "u64",
        BasicType::Float32 => "f32",
        BasicType::Float64 => "f64",
        BasicType::Date => "Option<chrono::NaiveDate>",
        BasicType::DateTime => "Option<chrono::DateTime<chrono::Utc>>",
        BasicType::Url => "Option<url::Url>",
        BasicType::Json => "serde_json::Value",
    }
}

/// The wire shape of a primitive.
pub fn shape_of_basic(b: BasicType) -> (s: WireShape)
    ensures
        s == basic_shape(b),
{
    match b {
        BasicType::Text => WireShape::Text,
        BasicType::Bool => WireShape::Bool,
        BasicType::Int32 => WireShape::Int32,
        BasicType::Int64 => WireShape::Int64,
        BasicType::UInt32 => WireShape::UInt32,
        BasicType::UInt64 => WireShape::UInt64,
        BasicType::Float32 => WireShape::Float32,
        BasicType::Float64 => WireShape::Float64,
        BasicType::Date => WireShape::OptionalDate,
        BasicType::DateTime => WireShape::OptionalDateTime,
        BasicType::Url => WireShape::OptionalUrl,
        BasicType::Json => WireShape::Other,
    }
}

/// Whether a value of this shape can already be absent.
pub fn shape_is_optional(s: WireShape) -> (r: bool)
    ensures
        r == is_optional_shape(s),
{
    match s {
        WireShape::Optional => true,
        WireShape::OptionalUrl => true,
        WireShape::OptionalDate => true,
        WireShape::OptionalDateTime => true,
        _ => false,
    }
}

/// The metadata of `d`, if it carries any.
pub fn metadata_of(d: &TypeDetails) -> (r: Option<&Metadata>)
    ensures
        match r {
            Some(m) => !(d@ is Unknown) && m@ == meta_of(d@),
            None => d@ is Unknown,
        },
{
    match d {
        TypeDetails::Unknown => None,
        TypeDetails::Basic(_, m) => Some(m),
        TypeDetails::NamedType(_, m) => Some(m),
        TypeDetails::Enum(_, m) => Some(m),
        TypeDetails::Array(_, m) => Some(m),
        TypeDetails::Optional(_, m) => Some(m),
        TypeDetails::Dictionary(_, m) => Some(m),
        TypeDetails::Object(_, m) => Some(m),
        TypeDetails::OneOf(_, m) => Some(m),
        TypeDetails::AnyOf(_, m) => Some(m),
        TypeDetails::AllOf(_, m) => Some(m),
    }
}

impl TypeSpace {
    /// The wire shape of `tid`.
    pub fn wire_shape(&self, tid: TypeId) -> (s: WireShape)
        ensures
            s == shape_of(self@, tid, self@.len()),
    {
        self.shape_within(tid, self.len())
    }

    fn shape_within(&self, tid: TypeId, fuel: usize) -> (s: WireShape)
        ensures
            s == shape_of(self@, tid, fuel as nat),
        decreases fuel,
    {
        match self.get(tid) {
            None => WireShape::Other,
            Some(e) => match &e.details {
                TypeDetails::Basic(b, _) => shape_of_basic(*b),
                TypeDetails::Array(_, _) => WireShape::List,
                TypeDetails::Dictionary(_, _) => WireShape::Dictionary,
                TypeDetails::NamedType(t, _) => if fuel == 0 {
                    WireShape::Other
                } else {
                    self.shape_within(*t, fuel - 1)
                },
                TypeDetails::Optional(t, _) => if fuel == 0 {
                    WireShape::Optional
                } else {
                    let inner = self.shape_within(*t, fuel - 1);
                    if shape_is_optional(inner) {
                        inner
                    } else {
                        WireShape::Optional
                    }
                },
                TypeDetails::Enum(_, m) => if e.name.is_some() {
                    WireShape::Choice { has_default: m.default.is_some() }
                } else {
                    WireShape::Text
                },
                _ => WireShape::Other,
            },
        }
    }

    /// The type expression of `tid`, written for use inside the module of the
    /// types (`in_mod`) or outside it; the reason where there is none.
    pub fn render_type(&self, tid: &TypeId, in_mod: bool) -> (r: Result<String, Failure>)
        ensures
            match r {
                Ok(s) => rendered(self@, *tid, in_mod, self@.len()) == Some(s@),
                Err(f) => rendered(self@, *tid, in_mod, self@.len()) is None && f == failure_of(
                    self@,
                    *tid,
                ),
            },
    {
        match self.render_within(*tid, in_mod, self.len()) {
            Some(s) => Ok(s),
            None => {
                let unknown = match self.get(*tid) {
                    Some(e) => match &e.details {
                        TypeDetails::Unknown => true,
                        _ => false,
                    },
                    None => false,
                };
                if unknown {
                    Err(Failure::Unresolvable)
                } else {
                    Err(Failure::Unrenderable)
                }
            },
        }
    }

    fn render_named(&self, name: &Option<String>, in_mod: bool, inline: &str) -> (r: String)
        ensures
            r@ == match opt_text(*name) {
                Some(n) => module_prefix(in_mod) + type_name_of(n),
                None => inline@,
            },
    {
        match name {
            Some(n) => {
                let sn = struct_name(n.as_str());
                if in_mod {
                    concat2("", sn.as_str())
                } else {
                    concat2("crate::types::", sn.as_str())
                }
            },
            None => String::from_str(inline),
        }
    }

    fn render_within(&self, tid: TypeId, in_mod: bool, fuel: usize) -> (r: Option<String>)
        ensures
            opt_text(r) == rendered(self@, tid, in_mod, fuel as nat),
        decreases fuel,
    {
        match self.get(tid) {
            None => None,
            Some(e) => match &e.details {
                TypeDetails::Unknown => None,
                TypeDetails::Basic(b, _) => Some(String::from_str(basic_name(*b))),
                TypeDetails::NamedType(t, _) => if fuel == 0 {
                    None
                } else {
                    self.render_within(*t, in_mod, fuel - 1)
                },
                TypeDetails::Array(t, _) => if fuel == 0 {
                    None
                } else {
                    match self.render_within(*t, in_mod, fuel - 1) {
                        Some(s) => Some(concat3("Vec<", s.as_str(), ">")),
                        None => None,
                    }
                },
                TypeDetails::Dictionary(t, _) => if fuel == 0 {
                    None
                } else {
                    match self.render_within(*t, in_mod, fuel - 1) {
                        Some(s) => Some(
                            concat3("std::collections::HashMap<String, ", s.as_str(), ">"),
                        ),
                        None => None,
                    }
                },
                TypeDetails::Optional(t, _) => if fuel == 0 {
                    None
                } else {
                    match self.render_within(*t, in_mod, fuel - 1) {
                        Some(s) => if shape_is_optional(self.shape_within(*t, fuel - 1)) {
                            Some(s)
                        } else {
                            Some(concat3("Option<", s.as_str(), ">"))
                        },
                        None => None,
                    }
                },
                TypeDetails::Enum(_, _) => Some(self.render_named(&e.name, in_mod, "String")),
                _ => Some(self.render_named(&e.name, in_mod, "serde_json::Value")),
            },
        }
    }

    /// The documentation of `tid`.
    pub fn render_docs(&self, tid: &TypeId) -> (r: String)
        ensures
            r@ == docs_of(self@, *tid),
    {
        match self.get(*tid) {
            None => String::new(),
            Some(e) => match metadata_of(&e.details) {
                Some(m) => match &m.description {
                    Some(d) => d.clone(),
                    None => String::new(),
                },
                None => String::new(),
            },
        }
    }
}

} // verus!
