//! The intersection emitter: alternatives flattened into one record.
//!
//! Every alternative becomes one embedded field, whose type is the type of
//! the alternative and whose name is derived from that type. Alternatives that
//! come to the same field name share one field: the first of them.

use crate::emit::{
    doc_line, put, put_doc_block, put_doc_line, put_docs, put_line, put_line3, put_line5,
};
use crate::names::{snake_case, struct_name, to_snake_case, type_name_of};
use crate::records::{EmitError, ErrorSpec};
use crate::registry::{EntryView, TypeId, TypeSpace};
use crate::render::{docs_of, rendered};
use crate::schema::texts_view;
use crate::text::{
    concat2, remove_all, starts_with, str_eq, strip_prefix_all, trim_end_char,
    trimmed_end, without, without_prefix,
};
use crate::unions::bare_failure;
use vstd::prelude::*;
use vstd::string::*;

verus! {

/// One embedded field of a flattened record.
#[derive(Debug, PartialEq, Eq)]
pub struct FlatField {
    pub name: String,
    pub ty: String,
    pub docs: String,
}

/// The view of a [`FlatField`].
pub struct FlatFieldSpec {
    pub name: Seq<char>,
    pub ty: Seq<char>,
    pub docs: Seq<char>,
}

impl View for FlatField {
    type V = FlatFieldSpec;

    open spec fn view(&self) -> FlatFieldSpec {
        FlatFieldSpec { name: self.name@, ty: self.ty@, docs: self.docs@ }
    }
}

/// The views of the fields in `v`, in order.
pub open spec fn flat_fields_view(v: Seq<FlatField>) -> Seq<FlatFieldSpec> {
    Seq::new(v.len(), |i: int| v[i]@)
}

/// The definition of a flattened record.
#[derive(Debug, PartialEq, Eq)]
pub struct FlatDef {
    pub name: String,
    pub description: String,
    pub default_constructible: bool,
    pub fields: Vec<FlatField>,
}

/// The view of a [`FlatDef`].
pub struct FlatSpec {
    pub name: Seq<char>,
    pub description: Seq<char>,
    pub default_constructible: bool,
    pub fields: Seq<FlatFieldSpec>,
}

impl View for FlatDef {
    type V = FlatSpec;

    open spec fn view(&self) -> FlatSpec {
        FlatSpec {
            name: self.name@,
            description: self.description@,
            default_constructible: self.default_constructible,
            fields: flat_fields_view(self.fields@),
        }
    }
}

/// The type expressions of the first `n` alternatives, or the first failure
/// among them.
pub open spec fn alt_types(reg: Seq<EntryView>, alts: Seq<TypeId>, n: nat) -> Result<
    Seq<Seq<char>>,
    ErrorSpec,
>
    decreases n,
{
    if n == 0 || n > alts.len() {
        Ok(Seq::empty())
    } else {
        match alt_types(reg, alts, (n - 1) as nat) {
            Err(e) => Err(e),
            Ok(types) => match rendered(reg, alts[n - 1], true, reg.len()) {
                Some(rt) => Ok(types.push(rt)),
                None => Err(bare_failure(reg, alts[n - 1])),
            },
        }
    }
}

proof fn lemma_alt_types_fail(reg: Seq<EntryView>, alts: Seq<TypeId>, n: nat, m: nat)
    requires
        n <= m <= alts.len(),
        alt_types(reg, alts, n) is Err,
    ensures
        alt_types(reg, alts, m) == alt_types(reg, alts, n),
    decreases m,
{
    if n < m {
        lemma_alt_types_fail(reg, alts, n, (m - 1) as nat);
    }
}

/// The description of a flattened record: the list of the types that it
/// merges.
pub open spec fn flat_description(types: Seq<Seq<char>>, n: nat) -> Seq<char>
    decreases n,
{
    if n == 0 || n > types.len() {
        "All of the following types are flattened into one object:\n\n"@
    } else {
        flat_description(types, (n - 1) as nat) + "- `"@ + types[n - 1] + "`\n"@
    }
}

/// The name from which the field for the type expression `rt` gets its name:
/// for a list the name of what it holds, with `Vector` behind it; for any
/// JSON value `Value`; else the type name made of the expression.
pub open spec fn flat_base(rt: Seq<char>) -> Seq<char> {
    if "Vec<"@.is_prefix_of(rt) {
        without(trimmed_end(without_prefix(rt, "Vec<"@), '>'), "serde_json::"@) + "Vector"@
    } else if "serde_json"@.is_prefix_of(rt) {
        "Value"@
    } else {
        type_name_of(rt)
    }
}

/// The name of the field for the type expression `rt`.
pub open spec fn flat_field_name(rt: Seq<char>) -> Seq<char> {
    snake_case(flat_base(rt))
}

/// Whether one of `fs` has the name `name`.
pub open spec fn has_field(fs: Seq<FlatFieldSpec>, name: Seq<char>) -> bool {
    exists|i: int| 0 <= i < fs.len() && #[trigger] fs[i].name == name
}

/// `fs` with the field `f`, unless a field of that name is there.
pub open spec fn merged(fs: Seq<FlatFieldSpec>, f: FlatFieldSpec) -> Seq<FlatFieldSpec> {
    if has_field(fs, f.name) {
        fs
    } else {
        fs.push(f)
    }
}

/// The fields for the first `n` alternatives, whose type expressions are
/// `types`.
pub open spec fn flat_fields(
    reg: Seq<EntryView>,
    alts: Seq<TypeId>,
    types: Seq<Seq<char>>,
    n: nat,
) -> Seq<FlatFieldSpec>
    decreases n,
{
    if n == 0 || n > alts.len() || n > types.len() {
        Seq::empty()
    } else {
        merged(
            flat_fields(reg, alts, types, (n - 1) as nat),
            FlatFieldSpec {
                name: flat_field_name(types[n - 1]),
                ty: types[n - 1],
                docs: docs_of(reg, alts[n - 1]),
            },
        )
    }
}

/// The flattened records of which an empty value can always be built.
pub open spec fn is_flat_default(name: Seq<char>) -> bool {
    name == "SubmitJobOptionsAllOf"@ || name == "DescriptionlessJobOptionsAllOf"@
}

/// The definition of the flattened record `name` over the alternatives
/// `alts`.
pub open spec fn flat_spec(reg: Seq<EntryView>, name: Seq<char>, alts: Seq<TypeId>) -> Result<
    FlatSpec,
    ErrorSpec,
> {
    match alt_types(reg, alts, alts.len()) {
        Err(e) => Err(e),
        Ok(types) => Ok(
            FlatSpec {
                name,
                description: flat_description(types, types.len()),
                default_constructible: is_flat_default(name),
                fields: flat_fields(reg, alts, types, alts.len()),
            },
        ),
    }
}

/// No two fields of a flattened record have the same name: alternatives that
/// come to the same field name are merged into one field.
pub proof fn lemma_flat_fields_distinct(
    reg: Seq<EntryView>,
    alts: Seq<TypeId>,
    types: Seq<Seq<char>>,
    n: nat,
)
    ensures
        forall|i: int, j: int|
            0 <= i < j < flat_fields(reg, alts, types, n).len() ==> flat_fields(
                reg,
                alts,
                types,
                n,
            )[i].name != flat_fields(reg, alts, types, n)[j].name,
    decreases n,
{
    if !(n == 0 || n > alts.len() || n > types.len()) {
        lemma_flat_fields_distinct(reg, alts, types, (n - 1) as nat);
        let before = flat_fields(reg, alts, types, (n - 1) as nat);
        let now = flat_fields(reg, alts, types, n);
        assert forall|i: int, j: int| 0 <= i < j < now.len() implies now[i].name
            != now[j].name by {
            if j == before.len() {
                assert(before[i].name == now[i].name);
            }
        }
    }
}

/// Every alternative has its field: a field with the name that its type
/// gives is there.
pub proof fn lemma_flat_fields_cover(
    reg: Seq<EntryView>,
    alts: Seq<TypeId>,
    types: Seq<Seq<char>>,
    n: nat,
    k: int,
)
    requires
        n <= alts.len(),
        n <= types.len(),
        0 <= k < n,
    ensures
        has_field(flat_fields(reg, alts, types, n), flat_field_name(types[k])),
    decreases n,
{
    let before = flat_fields(reg, alts, types, (n - 1) as nat);
    let now = flat_fields(reg, alts, types, n);
    let name = flat_field_name(types[k]);
    if k < n - 1 {
        lemma_flat_fields_cover(reg, alts, types, (n - 1) as nat, k);
        let i = choose|i: int| 0 <= i < before.len() && #[trigger] before[i].name == name;
        assert(now[i].name == name);
    } else {
        if has_field(before, name) {
        } else {
            assert(now[before.len() as int].name == name);
        }
    }
}

/// The line that derives the traits of a flattened record.
pub open spec fn flat_derive_line(default_constructible: bool) -> Seq<char> {
    if default_constructible {
        "#[derive(Serialize, Deserialize, Default, PartialEq, Debug, Clone, JsonSchema)]"@
    } else {
        "#[derive(Serialize, Deserialize, PartialEq, Debug, Clone, JsonSchema)]"@
    }
}

/// `acc` followed by one embedded field; `record_doc` is the documentation
/// line of the record, which a field does not repeat.
pub open spec fn flat_field_text(acc: Seq<char>, record_doc: Seq<char>, f: FlatFieldSpec) -> Seq<
    char,
> {
    let a0 = if f.docs.len() > 0 && f.docs != record_doc {
        put_docs(acc, f.docs)
    } else {
        acc
    };
    put(put(a0, "#[serde(flatten)]"@), "pub "@ + f.name + ": "@ + f.ty + ","@)
}

/// `acc` followed by the first `n` embedded fields.
pub open spec fn flat_fields_text(
    acc: Seq<char>,
    record_doc: Seq<char>,
    fs: Seq<FlatFieldSpec>,
    n: nat,
) -> Seq<char>
    decreases n,
{
    if n == 0 || n > fs.len() {
        acc
    } else {
        flat_field_text(
            flat_fields_text(acc, record_doc, fs, (n - 1) as nat),
            record_doc,
            fs[n - 1],
        )
    }
}

/// `acc` followed by the whole definition of the flattened record.
pub open spec fn flat_text(acc: Seq<char>, d: FlatSpec) -> Seq<char> {
    let a1 = put(acc, doc_line(d.description));
    let a2 = put(a1, flat_derive_line(d.default_constructible));
    let a3 = put(a2, "pub struct "@ + d.name + " {"@);
    let a4 = flat_fields_text(a3, doc_line(d.description), d.fields, d.fields.len());
    put(put(a4, "}"@), ""@)
}

/// The name from which the field for the type expression `rt` gets its name.
pub fn flat_base_name(rt: &str) -> (r: String)
    ensures
        r@ == flat_base(rt@),
{
    if starts_with(rt, "Vec<") {
        let inner = strip_prefix_all(rt, "Vec<");
        let open = trim_end_char(inner.as_str(), '>');
        let bare = remove_all(open.as_str(), "serde_json::");
        concat2(bare.as_str(), "Vector")
    } else if starts_with(rt, "serde_json") {
        String::from_str("Value")
    } else {
        struct_name(rt)
    }
}

/// The name of the field for the type expression `rt`.
pub fn flat_name(rt: &str) -> (r: String)
    ensures
        r@ == flat_field_name(rt@),
{
    let base = flat_base_name(rt);
    to_snake_case(base.as_str())
}

/// Whether one of `fields` has the name `name`.
pub fn field_named(fields: &Vec<FlatField>, name: &str) -> (r: bool)
    ensures
        r == has_field(flat_fields_view(fields@), name@),
{
    let mut i: usize = 0;
    while i < fields.len()
        invariant
            i <= fields.len(),
            forall|j: int| 0 <= j < i ==> flat_fields_view(fields@)[j].name != name@,
        decreases fields.len() - i,
    {
        if str_eq(fields[i].name.as_str(), name) {
            assert(flat_fields_view(fields@)[i as int].name == name@);
            return true;
        }
        i += 1;
    }
    false
}

/// Adds `f` to `fields` unless a field of its name is there.
pub fn merge_field(fields: &mut Vec<FlatField>, f: FlatField)
    ensures
        flat_fields_view(final(fields)@) == merged(flat_fields_view(old(fields)@), f@),
{
    if !field_named(fields, f.name.as_str()) {
        let ghost fv = f@;
        fields.push(f);
        assert(flat_fields_view(fields@) =~= flat_fields_view(old(fields)@).push(fv));
    }
}

impl FlatField {
    /// Writes the field at the end of `out`.
    pub fn render(&self, out: &mut String, record_doc: &str)
        ensures
            final(out)@ == flat_field_text(old(out)@, record_doc@, self@),
    {
        if !self.docs.as_str().is_empty() && !str_eq(self.docs.as_str(), record_doc) {
            put_doc_block(out, self.docs.as_str());
        }
        put_line(out, "#[serde(flatten)]");
        put_line5(out, "pub ", self.name.as_str(), ": ", self.ty.as_str(), ",");
    }
}

impl FlatDef {
    /// Writes the definition at the end of `out`.
    pub fn render(&self, out: &mut String)
        ensures
            final(out)@ == flat_text(old(out)@, self@),
    {
        let doc = concat2(
            "/// ",
            crate::text::replace_char(self.description.as_str(), '\n', "\n/// ").as_str(),
        );
        put_doc_line(out, self.description.as_str());
        if self.default_constructible {
            put_line(
                out,
                "#[derive(Serialize, Deserialize, Default, PartialEq, Debug, Clone, JsonSchema)]",
            );
        } else {
            put_line(out, "#[derive(Serialize, Deserialize, PartialEq, Debug, Clone, JsonSchema)]");
        }
        put_line3(out, "pub struct ", self.name.as_str(), " {");
        let ghost a3 = out@;
        let ghost fs = flat_fields_view(self.fields@);
        let mut i: usize = 0;
        while i < self.fields.len()
            invariant
                i <= self.fields.len(),
                fs == flat_fields_view(self.fields@),
                doc@ == doc_line(self.description@),
                out@ == flat_fields_text(a3, doc@, fs, i as nat),
            decreases self.fields.len() - i,
        {
            self.fields[i].render(out, doc.as_str());
            i += 1;
        }
        put_line(out, "}");
        put_line(out, "");
    }
}

impl TypeSpace {
    /// The type expressions of the alternatives `alts`.
    pub fn alt_type_names(&self, alts: &Vec<TypeId>) -> (r: Result<Vec<String>, EmitError>)
        ensures
            match r {
                Ok(types) => alt_types(self@, alts@, alts@.len()) == Ok::<
                    Seq<Seq<char>>,
                    ErrorSpec,
                >(texts_view(types@)) && types.len() == alts.len(),
                Err(e) => alt_types(self@, alts@, alts@.len()) == Err::<Seq<Seq<char>>, ErrorSpec>(
                    e@,
                ),
            },
    {
        let mut types: Vec<String> = Vec::new();
        let mut i: usize = 0;
        assert(texts_view(types@) =~= Seq::<Seq<char>>::empty());
        while i < alts.len()
            invariant
                i <= alts.len(),
                types.len() == i,
                alt_types(self@, alts@, i as nat) == Ok::<Seq<Seq<char>>, ErrorSpec>(
                    texts_view(types@),
                ),
            decreases alts.len() - i,
        {
            match self.render_type(&alts[i], true) {
                Ok(rt) => {
                    let ghost before = texts_view(types@);
                    let ghost rv = rt@;
                    types.push(rt);
                    assert(texts_view(types@) =~= before.push(rv));
                },
                Err(failure) => {
                    proof {
                        lemma_alt_types_fail(self@, alts@, (i + 1) as nat, alts@.len());
                    }
                    return Err(EmitError { failure, property: String::new(), tid: alts[i] });
                },
            }
            i += 1;
        }
        Ok(types)
    }

    /// The definition of the flattened record `name` over the alternatives
    /// `alts`.
    pub fn flat_def(&self, name: &str, alts: &Vec<TypeId>) -> (r: Result<FlatDef, EmitError>)
        ensures
            match r {
                Ok(d) => flat_spec(self@, name@, alts@) == Ok::<FlatSpec, ErrorSpec>(d@),
                Err(e) => flat_spec(self@, name@, alts@) == Err::<FlatSpec, ErrorSpec>(e@),
            },
    {
        let types = match self.alt_type_names(alts) {
            Ok(types) => types,
            Err(e) => {
                return Err(e);
            },
        };
        let ghost tv = texts_view(types@);
        let mut description = String::from_str(
            "All of the following types are flattened into one object:\n\n",
        );
        let mut fields: Vec<FlatField> = Vec::new();
        let mut i: usize = 0;
        assert(flat_fields_view(fields@) =~= Seq::<FlatFieldSpec>::empty());
        while i < alts.len()
            invariant
                i <= alts.len(),
                types.len() == alts.len(),
                tv == texts_view(types@),
                description@ == flat_description(tv, i as nat),
                flat_fields_view(fields@) == flat_fields(self@, alts@, tv, i as nat),
            decreases alts.len() - i,
        {
            let rt = &types[i];
            let ghost before = description@;
            description.append("- `");
            description.append(rt.as_str());
            description.append("`\n");
            assert(description@ =~= before + "- `"@ + rt@ + "`\n"@);
            let f = FlatField {
                name: flat_name(rt.as_str()),
                ty: rt.clone(),
                docs: self.render_docs(&alts[i]),
            };
            merge_field(&mut fields, f);
            i += 1;
        }
        let default_constructible = str_eq(name, "SubmitJobOptionsAllOf") || str_eq(
            name,
            "DescriptionlessJobOptionsAllOf",
        );
        Ok(FlatDef { name: String::from_str(name), description, default_constructible, fields })
    }
}

} // verus!
