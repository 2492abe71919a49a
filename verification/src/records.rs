//! The record emitter: one field for each property of an object type.

use crate::emit::{
    doc_line, put, put_doc_block, put_doc_line, put_docs, put_line, put_line3, put_line5,
};
use crate::names::{
    field_name, field_name_of, is_sigil, keeps_case, lemma_field_name_idempotent,
    lemma_sigil_names_distinct, snake_case, split_sigils, stem_of, struct_name, type_name_of,
};
use crate::policy::{
    context_of, decode_name, decode_text, encode_name, encode_text, field_context, field_policy,
    policy_of, skip_name, skip_text, FieldPolicy,
};
use crate::registry::{props_view, EntryView, PropView, Property, TypeId, TypeSpace};
use crate::render::{docs_of, failure_of, rendered, shape_of, Failure, WireShape};
use crate::schema::{opt_text, MetaView, Metadata};
use crate::text::{concat3, decimal, decimal_string, ends_with, str_eq, trim, trimmed};
use vstd::prelude::*;
use vstd::string::*;

verus! {

/// A failure of the emitters: the property whose type has no type
/// expression, the identity of that type, and the reason.
#[derive(Debug, PartialEq, Eq)]
pub struct EmitError {
    pub failure: Failure,
    pub property: String,
    pub tid: TypeId,
}

/// The view of an [`EmitError`].
pub struct ErrorSpec {
    pub failure: Failure,
    pub property: Seq<char>,
    pub tid: TypeId,
}

impl View for EmitError {
    type V = ErrorSpec;

    open spec fn view(&self) -> ErrorSpec {
        ErrorSpec { failure: self.failure, property: self.property@, tid: self.tid }
    }
}

/// The message of a failure.
pub open spec fn message_of(e: ErrorSpec) -> Seq<char> {
    "rendering type "@ + e.property + " TypeId("@ + decimal(e.tid.0 as nat) + ") failed"@
}

impl EmitError {
    /// The message of this failure.
    pub fn message(&self) -> (s: String)
        ensures
            s@ == message_of(self@),
    {
        let mut s = concat3("rendering type ", self.property.as_str(), " TypeId(");
        s.append(decimal_string(self.tid.0).as_str());
        s.append(") failed");
        s
    }
}

/// One field of a record: its name, the name of the property on the wire, its
/// type expression, its documentation and its policy.
#[derive(Debug, PartialEq, Eq)]
pub struct FieldDef {
    pub name: String,
    pub wire_name: String,
    pub ty: String,
    pub docs: String,
    pub policy: FieldPolicy,
}

/// The view of a [`FieldDef`].
pub struct FieldSpec {
    pub name: Seq<char>,
    pub wire_name: Seq<char>,
    pub ty: Seq<char>,
    pub docs: Seq<char>,
    pub policy: FieldPolicy,
}

impl View for FieldDef {
    type V = FieldSpec;

    open spec fn view(&self) -> FieldSpec {
        FieldSpec {
            name: self.name@,
            wire_name: self.wire_name@,
            ty: self.ty@,
            docs: self.docs@,
            policy: self.policy,
        }
    }
}

/// The views of the fields in `v`, in order.
pub open spec fn fields_view(v: Seq<FieldDef>) -> Seq<FieldSpec> {
    Seq::new(v.len(), |i: int| v[i]@)
}

/// The definition of a record.
#[derive(Debug, PartialEq, Eq)]
pub struct RecordDef {
    pub name: String,
    pub description: Option<String>,
    /// An empty value of the record can be built without naming its fields.
    pub default_constructible: bool,
    pub fields: Vec<FieldDef>,
}

/// The view of a [`RecordDef`].
pub struct RecordSpec {
    pub name: Seq<char>,
    pub description: Option<Seq<char>>,
    pub default_constructible: bool,
    pub fields: Seq<FieldSpec>,
}

impl View for RecordDef {
    type V = RecordSpec;

    open spec fn view(&self) -> RecordSpec {
        RecordSpec {
            name: self.name@,
            description: opt_text(self.description),
            default_constructible: self.default_constructible,
            fields: fields_view(self.fields@),
        }
    }
}

/// Whether the type is a page of a collection, by its name.
pub open spec fn is_page(ty: Seq<char>) -> bool {
    "Page"@.is_suffix_of(ty)
}

/// The names of the wrappers that the endpoints of some provider share, of
/// which an empty value can always be built.
pub open spec fn default_names() -> Seq<Seq<char>> {
    seq![
        "PagesSourceHash"@,
        "PagesHttpsCertificate"@,
        "ErrorDetails"@,
        "EnvelopeDefinition"@,
        "Event"@,
        "User"@,
        "Group"@,
        "CalendarResource"@,
        "Building"@,
        "Repo"@,
        "Payload"@,
        "Actor"@,
        "File"@,
        "PostMailSendRequest"@,
        "FromEmailObject"@,
        "Personalizations"@,
        "DescriptionlessJobOptions"@,
        "DescriptionlessJobOptionsData"@,
        "DescriptionlessJobOptionsDataType"@,
        "SubmitJobOptions"@,
        "SubmitJobOptionsData"@,
    ]
}

/// The records of which an empty value can always be built: those whose
/// schema asks for it, the pages of a collection, and the wrappers in the
/// table of [`default_names`].
pub open spec fn is_default_constructible(name: Seq<char>, always_default: bool) -> bool {
    always_default || is_page(name) || default_names().contains(name)
}

/// The table of [`default_names`].
pub fn default_name_table() -> (v: Vec<&'static str>)
    ensures
        v@.len() == default_names().len(),
        forall|i: int| 0 <= i < v@.len() ==> (#[trigger] v@[i])@ == default_names()[i],
{
    vec![
        "PagesSourceHash",
        "PagesHttpsCertificate",
        "ErrorDetails",
        "EnvelopeDefinition",
        "Event",
        "User",
        "Group",
        "CalendarResource",
        "Building",
        "Repo",
        "Payload",
        "Actor",
        "File",
        "PostMailSendRequest",
        "FromEmailObject",
        "Personalizations",
        "DescriptionlessJobOptions",
        "DescriptionlessJobOptionsData",
        "DescriptionlessJobOptionsDataType",
        "SubmitJobOptions",
        "SubmitJobOptionsData",
    ]
}

/// Whether an empty value of the record `name` can always be built;
/// `always_default` says whether its schema asks for it.
pub fn default_constructible(name: &str, always_default: bool) -> (r: bool)
    ensures
        r == is_default_constructible(name@, always_default),
{
    if always_default || ends_with(name, "Page") {
        return true;
    }
    let table = default_name_table();
    let mut i: usize = 0;
    while i < table.len()
        invariant
            i <= table.len(),
            table@.len() == default_names().len(),
            forall|j: int| 0 <= j < table@.len() ==> (#[trigger] table@[j])@ == default_names()[j],
            forall|j: int| 0 <= j < i ==> default_names()[j] != name@,
        decreases table.len() - i,
    {
        if str_eq(table[i], name) {
            assert(default_names()[i as int] == name@);
            return true;
        }
        i += 1;
    }
    false
}

/// Whether the property is a cursor to the next page, which is text whatever
/// its schema says.
pub open spec fn is_cursor(property: Seq<char>) -> bool {
    trimmed(property) == "next"@
}

/// The field for the property `p` of the record `record` in a client for
/// `provider`; the failure if the type of the property has no type
/// expression.
pub open spec fn field_spec(
    reg: Seq<EntryView>,
    record: Seq<char>,
    provider: Seq<char>,
    p: PropView,
) -> Result<FieldSpec, ErrorSpec> {
    match rendered(reg, p.tid, true, reg.len()) {
        None => Err(ErrorSpec { failure: failure_of(reg, p.tid), property: p.name, tid: p.tid }),
        Some(rt) => {
            let shape = if is_cursor(p.name) {
                WireShape::Text
            } else {
                shape_of(reg, p.tid, reg.len())
            };
            let base = policy_of(shape, context_of(record, provider, stem_of(p.name)));
            let ty = if is_cursor(p.name) {
                "String"@
            } else if base.optional_bool {
                "Option<bool>"@
            } else {
                rt
            };
            let name = field_name_of(p.name);
            Ok(
                FieldSpec {
                    name,
                    wire_name: p.name,
                    ty,
                    docs: docs_of(reg, p.tid),
                    policy: FieldPolicy {
                        default: base.default || (name == p.name && is_page(ty)),
                        skip: base.skip,
                        decode: base.decode,
                        encode: base.encode,
                        optional_bool: base.optional_bool,
                    },
                },
            )
        },
    }
}

/// Whether `prefix` is nothing or a single sigil.
pub open spec fn is_sigil_prefix(prefix: Seq<char>) -> bool {
    prefix.len() == 0 || (prefix.len() == 1 && is_sigil(prefix[0]))
}

/// Two properties of one record whose names differ only in the sigil in
/// front, or in that one has a sigil and the other has none, get fields with
/// different names.
pub proof fn lemma_sigil_fields_distinct(
    reg: Seq<EntryView>,
    record: Seq<char>,
    provider: Seq<char>,
    first: PropView,
    second: PropView,
    first_prefix: Seq<char>,
    second_prefix: Seq<char>,
    stem: Seq<char>,
)
    requires
        is_sigil_prefix(first_prefix),
        is_sigil_prefix(second_prefix),
        first_prefix != second_prefix,
        first.name == first_prefix + stem,
        second.name == second_prefix + stem,
        field_spec(reg, record, provider, first) is Ok,
        field_spec(reg, record, provider, second) is Ok,
    ensures
        field_spec(reg, record, provider, first)->Ok_0.name != field_spec(
            reg,
            record,
            provider,
            second,
        )->Ok_0.name,
{
    lemma_sigil_names_distinct(stem);
    lemma_sigil_prefix(first_prefix, stem);
    lemma_sigil_prefix(second_prefix, stem);
    if first_prefix.len() == 1 && second_prefix.len() == 1 {
        if first_prefix[0] == second_prefix[0] {
            assert(first_prefix =~= second_prefix);
        }
    } else if first_prefix.len() == 0 && second_prefix.len() == 0 {
        assert(first_prefix =~= second_prefix);
    }
    assert(field_spec(reg, record, provider, first)->Ok_0.name == field_name_of(first.name));
    assert(field_spec(reg, record, provider, second)->Ok_0.name == field_name_of(second.name));
}

/// A name behind nothing or behind a single sigil is the name itself, or the
/// name behind `@`, behind `_` or behind `$`.
proof fn lemma_sigil_prefix(prefix: Seq<char>, stem: Seq<char>)
    requires
        is_sigil_prefix(prefix),
    ensures
        prefix.len() == 0 ==> prefix + stem == stem,
        prefix.len() == 1 && prefix[0] == '@' ==> prefix + stem == seq!['@'] + stem,
        prefix.len() == 1 && prefix[0] == '_' ==> prefix + stem == seq!['_'] + stem,
        prefix.len() == 1 && prefix[0] == '$' ==> prefix + stem == seq!['$'] + stem,
{
    if prefix.len() == 0 {
        assert(prefix + stem =~= stem);
    } else {
        assert(prefix =~= seq![prefix[0]]);
    }
}

/// A property that is named like the field of some property gets that name
/// again, and so needs no other name on the wire: this holds where the name
/// ends in `_`, and elsewhere if the case normalizer leaves its own result as
/// it is.
pub proof fn lemma_field_of_field_name(
    reg: Seq<EntryView>,
    record: Seq<char>,
    provider: Seq<char>,
    p: PropView,
    raw: Seq<char>,
)
    requires
        p.name == field_name_of(raw),
        keeps_case(p.name) || snake_case(p.name) == p.name,
        field_spec(reg, record, provider, p) is Ok,
    ensures
        field_spec(reg, record, provider, p)->Ok_0.name == p.name,
        field_spec(reg, record, provider, p)->Ok_0.wire_name == p.name,
{
    lemma_field_name_idempotent(raw);
}

/// The fields for the first `n` properties of `props`, or the first failure
/// among them.
pub open spec fn record_fields(
    reg: Seq<EntryView>,
    record: Seq<char>,
    provider: Seq<char>,
    props: Seq<PropView>,
    n: nat,
) -> Result<Seq<FieldSpec>, ErrorSpec>
    decreases n,
{
    if n == 0 || n > props.len() {
        Ok(Seq::empty())
    } else {
        match record_fields(reg, record, provider, props, (n - 1) as nat) {
            Err(e) => Err(e),
            Ok(fields) => match field_spec(reg, record, provider, props[n - 1]) {
                Err(e) => Err(e),
                Ok(f) => Ok(fields.push(f)),
            },
        }
    }
}

/// The definition of the record with the declared name `name`, the
/// properties `props` and the metadata `meta`.
pub open spec fn record_spec(
    reg: Seq<EntryView>,
    provider: Seq<char>,
    name: Seq<char>,
    props: Seq<PropView>,
    meta: MetaView,
) -> Result<RecordSpec, ErrorSpec> {
    let sn = type_name_of(name);
    match record_fields(reg, sn, provider, props, props.len()) {
        Err(e) => Err(e),
        Ok(fields) => Ok(
            RecordSpec {
                name: sn,
                description: meta.description,
                default_constructible: is_default_constructible(sn, meta.always_default),
                fields,
            },
        ),
    }
}

/// A failure among the first properties is the failure of the whole record.
proof fn lemma_record_fields_fail(
    reg: Seq<EntryView>,
    record: Seq<char>,
    provider: Seq<char>,
    props: Seq<PropView>,
    n: nat,
    m: nat,
)
    requires
        n <= m <= props.len(),
        record_fields(reg, record, provider, props, n) is Err,
    ensures
        record_fields(reg, record, provider, props, m) == record_fields(
            reg,
            record,
            provider,
            props,
            n,
        ),
    decreases m,
{
    if n < m {
        lemma_record_fields_fail(reg, record, provider, props, n, (m - 1) as nat);
    }
}

/// The first line of the documentation of a record; empty where it has none.
pub open spec fn record_doc(r: RecordSpec) -> Seq<char> {
    match r.description {
        Some(d) => doc_line(d),
        None => Seq::empty(),
    }
}

/// `acc` followed by one directive of the attribute, if there is a value for
/// it.
pub open spec fn put_directive(acc: Seq<char>, key: Seq<char>, value: Option<Seq<char>>) -> Seq<
    char,
> {
    match value {
        Some(v) => put(acc, key + " = \""@ + v + "\","@),
        None => acc,
    }
}

/// `acc` followed by the attribute that carries the policy of the field.
pub open spec fn policy_text(acc: Seq<char>, f: FieldSpec) -> Seq<char> {
    let a0 = put(acc, "#[serde("@);
    let a1 = if f.policy.default {
        put(a0, "default,"@)
    } else {
        a0
    };
    let a2 = put_directive(a1, "skip_serializing_if"@, skip_text(f.policy.skip, f.ty));
    let a3 = put_directive(a2, "deserialize_with"@, decode_text(f.policy.decode));
    let a4 = put_directive(a3, "serialize_with"@, encode_text(f.policy.encode));
    let a5 = put_directive(
        a4,
        "rename"@,
        if f.wire_name != f.name {
            Some(f.wire_name)
        } else {
            None
        },
    );
    put(a5, ")]"@)
}

/// `acc` followed by the field: its documentation, unless it has none or
/// repeats that of the record, the attribute with its policy, and its
/// declaration.
pub open spec fn field_text(acc: Seq<char>, record_doc: Seq<char>, f: FieldSpec) -> Seq<char> {
    let a0 = if f.docs.len() > 0 && f.docs != record_doc {
        put_docs(acc, f.docs)
    } else {
        acc
    };
    put(policy_text(a0, f), "pub "@ + f.name + ": "@ + f.ty + ","@)
}

/// `acc` followed by the first `n` fields of `fields`.
pub open spec fn fields_text(
    acc: Seq<char>,
    record_doc: Seq<char>,
    fields: Seq<FieldSpec>,
    n: nat,
) -> Seq<char>
    decreases n,
{
    if n == 0 || n > fields.len() {
        acc
    } else {
        field_text(fields_text(acc, record_doc, fields, (n - 1) as nat), record_doc, fields[n - 1])
    }
}

/// The line that derives the traits of a record.
pub open spec fn derive_line(default_constructible: bool) -> Seq<char> {
    if default_constructible {
        "#[derive(Serialize, Default, Deserialize, PartialEq, Debug, Clone, JsonSchema)]"@
    } else {
        "#[derive(Serialize, Deserialize, PartialEq, Debug, Clone, JsonSchema)]"@
    }
}

/// `acc` followed by the whole definition of the record.
pub open spec fn record_text(acc: Seq<char>, r: RecordSpec) -> Seq<char> {
    let a0 = match r.description {
        Some(d) => put(acc, doc_line(d)),
        None => acc,
    };
    let a1 = put(a0, derive_line(r.default_constructible));
    let a2 = put(a1, "pub struct "@ + r.name + " {"@);
    let a3 = fields_text(a2, record_doc(r), r.fields, r.fields.len());
    put(put(a3, "}"@), ""@)
}

fn put_key_value(out: &mut String, key: &str, value: &str)
    ensures
        final(out)@ == put_directive(old(out)@, key@, Some(value@)),
{
    put_line5(out, key, " = \"", value, "\",", "");
    proof {
        reveal_strlit("");
        assert(key@ + " = \""@ + value@ + "\","@ + ""@ =~= key@ + " = \""@ + value@ + "\","@);
    }
}

impl FieldDef {
    /// Writes the attribute with the policy of the field at the end of `out`.
    pub fn render_policy(&self, out: &mut String)
        ensures
            final(out)@ == policy_text(old(out)@, self@),
    {
        put_line(out, "#[serde(");
        if self.policy.default {
            put_line(out, "default,");
        }
        match skip_name(self.policy.skip, self.ty.as_str()) {
            Some(s) => put_key_value(out, "skip_serializing_if", s.as_str()),
            None => {},
        }
        match decode_name(self.policy.decode) {
            Some(s) => put_key_value(out, "deserialize_with", s),
            None => {},
        }
        match encode_name(self.policy.encode) {
            Some(s) => put_key_value(out, "serialize_with", s),
            None => {},
        }
        if !str_eq(self.wire_name.as_str(), self.name.as_str()) {
            put_key_value(out, "rename", self.wire_name.as_str());
        }
        put_line(out, ")]");
    }

    /// Writes the field at the end of `out`; `record_doc` is the first line
    /// of the documentation of its record.
    pub fn render(&self, out: &mut String, record_doc: &str)
        ensures
            final(out)@ == field_text(old(out)@, record_doc@, self@),
    {
        if !self.docs.as_str().is_empty() && !str_eq(self.docs.as_str(), record_doc) {
            put_doc_block(out, self.docs.as_str());
        }
        self.render_policy(out);
        put_line5(out, "pub ", self.name.as_str(), ": ", self.ty.as_str(), ",");
    }
}

impl RecordDef {
    /// Writes the definition at the end of `out`.
    pub fn render(&self, out: &mut String)
        ensures
            final(out)@ == record_text(old(out)@, self@),
    {
        let doc = match &self.description {
            Some(d) => {
                put_doc_line(out, d.as_str());
                concat3("/// ", crate::text::replace_char(d.as_str(), '\n', "\n/// ").as_str(), "")
            },
            None => String::new(),
        };
        proof {
            reveal_strlit("");
            assert(doc@ =~= record_doc(self@));
        }
        if self.default_constructible {
            put_line(
                out,
                "#[derive(Serialize, Default, Deserialize, PartialEq, Debug, Clone, JsonSchema)]",
            );
        } else {
            put_line(out, "#[derive(Serialize, Deserialize, PartialEq, Debug, Clone, JsonSchema)]");
        }
        put_line3(out, "pub struct ", self.name.as_str(), " {");
        let ghost a2 = out@;
        let ghost fs = fields_view(self.fields@);
        let mut i: usize = 0;
        while i < self.fields.len()
            invariant
                i <= self.fields.len(),
                fs == fields_view(self.fields@),
                doc@ == record_doc(self@),
                out@ == fields_text(a2, doc@, fs, i as nat),
            decreases self.fields.len() - i,
        {
            self.fields[i].render(out, doc.as_str());
            i += 1;
        }
        put_line(out, "}");
        put_line(out, "");
    }
}

impl TypeSpace {
    /// The field for the property `p` of the record `record` in a client for
    /// `provider`.
    pub fn field_def(&self, record: &str, provider: &str, p: &Property) -> (r: Result<
        FieldDef,
        EmitError,
    >)
        ensures
            match r {
                Ok(f) => field_spec(self@, record@, provider@, p@) == Ok::<FieldSpec, ErrorSpec>(
                    f@,
                ),
                Err(e) => field_spec(self@, record@, provider@, p@) == Err::<FieldSpec, ErrorSpec>(
                    e@,
                ),
            },
    {
        match self.render_type(&p.tid, true) {
            Err(failure) => Err(EmitError { failure, property: p.name.clone(), tid: p.tid }),
            Ok(rt) => {
                let cursor = str_eq(trim(p.name.as_str()).as_str(), "next");
                let shape = if cursor {
                    WireShape::Text
                } else {
                    self.wire_shape(p.tid)
                };
                let e = split_sigils(p.name.as_str()).1;
                let base = field_policy(shape, field_context(record, provider, e.as_str()));
                let ty = if cursor {
                    String::from_str("String")
                } else if base.optional_bool {
                    String::from_str("Option<bool>")
                } else {
                    rt
                };
                let name = field_name(p.name.as_str());
                let page = str_eq(name.as_str(), p.name.as_str()) && ends_with(
                    ty.as_str(),
                    "Page",
                );
                Ok(
                    FieldDef {
                        name,
                        wire_name: p.name.clone(),
                        ty,
                        docs: self.render_docs(&p.tid),
                        policy: FieldPolicy {
                            default: base.default || page,
                            skip: base.skip,
                            decode: base.decode,
                            encode: base.encode,
                            optional_bool: base.optional_bool,
                        },
                    },
                )
            },
        }
    }

    /// The definition of the record with the declared name `name`, the
    /// properties `props` and the metadata `meta`, in a client for
    /// `provider`.
    pub fn record_def(&self, provider: &str, name: &str, props: &Vec<Property>, meta: &Metadata)
        -> (r: Result<RecordDef, EmitError>)
        ensures
            match r {
                Ok(d) => record_spec(self@, provider@, name@, props_view(props@), meta@) == Ok::<
                    RecordSpec,
                    ErrorSpec,
                >(d@),
                Err(e) => record_spec(self@, provider@, name@, props_view(props@), meta@) == Err::<
                    RecordSpec,
                    ErrorSpec,
                >(e@),
            },
    {
        let sn = struct_name(name);
        let mut fields: Vec<FieldDef> = Vec::new();
        let ghost ps = props_view(props@);
        let mut i: usize = 0;
        assert(fields_view(fields@) =~= Seq::<FieldSpec>::empty());
        while i < props.len()
            invariant
                i <= props.len(),
                ps == props_view(props@),
                sn@ == type_name_of(name@),
                record_fields(self@, sn@, provider@, ps, i as nat) == Ok::<
                    Seq<FieldSpec>,
                    ErrorSpec,
                >(fields_view(fields@)),
            decreases props.len() - i,
        {
            match self.field_def(sn.as_str(), provider, &props[i]) {
                Err(e) => {
                    proof {
                        lemma_record_fields_fail(
                            self@,
                            sn@,
                            provider@,
                            ps,
                            (i + 1) as nat,
                            ps.len(),
                        );
                    }
                    return Err(e);
                },
                Ok(f) => {
                    let ghost before = fields_view(fields@);
                    let ghost fv = f@;
                    fields.push(f);
                    assert(fields_view(fields@) =~= before.push(fv));
                },
            }
            i += 1;
        }
        let default_constructible = default_constructible(sn.as_str(), meta.always_default);
        Ok(
            RecordDef {
                name: sn,
                description: crate::schema::copy_opt_text(&meta.description),
                default_constructible,
                fields,
            },
        )
    }
}

} // verus!
