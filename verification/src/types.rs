//! The emission of all named types of a registry.
//!
//! The entries are taken in the order of their identities, which is the order
//! of their discovery. An entry with a name and the details of a choice, a
//! record, a union or an intersection is emitted, once; every other entry is
//! written where it is used and emits nothing here.

use crate::emit::{put, put_line};
use crate::enums::{enum_spec, enum_text, render_param};
use crate::flatten::{flat_spec, flat_text};
use crate::names::{struct_name, type_name_of};
use crate::records::{record_spec, record_text, EmitError, ErrorSpec};
use crate::registry::{id_at, DetailsView, EntryView, TypeDetails, TypeId, TypeSpace};
use crate::render::{module_prefix, rendered};
use crate::resolve::resolve_each;
use crate::schema::{lemma_nodes_view, MetaView, NodeView, SchemaStore};
use crate::unions::{
    discriminated, insert_sorted, sorted_ids, union_content, union_spec, union_tag, union_text,
    union_variants, variant_spec, UnionSpec, UnionVariantSpec,
};
use vstd::prelude::*;
use vstd::string::*;

verus! {

/// The text of the union `sn` over the alternatives `one_of`, or the failure
/// of its definition.
pub open spec fn of_type_text(reg: Seq<EntryView>, one_of: Seq<TypeId>, sn: Seq<char>) -> Result<
    Seq<char>,
    ErrorSpec,
> {
    match union_spec(reg, sn, one_of) {
        Ok(u) => Ok(union_text(Seq::empty(), u)),
        Err(e) => Err(e),
    }
}

/// The text of the flattened record `sn` over the alternatives `omap`, or the
/// failure of its definition.
pub open spec fn all_of_type_text(reg: Seq<EntryView>, omap: Seq<TypeId>, sn: Seq<char>) -> Result<
    Seq<char>,
    ErrorSpec,
> {
    match flat_spec(reg, sn, omap) {
        Ok(d) => Ok(flat_text(Seq::empty(), d)),
        Err(e) => Err(e),
    }
}

/// The definition of the union `sn` over the alternatives `one_of`, as text.
pub fn do_of_type(ts: &TypeSpace, one_of: &Vec<TypeId>, sn: String) -> (r: Result<
    String,
    EmitError,
>)
    ensures
        match r {
            Ok(s) => of_type_text(ts@, one_of@, sn@) == Ok::<Seq<char>, ErrorSpec>(s@),
            Err(e) => of_type_text(ts@, one_of@, sn@) == Err::<Seq<char>, ErrorSpec>(e@),
        },
{
    match ts.union_def(sn.as_str(), one_of) {
        Ok(u) => {
            let mut out = String::new();
            u.render(&mut out);
            Ok(out)
        },
        Err(e) => Err(e),
    }
}

/// The definition of the flattened record `sn` over the alternatives `omap`,
/// as text.
pub fn do_all_of_type(ts: &TypeSpace, omap: &Vec<TypeId>, sn: String) -> (r: Result<
    String,
    EmitError,
>)
    ensures
        match r {
            Ok(s) => all_of_type_text(ts@, omap@, sn@) == Ok::<Seq<char>, ErrorSpec>(s@),
            Err(e) => all_of_type_text(ts@, omap@, sn@) == Err::<Seq<char>, ErrorSpec>(e@),
        },
{
    match ts.flat_def(sn.as_str(), omap) {
        Ok(d) => {
            let mut out = String::new();
            d.render(&mut out);
            Ok(out)
        },
        Err(e) => Err(e),
    }
}

/// The union that has itself as its one alternative is written without
/// looking into the alternative: it gets one variant, which carries the
/// union's own type, and its text defines the type once.
pub proof fn lemma_union_of_itself(reg: Seq<EntryView>, k: int, name: Seq<char>, meta: MetaView)
    requires
        0 <= k < reg.len(),
        k <= u64::MAX,
        reg[k] == (EntryView {
            name: Some(name),
            details: DetailsView::OneOf(seq![id_at(k)], meta),
        }),
    ensures
        of_type_text(reg, seq![id_at(k)], type_name_of(name)) == Ok::<Seq<char>, ErrorSpec>(
            union_text(
                Seq::empty(),
                UnionSpec {
                    name: type_name_of(name),
                    tag: None,
                    content: None,
                    variants: seq![
                        UnionVariantSpec {
                            name: type_name_of(type_name_of(name)),
                            payload: seq![type_name_of(name)],
                        },
                    ],
                },
            ),
        ),
{
    reveal_strlit("");
    reveal_with_fuel(sorted_ids, 2);
    reveal_with_fuel(insert_sorted, 2);
    reveal_with_fuel(union_variants, 2);
    reveal_with_fuel(union_tag, 2);
    reveal_with_fuel(union_content, 2);
    let id = id_at(k);
    let alts = seq![id];
    let sn = type_name_of(name);
    assert(id.0 == k);
    assert(sorted_ids(alts, 0) =~= Seq::<TypeId>::empty());
    assert(sorted_ids(alts, 1) =~= alts);
    assert(discriminated(reg, id) is None);
    assert(module_prefix(true) + sn =~= sn);
    assert(rendered(reg, id, true, reg.len()) == Some(sn));
    let v = UnionVariantSpec { name: type_name_of(sn), payload: seq![sn] };
    assert(variant_spec(reg, id) == Ok::<UnionVariantSpec, ErrorSpec>(v));
    assert(union_variants(reg, alts, 0) == Ok::<Seq<UnionVariantSpec>, ErrorSpec>(Seq::empty()));
    assert(Seq::<UnionVariantSpec>::empty().push(v) =~= seq![v]);
    assert(union_variants(reg, alts, 1) == Ok::<Seq<UnionVariantSpec>, ErrorSpec>(seq![v]));
    assert(union_tag(reg, alts, 1) is None);
    assert(union_content(reg, alts, 1) is None);
}

/// The lines in front of the types.
pub open spec fn header_text() -> Seq<char> {
    put(
        put(
            put(
                put(
                    Seq::empty(),
                    "//! The data types sent to and returned from the API client."@,
                ),
                "    use schemars::JsonSchema;"@,
            ),
            "    use serde::{Serialize, Deserialize};"@,
        ),
        ""@,
    )
}

/// The description in `d`, or the empty text.
pub open spec fn description_or_empty(d: Option<Seq<char>>) -> Seq<char> {
    match d {
        Some(s) => s,
        None => Seq::empty(),
    }
}

/// Whether the entry is emitted: it has a name, and its details are those of
/// a choice, a record, a union or an intersection.
pub open spec fn is_emitted(e: EntryView) -> bool {
    e.name is Some && (e.details is Enum || e.details is Object || e.details is OneOf
        || e.details is AnyOf || e.details is AllOf)
}

/// `acc` followed by the definition of the entry `e`, if it is emitted; the
/// failure of that definition if there is one.
pub open spec fn entry_text(
    acc: Seq<char>,
    reg: Seq<EntryView>,
    provider: Seq<char>,
    e: EntryView,
) -> Result<Seq<char>, ErrorSpec> {
    match e.name {
        None => Ok(acc),
        Some(name) => {
            let sn = type_name_of(name);
            match e.details {
                DetailsView::Enum(values, meta) => Ok(
                    put(
                        acc,
                        enum_text(
                            Seq::empty(),
                            enum_spec(
                                sn,
                                values,
                                description_or_empty(meta.description),
                                meta.default,
                            ),
                        ),
                    ),
                ),
                DetailsView::OneOf(alts, _) => match of_type_text(reg, alts, sn) {
                    Ok(t) => Ok(put(acc, t)),
                    Err(e) => Err(e),
                },
                DetailsView::AnyOf(alts, _) => match all_of_type_text(reg, alts, sn) {
                    Ok(t) => Ok(put(acc, t)),
                    Err(e) => Err(e),
                },
                DetailsView::AllOf(alts, _) => match all_of_type_text(reg, alts, sn) {
                    Ok(t) => Ok(put(acc, t)),
                    Err(e) => Err(e),
                },
                DetailsView::Object(props, meta) => match record_spec(
                    reg,
                    provider,
                    name,
                    props,
                    meta,
                ) {
                    Ok(r) => Ok(record_text(acc, r)),
                    Err(e) => Err(e),
                },
                _ => Ok(acc),
            }
        },
    }
}

/// The header followed by the definitions of the first `n` entries, or the
/// first failure among them.
pub open spec fn types_upto(reg: Seq<EntryView>, provider: Seq<char>, n: nat) -> Result<
    Seq<char>,
    ErrorSpec,
>
    decreases n,
{
    if n == 0 || n > reg.len() {
        Ok(header_text())
    } else {
        match types_upto(reg, provider, (n - 1) as nat) {
            Err(e) => Err(e),
            Ok(acc) => entry_text(acc, reg, provider, reg[n - 1]),
        }
    }
}

/// The text of all types of the registry in a client for `provider`.
pub open spec fn types_text(reg: Seq<EntryView>, provider: Seq<char>) -> Result<
    Seq<char>,
    ErrorSpec,
> {
    types_upto(reg, provider, reg.len())
}

proof fn lemma_types_upto_fail(reg: Seq<EntryView>, provider: Seq<char>, n: nat, m: nat)
    requires
        n <= m <= reg.len(),
        types_upto(reg, provider, n) is Err,
    ensures
        types_upto(reg, provider, m) == types_upto(reg, provider, n),
    decreases m,
{
    if n < m {
        lemma_types_upto_fail(reg, provider, n, (m - 1) as nat);
    }
}

/// An entry that is not emitted adds nothing to the text.
pub proof fn lemma_entry_text_silent(
    acc: Seq<char>,
    reg: Seq<EntryView>,
    provider: Seq<char>,
    e: EntryView,
)
    requires
        !is_emitted(e),
    ensures
        entry_text(acc, reg, provider, e) == Ok::<Seq<char>, ErrorSpec>(acc),
{
}

fn emit_entry(ts: &TypeSpace, out: &mut String, proper_name: &str, id: TypeId) -> (r: Result<
    (),
    EmitError,
>)
    requires
        id.0 < ts@.len(),
    ensures
        match r {
            Ok(_) => entry_text(old(out)@, ts@, proper_name@, ts@[id.0 as int]) == Ok::<
                Seq<char>,
                ErrorSpec,
            >(final(out)@),
            Err(e) => entry_text(old(out)@, ts@, proper_name@, ts@[id.0 as int]) == Err::<
                Seq<char>,
                ErrorSpec,
            >(e@),
        },
{
    let entry = match ts.get(id) {
        Some(e) => e,
        None => {
            return Ok(());
        },
    };
    let name = match &entry.name {
        Some(n) => n,
        None => {
            return Ok(());
        },
    };
    match &entry.details {
        TypeDetails::Enum(values, meta) => {
            let sn = struct_name(name.as_str());
            let description = match &meta.description {
                Some(d) => d.clone(),
                None => String::new(),
            };
            let default: Option<&str> = match &meta.default {
                Some(d) => Some(d.as_str()),
                None => None,
            };
            let text = render_param(sn.as_str(), values, description.as_str(), default);
            put_line(out, text.as_str());
            Ok(())
        },
        TypeDetails::OneOf(alts, _) => {
            match do_of_type(ts, alts, struct_name(name.as_str())) {
                Ok(text) => {
                    put_line(out, text.as_str());
                    Ok(())
                },
                Err(e) => Err(e),
            }
        },
        TypeDetails::AnyOf(alts, _) => {
            match do_all_of_type(ts, alts, struct_name(name.as_str())) {
                Ok(text) => {
                    put_line(out, text.as_str());
                    Ok(())
                },
                Err(e) => Err(e),
            }
        },
        TypeDetails::AllOf(alts, _) => {
            match do_all_of_type(ts, alts, struct_name(name.as_str())) {
                Ok(text) => {
                    put_line(out, text.as_str());
                    Ok(())
                },
                Err(e) => Err(e),
            }
        },
        TypeDetails::Object(props, meta) => {
            match ts.record_def(proper_name, name.as_str(), props, meta) {
                Ok(r) => {
                    r.render(out);
                    Ok(())
                },
                Err(e) => Err(e),
            }
        },
        _ => Ok(()),
    }
}

/// The definitions of all named types of `ts`, as the text of one module of
/// a client for the provider `proper_name`. The text is a function of the
/// registry and of the provider's name alone.
pub fn generate_types(ts: &TypeSpace, proper_name: &str) -> (r: Result<String, EmitError>)
    ensures
        match r {
            Ok(s) => types_text(ts@, proper_name@) == Ok::<Seq<char>, ErrorSpec>(s@),
            Err(e) => types_text(ts@, proper_name@) == Err::<Seq<char>, ErrorSpec>(e@),
        },
{
    let mut out = String::new();
    put_line(&mut out, "//! The data types sent to and returned from the API client.");
    put_line(&mut out, "    use schemars::JsonSchema;");
    put_line(&mut out, "    use serde::{Serialize, Deserialize};");
    put_line(&mut out, "");
    let n = ts.len();
    let mut i: usize = 0;
    while i < n
        invariant
            i <= n,
            n == ts@.len(),
            types_upto(ts@, proper_name@, i as nat) == Ok::<Seq<char>, ErrorSpec>(out@),
        decreases n - i,
    {
        match emit_entry(ts, &mut out, proper_name, TypeId(i as u64)) {
            Ok(_) => {},
            Err(e) => {
                proof {
                    lemma_types_upto_fail(ts@, proper_name@, (i + 1) as nat, ts@.len());
                }
                return Err(e);
            },
        }
        i += 1;
    }
    Ok(out)
}

/// The registry after the schemas of `document` have been resolved one after
/// the other, starting from the empty registry.
pub open spec fn resolved_document(document: Seq<NodeView>) -> Seq<EntryView> {
    resolve_each(Seq::empty(), document, document.len()).0
}

/// The text of all types of `document` in a client for `provider`.
pub open spec fn synthesized(document: Seq<NodeView>, provider: Seq<char>) -> Result<
    Seq<char>,
    ErrorSpec,
> {
    types_text(resolved_document(document), provider)
}

/// One synthesis run: resolves the schemas of `document` in their order, each
/// under the name that it declares, into a registry of its own, and emits the
/// types. The outcome is a function of the document and of the provider's
/// name alone.
pub fn synthesize(document: &SchemaStore, proper_name: &str) -> (r: Result<String, EmitError>)
    ensures
        match r {
            Ok(s) => synthesized(document@, proper_name@) == Ok::<Seq<char>, ErrorSpec>(s@),
            Err(e) => synthesized(document@, proper_name@) == Err::<Seq<char>, ErrorSpec>(e@),
        },
{
    let mut ts = TypeSpace::new();
    let nodes = document.nodes();
    proof {
        lemma_nodes_view(nodes@, nodes@.len());
    }
    ts.select_all(nodes);
    generate_types(&ts, proper_name)
}

/// Synthesis is deterministic: two documents of the same structure give the
/// same outcome, the same text character by character or the same failure.
pub proof fn lemma_synthesis_deterministic(
    first: SchemaStore,
    second: SchemaStore,
    provider: Seq<char>,
)
    requires
        first@ == second@,
    ensures
        synthesized(first@, provider) == synthesized(second@, provider),
{
}

} // verus!
