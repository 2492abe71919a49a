//! The enumeration emitter.
//!
//! An enumeration of text literals becomes a closed choice with one variant
//! for each literal, a no-op variant for the empty text and a variant for any
//! other text. The no-op variant is the default unless the schema declares one
//! of the literals as its default.

use crate::emit::{doc_line, put, put_doc_line, put_line, put_line3, put_line4, put_line7};
use crate::names::{struct_name, type_name_of};
use crate::schema::{opt_text, texts_view};
use crate::text::str_eq;
use vstd::prelude::*;
use vstd::string::*;

verus! {

/// One variant of a choice: its name and the literal it stands for.
#[derive(Debug, PartialEq, Eq)]
pub struct EnumVariant {
    pub name: String,
    pub literal: String,
}

/// The view of an [`EnumVariant`].
pub struct VariantSpec {
    pub name: Seq<char>,
    pub literal: Seq<char>,
}

impl View for EnumVariant {
    type V = VariantSpec;

    open spec fn view(&self) -> VariantSpec {
        VariantSpec { name: self.name@, literal: self.literal@ }
    }
}

/// The views of the variants in `v`, in order.
pub open spec fn variants_view(v: Seq<EnumVariant>) -> Seq<VariantSpec> {
    Seq::new(v.len(), |i: int| v[i]@)
}

/// The definition of a choice.
#[derive(Debug, PartialEq, Eq)]
pub struct EnumDef {
    pub name: String,
    pub description: String,
    pub variants: Vec<EnumVariant>,
    /// The name of the variant that is the default; the no-op variant is
    /// where there is none.
    pub default_variant: Option<String>,
}

/// The view of an [`EnumDef`].
pub struct EnumSpec {
    pub name: Seq<char>,
    pub description: Seq<char>,
    pub variants: Seq<VariantSpec>,
    pub default_variant: Option<Seq<char>>,
}

impl View for EnumDef {
    type V = EnumSpec;

    open spec fn view(&self) -> EnumSpec {
        EnumSpec {
            name: self.name@,
            description: self.description@,
            variants: variants_view(self.variants@),
            default_variant: opt_text(self.default_variant),
        }
    }
}

/// Whether one of `vs` has the name `name`.
pub open spec fn has_variant(vs: Seq<VariantSpec>, name: Seq<char>) -> bool {
    exists|i: int| 0 <= i < vs.len() && #[trigger] vs[i].name == name
}

/// The variants for the first `n` literals of `values`: the empty literal has
/// none, since the no-op variant stands for it, and a literal whose name an
/// earlier one has taken has none.
pub open spec fn enum_variants(values: Seq<Seq<char>>, n: nat) -> Seq<VariantSpec>
    decreases n,
{
    if n == 0 || n > values.len() {
        Seq::empty()
    } else {
        let before = enum_variants(values, (n - 1) as nat);
        let literal = values[n - 1];
        let name = type_name_of(literal);
        if literal.len() == 0 || has_variant(before, name) {
            before
        } else {
            before.push(VariantSpec { name, literal })
        }
    }
}

/// The default variant: that of the declared default, if it is one of the
/// literals and not empty.
pub open spec fn enum_default(values: Seq<Seq<char>>, default: Option<Seq<char>>) -> Option<
    Seq<char>,
> {
    match default {
        Some(d) => if d.len() > 0 && values.contains(d) {
            Some(type_name_of(d))
        } else {
            None
        },
        None => None,
    }
}

/// The definition of the choice `name` over the literals `values`.
pub open spec fn enum_spec(
    name: Seq<char>,
    values: Seq<Seq<char>>,
    description: Seq<char>,
    default: Option<Seq<char>>,
) -> EnumSpec {
    EnumSpec {
        name,
        description,
        variants: enum_variants(values, values.len()),
        default_variant: enum_default(values, default),
    }
}

/// No two variants of a choice have the same name.
pub proof fn lemma_enum_variants_distinct(values: Seq<Seq<char>>, n: nat)
    requires
        n <= values.len(),
    ensures
        forall|i: int, j: int|
            0 <= i < j < enum_variants(values, n).len() ==> enum_variants(values, n)[i].name
                != enum_variants(values, n)[j].name,
        forall|i: int|
            0 <= i < enum_variants(values, n).len() ==> values.contains(
                #[trigger] enum_variants(values, n)[i].literal,
            ),
    decreases n,
{
    if n > 0 {
        lemma_enum_variants_distinct(values, (n - 1) as nat);
        let before = enum_variants(values, (n - 1) as nat);
        let now = enum_variants(values, n);
        assert(values.contains(values[n - 1]));
        assert forall|i: int, j: int| 0 <= i < j < now.len() implies now[i].name
            != now[j].name by {
            if j == before.len() {
                assert(before[i].name == now[i].name);
            }
        }
    }
}

/// The lines that declare the first `n` variants of `vs`.
pub open spec fn variant_lines(acc: Seq<char>, vs: Seq<VariantSpec>, n: nat) -> Seq<char>
    decreases n,
{
    if n == 0 || n > vs.len() {
        acc
    } else {
        let v = vs[n - 1];
        put(
            put(
                variant_lines(acc, vs, (n - 1) as nat),
                "    #[serde(rename = \""@ + v.literal + "\")]"@,
            ),
            "    "@ + v.name + ","@,
        )
    }
}

/// The lines that print the first `n` variants of `vs`.
pub open spec fn display_lines(acc: Seq<char>, name: Seq<char>, vs: Seq<VariantSpec>, n: nat)
    -> Seq<char>
    decreases n,
{
    if n == 0 || n > vs.len() {
        acc
    } else {
        let v = vs[n - 1];
        put(
            display_lines(acc, name, vs, (n - 1) as nat),
            "            "@ + name + "::"@ + v.name + " => \""@ + v.literal + "\","@,
        )
    }
}

/// `acc` followed by the declaration of the choice.
pub open spec fn enum_declaration(acc: Seq<char>, e: EnumSpec) -> Seq<char> {
    let a0 = if e.description.len() > 0 {
        put(acc, doc_line(e.description))
    } else {
        acc
    };
    let a1 = put(a0, "#[derive(Serialize, Deserialize, PartialEq, Debug, Clone, JsonSchema)]"@);
    let a2 = put(a1, "pub enum "@ + e.name + " {"@);
    let a3 = variant_lines(a2, e.variants, e.variants.len());
    let a4 = put(a3, "    #[serde(rename = \"\")]"@);
    let a5 = put(a4, "    Noop,"@);
    let a6 = put(a5, "    #[serde(other)]"@);
    let a7 = put(a6, "    FallthroughString,"@);
    let a8 = put(a7, "}"@);
    put(a8, ""@)
}

/// `acc` followed by the code that prints the choice as its literal.
pub open spec fn enum_display(acc: Seq<char>, e: EnumSpec) -> Seq<char> {
    let a1 = put(acc, "impl std::fmt::Display for "@ + e.name + " {"@);
    let a2 = put(a1, "    fn fmt(&self, f: &mut std::fmt::Formatter) -> std::fmt::Result {"@);
    let a3 = put(a2, "        match self {"@);
    let a4 = display_lines(a3, e.name, e.variants, e.variants.len());
    let a5 = put(a4, "            "@ + e.name + "::Noop => \"\","@);
    let a6 = put(a5, "            "@ + e.name + "::FallthroughString => \"*\","@);
    let a7 = put(a6, "        }"@);
    let a8 = put(a7, "        .fmt(f)"@);
    let a9 = put(a8, "    }"@);
    let a10 = put(a9, "}"@);
    put(a10, ""@)
}

/// The name of the variant that is the default of the choice.
pub open spec fn default_name(e: EnumSpec) -> Seq<char> {
    match e.default_variant {
        Some(v) => v,
        None => "Noop"@,
    }
}

/// `acc` followed by the code for the default of the choice and for its
/// no-op test.
pub open spec fn enum_default_and_noop(acc: Seq<char>, e: EnumSpec) -> Seq<char> {
    let a1 = put(acc, "impl Default for "@ + e.name + " {"@);
    let a2 = put(a1, "    fn default() -> "@ + e.name + " {"@);
    let a3 = put(a2, "        "@ + e.name + "::"@ + default_name(e));
    let a4 = put(a3, "    }"@);
    let a5 = put(a4, "}"@);
    let a6 = put(a5, ""@);
    let a7 = put(a6, "impl "@ + e.name + " {"@);
    let a8 = put(a7, "    pub fn is_noop(&self) -> bool {"@);
    let a9 = put(a8, "        matches!(self, "@ + e.name + "::Noop)"@);
    let a10 = put(a9, "    }"@);
    let a11 = put(a10, "}"@);
    put(a11, ""@)
}

/// `acc` followed by the whole definition of the choice.
pub open spec fn enum_text(acc: Seq<char>, e: EnumSpec) -> Seq<char> {
    enum_default_and_noop(enum_display(enum_declaration(acc, e), e), e)
}

fn variant_named(vs: &Vec<EnumVariant>, name: &str) -> (r: bool)
    ensures
        r == has_variant(variants_view(vs@), name@),
{
    let mut i: usize = 0;
    while i < vs.len()
        invariant
            i <= vs.len(),
            forall|j: int| 0 <= j < i ==> variants_view(vs@)[j].name != name@,
        decreases vs.len() - i,
    {
        if str_eq(vs[i].name.as_str(), name) {
            assert(variants_view(vs@)[i as int].name == name@);
            return true;
        }
        i += 1;
    }
    false
}

fn holds_text(values: &Vec<String>, d: &str) -> (r: bool)
    ensures
        r == texts_view(values@).contains(d@),
{
    let mut i: usize = 0;
    while i < values.len()
        invariant
            i <= values.len(),
            forall|j: int| 0 <= j < i ==> texts_view(values@)[j] != d@,
        decreases values.len() - i,
    {
        if str_eq(values[i].as_str(), d) {
            assert(texts_view(values@)[i as int] == d@);
            return true;
        }
        i += 1;
    }
    false
}

impl EnumDef {
    /// The definition of the choice `name` over the literals `values`.
    pub fn new(name: &str, values: &Vec<String>, description: &str, default: Option<&str>) -> (e:
        EnumDef)
        ensures
            e@ == enum_spec(
                name@,
                texts_view(values@),
                description@,
                crate::registry::opt_str(default),
            ),
    {
        let mut variants: Vec<EnumVariant> = Vec::new();
        let mut i: usize = 0;
        assert(variants_view(variants@) =~= enum_variants(texts_view(values@), 0));
        while i < values.len()
            invariant
                i <= values.len(),
                variants_view(variants@) == enum_variants(texts_view(values@), i as nat),
            decreases values.len() - i,
        {
            let literal = &values[i];
            let vname = struct_name(literal.as_str());
            if !literal.as_str().is_empty() && !variant_named(&variants, vname.as_str()) {
                let ghost before = variants_view(variants@);
                variants.push(EnumVariant { name: vname, literal: literal.clone() });
                assert(variants_view(variants@) =~= before.push(
                    VariantSpec { name: type_name_of(literal@), literal: literal@ },
                ));
            }
            i += 1;
        }
        let default_variant = match default {
            Some(d) => if !d.is_empty() && holds_text(values, d) {
                Some(struct_name(d))
            } else {
                None
            },
            None => None,
        };
        EnumDef {
            name: String::from_str(name),
            description: String::from_str(description),
            variants,
            default_variant,
        }
    }

    /// Writes the definition at the end of `out`.
    pub fn render(&self, out: &mut String)
        ensures
            final(out)@ == enum_text(old(out)@, self@),
    {
        let name = self.name.as_str();
        if !self.description.as_str().is_empty() {
            put_doc_line(out, self.description.as_str());
        }
        put_line(out, "#[derive(Serialize, Deserialize, PartialEq, Debug, Clone, JsonSchema)]");
        put_line3(out, "pub enum ", name, " {");
        let ghost a2 = out@;
        let ghost vs = variants_view(self.variants@);
        let mut i: usize = 0;
        while i < self.variants.len()
            invariant
                i <= self.variants.len(),
                vs == variants_view(self.variants@),
                out@ == variant_lines(a2, vs, i as nat),
            decreases self.variants.len() - i,
        {
            let v = &self.variants[i];
            put_line3(out, "    #[serde(rename = \"", v.literal.as_str(), "\")]");
            put_line3(out, "    ", v.name.as_str(), ",");
            i += 1;
        }
        put_line(out, "    #[serde(rename = \"\")]");
        put_line(out, "    Noop,");
        put_line(out, "    #[serde(other)]");
        put_line(out, "    FallthroughString,");
        put_line(out, "}");
        put_line(out, "");
        assert(out@ == enum_declaration(old(out)@, self@));
        put_line3(out, "impl std::fmt::Display for ", name, " {");
        put_line(out, "    fn fmt(&self, f: &mut std::fmt::Formatter) -> std::fmt::Result {");
        put_line(out, "        match self {");
        let ghost a3 = out@;
        let mut i: usize = 0;
        while i < self.variants.len()
            invariant
                i <= self.variants.len(),
                vs == variants_view(self.variants@),
                name@ == self.name@,
                out@ == display_lines(a3, name@, vs, i as nat),
            decreases self.variants.len() - i,
        {
            let v = &self.variants[i];
            put_line7(
                out,
                "            ",
                name,
                "::",
                v.name.as_str(),
                " => \"",
                v.literal.as_str(),
                "\",",
            );
            i += 1;
        }
        put_line3(out, "            ", name, "::Noop => \"\",");
        put_line3(out, "            ", name, "::FallthroughString => \"*\",");
        put_line(out, "        }");
        put_line(out, "        .fmt(f)");
        put_line(out, "    }");
        put_line(out, "}");
        put_line(out, "");
        assert(out@ == enum_display(enum_declaration(old(out)@, self@), self@));
        put_line3(out, "impl Default for ", name, " {");
        put_line3(out, "    fn default() -> ", name, " {");
        match &self.default_variant {
            Some(v) => put_line4(out, "        ", name, "::", v.as_str()),
            None => put_line4(out, "        ", name, "::", "Noop"),
        }
        put_line(out, "    }");
        put_line(out, "}");
        put_line(out, "");
        put_line3(out, "impl ", name, " {");
        put_line(out, "    pub fn is_noop(&self) -> bool {");
        put_line3(out, "        matches!(self, ", name, "::Noop)");
        put_line(out, "    }");
        put_line(out, "}");
        put_line(out, "");
    }
}

/// The definition of the choice `name` over the literals `values`, as text.
pub fn render_param(name: &str, values: &Vec<String>, description: &str, default: Option<&str>)
    -> (r: String)
    ensures
        r@ == enum_text(
            Seq::empty(),
            enum_spec(
                name@,
                texts_view(values@),
                description@,
                crate::registry::opt_str(default),
            ),
        ),
{
    let e = EnumDef::new(name, values, description, default);
    let mut out = String::new();
    e.render(&mut out);
    out
}

} // verus!
