//! The union emitter: a closed choice of payload shapes.
//!
//! The alternatives are taken in the order of their identities, each once.
//! An alternative that is a record with exactly one property whose type is an
//! enumeration of a single literal is discriminated: that property is the tag
//! and its literal names the variant. Where it has exactly one other property,
//! that property is the content key of the union.

use crate::emit::{put, put_line, put_line2, put_line3};
use crate::names::{struct_name, type_name_of};
use crate::records::{EmitError, ErrorSpec};
use crate::registry::{
    props_view, DetailsView, EntryView, PropView, Property, TypeDetails, TypeId, TypeSpace,
};
use crate::render::{failure_of, rendered};
use crate::schema::{opt_text, texts_view};
use vstd::prelude::*;
use vstd::string::*;

verus! {

/// `s`, which is in strictly rising order, with `x` put where it belongs;
/// `s` itself if `x` is in it.
pub open spec fn insert_sorted(s: Seq<TypeId>, x: TypeId) -> Seq<TypeId>
    decreases s.len(),
{
    if s.len() == 0 {
        seq![x]
    } else if s.last().0 < x.0 {
        s.push(x)
    } else if s.last().0 == x.0 {
        s
    } else {
        insert_sorted(s.drop_last(), x).push(s.last())
    }
}

/// The first `n` identities of `ids` in strictly rising order, each once.
pub open spec fn sorted_ids(ids: Seq<TypeId>, n: nat) -> Seq<TypeId>
    decreases n,
{
    if n == 0 || n > ids.len() {
        Seq::empty()
    } else {
        insert_sorted(sorted_ids(ids, (n - 1) as nat), ids[n - 1])
    }
}

/// Whether `s` is in strictly rising order.
pub open spec fn strictly_rising(s: Seq<TypeId>) -> bool {
    forall|i: int, j: int| 0 <= i < j < s.len() ==> s[i].0 < s[j].0
}

proof fn lemma_insert_at(s: Seq<TypeId>, x: TypeId, i: int)
    requires
        0 <= i <= s.len(),
        forall|j: int| i <= j < s.len() ==> s[j].0 > x.0,
        i == 0 || s[i - 1].0 <= x.0,
    ensures
        insert_sorted(s, x) == if i > 0 && s[i - 1].0 == x.0 {
            s
        } else {
            s.insert(i, x)
        },
    decreases s.len() - i,
{
    if i == s.len() {
        if s.len() > 0 && s.last().0 != x.0 {
            assert(s.insert(i, x) =~= s.push(x));
        } else if s.len() == 0 {
            assert(s.insert(i, x) =~= seq![x]);
        }
    } else {
        let front = s.drop_last();
        lemma_insert_at(front, x, i);
        if i > 0 && s[i - 1].0 == x.0 {
            assert(front.push(s.last()) =~= s);
        } else {
            assert(front.insert(i, x).push(s.last()) =~= s.insert(i, x));
        }
    }
}

/// After an identity has been put into a list, the list holds what it held
/// and the identity.
pub proof fn lemma_insert_member(s: Seq<TypeId>, x: TypeId, y: TypeId)
    ensures
        insert_sorted(s, x).contains(y) <==> (s.contains(y) || y == x),
    decreases s.len(),
{
    let r = insert_sorted(s, x);
    if s.len() == 0 {
        assert(r[0] == x);
    } else if s.last().0 < x.0 {
        if s.contains(y) {
            let k = choose|k: int| 0 <= k < s.len() && s[k] == y;
            assert(r[k] == y);
        }
        if y == x {
            assert(r[s.len() as int] == y);
        }
        if r.contains(y) {
            let k = choose|k: int| 0 <= k < r.len() && r[k] == y;
            if k < s.len() {
                assert(s[k] == y);
            }
        }
    } else if s.last().0 == x.0 {
        assert(s[s.len() - 1] == x);
    } else {
        let front = s.drop_last();
        let mid = insert_sorted(front, x);
        lemma_insert_member(front, x, y);
        if r.contains(y) {
            let k = choose|k: int| 0 <= k < r.len() && r[k] == y;
            if k < mid.len() {
                assert(mid[k] == y);
                if front.contains(y) {
                    let m = choose|m: int| 0 <= m < front.len() && front[m] == y;
                    assert(s[m] == y);
                }
            } else {
                assert(s[s.len() - 1] == y);
            }
        }
        if s.contains(y) {
            let k = choose|k: int| 0 <= k < s.len() && s[k] == y;
            if k < front.len() {
                assert(front[k] == y);
                let m = choose|m: int| 0 <= m < mid.len() && mid[m] == y;
                assert(r[m] == y);
            } else {
                assert(r[mid.len() as int] == y);
            }
        }
        if y == x {
            let m = choose|m: int| 0 <= m < mid.len() && mid[m] == y;
            assert(r[m] == y);
        }
    }
}

/// Putting an identity into a list in strictly rising order keeps that
/// order.
pub proof fn lemma_insert_rising(s: Seq<TypeId>, x: TypeId)
    requires
        strictly_rising(s),
    ensures
        strictly_rising(insert_sorted(s, x)),
    decreases s.len(),
{
    let r = insert_sorted(s, x);
    if s.len() > 0 && s.last().0 > x.0 {
        let front = s.drop_last();
        assert(strictly_rising(front)) by {
            assert forall|i: int, j: int| 0 <= i < j < front.len() implies front[i].0
                < front[j].0 by {
                assert(front[i] == s[i] && front[j] == s[j]);
            }
        }
        lemma_insert_rising(front, x);
        let mid = insert_sorted(front, x);
        assert forall|i: int, j: int| 0 <= i < j < r.len() implies r[i].0 < r[j].0 by {
            if j == mid.len() {
                lemma_insert_member(front, x, mid[i]);
                assert(mid.contains(mid[i]));
                if mid[i] != x {
                    let k = choose|k: int| 0 <= k < front.len() && front[k] == mid[i];
                    assert(s[k] == mid[i]);
                }
            } else {
                assert(r[i] == mid[i] && r[j] == mid[j]);
            }
        }
    }
}

/// Whether `y` is one of the first `n` identities of `ids`.
pub open spec fn listed(ids: Seq<TypeId>, n: nat, y: TypeId) -> bool {
    exists|k: int| 0 <= k < n && k < ids.len() && ids[k] == y
}

/// The sorted alternatives are the alternatives: nothing is lost and nothing
/// is added.
pub proof fn lemma_sorted_member(ids: Seq<TypeId>, n: nat, y: TypeId)
    requires
        n <= ids.len(),
    ensures
        sorted_ids(ids, n).contains(y) <==> listed(ids, n, y),
    decreases n,
{
    if n > 0 {
        lemma_sorted_member(ids, (n - 1) as nat, y);
        let before = sorted_ids(ids, (n - 1) as nat);
        lemma_insert_member(before, ids[n - 1], y);
        if listed(ids, (n - 1) as nat, y) {
            let k = choose|k: int| 0 <= k < n - 1 && k < ids.len() && ids[k] == y;
            assert(0 <= k < n && k < ids.len() && ids[k] == y);
        }
        if y == ids[n - 1] {
            assert(0 <= n - 1 < n && n - 1 < ids.len() && ids[n - 1] == y);
        }
        if listed(ids, n, y) {
            let k = choose|k: int| 0 <= k < n && k < ids.len() && ids[k] == y;
            if k < n - 1 {
                assert(0 <= k < n - 1 && k < ids.len() && ids[k] == y);
            }
        }
    }
}

/// The sorted alternatives are in strictly rising order.
pub proof fn lemma_sorted_rising(ids: Seq<TypeId>, n: nat)
    requires
        n <= ids.len(),
    ensures
        strictly_rising(sorted_ids(ids, n)),
    decreases n,
{
    if n > 0 {
        lemma_sorted_rising(ids, (n - 1) as nat);
        lemma_insert_rising(sorted_ids(ids, (n - 1) as nat), ids[n - 1]);
    }
}

/// Two lists in strictly rising order that hold the same identities are the
/// same list.
pub proof fn lemma_rising_unique(a: Seq<TypeId>, b: Seq<TypeId>)
    requires
        strictly_rising(a),
        strictly_rising(b),
        forall|i: int| 0 <= i < a.len() ==> b.contains(#[trigger] a[i]),
        forall|i: int| 0 <= i < b.len() ==> a.contains(#[trigger] b[i]),
    ensures
        a == b,
    decreases a.len(),
{
    if a.len() == 0 {
        if b.len() > 0 {
            assert(a.contains(b[0]));
        }
        assert(a =~= b);
    } else {
        let la = a[a.len() - 1];
        assert(b.contains(la));
        let ib = choose|k: int| 0 <= k < b.len() && b[k] == la;
        let lb = b[b.len() - 1];
        assert(a.contains(lb));
        let ia = choose|k: int| 0 <= k < a.len() && a[k] == lb;
        assert(la == lb) by {
            if ia < a.len() - 1 {
                assert(a[ia].0 < a[a.len() - 1].0);
            }
            if ib < b.len() - 1 {
                assert(b[ib].0 < b[b.len() - 1].0);
            }
        }
        let fa = a.drop_last();
        let fb = b.drop_last();
        assert(strictly_rising(fa)) by {
            assert forall|i: int, j: int| 0 <= i < j < fa.len() implies fa[i].0 < fa[j].0 by {
                assert(fa[i] == a[i] && fa[j] == a[j]);
            }
        }
        assert(strictly_rising(fb)) by {
            assert forall|i: int, j: int| 0 <= i < j < fb.len() implies fb[i].0 < fb[j].0 by {
                assert(fb[i] == b[i] && fb[j] == b[j]);
            }
        }
        assert forall|i: int| 0 <= i < fa.len() implies fb.contains(#[trigger] fa[i]) by {
            assert(fa[i] == a[i]);
            assert(a[i].0 < a[a.len() - 1].0);
            assert(b.contains(a[i]));
            let m = choose|m: int| 0 <= m < b.len() && b[m] == a[i];
            assert(m < b.len() - 1);
            assert(fb[m] == fa[i]);
        }
        assert forall|i: int| 0 <= i < fb.len() implies fa.contains(#[trigger] fb[i]) by {
            assert(fb[i] == b[i]);
            assert(b[i].0 < b[b.len() - 1].0);
            assert(a.contains(b[i]));
            let m = choose|m: int| 0 <= m < a.len() && a[m] == b[i];
            assert(m < a.len() - 1);
            assert(fa[m] == fb[i]);
        }
        lemma_rising_unique(fa, fb);
        assert(a =~= fa.push(la));
        assert(b =~= fb.push(lb));
    }
}

/// The order of the variants does not depend on the order in which the
/// alternatives are listed, nor on how often one is listed: two lists that
/// hold the same identities are sorted into the same list.
pub proof fn lemma_sorted_ids_order_free(a: Seq<TypeId>, b: Seq<TypeId>)
    requires
        forall|i: int| 0 <= i < a.len() ==> b.contains(#[trigger] a[i]),
        forall|i: int| 0 <= i < b.len() ==> a.contains(#[trigger] b[i]),
    ensures
        sorted_ids(a, a.len()) == sorted_ids(b, b.len()),
{
    lemma_sorted_rising(a, a.len());
    lemma_sorted_rising(b, b.len());
    let sa = sorted_ids(a, a.len());
    let sb = sorted_ids(b, b.len());
    assert forall|i: int| 0 <= i < sa.len() implies sb.contains(#[trigger] sa[i]) by {
        let y = sa[i];
        assert(sa.contains(y));
        lemma_sorted_member(a, a.len(), y);
        let k = choose|k: int| 0 <= k < a.len() && k < a.len() && a[k] == y;
        assert(b.contains(a[k]));
        let m = choose|m: int| 0 <= m < b.len() && b[m] == y;
        assert(0 <= m < b.len() && m < b.len() && b[m] == y);
        lemma_sorted_member(b, b.len(), y);
    }
    assert forall|i: int| 0 <= i < sb.len() implies sa.contains(#[trigger] sb[i]) by {
        let y = sb[i];
        assert(sb.contains(y));
        lemma_sorted_member(b, b.len(), y);
        let k = choose|k: int| 0 <= k < b.len() && k < b.len() && b[k] == y;
        assert(a.contains(b[k]));
        let m = choose|m: int| 0 <= m < a.len() && a[m] == y;
        assert(0 <= m < a.len() && m < a.len() && a[m] == y);
        lemma_sorted_member(a, a.len(), y);
    }
    lemma_rising_unique(sa, sb);
}

/// Puts `x` into `v`, which is in strictly rising order.
pub fn insert_id(v: &mut Vec<TypeId>, x: TypeId)
    ensures
        final(v)@ == insert_sorted(old(v)@, x),
{
    let mut i: usize = v.len();
    while i > 0 && v[i - 1].0 > x.0
        invariant
            i <= v.len(),
            v@ == old(v)@,
            forall|j: int| i <= j < v.len() ==> v@[j].0 > x.0,
        decreases i,
    {
        i -= 1;
    }
    proof {
        lemma_insert_at(v@, x, i as int);
    }
    if i > 0 && v[i - 1].0 == x.0 {
        return ;
    }
    v.insert(i, x);
}

/// The identities in `ids` in strictly rising order, each once.
pub fn sort_ids(ids: &Vec<TypeId>) -> (r: Vec<TypeId>)
    ensures
        r@ == sorted_ids(ids@, ids@.len()),
        strictly_rising(r@),
{
    let mut r: Vec<TypeId> = Vec::new();
    let mut i: usize = 0;
    while i < ids.len()
        invariant
            i <= ids.len(),
            r@ == sorted_ids(ids@, i as nat),
        decreases ids.len() - i,
    {
        insert_id(&mut r, ids[i]);
        i += 1;
    }
    proof {
        lemma_sorted_rising(ids@, ids@.len());
    }
    r
}

/// Whether `tid` is an enumeration of a single literal.
pub open spec fn is_single_literal(reg: Seq<EntryView>, tid: TypeId) -> bool {
    tid.0 < reg.len() && (reg[tid.0 as int].details matches DetailsView::Enum(values, _)
        && values.len() == 1)
}

/// The literal of an enumeration of a single literal.
pub open spec fn single_literal(reg: Seq<EntryView>, tid: TypeId) -> Seq<char> {
    reg[tid.0 as int].details->Enum_0[0]
}

/// How many of the first `n` properties are enumerations of a single literal.
pub open spec fn tag_count(reg: Seq<EntryView>, props: Seq<PropView>, n: nat) -> nat
    decreases n,
{
    if n == 0 || n > props.len() {
        0
    } else if is_single_literal(reg, props[n - 1].tid) {
        tag_count(reg, props, (n - 1) as nat) + 1
    } else {
        tag_count(reg, props, (n - 1) as nat)
    }
}

/// The position of the last of the first `n` properties that is an
/// enumeration of a single literal; zero if there is none.
pub open spec fn tag_position(reg: Seq<EntryView>, props: Seq<PropView>, n: nat) -> nat
    decreases n,
{
    if n == 0 || n > props.len() {
        0
    } else if is_single_literal(reg, props[n - 1].tid) {
        (n - 1) as nat
    } else {
        tag_position(reg, props, (n - 1) as nat)
    }
}

/// The position of the discriminator among `props`: of the one property that
/// is an enumeration of a single literal, if there is exactly one.
pub open spec fn discriminator(reg: Seq<EntryView>, props: Seq<PropView>) -> Option<nat> {
    if tag_count(reg, props, props.len()) == 1 {
        Some(tag_position(reg, props, props.len()))
    } else {
        None
    }
}

proof fn lemma_tag_position(reg: Seq<EntryView>, props: Seq<PropView>, n: nat)
    requires
        n <= props.len(),
        tag_count(reg, props, n) > 0,
    ensures
        tag_position(reg, props, n) < n,
        is_single_literal(reg, props[tag_position(reg, props, n) as int].tid),
    decreases n,
{
    if n > 0 && !is_single_literal(reg, props[n - 1].tid) {
        lemma_tag_position(reg, props, (n - 1) as nat);
    }
}

/// The properties of the alternative `alt` and the position of its
/// discriminator, if it is a record that has one.
pub open spec fn discriminated(reg: Seq<EntryView>, alt: TypeId) -> Option<(Seq<PropView>, nat)> {
    if alt.0 < reg.len() {
        match reg[alt.0 as int].details {
            DetailsView::Object(props, _) => match discriminator(reg, props) {
                Some(k) => Some((props, k)),
                None => None,
            },
            _ => None,
        }
    } else {
        None
    }
}

/// The tag of the union over the first `n` alternatives: the name of the
/// discriminator of the last alternative that has one.
pub open spec fn union_tag(reg: Seq<EntryView>, alts: Seq<TypeId>, n: nat) -> Option<Seq<char>>
    decreases n,
{
    if n == 0 || n > alts.len() {
        None
    } else {
        match discriminated(reg, alts[n - 1]) {
            Some((props, k)) => Some(props[k as int].name),
            None => union_tag(reg, alts, (n - 1) as nat),
        }
    }
}

/// The content key of the union over the first `n` alternatives: the name of
/// the one other property of the last alternative that has a discriminator
/// and exactly one other property.
pub open spec fn union_content(reg: Seq<EntryView>, alts: Seq<TypeId>, n: nat) -> Option<
    Seq<char>,
>
    decreases n,
{
    if n == 0 || n > alts.len() {
        None
    } else {
        match discriminated(reg, alts[n - 1]) {
            Some((props, k)) => if props.len() == 2 {
                Some(props[1 - k].name)
            } else {
                union_content(reg, alts, (n - 1) as nat)
            },
            None => union_content(reg, alts, (n - 1) as nat),
        }
    }
}

/// One variant of a union: its name and the type expressions of its payload.
#[derive(Debug, PartialEq, Eq)]
pub struct UnionVariant {
    pub name: String,
    pub payload: Vec<String>,
}

/// The view of a [`UnionVariant`].
pub struct UnionVariantSpec {
    pub name: Seq<char>,
    pub payload: Seq<Seq<char>>,
}

impl View for UnionVariant {
    type V = UnionVariantSpec;

    open spec fn view(&self) -> UnionVariantSpec {
        UnionVariantSpec { name: self.name@, payload: texts_view(self.payload@) }
    }
}

/// The views of the variants in `v`, in order.
pub open spec fn union_variants_view(v: Seq<UnionVariant>) -> Seq<UnionVariantSpec> {
    Seq::new(v.len(), |i: int| v[i]@)
}

/// The definition of a union.
#[derive(Debug, PartialEq, Eq)]
pub struct UnionDef {
    pub name: String,
    pub tag: Option<String>,
    pub content: Option<String>,
    pub variants: Vec<UnionVariant>,
}

/// The view of a [`UnionDef`].
pub struct UnionSpec {
    pub name: Seq<char>,
    pub tag: Option<Seq<char>>,
    pub content: Option<Seq<char>>,
    pub variants: Seq<UnionVariantSpec>,
}

impl View for UnionDef {
    type V = UnionSpec;

    open spec fn view(&self) -> UnionSpec {
        UnionSpec {
            name: self.name@,
            tag: opt_text(self.tag),
            content: opt_text(self.content),
            variants: union_variants_view(self.variants@),
        }
    }
}

/// The failure for a type that stands alone, under no property.
pub open spec fn bare_failure(reg: Seq<EntryView>, tid: TypeId) -> ErrorSpec {
    ErrorSpec { failure: failure_of(reg, tid), property: Seq::empty(), tid }
}

/// The type expressions of the first `n` properties of `props` but the one
/// at position `k`, or the first failure among them.
pub open spec fn payload_types(reg: Seq<EntryView>, props: Seq<PropView>, k: nat, n: nat)
    -> Result<Seq<Seq<char>>, ErrorSpec>
    decreases n,
{
    if n == 0 || n > props.len() {
        Ok(Seq::empty())
    } else {
        match payload_types(reg, props, k, (n - 1) as nat) {
            Err(e) => Err(e),
            Ok(types) => if n - 1 == k {
                Ok(types)
            } else {
                let p = props[n - 1];
                match rendered(reg, p.tid, true, reg.len()) {
                    Some(rt) => Ok(types.push(rt)),
                    None => Err(
                        ErrorSpec { failure: failure_of(reg, p.tid), property: p.name, tid: p.tid },
                    ),
                }
            },
        }
    }
}

proof fn lemma_payload_types_fail(
    reg: Seq<EntryView>,
    props: Seq<PropView>,
    k: nat,
    n: nat,
    m: nat,
)
    requires
        n <= m <= props.len(),
        payload_types(reg, props, k, n) is Err,
    ensures
        payload_types(reg, props, k, m) == payload_types(reg, props, k, n),
    decreases m,
{
    if n < m {
        lemma_payload_types_fail(reg, props, k, n, (m - 1) as nat);
    }
}

/// The variant for the alternative `alt`. A discriminated record is named by
/// the literal of its tag and carries its other properties; any other
/// alternative is named by its type and carries itself.
pub open spec fn variant_spec(reg: Seq<EntryView>, alt: TypeId) -> Result<
    UnionVariantSpec,
    ErrorSpec,
> {
    match discriminated(reg, alt) {
        Some((props, k)) => match payload_types(reg, props, k, props.len()) {
            Ok(payload) => Ok(
                UnionVariantSpec {
                    name: type_name_of(single_literal(reg, props[k as int].tid)),
                    payload,
                },
            ),
            Err(e) => Err(e),
        },
        None => match rendered(reg, alt, true, reg.len()) {
            Some(rt) => Ok(UnionVariantSpec { name: type_name_of(rt), payload: seq![rt] }),
            None => Err(bare_failure(reg, alt)),
        },
    }
}

/// The variants for the first `n` alternatives, or the first failure among
/// them.
pub open spec fn union_variants(reg: Seq<EntryView>, alts: Seq<TypeId>, n: nat) -> Result<
    Seq<UnionVariantSpec>,
    ErrorSpec,
>
    decreases n,
{
    if n == 0 || n > alts.len() {
        Ok(Seq::empty())
    } else {
        match union_variants(reg, alts, (n - 1) as nat) {
            Err(e) => Err(e),
            Ok(vs) => match variant_spec(reg, alts[n - 1]) {
                Ok(v) => Ok(vs.push(v)),
                Err(e) => Err(e),
            },
        }
    }
}

proof fn lemma_union_variants_fail(reg: Seq<EntryView>, alts: Seq<TypeId>, n: nat, m: nat)
    requires
        n <= m <= alts.len(),
        union_variants(reg, alts, n) is Err,
    ensures
        union_variants(reg, alts, m) == union_variants(reg, alts, n),
    decreases m,
{
    if n < m {
        lemma_union_variants_fail(reg, alts, n, (m - 1) as nat);
    }
}

/// The definition of the union `name` over the alternatives `alts`.
pub open spec fn union_spec(reg: Seq<EntryView>, name: Seq<char>, alts: Seq<TypeId>) -> Result<
    UnionSpec,
    ErrorSpec,
> {
    let sorted = sorted_ids(alts, alts.len());
    match union_variants(reg, sorted, sorted.len()) {
        Err(e) => Err(e),
        Ok(variants) => Ok(
            UnionSpec {
                name,
                tag: union_tag(reg, sorted, sorted.len()),
                content: union_content(reg, sorted, sorted.len()),
                variants,
            },
        ),
    }
}

/// The definition of a union does not depend on the order in which its
/// alternatives are listed, nor on how often one is listed.
pub proof fn lemma_union_order_free(
    reg: Seq<EntryView>,
    name: Seq<char>,
    first: Seq<TypeId>,
    second: Seq<TypeId>,
)
    requires
        forall|i: int| 0 <= i < first.len() ==> second.contains(#[trigger] first[i]),
        forall|i: int| 0 <= i < second.len() ==> first.contains(#[trigger] second[i]),
    ensures
        union_spec(reg, name, first) == union_spec(reg, name, second),
{
    lemma_sorted_ids_order_free(first, second);
}

/// `acc` followed by the first `n` type expressions of a payload, one on a
/// line.
pub open spec fn payload_lines(acc: Seq<char>, payload: Seq<Seq<char>>, n: nat) -> Seq<char>
    decreases n,
{
    if n == 0 || n > payload.len() {
        acc
    } else {
        put(payload_lines(acc, payload, (n - 1) as nat), payload[n - 1] + ","@)
    }
}

/// `acc` followed by one variant.
pub open spec fn variant_text(acc: Seq<char>, v: UnionVariantSpec) -> Seq<char> {
    if v.payload.len() == 0 {
        put(acc, v.name + ","@)
    } else {
        put(payload_lines(put(acc, v.name + "("@), v.payload, v.payload.len()), "),"@)
    }
}

/// `acc` followed by the first `n` variants.
pub open spec fn variants_text(acc: Seq<char>, vs: Seq<UnionVariantSpec>, n: nat) -> Seq<char>
    decreases n,
{
    if n == 0 || n > vs.len() {
        acc
    } else {
        variant_text(variants_text(acc, vs, (n - 1) as nat), vs[n - 1])
    }
}

/// `acc` followed by the attributes that name the tag and the content key;
/// nothing for a union without a tag.
pub open spec fn tag_text(acc: Seq<char>, u: UnionSpec) -> Seq<char> {
    match u.tag {
        None => acc,
        Some(t) => {
            let a1 = put(acc, "#[serde(rename_all = \"lowercase\")]"@);
            let a2 = put(a1, "#[serde(tag = \""@ + t + "\""@);
            let a3 = match u.content {
                Some(c) => put(a2, ", content = \""@ + c + "\""@),
                None => a2,
            };
            put(a3, ")]"@)
        },
    }
}

/// `acc` followed by the whole definition of the union.
pub open spec fn union_text(acc: Seq<char>, u: UnionSpec) -> Seq<char> {
    let a1 = put(acc, "#[derive(Serialize, Deserialize, PartialEq, Debug, Clone, JsonSchema)]"@);
    let a2 = tag_text(a1, u);
    let a3 = put(a2, "pub enum "@ + u.name + " {"@);
    let a4 = variants_text(a3, u.variants, u.variants.len());
    put(put(a4, "}"@), ""@)
}

impl UnionVariant {
    /// Writes the variant at the end of `out`.
    pub fn render(&self, out: &mut String)
        ensures
            final(out)@ == variant_text(old(out)@, self@),
    {
        if self.payload.len() == 0 {
            put_line2(out, self.name.as_str(), ",");
        } else {
            put_line2(out, self.name.as_str(), "(");
            let ghost a1 = out@;
            let ghost payload = texts_view(self.payload@);
            let mut i: usize = 0;
            while i < self.payload.len()
                invariant
                    i <= self.payload.len(),
                    payload == texts_view(self.payload@),
                    out@ == payload_lines(a1, payload, i as nat),
                decreases self.payload.len() - i,
            {
                put_line2(out, self.payload[i].as_str(), ",");
                i += 1;
            }
            put_line(out, "),");
        }
    }
}

impl UnionDef {
    /// Writes the definition at the end of `out`.
    pub fn render(&self, out: &mut String)
        ensures
            final(out)@ == union_text(old(out)@, self@),
    {
        put_line(out, "#[derive(Serialize, Deserialize, PartialEq, Debug, Clone, JsonSchema)]");
        match &self.tag {
            None => {},
            Some(t) => {
                put_line(out, "#[serde(rename_all = \"lowercase\")]");
                put_line3(out, "#[serde(tag = \"", t.as_str(), "\"");
                match &self.content {
                    Some(c) => put_line3(out, ", content = \"", c.as_str(), "\""),
                    None => {},
                }
                put_line(out, ")]");
            },
        }
        put_line3(out, "pub enum ", self.name.as_str(), " {");
        let ghost a3 = out@;
        let ghost vs = union_variants_view(self.variants@);
        let mut i: usize = 0;
        while i < self.variants.len()
            invariant
                i <= self.variants.len(),
                vs == union_variants_view(self.variants@),
                out@ == variants_text(a3, vs, i as nat),
            decreases self.variants.len() - i,
        {
            self.variants[i].render(out);
            i += 1;
        }
        put_line(out, "}");
        put_line(out, "");
    }
}

impl TypeSpace {
    /// The literal of `tid`, if it is an enumeration of a single literal.
    pub fn single_literal_of(&self, tid: TypeId) -> (r: Option<&String>)
        ensures
            match r {
                Some(s) => is_single_literal(self@, tid) && s@ == single_literal(self@, tid),
                None => !is_single_literal(self@, tid),
            },
    {
        match self.get(tid) {
            None => None,
            Some(e) => match &e.details {
                TypeDetails::Enum(values, _) => if values.len() == 1 {
                    Some(&values[0])
                } else {
                    None
                },
                _ => None,
            },
        }
    }

    /// The position of the discriminator among `props`, if there is one.
    pub fn discriminator_of(&self, props: &Vec<Property>) -> (r: Option<usize>)
        ensures
            match r {
                Some(k) => discriminator(self@, props_view(props@)) == Some(k as nat) && k
                    < props.len() && is_single_literal(self@, props@[k as int].tid),
                None => discriminator(self@, props_view(props@)) is None,
            },
    {
        let ghost ps = props_view(props@);
        let mut count: usize = 0;
        let mut position: usize = 0;
        let mut i: usize = 0;
        while i < props.len()
            invariant
                i <= props.len(),
                ps == props_view(props@),
                count <= i,
                count == tag_count(self@, ps, i as nat),
                position == tag_position(self@, ps, i as nat),
            decreases props.len() - i,
        {
            if self.single_literal_of(props[i].tid).is_some() {
                count += 1;
                position = i;
            }
            i += 1;
        }
        if count == 1 {
            proof {
                lemma_tag_position(self@, ps, ps.len());
            }
            Some(position)
        } else {
            None
        }
    }

    /// The properties of the alternative `alt`, the position of its
    /// discriminator and the literal of that, if it is a record that has one.
    pub fn discriminated_alt(&self, alt: TypeId) -> (r: Option<(&Vec<Property>, usize, &String)>)
        ensures
            match r {
                Some((props, k, literal)) => discriminated(self@, alt) == Some(
                    (props_view(props@), k as nat),
                ) && k < props.len() && literal@ == single_literal(self@, props@[k as int].tid),
                None => discriminated(self@, alt) is None,
            },
    {
        match self.get(alt) {
            None => None,
            Some(e) => match &e.details {
                TypeDetails::Object(props, _) => match self.discriminator_of(props) {
                    Some(k) => match self.single_literal_of(props[k].tid) {
                        Some(literal) => Some((props, k, literal)),
                        None => None,
                    },
                    None => None,
                },
                _ => None,
            },
        }
    }

    fn payload_of(&self, props: &Vec<Property>, k: usize) -> (r: Result<Vec<String>, EmitError>)
        ensures
            match r {
                Ok(types) => payload_types(self@, props_view(props@), k as nat, props@.len())
                    == Ok::<Seq<Seq<char>>, ErrorSpec>(texts_view(types@)),
                Err(e) => payload_types(self@, props_view(props@), k as nat, props@.len()) == Err::<
                    Seq<Seq<char>>,
                    ErrorSpec,
                >(e@),
            },
    {
        let ghost ps = props_view(props@);
        let mut types: Vec<String> = Vec::new();
        let mut i: usize = 0;
        assert(texts_view(types@) =~= Seq::<Seq<char>>::empty());
        while i < props.len()
            invariant
                i <= props.len(),
                ps == props_view(props@),
                payload_types(self@, ps, k as nat, i as nat) == Ok::<Seq<Seq<char>>, ErrorSpec>(
                    texts_view(types@),
                ),
            decreases props.len() - i,
        {
            if i != k {
                let p = &props[i];
                match self.render_type(&p.tid, true) {
                    Ok(rt) => {
                        let ghost before = texts_view(types@);
                        let ghost rv = rt@;
                        types.push(rt);
                        assert(texts_view(types@) =~= before.push(rv));
                    },
                    Err(failure) => {
                        proof {
                            lemma_payload_types_fail(
                                self@,
                                ps,
                                k as nat,
                                (i + 1) as nat,
                                ps.len(),
                            );
                        }
                        return Err(EmitError { failure, property: p.name.clone(), tid: p.tid });
                    },
                }
            }
            i += 1;
        }
        Ok(types)
    }

    /// The variant for the alternative `alt`.
    pub fn union_variant(&self, alt: TypeId) -> (r: Result<UnionVariant, EmitError>)
        ensures
            match r {
                Ok(v) => variant_spec(self@, alt) == Ok::<UnionVariantSpec, ErrorSpec>(v@),
                Err(e) => variant_spec(self@, alt) == Err::<UnionVariantSpec, ErrorSpec>(e@),
            },
    {
        match self.discriminated_alt(alt) {
            Some((props, k, literal)) => {
                match self.payload_of(props, k) {
                    Ok(payload) => Ok(
                        UnionVariant { name: struct_name(literal.as_str()), payload },
                    ),
                    Err(e) => Err(e),
                }
            },
            None => match self.render_type(&alt, true) {
                Ok(rt) => {
                    let name = struct_name(rt.as_str());
                    let mut payload: Vec<String> = Vec::new();
                    let ghost rv = rt@;
                    payload.push(rt);
                    assert(texts_view(payload@) =~= seq![rv]);
                    Ok(UnionVariant { name, payload })
                },
                Err(failure) => Err(EmitError { failure, property: String::new(), tid: alt }),
            },
        }
    }

    fn tag_of(&self, alts: &Vec<TypeId>) -> (r: (Option<String>, Option<String>))
        ensures
            opt_text(r.0) == union_tag(self@, alts@, alts@.len()),
            opt_text(r.1) == union_content(self@, alts@, alts@.len()),
    {
        let mut tag: Option<String> = None;
        let mut content: Option<String> = None;
        let mut i: usize = 0;
        while i < alts.len()
            invariant
                i <= alts.len(),
                opt_text(tag) == union_tag(self@, alts@, i as nat),
                opt_text(content) == union_content(self@, alts@, i as nat),
            decreases alts.len() - i,
        {
            match self.discriminated_alt(alts[i]) {
                Some((props, k, _)) => {
                    tag = Some(props[k].name.clone());
                    if props.len() == 2 {
                        content = Some(props[1 - k].name.clone());
                    }
                },
                None => {},
            }
            i += 1;
        }
        (tag, content)
    }

    /// The definition of the union `name` over the alternatives `alts`.
    pub fn union_def(&self, name: &str, alts: &Vec<TypeId>) -> (r: Result<UnionDef, EmitError>)
        ensures
            match r {
                Ok(u) => union_spec(self@, name@, alts@) == Ok::<UnionSpec, ErrorSpec>(u@),
                Err(e) => union_spec(self@, name@, alts@) == Err::<UnionSpec, ErrorSpec>(e@),
            },
    {
        let sorted = sort_ids(alts);
        let mut variants: Vec<UnionVariant> = Vec::new();
        let mut i: usize = 0;
        assert(union_variants_view(variants@) =~= Seq::<UnionVariantSpec>::empty());
        while i < sorted.len()
            invariant
                i <= sorted.len(),
                sorted@ == sorted_ids(alts@, alts@.len()),
                union_variants(self@, sorted@, i as nat) == Ok::<Seq<UnionVariantSpec>, ErrorSpec>(
                    union_variants_view(variants@),
                ),
            decreases sorted.len() - i,
        {
            match self.union_variant(sorted[i]) {
                Ok(v) => {
                    let ghost before = union_variants_view(variants@);
                    let ghost vv = v@;
                    variants.push(v);
                    assert(union_variants_view(variants@) =~= before.push(vv));
                },
                Err(e) => {
                    proof {
                        lemma_union_variants_fail(self@, sorted@, (i + 1) as nat, sorted@.len());
                    }
                    return Err(e);
                },
            }
            i += 1;
        }
        let (tag, content) = self.tag_of(&sorted);
        Ok(UnionDef { name: String::from_str(name), tag, content, variants })
    }
}

} // verus!
