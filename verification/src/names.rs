//! The name synthesizer: legal names for types and for fields.
//!
//! Word splitting and letter case come from the `inflector` crate. What it
//! returns is named here ([`snake_case`], [`pascal_case`]) and not described:
//! every rule of this library that stands before or after that call is a
//! verified function with an exact contract.
//!
//! A field name is made of the stem of the property name and of a marker. The
//! stem is the name without white space around it and without the sigils `@`,
//! `_` and `$` in front of it, all of which are taken off at once. Each sigil
//! leaves a token of its own kind in the marker, which stands behind the name
//! and ends in `_`. So properties that differ only in their sigils get
//! different names, and a field name is left as it is when the rules are
//! applied to it again.

use crate::text::{
    char_is_space, chars_of, concat2, ends_with_char, is_space, leading,
    lemma_trailing_spaces_bounds, str_eq, string_of, string_of_range, trailing_spaces,
    trim_start_char, trim_trailing_spaces, trimmed_start, without_trailing_spaces,
};
use vstd::prelude::*;
use vstd::string::*;

verus! {

/// What `inflector::cases::snakecase::to_snake_case` returns for the text `s`.
pub uninterp spec fn snake_case(s: Seq<char>) -> Seq<char>;

/// What `inflector::cases::pascalcase::to_pascal_case` returns for the text `s`.
pub uninterp spec fn pascal_case(s: Seq<char>) -> Seq<char>;

/// Calls `inflector::cases::snakecase::to_snake_case`. That function reads
/// nothing but its argument and has no failure case: it returns a text for
/// every text, and the same text for the same argument.
#[verifier::external_body]
pub(crate) fn to_snake_case(s: &str) -> (r: String)
    ensures
        r@ == snake_case(s@),
{
    inflector::cases::snakecase::to_snake_case(s)
}

/// Calls `inflector::cases::pascalcase::to_pascal_case`. That function reads
/// nothing but its argument and has no failure case: it returns a text for
/// every text, and the same text for the same argument.
#[verifier::external_body]
fn to_pascal_case(s: &str) -> (r: String)
    ensures
        r@ == pascal_case(s@),
{
    inflector::cases::pascalcase::to_pascal_case(s)
}

/// The words that cannot stand as a field name.
pub open spec fn is_reserved(s: Seq<char>) -> bool {
    ||| s == "ref"@
    ||| s == "type"@
    ||| s == "self"@
    ||| s == "box"@
    ||| s == "match"@
    ||| s == "foo"@
    ||| s == "enum"@
    ||| s == "const"@
    ||| s == "use"@
}

/// Whether `s` is one of the words that cannot stand as a field name.
pub fn is_reserved_word(s: &str) -> (r: bool)
    ensures
        r == is_reserved(s@),
{
    str_eq(s, "ref") || str_eq(s, "type") || str_eq(s, "self") || str_eq(s, "box") || str_eq(
        s,
        "match",
    ) || str_eq(s, "foo") || str_eq(s, "enum") || str_eq(s, "const") || str_eq(s, "use")
}

/// Whether `c` is one of the sigils that can stand in front of a property
/// name.
pub open spec fn is_sigil(c: char) -> bool {
    c == '@' || c == '_' || c == '$'
}

/// Whether `c` is taken off the front of a property name: a sigil, or white
/// space.
pub open spec fn is_lead(c: char) -> bool {
    is_sigil(c) || is_space(c)
}

/// The sigils in the run of sigils and white space at the start of `t`, in
/// their order.
pub open spec fn sigils_in(t: Seq<char>) -> Seq<char>
    decreases t.len(),
{
    if t.len() > 0 && is_lead(t[0]) {
        if is_sigil(t[0]) {
            seq![t[0]] + sigils_in(t.drop_first())
        } else {
            sigils_in(t.drop_first())
        }
    } else {
        Seq::empty()
    }
}

/// `t` without the run of sigils and white space at its start.
pub open spec fn after_lead(t: Seq<char>) -> Seq<char>
    decreases t.len(),
{
    if t.len() > 0 && is_lead(t[0]) {
        after_lead(t.drop_first())
    } else {
        t
    }
}

/// The sigils in front of the property name `raw`: all of them, of every
/// kind, in their order.
pub open spec fn sigils_of(raw: Seq<char>) -> Seq<char> {
    sigils_in(without_trailing_spaces(raw))
}

/// The stem of the property name `raw`: the name without the white space
/// around it and without the sigils in front of it.
pub open spec fn stem_of(raw: Seq<char>) -> Seq<char> {
    after_lead(without_trailing_spaces(raw))
}

/// The marker that one sigil leaves behind the name: each kind has its own.
pub open spec fn token(c: char) -> Seq<char> {
    if c == '@' {
        "_at_"@
    } else if c == '_' {
        "_us_"@
    } else {
        "_"@
    }
}

/// The marker that the sigils `sigils` leave behind the name: one token for
/// each, in their order.
pub open spec fn marker(sigils: Seq<char>) -> Seq<char>
    decreases sigils.len(),
{
    if sigils.len() == 0 {
        Seq::empty()
    } else {
        token(sigils[0]) + marker(sigils.drop_first())
    }
}

/// Whether a name keeps its letter case: one that ends in the marker `_` does.
pub open spec fn keeps_case(s: Seq<char>) -> bool {
    s.len() > 0 && s.last() == '_'
}

/// A reserved word gets the marker `_`; every other name stays.
pub open spec fn finished(cased: Seq<char>) -> Seq<char> {
    if is_reserved(cased) {
        cased + "_"@
    } else {
        cased
    }
}

/// A reserved word gets the marker `_`; see [`finished`].
pub fn finish_field(cased: &str) -> (r: String)
    ensures
        r@ == finished(cased@),
{
    if is_reserved_word(cased) {
        concat2(cased, "_")
    } else {
        String::from_str(cased)
    }
}

/// Whether `c` may stand in a field name.
pub open spec fn is_field_char(c: char) -> bool {
    is_name_char(c) || c == '_'
}

/// The characters of `s` that may stand in a field name, in order.
pub open spec fn field_chars(s: Seq<char>) -> Seq<char> {
    s.filter(|c: char| is_field_char(c))
}

/// Whether `s` can be written down as the name of a field.
pub open spec fn is_field_ident(s: Seq<char>) -> bool {
    &&& s.len() > 0
    &&& is_letter(s[0])
    &&& forall|i: int| 0 <= i < s.len() ==> is_field_char(#[trigger] s[i])
}

/// A legal field name made from `cased`: the characters that may not stand in
/// a name are dropped, and so is a run of `_` at the start; what then starts
/// with a digit gets `n_` in front, and an empty rest is `unnamed`.
pub open spec fn legal_field_name(cased: Seq<char>) -> Seq<char> {
    let k = trimmed_start(field_chars(cased), '_');
    if k.len() == 0 {
        "unnamed"@
    } else if is_digit(k[0]) {
        "n_"@ + k
    } else {
        k
    }
}

/// What is made of a name after its case has been normalized: a legal field
/// name that is no reserved word.
pub open spec fn settled(cased: Seq<char>) -> Seq<char> {
    finished(legal_field_name(cased))
}

/// The name for the stem `stem`, before the marker of the sigils: a reserved
/// word with the marker `_`; the fixed replacement of a name that is no
/// identifier at all; a stem that ends in `_` as it is; and every other stem
/// in lower case with `_` between its words, made legal.
pub open spec fn base_name(stem: Seq<char>) -> Seq<char> {
    if is_reserved(stem) {
        stem + "_"@
    } else if stem == "+1"@ {
        "plus_one"@
    } else if stem == "-1"@ {
        "minus_one"@
    } else if keeps_case(stem) {
        stem
    } else {
        settled(snake_case(stem))
    }
}

/// The field name for the property `raw`: the name for its stem, followed by
/// the marker of the sigils that stood in front of it.
pub open spec fn field_name_of(raw: Seq<char>) -> Seq<char> {
    base_name(stem_of(raw)) + marker(sigils_of(raw))
}

/// Whether `c` is one of the sigils.
pub fn char_is_sigil(c: char) -> (r: bool)
    ensures
        r == is_sigil(c),
{
    c == '@' || c == '_' || c == '$'
}

/// The sigils in front of the property name `raw` and its stem; see
/// [`sigils_of`] and [`stem_of`].
pub fn split_sigils(raw: &str) -> (r: (String, String))
    ensures
        r.0@ == sigils_of(raw@),
        r.1@ == stem_of(raw@),
{
    let t = trim_trailing_spaces(raw);
    let v = chars_of(t.as_str());
    let mut sigils = String::new();
    let mut i: usize = 0;
    proof {
        assert(v@.skip(0) =~= v@);
        assert(sigils@ + sigils_in(v@) =~= sigils_in(v@));
    }
    while i < v.len() && (char_is_sigil(v[i]) || char_is_space(v[i]))
        invariant
            i <= v.len(),
            sigils_in(v@) == sigils@ + sigils_in(v@.skip(i as int)),
            after_lead(v@) == after_lead(v@.skip(i as int)),
        decreases v.len() - i,
    {
        let c = v[i];
        proof {
            let rest = v@.skip(i as int);
            assert(rest[0] == c);
            assert(rest.drop_first() =~= v@.skip(i + 1));
            if is_sigil(c) {
                assert(sigils@.push(c) + sigils_in(v@.skip(i + 1)) =~= sigils@ + (seq![c]
                    + sigils_in(v@.skip(i + 1))));
            }
        }
        if char_is_sigil(c) {
            sigils.push(c);
        }
        i += 1;
    }
    proof {
        let rest = v@.skip(i as int);
        if i < v.len() {
            assert(rest[0] == v@[i as int]);
        }
        assert(sigils@ + sigils_in(rest) =~= sigils@);
    }
    (sigils, string_of_range(&v, i, v.len()))
}

/// The token that one sigil leaves; see [`token`].
pub fn token_of(c: char) -> (r: &'static str)
    ensures
        r@ == token(c),
{
    if c == '@' {
        "_at_"
    } else if c == '_' {
        "_us_"
    } else {
        "_"
    }
}

/// The marker that the sigils `sigils` leave behind the name.
pub fn marker_of(sigils: &str) -> (r: String)
    ensures
        r@ == marker(sigils@),
{
    let v = chars_of(sigils);
    let mut out = String::new();
    let mut i: usize = 0;
    proof {
        assert(v@.skip(0) =~= v@);
        assert(out@ + marker(v@) =~= marker(v@));
    }
    while i < v.len()
        invariant
            i <= v.len(),
            marker(v@) == out@ + marker(v@.skip(i as int)),
        decreases v.len() - i,
    {
        let ghost before = out@;
        proof {
            let rest = v@.skip(i as int);
            assert(rest[0] == v@[i as int]);
            assert(rest.drop_first() =~= v@.skip(i + 1));
            assert(before + token(v@[i as int]) + marker(v@.skip(i + 1)) =~= before + (token(
                v@[i as int],
            ) + marker(v@.skip(i + 1))));
        }
        out.append(token_of(v[i]));
        i += 1;
    }
    proof {
        assert(out@ + marker(v@.skip(i as int)) =~= out@);
    }
    out
}

/// What [`leading`] counts is the whole run at the start and no more.
pub proof fn lemma_leading_bounds(s: Seq<char>, c: char)
    ensures
        leading(s, c) <= s.len(),
        forall|j: int| 0 <= j < leading(s, c) ==> #[trigger] s[j] == c,
        leading(s, c) < s.len() ==> s[leading(s, c) as int] != c,
    decreases s.len(),
{
    if s.len() > 0 && s[0] == c {
        let rest = s.drop_first();
        lemma_leading_bounds(rest, c);
        assert forall|j: int| 0 <= j < leading(s, c) implies #[trigger] s[j] == c by {
            if j > 0 {
                assert(rest[j - 1] == s[j]);
            }
        }
        if leading(s, c) < s.len() {
            assert(rest[leading(rest, c) as int] == s[leading(s, c) as int]);
        }
    }
}

/// What [`field_chars`] keeps may stand in a field name, and a text of such
/// characters alone is kept whole.
pub proof fn lemma_field_chars(s: Seq<char>)
    ensures
        forall|i: int|
            0 <= i < field_chars(s).len() ==> is_field_char(#[trigger] field_chars(s)[i]),
        (forall|i: int| 0 <= i < s.len() ==> is_field_char(#[trigger] s[i])) ==> field_chars(s)
            == s,
    decreases s.len(),
{
    reveal(Seq::filter);
    if s.len() > 0 {
        lemma_field_chars(s.drop_last());
        if forall|i: int| 0 <= i < s.len() ==> is_field_char(#[trigger] s[i]) {
            assert forall|i: int| 0 <= i < s.drop_last().len() implies is_field_char(
                #[trigger] s.drop_last()[i],
            ) by {
                assert(s.drop_last()[i] == s[i]);
            }
            assert(is_field_char(s[s.len() - 1]));
            assert(s.drop_last().push(s.last()) =~= s);
        }
    }
}

/// The result of [`legal_field_name`] is always a field name.
pub proof fn lemma_legal_field_name(cased: Seq<char>)
    ensures
        is_field_ident(legal_field_name(cased)),
{
    reveal_strlit("unnamed");
    reveal_strlit("n_");
    let f = field_chars(cased);
    lemma_field_chars(cased);
    lemma_leading_bounds(f, '_');
    let k = trimmed_start(f, '_');
    let r = legal_field_name(cased);
    assert forall|i: int| 0 <= i < k.len() implies is_field_char(#[trigger] k[i]) by {
        assert(k[i] == f[i + leading(f, '_')]);
    }
    if k.len() == 0 {
        assert(r[0] == 'u');
        assert(r[1] == 'n');
        assert(r[2] == 'n');
        assert(r[3] == 'a');
        assert(r[4] == 'm');
        assert(r[5] == 'e');
        assert(r[6] == 'd');
    } else if is_digit(k[0]) {
        assert(r[0] == 'n');
        assert(r[1] == '_');
        assert forall|i: int| 0 <= i < r.len() implies is_field_char(#[trigger] r[i]) by {
            if i > 1 {
                assert(r[i] == k[i - 2]);
            }
        }
    } else {
        assert(k[0] == f[leading(f, '_') as int]);
        assert(is_field_char(k[0]));
    }
}

/// A field name is its own legal form.
pub proof fn lemma_legal_field_name_fixed(name: Seq<char>)
    requires
        is_field_ident(name),
    ensures
        legal_field_name(name) == name,
{
    lemma_field_chars(name);
    assert(leading(name, '_') == 0);
    assert(name.skip(0) =~= name);
}

/// A legal field name made from `cased`; see [`legal_field_name`].
pub fn legalize_field_name(cased: &str) -> (r: String)
    ensures
        r@ == legal_field_name(cased@),
        is_field_ident(r@),
{
    let v = chars_of(cased);
    let mut kept = String::new();
    let mut i: usize = 0;
    while i < v.len()
        invariant
            i <= v.len(),
            kept@ == field_chars(v@.take(i as int)),
        decreases v.len() - i,
    {
        proof {
            reveal(Seq::filter);
            assert(v@.take(i + 1).drop_last() =~= v@.take(i as int));
        }
        let c = v[i];
        if char_is_letter(c) || char_is_digit(c) || c == '_' {
            kept.push(c);
        }
        i += 1;
    }
    proof {
        assert(v@.take(v@.len() as int) =~= v@);
        lemma_legal_field_name(cased@);
    }
    let k = trim_start_char(kept.as_str(), '_');
    let kv = chars_of(k.as_str());
    if kv.len() == 0 {
        String::from_str("unnamed")
    } else if char_is_digit(kv[0]) {
        concat2("n_", k.as_str())
    } else {
        k
    }
}

/// What is made of a name after its case has been normalized; see
/// [`settled`].
pub fn settle_field(cased: &str) -> (r: String)
    ensures
        r@ == settled(cased@),
{
    let legal = legalize_field_name(cased);
    finish_field(legal.as_str())
}

/// The name for the stem `stem`, before the marker of the sigils; see
/// [`base_name`].
pub fn base_of(stem: &str) -> (r: String)
    ensures
        r@ == base_name(stem@),
{
    if is_reserved_word(stem) {
        concat2(stem, "_")
    } else if str_eq(stem, "+1") {
        String::from_str("plus_one")
    } else if str_eq(stem, "-1") {
        String::from_str("minus_one")
    } else if ends_with_char(stem, '_') {
        String::from_str(stem)
    } else {
        let cased = to_snake_case(stem);
        settle_field(cased.as_str())
    }
}

/// The field name for the property `raw`: white space around it and all
/// sigils in front of it are taken off; the stem is named by the rules of
/// [`base_name`]; and each sigil that was taken off leaves its marker behind
/// the name.
pub fn field_name(raw: &str) -> (r: String)
    ensures
        r@ == field_name_of(raw@),
{
    let (sigils, stem) = split_sigils(raw);
    let base = base_of(stem.as_str());
    let mark = marker_of(sigils.as_str());
    concat2(base.as_str(), mark.as_str())
}

/// What [`after_lead`] leaves is the end of the text, and it does not start
/// with a sigil or with white space.
pub proof fn lemma_after_lead(t: Seq<char>)
    ensures
        after_lead(t).len() <= t.len(),
        after_lead(t) == t.skip(t.len() - after_lead(t).len()),
        after_lead(t).len() > 0 ==> !is_lead(after_lead(t)[0]),
    decreases t.len(),
{
    if t.len() > 0 && is_lead(t[0]) {
        let rest = t.drop_first();
        lemma_after_lead(rest);
        assert(rest.skip(rest.len() - after_lead(rest).len()) =~= t.skip(t.len() - after_lead(
            t,
        ).len()));
    } else {
        assert(t.skip(0) =~= t);
    }
}

/// The stem of a property name is empty, or it starts with neither a sigil
/// nor white space and does not end with white space.
pub proof fn lemma_stem_shape(raw: Seq<char>)
    ensures
        stem_of(raw).len() > 0 ==> !is_lead(stem_of(raw)[0]) && !is_space(stem_of(raw).last()),
{
    let t = without_trailing_spaces(raw);
    lemma_trailing_spaces_bounds(raw);
    lemma_after_lead(t);
    let r = stem_of(raw);
    if r.len() > 0 {
        assert(r.last() == t[t.len() - 1]);
        assert(t[t.len() - 1] == raw[raw.len() - trailing_spaces(raw) - 1]);
    }
}

/// A name without a sigil in front and without white space around it is its
/// own stem, and has no sigils.
pub proof fn lemma_plain_name(name: Seq<char>)
    requires
        name.len() > 0,
        !is_lead(name[0]),
        !is_space(name.last()),
    ensures
        stem_of(name) == name,
        sigils_of(name) == Seq::<char>::empty(),
{
    assert(trailing_spaces(name) == 0);
    assert(name.take(name.len() as int) =~= name);
}

/// The marker of at least one sigil is not empty and ends in `_`.
pub proof fn lemma_marker_shape(sigils: Seq<char>)
    requires
        sigils.len() > 0,
    ensures
        marker(sigils).len() > 0,
        marker(sigils).last() == '_',
    decreases sigils.len(),
{
    reveal_strlit("_at_");
    reveal_strlit("_us_");
    reveal_strlit("_");
    let rest = sigils.drop_first();
    let t = token(sigils[0]);
    assert(t.len() > 0 && t.last() == '_');
    if rest.len() > 0 {
        lemma_marker_shape(rest);
    }
}

/// No reserved word and neither of the names `+1` and `-1` ends in `_`.
pub proof fn lemma_marked_is_free(name: Seq<char>)
    requires
        keeps_case(name),
    ensures
        !is_reserved(name),
        name != "+1"@,
        name != "-1"@,
{
    reveal_strlit("ref");
    reveal_strlit("type");
    reveal_strlit("self");
    reveal_strlit("box");
    reveal_strlit("match");
    reveal_strlit("foo");
    reveal_strlit("enum");
    reveal_strlit("const");
    reveal_strlit("use");
    reveal_strlit("+1");
    reveal_strlit("-1");
    assert("ref"@.last() != '_');
    assert("type"@.last() != '_');
    assert("self"@.last() != '_');
    assert("box"@.last() != '_');
    assert("match"@.last() != '_');
    assert("foo"@.last() != '_');
    assert("enum"@.last() != '_');
    assert("const"@.last() != '_');
    assert("use"@.last() != '_');
    assert("+1"@.last() != '_');
    assert("-1"@.last() != '_');
}

/// Every reserved word starts with a small letter.
pub proof fn lemma_reserved_starts_with_letter(name: Seq<char>)
    requires
        is_reserved(name),
    ensures
        name.len() > 0,
        is_letter(name[0]),
{
    reveal_strlit("ref");
    reveal_strlit("type");
    reveal_strlit("self");
    reveal_strlit("box");
    reveal_strlit("match");
    reveal_strlit("foo");
    reveal_strlit("enum");
    reveal_strlit("const");
    reveal_strlit("use");
}

/// The two fixed replacements are field names.
pub proof fn lemma_replacements_are_names()
    ensures
        is_field_ident("plus_one"@),
        is_field_ident("minus_one"@),
        !is_reserved("plus_one"@),
        !is_reserved("minus_one"@),
{
    reveal_strlit("plus_one");
    reveal_strlit("minus_one");
    reveal_strlit("ref");
    reveal_strlit("type");
    reveal_strlit("self");
    reveal_strlit("box");
    reveal_strlit("match");
    reveal_strlit("foo");
    reveal_strlit("enum");
    reveal_strlit("const");
    reveal_strlit("use");
    let p = "plus_one"@;
    assert(p[0] == 'p' && p[1] == 'l' && p[2] == 'u' && p[3] == 's' && p[4] == '_' && p[5] == 'o'
        && p[6] == 'n' && p[7] == 'e');
    let m = "minus_one"@;
    assert(m[0] == 'm' && m[1] == 'i' && m[2] == 'n' && m[3] == 'u' && m[4] == 's' && m[5] == '_'
        && m[6] == 'o' && m[7] == 'n' && m[8] == 'e');
}

/// Whether a name is well shaped: it is not empty, starts with neither a
/// sigil nor white space, does not end with white space, is no reserved word
/// and neither `+1` nor `-1`, and it ends in `_` or is a field name.
pub open spec fn is_shaped(name: Seq<char>) -> bool {
    &&& name.len() > 0
    &&& !is_lead(name[0])
    &&& !is_space(name.last())
    &&& !is_reserved(name)
    &&& name != "+1"@
    &&& name != "-1"@
    &&& (keeps_case(name) || is_field_ident(name))
}

/// The name for a stem is well shaped, whatever the case normalizer returns.
pub proof fn lemma_base_shape(raw: Seq<char>)
    ensures
        is_shaped(base_name(stem_of(raw))),
{
    let stem = stem_of(raw);
    let b = base_name(stem);
    lemma_stem_shape(raw);
    reveal_strlit("_");
    reveal_strlit("+1");
    reveal_strlit("-1");
    if is_reserved(stem) {
        lemma_reserved_starts_with_letter(stem);
        assert(b.last() == '_');
        assert(b[0] == stem[0]);
        lemma_marked_is_free(b);
    } else if stem == "+1"@ || stem == "-1"@ {
        lemma_replacements_are_names();
        assert(is_field_char(b.last()));
    } else if keeps_case(stem) {
        lemma_marked_is_free(b);
    } else {
        let legal = legal_field_name(snake_case(stem));
        lemma_legal_field_name(snake_case(stem));
        if is_reserved(legal) {
            assert(b.last() == '_');
            assert(b[0] == legal[0]);
            lemma_marked_is_free(b);
        } else {
            assert(is_field_char(b.last()));
        }
    }
}

/// Whether a name is in the form that the rules for field names leave alone:
/// it is well shaped, and where it does not end in `_`, normalizing its case
/// does not change it.
pub open spec fn is_normalized(name: Seq<char>) -> bool {
    is_shaped(name) && (keeps_case(name) || snake_case(name) == name)
}

/// The rules for field names leave a normalized name as it is.
pub proof fn lemma_field_name_fixed(name: Seq<char>)
    requires
        is_normalized(name),
    ensures
        field_name_of(name) == name,
{
    lemma_plain_name(name);
    assert(marker(sigils_of(name)) =~= Seq::<char>::empty());
    if !keeps_case(name) {
        lemma_legal_field_name_fixed(name);
    }
    assert(base_name(name) + Seq::<char>::empty() =~= base_name(name));
}

/// The field name of every property is well shaped. Where sigils were taken
/// off, or the name ends in `_` for another reason, it is normalized, whatever
/// the case normalizer returns.
pub proof fn lemma_field_name_shape(raw: Seq<char>)
    ensures
        is_shaped(field_name_of(raw)),
        sigils_of(raw).len() > 0 ==> keeps_case(field_name_of(raw)),
        keeps_case(field_name_of(raw)) ==> is_normalized(field_name_of(raw)),
{
    let b = base_name(stem_of(raw));
    let m = marker(sigils_of(raw));
    let y = field_name_of(raw);
    lemma_base_shape(raw);
    assert(y[0] == b[0]);
    if sigils_of(raw).len() > 0 {
        lemma_marker_shape(sigils_of(raw));
        assert(y.last() == m.last());
        lemma_marked_is_free(y);
    } else {
        assert(m =~= Seq::<char>::empty());
        assert(y =~= b);
    }
}

/// The rules for field names are idempotent: applied to their own result
/// they change nothing. This holds of every property whose field name ends in
/// `_`, which every name with a sigil, every reserved word and every name
/// that is normalized into a reserved word does; and it holds of every other
/// property if the case normalizer leaves its own result as it is.
pub proof fn lemma_field_name_idempotent(raw: Seq<char>)
    requires
        keeps_case(field_name_of(raw)) || snake_case(field_name_of(raw)) == field_name_of(raw),
    ensures
        is_normalized(field_name_of(raw)),
        field_name_of(field_name_of(raw)) == field_name_of(raw),
{
    lemma_field_name_shape(raw);
    lemma_field_name_fixed(field_name_of(raw));
}

/// For a property with a sigil in front the rules for field names are
/// idempotent, whatever the case normalizer returns: all sigils are taken off
/// at once, and the marker they leave keeps the name as it is.
pub proof fn lemma_sigil_name_idempotent(raw: Seq<char>)
    requires
        sigils_of(raw).len() > 0,
    ensures
        is_normalized(field_name_of(raw)),
        field_name_of(field_name_of(raw)) == field_name_of(raw),
{
    lemma_field_name_shape(raw);
    lemma_field_name_idempotent(raw);
}

/// A reserved word gets the marker `_`, and the rules for field names leave
/// the marked word as it is.
pub proof fn lemma_reserved_name_idempotent(name: Seq<char>)
    requires
        is_reserved(name),
    ensures
        field_name_of(name) == name + "_"@,
        field_name_of(field_name_of(name)) == field_name_of(name),
{
    reveal_strlit("ref");
    reveal_strlit("type");
    reveal_strlit("self");
    reveal_strlit("box");
    reveal_strlit("match");
    reveal_strlit("foo");
    reveal_strlit("enum");
    reveal_strlit("const");
    reveal_strlit("use");
    reveal_strlit("_");
    lemma_reserved_starts_with_letter(name);
    assert(is_letter(name.last()));
    lemma_plain_name(name);
    assert(marker(sigils_of(name)) =~= Seq::<char>::empty());
    assert(field_name_of(name) =~= name + "_"@);
    assert(field_name_of(name).last() == '_');
    lemma_field_name_idempotent(name);
}

/// A sigil in front of a name is one more sigil in front of the same stem.
pub proof fn lemma_prepend_sigil(sigil: char, name: Seq<char>)
    requires
        is_sigil(sigil),
    ensures
        stem_of(seq![sigil] + name) == stem_of(name),
        sigils_of(seq![sigil] + name) == seq![sigil] + sigils_of(name),
{
    let whole = seq![sigil] + name;
    lemma_trailing_spaces_prepend(sigil, name);
    let t = without_trailing_spaces(name);
    let tw = without_trailing_spaces(whole);
    lemma_trailing_spaces_bounds(name);
    assert(tw =~= seq![sigil] + t);
    assert(tw[0] == sigil);
    assert(tw.drop_first() =~= t);
}

/// White space at the end of a name is the white space at the end of the
/// name behind a character that is none.
pub proof fn lemma_trailing_spaces_prepend(c: char, name: Seq<char>)
    requires
        !is_space(c),
    ensures
        trailing_spaces(seq![c] + name) == trailing_spaces(name),
    decreases name.len(),
{
    let whole = seq![c] + name;
    if name.len() == 0 {
        assert(whole.last() == c);
    } else {
        assert(whole.last() == name.last());
        if is_space(name.last()) {
            assert(whole.drop_last() =~= seq![c] + name.drop_last());
            lemma_trailing_spaces_prepend(c, name.drop_last());
        }
    }
}

/// Each kind of sigil leaves a marker of its own: for every name, the field
/// names of the name itself and of the name behind `@`, behind `_` and behind
/// `$` are four different names. So no two such properties of one record get
/// the same field name, whatever the case normalizer returns.
pub proof fn lemma_sigil_names_distinct(name: Seq<char>)
    ensures
        field_name_of(name) != field_name_of(seq!['@'] + name),
        field_name_of(name) != field_name_of(seq!['_'] + name),
        field_name_of(name) != field_name_of(seq!['$'] + name),
        field_name_of(seq!['@'] + name) != field_name_of(seq!['_'] + name),
        field_name_of(seq!['@'] + name) != field_name_of(seq!['$'] + name),
        field_name_of(seq!['_'] + name) != field_name_of(seq!['$'] + name),
{
    reveal_strlit("_at_");
    reveal_strlit("_us_");
    reveal_strlit("_");
    lemma_prepend_sigil('@', name);
    lemma_prepend_sigil('_', name);
    lemma_prepend_sigil('$', name);
    let b = base_name(stem_of(name));
    let s = sigils_of(name);
    let m = marker(s);
    assert((seq!['@'] + s).drop_first() =~= s);
    assert((seq!['_'] + s).drop_first() =~= s);
    assert((seq!['$'] + s).drop_first() =~= s);
    let at = field_name_of(seq!['@'] + name);
    let us = field_name_of(seq!['_'] + name);
    let ds = field_name_of(seq!['$'] + name);
    assert(at == b + ("_at_"@ + m));
    assert(us == b + ("_us_"@ + m));
    assert(ds == b + ("_"@ + m));
    assert(field_name_of(name).len() == b.len() + m.len());
    assert(at.len() == b.len() + m.len() + 4);
    assert(us.len() == b.len() + m.len() + 4);
    assert(ds.len() == b.len() + m.len() + 1);
    assert(at[b.len() as int + 1] == 'a');
    assert(us[b.len() as int + 1] == 'u');
}

/// Whether `c` is a letter of the basic Latin alphabet.
pub open spec fn is_letter(c: char) -> bool {
    ('a' <= c && c <= 'z') || ('A' <= c && c <= 'Z')
}

/// Whether `c` is one of the digits `0` to `9`.
pub open spec fn is_digit(c: char) -> bool {
    '0' <= c && c <= '9'
}

/// Whether `c` may stand in a type name.
pub open spec fn is_name_char(c: char) -> bool {
    is_letter(c) || is_digit(c)
}

/// Whether `c` is a letter of the basic Latin alphabet.
pub fn char_is_letter(c: char) -> (r: bool)
    ensures
        r == is_letter(c),
{
    ('a' <= c && c <= 'z') || ('A' <= c && c <= 'Z')
}

/// Whether `c` is one of the digits `0` to `9`.
pub fn char_is_digit(c: char) -> (r: bool)
    ensures
        r == is_digit(c),
{
    '0' <= c && c <= '9'
}

/// The characters of `s` that may stand in a type name, in order.
pub open spec fn name_chars(s: Seq<char>) -> Seq<char> {
    s.filter(|c: char| is_name_char(c))
}

/// A legal type name made from `cased`: the characters that may not stand in
/// a name are dropped; what then starts with a digit gets an `N` in front; an
/// empty rest is `Unnamed`; and `Self`, the one reserved word in this letter
/// case, gets the marker `_`.
pub open spec fn legal_type_name(cased: Seq<char>) -> Seq<char> {
    let k = name_chars(cased);
    if k.len() == 0 {
        "Unnamed"@
    } else if is_digit(k[0]) {
        "N"@ + k
    } else if k == "Self"@ {
        "Self_"@
    } else {
        k
    }
}

/// Whether `s` can be written down as the name of a type.
pub open spec fn is_type_name(s: Seq<char>) -> bool {
    &&& s.len() > 0
    &&& is_letter(s[0])
    &&& forall|i: int| 0 <= i < s.len() ==> is_name_char(#[trigger] s[i]) || s[i] == '_'
    &&& s != "Self"@
}

/// What [`name_chars`] keeps may stand in a type name, and a text of such
/// characters alone is kept whole.
pub proof fn lemma_name_chars(s: Seq<char>)
    ensures
        forall|i: int| 0 <= i < name_chars(s).len() ==> is_name_char(#[trigger] name_chars(s)[i]),
        name_chars(s).len() <= s.len(),
        (forall|i: int| 0 <= i < s.len() ==> is_name_char(#[trigger] s[i])) ==> name_chars(s) == s,
    decreases s.len(),
{
    let pred = |c: char| is_name_char(c);
    reveal(Seq::filter);
    if s.len() > 0 {
        lemma_name_chars(s.drop_last());
        if forall|i: int| 0 <= i < s.len() ==> is_name_char(#[trigger] s[i]) {
            assert(forall|i: int|
                0 <= i < s.drop_last().len() ==> is_name_char(#[trigger] s.drop_last()[i])) by {
                assert forall|i: int| 0 <= i < s.drop_last().len() implies is_name_char(
                    #[trigger] s.drop_last()[i],
                ) by {
                    assert(s.drop_last()[i] == s[i]);
                }
            }
            assert(is_name_char(s[s.len() - 1]));
            assert(s.drop_last().push(s.last()) =~= s);
        }
    }
}

/// The result of [`legal_type_name`] is always a type name.
pub proof fn lemma_legal_type_name(cased: Seq<char>)
    ensures
        is_type_name(legal_type_name(cased)),
{
    reveal_strlit("Unnamed");
    reveal_strlit("N");
    reveal_strlit("Self");
    reveal_strlit("Self_");
    lemma_name_chars(cased);
    let k = name_chars(cased);
    let r = legal_type_name(cased);
    if k.len() == 0 {
    } else if is_digit(k[0]) {
        assert(r[0] == 'N');
        assert forall|i: int| 0 <= i < r.len() implies is_name_char(#[trigger] r[i]) || r[i]
            == '_' by {
            if i > 0 {
                assert(r[i] == k[i - 1]);
            }
        }
        assert(r.len() >= 2);
    } else if k == "Self"@ {
    } else {
        assert(is_name_char(k[0]));
    }
}

/// A legal type name made from `cased`; see [`legal_type_name`].
pub fn legalize_type_name(cased: &str) -> (r: String)
    ensures
        r@ == legal_type_name(cased@),
        is_type_name(r@),
{
    let v = chars_of(cased);
    let mut k: Vec<char> = Vec::new();
    let mut i: usize = 0;
    while i < v.len()
        invariant
            i <= v.len(),
            k@ == name_chars(v@.take(i as int)),
        decreases v.len() - i,
    {
        proof {
            reveal(Seq::filter);
            assert(v@.take(i + 1).drop_last() =~= v@.take(i as int));
        }
        let c = v[i];
        if char_is_letter(c) || char_is_digit(c) {
            k.push(c);
        }
        i += 1;
    }
    proof {
        assert(v@.take(v@.len() as int) =~= v@);
        lemma_legal_type_name(cased@);
    }
    if k.len() == 0 {
        String::from_str("Unnamed")
    } else if char_is_digit(k[0]) {
        let ks = string_of(&k);
        concat2("N", ks.as_str())
    } else {
        let ks = string_of(&k);
        if str_eq(ks.as_str(), "Self") {
            String::from_str("Self_")
        } else {
            ks
        }
    }
}

/// The type name for the schema name `raw`.
pub open spec fn type_name_of(raw: Seq<char>) -> Seq<char> {
    legal_type_name(pascal_case(raw))
}

/// The type name for the schema name `raw`: its words capitalized and joined,
/// then made legal.
pub fn struct_name(raw: &str) -> (r: String)
    ensures
        r@ == type_name_of(raw@),
        is_type_name(r@),
{
    let cased = to_pascal_case(raw);
    legalize_type_name(cased.as_str())
}

} // verus!
