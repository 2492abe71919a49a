//! Text primitives over character sequences.
//!
//! Every function here states its result over `Seq<char>`, the view of `str`
//! and `String`, so that the naming rules and the emitters can be specified
//! character by character.

use vstd::prelude::*;
use vstd::string::*;

verus! {

/// `String::push` appends one character at the end and changes nothing else.
pub assume_specification[ String::push ](s: &mut String, c: char)
    ensures
        final(s)@ == old(s)@.push(c),
;

/// The characters of `s`, in order.
pub fn chars_of(s: &str) -> (v: Vec<char>)
    ensures
        v@ == s@,
{
    let mut v: Vec<char> = Vec::new();
    for c in it: s.chars()
        invariant
            v@ == s@.take(it.index() as int),
            it.seq() == s@,
    {
        v.push(c);
    }
    v
}

/// The string made of the characters `v[from..to]`.
pub(crate) fn string_of_range(v: &Vec<char>, from: usize, to: usize) -> (s: String)
    requires
        from <= to <= v.len(),
    ensures
        s@ == v@.subrange(from as int, to as int),
{
    let mut s = String::new();
    let mut i: usize = from;
    while i < to
        invariant
            from <= i <= to <= v.len(),
            s@ == v@.subrange(from as int, i as int),
        decreases to - i,
    {
        s.push(v[i]);
        i += 1;
    }
    s
}

/// The string made of the characters of `v`, in order.
pub fn string_of(v: &Vec<char>) -> (s: String)
    ensures
        s@ == v@,
{
    string_of_range(v, 0, v.len())
}

/// `a` followed by `b`.
pub fn concat2(a: &str, b: &str) -> (s: String)
    ensures
        s@ == a@ + b@,
{
    let mut s = String::from_str(a);
    s.append(b);
    s
}

/// `a`, `b` and `c` one after the other.
pub fn concat3(a: &str, b: &str, c: &str) -> (s: String)
    ensures
        s@ == a@ + b@ + c@,
{
    let mut s = String::from_str(a);
    s.append(b);
    s.append(c);
    s
}

/// Whether `p` occurs in `v` at position `at`.
pub open spec fn occurs_at(v: Seq<char>, at: int, p: Seq<char>) -> bool {
    0 <= at && at + p.len() <= v.len() && v.subrange(at, at + p.len()) == p
}

/// Whether `p` occurs in `v` at position `at`.
pub fn vec_occurs_at(v: &Vec<char>, at: usize, p: &Vec<char>) -> (r: bool)
    ensures
        r == occurs_at(v@, at as int, p@),
{
    if at > v.len() || p.len() > v.len() - at {
        return false;
    }
    let mut j: usize = 0;
    while j < p.len()
        invariant
            at + p.len() <= v.len(),
            j <= p.len(),
            forall|k: int| 0 <= k < j ==> v@[at + k] == p@[k],
        decreases p.len() - j,
    {
        if v[at + j] != p[j] {
            proof {
                let w = v@.subrange(at as int, at + p.len());
                assert(w[j as int] == v@[at + j]);
            }
            return false;
        }
        j += 1;
    }
    assert(v@.subrange(at as int, at + p.len()) =~= p@);
    true
}

/// Whether the two texts hold the same characters.
pub fn str_eq(a: &str, b: &str) -> (r: bool)
    ensures
        r == (a@ == b@),
{
    let va = chars_of(a);
    let vb = chars_of(b);
    if va.len() != vb.len() {
        return false;
    }
    let r = vec_occurs_at(&va, 0, &vb);
    proof {
        assert(va@.subrange(0, va@.len() as int) =~= va@);
    }
    r
}

/// Whether `s` begins with `p`.
pub fn starts_with(s: &str, p: &str) -> (r: bool)
    ensures
        r == p@.is_prefix_of(s@),
{
    let vs = chars_of(s);
    let vp = chars_of(p);
    vec_occurs_at(&vs, 0, &vp)
}

/// Whether `s` ends with `p`.
pub fn ends_with(s: &str, p: &str) -> (r: bool)
    ensures
        r == p@.is_suffix_of(s@),
{
    let vs = chars_of(s);
    let vp = chars_of(p);
    if vp.len() > vs.len() {
        return false;
    }
    vec_occurs_at(&vs, vs.len() - vp.len(), &vp)
}

/// Whether the first character of `s` is `c`.
pub fn starts_with_char(s: &str, c: char) -> (r: bool)
    ensures
        r == (s@.len() > 0 && s@[0] == c),
{
    let vs = chars_of(s);
    vs.len() > 0 && vs[0] == c
}

/// Whether the last character of `s` is `c`.
pub fn ends_with_char(s: &str, c: char) -> (r: bool)
    ensures
        r == (s@.len() > 0 && s@.last() == c),
{
    let vs = chars_of(s);
    vs.len() > 0 && vs[vs.len() - 1] == c
}

/// `s` with every occurrence of the character `c` replaced by `with`.
pub open spec fn replaced(s: Seq<char>, c: char, with: Seq<char>) -> Seq<char>
    decreases s.len(),
{
    if s.len() == 0 {
        s
    } else if s.last() == c {
        replaced(s.drop_last(), c, with) + with
    } else {
        replaced(s.drop_last(), c, with).push(s.last())
    }
}

/// `s` with every occurrence of the character `c` replaced by `with`.
pub fn replace_char(s: &str, c: char, with: &str) -> (r: String)
    ensures
        r@ == replaced(s@, c, with@),
{
    let v = chars_of(s);
    let mut out = String::new();
    let mut i: usize = 0;
    while i < v.len()
        invariant
            i <= v.len(),
            out@ == replaced(v@.take(i as int), c, with@),
        decreases v.len() - i,
    {
        proof {
            assert(v@.take(i + 1).drop_last() =~= v@.take(i as int));
        }
        if v[i] == c {
            out.append(with);
        } else {
            out.push(v[i]);
        }
        i += 1;
    }
    proof {
        assert(v@.take(v@.len() as int) =~= v@);
    }
    out
}

/// How many times `c` stands at the very start of `s`.
pub open spec fn leading(s: Seq<char>, c: char) -> nat
    decreases s.len(),
{
    if s.len() > 0 && s[0] == c {
        1 + leading(s.drop_first(), c)
    } else {
        0
    }
}

/// How many times `c` stands at the very end of `s`.
pub open spec fn trailing(s: Seq<char>, c: char) -> nat
    decreases s.len(),
{
    if s.len() > 0 && s.last() == c {
        1 + trailing(s.drop_last(), c)
    } else {
        0
    }
}

/// `s` without the run of `c` at its start.
pub open spec fn trimmed_start(s: Seq<char>, c: char) -> Seq<char> {
    s.skip(leading(s, c) as int)
}

/// `s` without the run of `c` at its end.
pub open spec fn trimmed_end(s: Seq<char>, c: char) -> Seq<char> {
    s.take(s.len() - trailing(s, c))
}

proof fn lemma_leading(s: Seq<char>, c: char, n: int)
    requires
        0 <= n <= s.len(),
        forall|j: int| 0 <= j < n ==> s[j] == c,
        n == s.len() || s[n] != c,
    ensures
        leading(s, c) == n,
    decreases n,
{
    if n > 0 {
        lemma_leading(s.drop_first(), c, n - 1);
    }
}

proof fn lemma_trailing(s: Seq<char>, c: char, n: int)
    requires
        0 <= n <= s.len(),
        forall|j: int| s.len() - n <= j < s.len() ==> s[j] == c,
        n == s.len() || s[s.len() - n - 1] != c,
    ensures
        trailing(s, c) == n,
    decreases n,
{
    if n > 0 {
        lemma_trailing(s.drop_last(), c, n - 1);
    }
}

/// `s` without the run of `c` at its start.
pub fn trim_start_char(s: &str, c: char) -> (r: String)
    ensures
        r@ == trimmed_start(s@, c),
{
    let v = chars_of(s);
    let mut i: usize = 0;
    while i < v.len() && v[i] == c
        invariant
            i <= v.len(),
            forall|j: int| 0 <= j < i ==> v@[j] == c,
        decreases v.len() - i,
    {
        i += 1;
    }
    proof {
        lemma_leading(v@, c, i as int);
    }
    string_of_range(&v, i, v.len())
}

/// `s` without the run of `c` at its end.
pub fn trim_end_char(s: &str, c: char) -> (r: String)
    ensures
        r@ == trimmed_end(s@, c),
{
    let v = chars_of(s);
    let mut n: usize = v.len();
    while n > 0 && v[n - 1] == c
        invariant
            n <= v.len(),
            forall|j: int| n <= j < v.len() ==> v@[j] == c,
        decreases n,
    {
        n -= 1;
    }
    proof {
        lemma_trailing(v@, c, v.len() - n);
    }
    string_of_range(&v, 0, n)
}

/// `s` after `p` has been taken off its start as often as it stands there.
pub open spec fn without_prefix(s: Seq<char>, p: Seq<char>) -> Seq<char>
    decreases s.len(),
{
    if p.len() > 0 && occurs_at(s, 0, p) {
        without_prefix(s.skip(p.len() as int), p)
    } else {
        s
    }
}

proof fn lemma_occurs_in_rest(v: Seq<char>, i: int, p: Seq<char>)
    requires
        0 <= i <= v.len(),
    ensures
        occurs_at(v.skip(i), 0, p) == occurs_at(v, i, p),
        occurs_at(v, i, p) ==> v.skip(i).skip(p.len() as int) == v.skip(i + p.len()),
        i < v.len() ==> v.skip(i).drop_first() == v.skip(i + 1),
{
    let rest = v.skip(i);
    if i + p.len() <= v.len() {
        assert(rest.subrange(0, p.len() as int) =~= v.subrange(i, i + p.len()));
        assert(rest.skip(p.len() as int) =~= v.skip(i + p.len()));
    }
    if i < v.len() {
        assert(rest.drop_first() =~= v.skip(i + 1));
    }
}

/// `s` after `p` has been taken off its start as often as it stands there.
pub fn strip_prefix_all(s: &str, p: &str) -> (r: String)
    ensures
        r@ == without_prefix(s@, p@),
{
    let v = chars_of(s);
    let vp = chars_of(p);
    if vp.len() == 0 {
        return string_of(&v);
    }
    let mut i: usize = 0;
    let mut hit = vec_occurs_at(&v, 0, &vp);
    proof {
        assert(v@.skip(0) =~= v@);
        lemma_occurs_in_rest(v@, 0, vp@);
    }
    while hit
        invariant
            i <= v.len(),
            vp@.len() > 0,
            hit == occurs_at(v@.skip(i as int), 0, vp@),
            hit == occurs_at(v@, i as int, vp@),
            without_prefix(v@, vp@) == without_prefix(v@.skip(i as int), vp@),
        decreases v.len() - i,
    {
        proof {
            lemma_occurs_in_rest(v@, i as int, vp@);
        }
        i += vp.len();
        hit = vec_occurs_at(&v, i, &vp);
        proof {
            lemma_occurs_in_rest(v@, i as int, vp@);
        }
    }
    string_of_range(&v, i, v.len())
}

/// `s` with every occurrence of `p` taken out, scanning from the start.
pub open spec fn without(s: Seq<char>, p: Seq<char>) -> Seq<char>
    decreases s.len(),
{
    if p.len() == 0 || s.len() == 0 {
        s
    } else if occurs_at(s, 0, p) {
        without(s.skip(p.len() as int), p)
    } else {
        seq![s[0]] + without(s.drop_first(), p)
    }
}

/// `s` with every occurrence of `p` taken out, scanning from the start.
pub fn remove_all(s: &str, p: &str) -> (r: String)
    ensures
        r@ == without(s@, p@),
{
    let v = chars_of(s);
    let vp = chars_of(p);
    if vp.len() == 0 {
        return string_of(&v);
    }
    let mut out = String::new();
    let mut i: usize = 0;
    proof {
        assert(v@.skip(0) =~= v@);
        assert(out@ + without(v@, vp@) =~= without(v@, vp@));
    }
    while i < v.len()
        invariant
            i <= v.len(),
            vp@.len() > 0,
            without(v@, vp@) == out@ + without(v@.skip(i as int), vp@),
        decreases v.len() - i,
    {
        let hit = vec_occurs_at(&v, i, &vp);
        proof {
            lemma_occurs_in_rest(v@, i as int, vp@);
            let rest = v@.skip(i as int);
            if !hit {
                assert(out@.push(v@[i as int]) + without(v@.skip(i + 1), vp@) =~= out@ + (
                seq![rest[0]] + without(rest.drop_first(), vp@)));
            }
        }
        if hit {
            i += vp.len();
        } else {
            out.push(v[i]);
            i += 1;
        }
    }
    proof {
        assert(out@ + without(v@.skip(i as int), vp@) =~= out@);
    }
    out
}

/// The characters that count as white space: those that carry the Unicode
/// property of that name.
pub open spec fn is_space(c: char) -> bool {
    let n = c as u32;
    ||| 0x09 <= n <= 0x0d
    ||| n == 0x20
    ||| n == 0x85
    ||| n == 0xa0
    ||| n == 0x1680
    ||| 0x2000 <= n <= 0x200a
    ||| n == 0x2028
    ||| n == 0x2029
    ||| n == 0x202f
    ||| n == 0x205f
    ||| n == 0x3000
}

/// Whether `c` counts as white space.
pub fn char_is_space(c: char) -> (r: bool)
    ensures
        r == is_space(c),
{
    let n = c as u32;
    (0x09 <= n && n <= 0x0d) || n == 0x20 || n == 0x85 || n == 0xa0 || n == 0x1680 || (0x2000 <= n
        && n <= 0x200a) || n == 0x2028 || n == 0x2029 || n == 0x202f || n == 0x205f || n == 0x3000
}

/// How many white-space characters stand at the very start of `s`.
pub open spec fn leading_spaces(s: Seq<char>) -> nat
    decreases s.len(),
{
    if s.len() > 0 && is_space(s[0]) {
        1 + leading_spaces(s.drop_first())
    } else {
        0
    }
}

/// How many white-space characters stand at the very end of `s`.
pub open spec fn trailing_spaces(s: Seq<char>) -> nat
    decreases s.len(),
{
    if s.len() > 0 && is_space(s.last()) {
        1 + trailing_spaces(s.drop_last())
    } else {
        0
    }
}

/// `s` without the white space at its start and at its end.
pub open spec fn trimmed(s: Seq<char>) -> Seq<char> {
    let rest = s.skip(leading_spaces(s) as int);
    rest.take(rest.len() - trailing_spaces(rest))
}

proof fn lemma_leading_spaces(s: Seq<char>, n: int)
    requires
        0 <= n <= s.len(),
        forall|j: int| 0 <= j < n ==> is_space(s[j]),
        n == s.len() || !is_space(s[n]),
    ensures
        leading_spaces(s) == n,
    decreases n,
{
    if n > 0 {
        lemma_leading_spaces(s.drop_first(), n - 1);
    }
}

proof fn lemma_trailing_spaces(s: Seq<char>, n: int)
    requires
        0 <= n <= s.len(),
        forall|j: int| s.len() - n <= j < s.len() ==> is_space(s[j]),
        n == s.len() || !is_space(s[s.len() - n - 1]),
    ensures
        trailing_spaces(s) == n,
    decreases n,
{
    if n > 0 {
        lemma_trailing_spaces(s.drop_last(), n - 1);
    }
}

/// `s` without the white space at its start and at its end.
pub fn trim(s: &str) -> (r: String)
    ensures
        r@ == trimmed(s@),
{
    let v = chars_of(s);
    let mut i: usize = 0;
    while i < v.len() && char_is_space(v[i])
        invariant
            i <= v.len(),
            forall|j: int| 0 <= j < i ==> is_space(v@[j]),
        decreases v.len() - i,
    {
        i += 1;
    }
    let mut n: usize = v.len();
    while n > i && char_is_space(v[n - 1])
        invariant
            i <= n <= v.len(),
            forall|j: int| n <= j < v.len() ==> is_space(v@[j]),
        decreases n,
    {
        n -= 1;
    }
    proof {
        lemma_leading_spaces(v@, i as int);
        let rest = v@.skip(i as int);
        assert(forall|j: int| n - i <= j < rest.len() ==> rest[j] == v@[j + i]);
        lemma_trailing_spaces(rest, v.len() - n);
        assert(rest.take(n - i) =~= v@.subrange(i as int, n as int));
    }
    string_of_range(&v, i, n)
}

/// `s` without the white space at its end.
pub open spec fn without_trailing_spaces(s: Seq<char>) -> Seq<char> {
    s.take(s.len() - trailing_spaces(s))
}

/// What [`trailing_spaces`] counts is the whole run of white space at the end
/// and no more.
pub proof fn lemma_trailing_spaces_bounds(s: Seq<char>)
    ensures
        trailing_spaces(s) <= s.len(),
        forall|j: int| s.len() - trailing_spaces(s) <= j < s.len() ==> is_space(#[trigger] s[j]),
        trailing_spaces(s) < s.len() ==> !is_space(s[s.len() - trailing_spaces(s) - 1]),
    decreases s.len(),
{
    if s.len() > 0 && is_space(s.last()) {
        let front = s.drop_last();
        lemma_trailing_spaces_bounds(front);
        assert forall|j: int| s.len() - trailing_spaces(s) <= j < s.len() implies is_space(
            #[trigger] s[j],
        ) by {
            if j < front.len() {
                assert(front[j] == s[j]);
            }
        }
        if trailing_spaces(s) < s.len() {
            assert(front[front.len() - trailing_spaces(front) - 1] == s[s.len() - trailing_spaces(
                s,
            ) - 1]);
        }
    }
}

/// `s` without the white space at its end.
pub fn trim_trailing_spaces(s: &str) -> (r: String)
    ensures
        r@ == without_trailing_spaces(s@),
{
    let v = chars_of(s);
    let mut n: usize = v.len();
    while n > 0 && char_is_space(v[n - 1])
        invariant
            n <= v.len(),
            forall|j: int| n <= j < v.len() ==> is_space(v@[j]),
        decreases n,
    {
        n -= 1;
    }
    proof {
        lemma_trailing_spaces(v@, v.len() - n);
        assert(v@.take(n as int) =~= v@.subrange(0, n as int));
    }
    string_of_range(&v, 0, n)
}

/// The decimal digit for `d`, which is below ten.
pub open spec fn digit(d: nat) -> char {
    if d == 0 {
        '0'
    } else if d == 1 {
        '1'
    } else if d == 2 {
        '2'
    } else if d == 3 {
        '3'
    } else if d == 4 {
        '4'
    } else if d == 5 {
        '5'
    } else if d == 6 {
        '6'
    } else if d == 7 {
        '7'
    } else if d == 8 {
        '8'
    } else {
        '9'
    }
}

/// `n` written in base ten, without leading zeros.
pub open spec fn decimal(n: nat) -> Seq<char>
    decreases n,
{
    if n < 10 {
        seq![digit(n)]
    } else {
        decimal(n / 10).push(digit(n % 10))
    }
}

fn digit_char(d: u64) -> (c: char)
    requires
        d < 10,
    ensures
        c == digit(d as nat),
{
    if d == 0 {
        '0'
    } else if d == 1 {
        '1'
    } else if d == 2 {
        '2'
    } else if d == 3 {
        '3'
    } else if d == 4 {
        '4'
    } else if d == 5 {
        '5'
    } else if d == 6 {
        '6'
    } else if d == 7 {
        '7'
    } else if d == 8 {
        '8'
    } else {
        '9'
    }
}

/// `n` written in base ten, without leading zeros.
pub fn decimal_string(n: u64) -> (s: String)
    ensures
        s@ == decimal(n as nat),
    decreases n,
{
    if n < 10 {
        let mut s = String::new();
        s.push(digit_char(n));
        assert(s@ =~= seq![digit(n as nat)]);
        s
    } else {
        let mut s = decimal_string(n / 10);
        s.push(digit_char(n % 10));
        s
    }
}

} // verus!
