//! Writing lines of output.
//!
//! The emitted text is specified line by line: [`put`] is the text after one
//! more line, and the text of a definition is a chain of `put`.

use crate::text::replaced;
use vstd::prelude::*;
use vstd::string::*;

verus! {

/// The text `acc` followed by the line `s`.
pub open spec fn put(acc: Seq<char>, s: Seq<char>) -> Seq<char> {
    acc + s + seq!['\n']
}

/// The documentation line for `text`: every line of it behind `/// `.
pub open spec fn doc_line(text: Seq<char>) -> Seq<char> {
    "/// "@ + replaced(text, '\n', "\n/// "@)
}

/// The text `acc` followed by `docs` between the marks of a block of
/// documentation.
pub open spec fn put_docs(acc: Seq<char>, docs: Seq<char>) -> Seq<char> {
    put(put(put(acc, "/**"@), docs), "*/"@)
}

/// Writes the line `s` at the end of `out`.
pub fn put_line(out: &mut String, s: &str)
    ensures
        final(out)@ == put(old(out)@, s@),
{
    out.append(s);
    out.push('\n');
    assert(out@ =~= put(old(out)@, s@));
}

/// Writes the line made of `a` and `b` at the end of `out`.
pub fn put_line2(out: &mut String, a: &str, b: &str)
    ensures
        final(out)@ == put(old(out)@, a@ + b@),
{
    out.append(a);
    out.append(b);
    out.push('\n');
    assert(out@ =~= put(old(out)@, a@ + b@));
}

/// Writes the line made of the three parts at the end of `out`.
pub fn put_line3(out: &mut String, a: &str, b: &str, c: &str)
    ensures
        final(out)@ == put(old(out)@, a@ + b@ + c@),
{
    out.append(a);
    out.append(b);
    out.append(c);
    out.push('\n');
    assert(out@ =~= put(old(out)@, a@ + b@ + c@));
}

/// Writes the line made of the four parts at the end of `out`.
pub fn put_line4(out: &mut String, a: &str, b: &str, c: &str, d: &str)
    ensures
        final(out)@ == put(old(out)@, a@ + b@ + c@ + d@),
{
    out.append(a);
    out.append(b);
    out.append(c);
    out.append(d);
    out.push('\n');
    assert(out@ =~= put(old(out)@, a@ + b@ + c@ + d@));
}

/// Writes the line made of the five parts at the end of `out`.
pub fn put_line5(out: &mut String, a: &str, b: &str, c: &str, d: &str, e: &str)
    ensures
        final(out)@ == put(old(out)@, a@ + b@ + c@ + d@ + e@),
{
    out.append(a);
    out.append(b);
    out.append(c);
    out.append(d);
    out.append(e);
    out.push('\n');
    assert(out@ =~= put(old(out)@, a@ + b@ + c@ + d@ + e@));
}

/// Writes the line made of the seven parts at the end of `out`.
pub fn put_line7(
    out: &mut String,
    a: &str,
    b: &str,
    c: &str,
    d: &str,
    e: &str,
    f: &str,
    g: &str,
)
    ensures
        final(out)@ == put(old(out)@, a@ + b@ + c@ + d@ + e@ + f@ + g@),
{
    out.append(a);
    out.append(b);
    out.append(c);
    out.append(d);
    out.append(e);
    out.append(f);
    out.append(g);
    out.push('\n');
    assert(out@ =~= put(old(out)@, a@ + b@ + c@ + d@ + e@ + f@ + g@));
}

/// Writes `text` as documentation lines at the end of `out`.
pub fn put_doc_line(out: &mut String, text: &str)
    ensures
        final(out)@ == put(old(out)@, doc_line(text@)),
{
    let body = crate::text::replace_char(text, '\n', "\n/// ");
    put_line2(out, "/// ", body.as_str());
}

/// Writes `docs` as a block of documentation at the end of `out`.
pub fn put_doc_block(out: &mut String, docs: &str)
    ensures
        final(out)@ == put_docs(old(out)@, docs@),
{
    put_line(out, "/**");
    put_line(out, docs);
    put_line(out, "*/");
}

} // verus!
