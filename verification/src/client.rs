//! What every endpoint group shares: the client's settings, the description
//! of a request, the encoding of paths and queries, and the paging rule.
//!
//! Nothing here sends anything. An endpoint method computes the request; the
//! caller sends it and, for a listing, tells the [`Pager`] which page token
//! came back.

use crate::text::{chars_of, concat2, concat3, decimal, decimal_string, digit, str_eq};
use vstd::prelude::*;
use vstd::string::*;
use vstd::utf8::encode_utf8;

verus! {

/// The settings of a client: the host it talks to and the token it shows.
#[derive(Clone, Debug, PartialEq, Eq)]
pub struct Client {
    pub host: String,
    pub token: String,
}

impl Client {
    /// A client for `host` that authenticates with `token`.
    pub fn new(token: &str, host: &str) -> (c: Client)
        ensures
            c.token@ == token@,
            c.host@ == host@,
    {
        Client { host: String::from_str(host), token: String::from_str(token) }
    }

    /// The address of `path` on the client's host.
    pub fn url(&self, path: &str) -> (r: String)
        ensures
            r@ == self.host@ + path@,
    {
        concat2(self.host.as_str(), path)
    }
}

/// The verb of a request.
#[derive(Clone, Copy, Debug, PartialEq, Eq, Structural)]
pub enum Method {
    Get,
    Put,
    Post,
    Delete,
}

/// A request that is ready to be sent: its verb, the path with the query, and
/// the body, if it has one.
#[derive(Debug, PartialEq, Eq)]
pub struct Request {
    pub method: Method,
    pub url: String,
    pub body: Option<Vec<u8>>,
}

/// The hexadecimal digit for `n`, which is below sixteen, in upper case.
pub open spec fn hex_digit(n: u8) -> char {
    if n < 10 {
        digit(n as nat)
    } else if n == 10 {
        'A'
    } else if n == 11 {
        'B'
    } else if n == 12 {
        'C'
    } else if n == 13 {
        'D'
    } else if n == 14 {
        'E'
    } else {
        'F'
    }
}

/// Whether the byte stands for itself in a path segment: a printable ASCII
/// character other than the space and `"`, `#`, `%`, `/`, `<`, `>`, `?`,
/// `` ` ``, `{` and `}`. So a segment stays one segment, and what is encoded
/// can be told from what was there.
pub open spec fn is_path_safe(b: u8) -> bool {
    0x20 < b && b < 0x7f && b != 0x22 && b != 0x23 && b != 0x25 && b != 0x2f && b != 0x3c && b
        != 0x3e && b != 0x3f && b != 0x60 && b != 0x7b && b != 0x7d
}

/// What stands for the byte `b` in a path segment: the byte itself, or `%`
/// and its two hexadecimal digits.
pub open spec fn percent_piece(b: u8) -> Seq<char> {
    if is_path_safe(b) {
        seq![b as char]
    } else {
        seq!['%', hex_digit(b / 16), hex_digit(b % 16)]
    }
}

/// The first `n` bytes of `bytes` as they stand in a path segment.
pub open spec fn percent_encoded(bytes: Seq<u8>, n: nat) -> Seq<char>
    decreases n,
{
    if n == 0 || n > bytes.len() {
        Seq::empty()
    } else {
        percent_encoded(bytes, (n - 1) as nat) + percent_piece(bytes[n - 1])
    }
}

/// The text `s` as one segment of a path: its UTF-8 bytes, each as it stands
/// in a path segment.
pub open spec fn encoded_path(s: Seq<char>) -> Seq<char> {
    percent_encoded(encode_utf8(s), encode_utf8(s).len())
}

fn hex_char(n: u8) -> (c: char)
    requires
        n < 16,
    ensures
        c == hex_digit(n),
{
    if n == 0 {
        '0'
    } else if n == 1 {
        '1'
    } else if n == 2 {
        '2'
    } else if n == 3 {
        '3'
    } else if n == 4 {
        '4'
    } else if n == 5 {
        '5'
    } else if n == 6 {
        '6'
    } else if n == 7 {
        '7'
    } else if n == 8 {
        '8'
    } else if n == 9 {
        '9'
    } else if n == 10 {
        'A'
    } else if n == 11 {
        'B'
    } else if n == 12 {
        'C'
    } else if n == 13 {
        'D'
    } else if n == 14 {
        'E'
    } else {
        'F'
    }
}

/// The text `s` as one segment of a path.
pub fn encode_path(s: &str) -> (r: String)
    ensures
        r@ == encoded_path(s@),
{
    let bytes = s.as_bytes();
    let mut out = String::new();
    let mut i: usize = 0;
    while i < bytes.len()
        invariant
            i <= bytes.len(),
            bytes@ == encode_utf8(s@),
            out@ == percent_encoded(bytes@, i as nat),
        decreases bytes.len() - i,
    {
        let b = bytes[i];
        let ghost before = out@;
        if 0x20 < b && b < 0x7f && b != 0x22 && b != 0x23 && b != 0x25 && b != 0x2f && b != 0x3c
            && b != 0x3e && b != 0x3f && b != 0x60 && b != 0x7b && b != 0x7d {
            out.push(b as char);
            assert(out@ =~= before + percent_piece(b));
        } else {
            out.push('%');
            out.push(hex_char(b / 16));
            out.push(hex_char(b % 16));
            assert(out@ =~= before + percent_piece(b));
        }
        i += 1;
    }
    out
}

/// What `serde_urlencoded::to_string` returns for a list of pairs of texts:
/// the pairs in the form of a query.
pub uninterp spec fn urlencoded(pairs: Seq<(Seq<char>, Seq<char>)>) -> Seq<char>;

/// The failure of `serde_urlencoded::to_string`, of which nothing is read.
#[verifier::external_type_specification]
#[verifier::external_body]
pub struct ExQueryEncodingError(serde_urlencoded::ser::Error);

/// Calls `serde_urlencoded::to_string` on the pairs. That function reads
/// nothing but its argument, so the text it returns is a function of the
/// pairs alone. For a list of pairs of texts it has no failure case: the list
/// is written as a sequence; each element goes to the pair serializer, which
/// takes a tuple of two; a text is taken as key and a text is taken as value;
/// and the pair is done after both.
#[verifier::external_body]
fn urlencode(pairs: &Vec<(String, String)>) -> (r: Result<String, serde_urlencoded::ser::Error>)
    ensures
        r is Ok,
        r matches Ok(s) ==> s@ == urlencoded(pairs.deep_view()),
{
    serde_urlencoded::to_string(pairs)
}

/// The pairs in the form of a query.
pub fn encode_query(pairs: &Vec<(String, String)>) -> (r: String)
    ensures
        r@ == urlencoded(pairs.deep_view()),
{
    match urlencode(pairs) {
        Ok(s) => s,
        Err(_) => unreached(),
    }
}

/// The address of `path` with the arguments `args` as its query.
pub open spec fn address_with(path: Seq<char>, args: Seq<(Seq<char>, Seq<char>)>) -> Seq<char> {
    path + "?"@ + urlencoded(args)
}

/// The pair of a key and a value.
pub open spec fn pair(key: Seq<char>, value: Seq<char>) -> (Seq<char>, Seq<char>) {
    (key, value)
}

/// `pairs` with the pair of `key` and `value` at its end, if the value is
/// not empty.
pub open spec fn with_arg(pairs: Seq<(Seq<char>, Seq<char>)>, key: Seq<char>, value: Seq<char>)
    -> Seq<(Seq<char>, Seq<char>)> {
    if value.len() > 0 {
        pairs.push(pair(key, value))
    } else {
        pairs
    }
}

/// The arguments of a request for one page: the limit, then the page token
/// and the sort mode where they are not empty.
pub open spec fn page_args(limit: u32, page_token: Seq<char>, sort_by: Seq<char>) -> Seq<
    (Seq<char>, Seq<char>),
> {
    with_arg(
        with_arg(
            with_arg(Seq::empty(), "limit"@, decimal(limit as nat)),
            "page_token"@,
            page_token,
        ),
        "sort_by"@,
        sort_by,
    )
}

/// The arguments of a request for all pages: the sort mode where it is not
/// empty.
pub open spec fn all_args(sort_by: Seq<char>) -> Seq<(Seq<char>, Seq<char>)> {
    with_arg(Seq::empty(), "sort_by"@, sort_by)
}

/// Adds the pair of `key` and `value` to `pairs` if the value is not empty.
pub fn push_arg(pairs: &mut Vec<(String, String)>, key: &str, value: &str)
    ensures
        final(pairs).deep_view() == with_arg(old(pairs).deep_view(), key@, value@),
{
    if !value.is_empty() {
        let ghost before = pairs.deep_view();
        pairs.push((String::from_str(key), String::from_str(value)));
        assert(pairs.deep_view() =~= before.push(pair(key@, value@)));
    }
}

/// The arguments of a request for one page.
pub fn page_query(limit: u32, page_token: &str, sort_by: &str) -> (r: Vec<(String, String)>)
    ensures
        r.deep_view() == page_args(limit, page_token@, sort_by@),
{
    let mut pairs: Vec<(String, String)> = Vec::new();
    assert(pairs.deep_view() =~= Seq::<(Seq<char>, Seq<char>)>::empty());
    let shown = decimal_string(limit as u64);
    push_arg(&mut pairs, "limit", shown.as_str());
    push_arg(&mut pairs, "page_token", page_token);
    push_arg(&mut pairs, "sort_by", sort_by);
    pairs
}

/// The arguments of a request for all pages.
pub fn all_query(sort_by: &str) -> (r: Vec<(String, String)>)
    ensures
        r.deep_view() == all_args(sort_by@),
{
    let mut pairs: Vec<(String, String)> = Vec::new();
    assert(pairs.deep_view() =~= Seq::<(Seq<char>, Seq<char>)>::empty());
    push_arg(&mut pairs, "sort_by", sort_by);
    pairs
}

/// The request that reads `path` with the query `query`.
pub fn get_with_query(path: &str, query: &str) -> (r: Request)
    ensures
        r.method == Method::Get,
        r.url@ == path@ + "?"@ + query@,
        r.body is None,
{
    Request { method: Method::Get, url: concat3(path, "?", query), body: None }
}

/// The request with the verb `method` for `path`, with the body `body`.
pub fn plain_request(method: Method, path: String, body: Option<Vec<u8>>) -> (r: Request)
    ensures
        r.method == method,
        r.url == path,
        r.body == body,
{
    Request { method, url: path, body }
}

/// Whether `c` occurs in `s`.
pub fn contains_char(s: &str, c: char) -> (r: bool)
    ensures
        r == s@.contains(c),
{
    let v = chars_of(s);
    let mut i: usize = 0;
    while i < v.len()
        invariant
            i <= v.len(),
            v@ == s@,
            forall|j: int| 0 <= j < i ==> v@[j] != c,
        decreases v.len() - i,
    {
        if v[i] == c {
            assert(s@[i as int] == c);
            return true;
        }
        i += 1;
    }
    false
}

/// Where a listing stands: the address of the listing and the token of the
/// page to read next, which is empty when there is none.
#[derive(Debug, PartialEq, Eq)]
pub struct Pager {
    pub url: String,
    pub page: String,
}

/// The address of the page `page` of the listing at `url`.
pub open spec fn page_url(url: Seq<char>, page: Seq<char>) -> Seq<char> {
    if url.contains('?') {
        url + "&page="@ + page
    } else {
        url + "?page="@ + page
    }
}

/// The token to read after the page `page`, when the response to it names
/// `next_page`: that token, unless it is empty or names the same page again,
/// which both end the listing.
pub open spec fn following_page(page: Seq<char>, next_page: Seq<char>) -> Seq<char> {
    if next_page.len() > 0 && next_page != page {
        next_page
    } else {
        Seq::empty()
    }
}

impl Pager {
    /// The state after the first page of the listing at `url`, whose response
    /// named `next_page`.
    pub fn start(url: &str, next_page: &str) -> (p: Pager)
        ensures
            p.url@ == url@,
            p.page@ == next_page@,
    {
        Pager { url: String::from_str(url), page: String::from_str(next_page) }
    }

    /// Whether every page has been read.
    pub fn is_done(&self) -> (r: bool)
        ensures
            r == (self.page@.len() == 0),
    {
        self.page.as_str().is_empty()
    }

    /// The request for the next page; none when every page has been read.
    pub fn next_request(&self) -> (r: Option<Request>)
        ensures
            match r {
                Some(req) => self.page@.len() > 0 && req.method == Method::Get && req.url@
                    == page_url(self.url@, self.page@) && req.body is None,
                None => self.page@.len() == 0,
            },
    {
        if self.page.as_str().is_empty() {
            None
        } else {
            let url = if contains_char(self.url.as_str(), '?') {
                concat3(self.url.as_str(), "&page=", self.page.as_str())
            } else {
                concat3(self.url.as_str(), "?page=", self.page.as_str())
            };
            Some(Request { method: Method::Get, url, body: None })
        }
    }

    /// Takes note of the token that the response to the last request named.
    pub fn advance(&mut self, next_page: &str)
        ensures
            final(self).url == old(self).url,
            final(self).page@ == following_page(old(self).page@, next_page@),
    {
        if !next_page.is_empty() && !str_eq(next_page, self.page.as_str()) {
            self.page = String::from_str(next_page);
        } else {
            self.page = String::new();
        }
    }
}

} // verus!
