//! The request as the transport layer hands it over, and the extraction of
//! the hostname and address fields from a raw query string.
use vstd::prelude::*;
use crate::chars::{chars_of, slice_of};
use crate::ip::{ip_literal, is_ip_literal};

verus! {

/// The HTTP method of a request.
#[derive(Debug, Clone, Copy, PartialEq, Eq, Structural)]
pub enum RequestMethod {
    Invalid,
    Get,
    Post,
}

impl Default for RequestMethod {
    fn default() -> (r: RequestMethod)
        ensures
            r == RequestMethod::Invalid,
    {
        RequestMethod::Invalid
    }
}

/// One request: where it came from, its method, and the fields taken from
/// its query string (empty when not supplied).
#[derive(Debug)]
pub struct Request {
    pub remote_address: String,
    pub method: RequestMethod,
    pub host: String,
    pub ip: String,
    pub debug: bool,
}

/// Whether `c` is a Unicode word character: Alphabetic, Join_Control,
/// Decimal_Number, Mark or Connector_Punctuation.
pub uninterp spec fn is_word_char(c: char) -> bool;

/// Relies on regex_syntax::is_word_character: the Unicode word class that
/// `\w` matches, which on ASCII is `[_0-9a-zA-Z]`. It cannot panic with the
/// `unicode-perl` feature on.
#[verifier::external_body]
pub(crate) fn word_char(c: char) -> (r: bool)
    ensures
        r == is_word_char(c),
        (c as u32) < 128 ==> (r == (('a' <= c && c <= 'z') || ('A' <= c && c <= 'Z') || ('0' <= c && c <= '9')
            || c == '_')),
{
    regex_syntax::is_word_character(c)
}

/// The characters a field value may hold.
#[derive(Debug, Clone, Copy, PartialEq, Eq, Structural)]
pub enum TokenClass {
    /// Unicode word characters, as `\w` matches them.
    Word,
    /// Address characters: hex digits, `.` and `:`.
    Address,
}

pub open spec fn in_class(c: char, k: TokenClass) -> bool {
    match k {
        TokenClass::Word => is_word_char(c),
        TokenClass::Address => ('0' <= c && c <= '9') || ('a' <= c && c <= 'f') || ('A' <= c && c <= 'F')
            || c == '.' || c == ':',
    }
}

/// A field starts at `i`: `key` stands there, followed by a character of
/// class `k`.
pub open spec fn key_at(s: Seq<char>, key: Seq<char>, k: TokenClass, i: int) -> bool {
    &&& 0 <= i
    &&& i + key.len() < s.len()
    &&& s.subrange(i, i + key.len()) == key
    &&& in_class(s[i + key.len()], k)
}

/// The first position at or after `from` where a field starts.
pub open spec fn first_field(s: Seq<char>, key: Seq<char>, k: TokenClass, from: int) -> Option<int>
    decreases s.len() - from,
{
    if from < 0 || from >= s.len() {
        None
    } else if key_at(s, key, k, from) {
        Some(from)
    } else {
        first_field(s, key, k, from + 1)
    }
}

/// Where the run of class-`k` characters that starts at `j` ends.
pub open spec fn run_end(s: Seq<char>, k: TokenClass, j: int) -> int
    decreases s.len() - j,
{
    if j < 0 || j >= s.len() || !in_class(s[j], k) {
        j
    } else {
        run_end(s, k, j + 1)
    }
}

/// The value of the first field `key` in `s`: the whole run of class-`k`
/// characters after it, or empty when there is no such field or the run is
/// longer than `bound`.
pub open spec fn field_token(s: Seq<char>, key: Seq<char>, k: TokenClass, bound: int) -> Seq<char> {
    match first_field(s, key, k, 0) {
        Some(i) => {
            let b = i + key.len();
            let e = run_end(s, k, b);
            if e - b <= bound {
                s.subrange(b, e)
            } else {
                Seq::empty()
            }
        },
        None => Seq::empty(),
    }
}

pub open spec fn host_key() -> Seq<char> {
    seq!['h', 'o', 's', 't', '=']
}

pub open spec fn ip_key() -> Seq<char> {
    seq!['i', 'p', '=']
}

/// The longest hostname label that is taken.
pub const MAX_HOST_LEN: usize = 63;

/// The longest address text that is taken.
pub const MAX_ADDRESS_LEN: usize = 45;

/// The hostname field of a query string, or empty.
pub open spec fn host_field(s: Seq<char>) -> Seq<char> {
    field_token(s, host_key(), TokenClass::Word, MAX_HOST_LEN as int)
}

/// The address field of a query string when it is a strict IP literal, or
/// empty.
pub open spec fn address_field(s: Seq<char>) -> Seq<char> {
    let t = field_token(s, ip_key(), TokenClass::Address, MAX_ADDRESS_LEN as int);
    if is_ip_literal(t) {
        t
    } else {
        Seq::empty()
    }
}

fn class_has(c: char, k: TokenClass) -> (r: bool)
    ensures
        r == in_class(c, k),
{
    match k {
        TokenClass::Word => word_char(c),
        TokenClass::Address => ('0' <= c && c <= '9') || ('a' <= c && c <= 'f') || ('A' <= c && c <= 'F')
            || c == '.' || c == ':',
    }
}

fn field_at(s: &Vec<char>, key: &Vec<char>, k: TokenClass, i: usize) -> (r: bool)
    requires
        i < s.len(),
    ensures
        r == key_at(s@, key@, k, i as int),
{
    if s.len() - i <= key.len() {
        return false;
    }
    let mut j: usize = 0;
    while j < key.len()
        invariant
            i + key.len() < s.len(),
            j <= key.len(),
            forall|m: int| 0 <= m < j ==> s@[i + m] == key@[m],
        decreases key.len() - j,
    {
        if s[i + j] != key[j] {
            assert(s@.subrange(i as int, i + key.len())[j as int] != key@[j as int]);
            return false;
        }
        j += 1;
    }
    assert(s@.subrange(i as int, i + key.len()) =~= key@);
    class_has(s[i + key.len()], k)
}

/// Where the value of the first field `key` in `s` starts and ends.
fn find_field(s: &Vec<char>, key: &Vec<char>, k: TokenClass) -> (r: Option<(usize, usize)>)
    ensures
        match first_field(s@, key@, k, 0) {
            Some(i) => r matches Some((b, e)) && b == i + key@.len() && e == run_end(s@, k, b as int)
                && b <= e <= s.len(),
            None => r is None,
        },
{
    let mut i: usize = 0;
    while i < s.len()
        invariant
            i <= s.len(),
            first_field(s@, key@, k, 0) == first_field(s@, key@, k, i as int),
        decreases s.len() - i,
    {
        if field_at(s, key, k, i) {
            let b = i + key.len();
            let mut e: usize = b;
            while e < s.len() && class_has(s[e], k)
                invariant
                    b <= e <= s.len(),
                    run_end(s@, k, b as int) == run_end(s@, k, e as int),
                decreases s.len() - e,
            {
                e += 1;
            }
            return Some((b, e));
        }
        i += 1;
    }
    None
}

/// The value of the first field `key` in `q`, as `field_token` describes.
fn extract(q: &str, key: &Vec<char>, k: TokenClass, bound: usize) -> (r: String)
    ensures
        r@ == field_token(q@, key@, k, bound as int),
{
    let s = chars_of(q);
    match find_field(&s, key, k) {
        Some((b, e)) => {
            if e - b <= bound {
                String::from_str(q.substring_char(b, e))
            } else {
                String::new()
            }
        },
        None => String::new(),
    }
}

/// The hostname given as `host=<label>` in a query string: the run of Unicode word
/// characters after the first `host=` that a word character follows, or an
/// empty string when there is none or the run is longer than a DNS label.
pub fn parse_host_from_query_string(query_str: &str) -> (r: String)
    ensures
        r@ == host_field(query_str@),
{
    let key: Vec<char> = vec!['h', 'o', 's', 't', '='];
    assert(key@ =~= host_key());
    extract(query_str, &key, TokenClass::Word, MAX_HOST_LEN)
}

/// The address given as `ip=<literal>` in a query string: the run of hex
/// digits, dots and colons after the first `ip=` that one of them follows,
/// when it is at most 45 characters long and a strict IPv4 or IPv6 literal;
/// otherwise an empty string.
pub fn parse_ip_from_query_string(query_str: &str) -> (r: String)
    ensures
        r@ == address_field(query_str@),
{
    let key: Vec<char> = vec!['i', 'p', '='];
    assert(key@ =~= ip_key());
    let t = extract(query_str, &key, TokenClass::Address, MAX_ADDRESS_LEN);
    let tc = chars_of(t.as_str());
    if ip_literal(&tc) {
        t
    } else {
        String::new()
    }
}

} // verus!
