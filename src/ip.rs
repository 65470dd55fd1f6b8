//! Strict IPv4 / IPv6 literal syntax.
//!
//! IPv4: four decimal octets joined by `.`, each 0..=255 with no leading
//! zero. IPv6: colon-separated groups of one to four hex digits, whose last
//! piece may be an embedded IPv4 literal (counting as two groups), either
//! eight groups in all, or with one `::` standing for at least one zero group
//! and no embedded IPv4 literal before it.
use vstd::prelude::*;
use crate::chars::{first_of, find_char, slice_of};

verus! {

pub open spec fn is_dec_digit(c: char) -> bool {
    '0' <= c && c <= '9'
}

pub open spec fn is_hex_digit(c: char) -> bool {
    is_dec_digit(c) || ('a' <= c && c <= 'f') || ('A' <= c && c <= 'F')
}

/// The number that the decimal digits `s` spell.
pub open spec fn dec_value(s: Seq<char>) -> int
    decreases s.len(),
{
    if s.len() == 0 {
        0
    } else {
        dec_value(s.drop_last()) * 10 + (s.last() as u32 - '0' as u32)
    }
}

/// One to three decimal digits, no leading zero, at most 255.
pub open spec fn is_dec_octet(s: Seq<char>) -> bool {
    &&& 1 <= s.len() <= 3
    &&& forall|i: int| 0 <= i < s.len() ==> is_dec_digit(#[trigger] s[i])
    &&& (s.len() == 1 || s[0] != '0')
    &&& dec_value(s) <= 255
}

/// One to four hex digits.
pub open spec fn is_hex_group(s: Seq<char>) -> bool {
    &&& 1 <= s.len() <= 4
    &&& forall|i: int| 0 <= i < s.len() ==> is_hex_digit(#[trigger] s[i])
}

/// `s` is exactly `n` decimal octets joined by `.`.
pub open spec fn octet_list(s: Seq<char>, n: nat) -> bool
    decreases n,
{
    let k = first_of(s, '.');
    if n <= 1 {
        n == 1 && is_dec_octet(s)
    } else {
        0 <= k < s.len() && is_dec_octet(s.take(k)) && octet_list(s.skip(k + 1), (n - 1) as nat)
    }
}

pub open spec fn is_ipv4_literal(s: Seq<char>) -> bool {
    octet_list(s, 4)
}

/// The number of 16-bit groups that the colon-separated pieces `s` stand
/// for, where each piece is a hex group and the last may be an IPv4 literal
/// (two groups); -1 when `s` is not such a list.
pub open spec fn group_weight(s: Seq<char>) -> int
    decreases s.len(),
{
    let k = first_of(s, ':');
    if !(0 <= k < s.len()) {
        if is_hex_group(s) {
            1
        } else if is_ipv4_literal(s) {
            2
        } else {
            -1
        }
    } else if is_hex_group(s.take(k)) && group_weight(s.skip(k + 1)) > 0 {
        1 + group_weight(s.skip(k + 1))
    } else {
        -1
    }
}

/// Position of the first `::` in `s`, or `s.len()` when there is none.
pub open spec fn first_pair(s: Seq<char>) -> int
    decreases s.len(),
{
    if s.len() < 2 {
        s.len() as int
    } else if s[0] == ':' && s[1] == ':' {
        0
    } else {
        1 + first_pair(s.drop_first())
    }
}

/// Group weight of one side of `::`, where an empty side weighs nothing.
pub open spec fn side_weight(s: Seq<char>) -> int {
    if s.len() == 0 {
        0
    } else {
        group_weight(s)
    }
}

pub open spec fn is_ipv6_literal(s: Seq<char>) -> bool {
    let k = first_pair(s);
    group_weight(s) == 8 || (0 <= k && k + 2 <= s.len() && {
        let head = s.take(k);
        let tail = s.skip(k + 2);
        &&& side_weight(head) >= 0
        &&& side_weight(tail) >= 0
        &&& side_weight(head) + side_weight(tail) <= 7
        &&& forall|i: int| 0 <= i < head.len() ==> head[i] != '.'
    })
}

pub open spec fn is_ip_literal(s: Seq<char>) -> bool {
    is_ipv4_literal(s) || is_ipv6_literal(s)
}

proof fn lemma_first_pair(s: Seq<char>, k: int)
    requires
        0 <= k <= s.len(),
        forall|j: int| 0 <= j && j + 1 < s.len() && j < k ==> !(#[trigger] s[j] == ':' && s[j + 1] == ':'),
        k + 1 <= s.len() || s.len() == 0,
        k + 1 >= s.len() || (s[k] == ':' && s[k + 1] == ':'),
    ensures
        first_pair(s) == if k + 1 >= s.len() { s.len() as int } else { k },
    decreases s.len(),
{
    if s.len() >= 2 && k > 0 {
        let t = s.drop_first();
        assert forall|j: int| 0 <= j && j + 1 < t.len() && j < k - 1 implies !(#[trigger] t[j] == ':' && t[j + 1] == ':') by {
            assert(s[j + 1] == t[j] && s[j + 2] == t[j + 1]);
        }
        lemma_first_pair(t, k - 1);
    }
}

proof fn lemma_octet_list_len(s: Seq<char>, n: nat)
    requires
        octet_list(s, n),
    ensures
        s.len() >= n,
    decreases n,
{
    if n > 1 {
        lemma_octet_list_len(s.skip(first_of(s, '.') + 1), (n - 1) as nat);
    }
}

proof fn lemma_group_weight_len(s: Seq<char>)
    ensures
        group_weight(s) <= s.len(),
    decreases s.len(),
{
    let k = first_of(s, ':');
    if !(0 <= k < s.len()) {
        if !is_hex_group(s) && is_ipv4_literal(s) {
            lemma_octet_list_len(s, 4);
        }
    } else {
        lemma_group_weight_len(s.skip(k + 1));
    }
}

fn dec_octet(s: &Vec<char>) -> (r: bool)
    ensures
        r == is_dec_octet(s@),
{
    if s.len() < 1 || s.len() > 3 {
        return false;
    }
    if s.len() > 1 && s[0] == '0' {
        return false;
    }
    let mut v: u32 = 0;
    let mut i: usize = 0;
    while i < s.len()
        invariant
            1 <= s.len() <= 3,
            i <= s.len(),
            forall|j: int| 0 <= j < i ==> is_dec_digit(#[trigger] s@[j]),
            v as int == dec_value(s@.take(i as int)),
            v < 1000,
            i == 0 ==> v == 0,
            i == 1 ==> v < 10,
            i == 2 ==> v < 100,
        decreases s.len() - i,
    {
        let c = s[i];
        if !('0' <= c && c <= '9') {
            return false;
        }
        assert(s@.take(i + 1).drop_last() =~= s@.take(i as int));
        v = v * 10 + (c as u32 - '0' as u32);
        i += 1;
    }
    assert(s@.take(s.len() as int) =~= s@);
    v <= 255
}

fn hex_group(s: &Vec<char>) -> (r: bool)
    ensures
        r == is_hex_group(s@),
{
    if s.len() < 1 || s.len() > 4 {
        return false;
    }
    let mut i: usize = 0;
    while i < s.len()
        invariant
            i <= s.len(),
            forall|j: int| 0 <= j < i ==> is_hex_digit(#[trigger] s@[j]),
        decreases s.len() - i,
    {
        let c = s[i];
        if !(('0' <= c && c <= '9') || ('a' <= c && c <= 'f') || ('A' <= c && c <= 'F')) {
            return false;
        }
        i += 1;
    }
    true
}

fn octets(s: &Vec<char>, n: usize) -> (r: bool)
    ensures
        r == octet_list(s@, n as nat),
    decreases n,
{
    if n <= 1 {
        return n == 1 && dec_octet(s);
    }
    let k = find_char(s, '.');
    if k >= s.len() {
        return false;
    }
    let head = slice_of(s, 0, k);
    let tail = slice_of(s, k + 1, s.len());
    assert(head@ == s@.take(k as int));
    assert(tail@ == s@.skip(k + 1));
    dec_octet(&head) && octets(&tail, n - 1)
}

/// Whether `s` is a strict IPv4 literal.
pub fn ipv4_literal(s: &Vec<char>) -> (r: bool)
    ensures
        r == is_ipv4_literal(s@),
{
    octets(s, 4)
}

fn weight(s: &Vec<char>) -> (r: Option<usize>)
    ensures
        match r {
            Some(w) => w as int == group_weight(s@) && w > 0,
            None => group_weight(s@) < 0,
        },
    decreases s.len(),
{
    let k = find_char(s, ':');
    if k >= s.len() {
        if hex_group(s) {
            return Some(1);
        } else if ipv4_literal(s) {
            return Some(2);
        } else {
            return None;
        }
    }
    let head = slice_of(s, 0, k);
    let tail = slice_of(s, k + 1, s.len());
    assert(head@ == s@.take(k as int));
    assert(tail@ == s@.skip(k + 1));
    if !hex_group(&head) {
        return None;
    }
    match weight(&tail) {
        Some(w) => {
            proof {
                lemma_group_weight_len(tail@);
            }
            Some(1 + w)
        },
        None => None,
    }
}

fn find_pair(s: &Vec<char>) -> (k: usize)
    ensures
        k as int == first_pair(s@),
        k <= s.len(),
{
    if s.len() < 2 {
        return s.len();
    }
    let mut i: usize = 0;
    while i + 1 < s.len() && !(s[i] == ':' && s[i + 1] == ':')
        invariant
            s.len() >= 2,
            i + 1 <= s.len(),
            forall|j: int| 0 <= j && j + 1 < s.len() && j < i ==> !(#[trigger] s@[j] == ':' && s@[j + 1] == ':'),
        decreases s.len() - i,
    {
        i += 1;
    }
    proof {
        lemma_first_pair(s@, i as int);
    }
    if i + 1 >= s.len() {
        s.len()
    } else {
        i
    }
}

fn side(s: &Vec<char>) -> (r: Option<usize>)
    ensures
        match r {
            Some(w) => w as int == side_weight(s@),
            None => side_weight(s@) < 0,
        },
{
    if s.len() == 0 {
        Some(0)
    } else {
        weight(s)
    }
}

/// Whether `s` is a strict IPv6 literal.
pub fn ipv6_literal(s: &Vec<char>) -> (r: bool)
    ensures
        r == is_ipv6_literal(s@),
{
    if let Some(w) = weight(s) {
        if w == 8 {
            return true;
        }
    }
    let k = find_pair(s);
    if k >= s.len() || s.len() - k < 2 {
        return false;
    }
    let head = slice_of(s, 0, k);
    let tail = slice_of(s, k + 2, s.len());
    assert(head@ == s@.take(k as int));
    assert(tail@ == s@.skip(k + 2));
    let (wh, wt) = match (side(&head), side(&tail)) {
        (Some(wh), Some(wt)) => (wh, wt),
        _ => return false,
    };
    if wh > 7 || wt > 7 || wh + wt > 7 {
        return false;
    }
    let d = find_char(&head, '.');
    proof {
        if d < head.len() {
            assert(head@[d as int] == '.');
        }
    }
    d == head.len()
}

/// Whether `s` is a strict IPv4 or IPv6 literal.
pub fn ip_literal(s: &Vec<char>) -> (r: bool)
    ensures
        r == is_ip_literal(s@),
{
    ipv4_literal(s) || ipv6_literal(s)
}

} // verus!
