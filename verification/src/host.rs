//! Recognising printer host names: IP address literals and DNS-style host names.
use vstd::prelude::*;

use crate::text::{
    all_ascii_digits, char_vec_views, copy_range, digits_value, is_ascii_alphanumeric,
    is_ascii_alphanumeric_char, is_ascii_digit, is_ascii_digit_char, is_ascii_hex_digit,
    is_ascii_hex_digit_char, lemma_split_on_len, parse_unsigned_decimal, split_chars, split_on,
    unsigned_decimal_value,
};

verus! {

/// The longest DNS host name the printer target accepts.
pub const MAX_DNS_HOST_LEN: usize = 253;

/// The longest DNS label the printer target accepts.
pub const MAX_DNS_LABEL_LEN: usize = 63;

/// One dotted-decimal octet: one to three digits, no leading zero, at most 255.
pub open spec fn is_decimal_octet(p: Seq<char>) -> bool {
    &&& 1 <= p.len() <= 3
    &&& all_ascii_digits(p)
    &&& (p.len() == 1 || p[0] != '0')
    &&& digits_value(p) <= 255
}

/// An IPv4 address in dot-decimal notation: four octets separated by `.`.
pub open spec fn is_ipv4_literal(s: Seq<char>) -> bool {
    let parts = split_on(s, '.');
    &&& parts.len() == 4
    &&& forall|i: int| 0 <= i < 4 ==> is_decimal_octet(#[trigger] parts[i])
}

/// One IPv6 group: one to four hexadecimal digits.
pub open spec fn is_hex_group(p: Seq<char>) -> bool {
    &&& 1 <= p.len() <= 4
    &&& forall|i: int| 0 <= i < p.len() ==> is_ascii_hex_digit(#[trigger] p[i])
}

/// The number of 16-bit pieces that `t` writes as `:`-separated groups, where the last group
/// may be an embedded IPv4 address (two pieces) if `ipv4_tail` allows it; `None` if `t` is not
/// such a list. The empty text writes no pieces.
pub open spec fn ipv6_piece_count(t: Seq<char>, ipv4_tail: bool) -> Option<nat> {
    if t.len() == 0 {
        Some(0)
    } else {
        let parts = split_on(t, ':');
        let n = parts.len();
        if n >= 1 && forall|i: int| 0 <= i < n - 1 ==> is_hex_group(#[trigger] parts[i]) {
            if is_hex_group(parts[n - 1]) {
                Some(n)
            } else if ipv4_tail && is_ipv4_literal(parts[n - 1]) {
                Some(n + 1)
            } else {
                None
            }
        } else {
            None
        }
    }
}

/// Whether `s` holds `::` at `i`.
pub open spec fn double_colon_at(s: Seq<char>, i: int) -> bool {
    0 <= i && i + 1 < s.len() && s[i] == ':' && s[i + 1] == ':'
}

/// An IPv6 address in the text forms of RFC 4291: eight groups, or fewer with one `::` standing
/// for at least one group of zeros, and optionally an embedded IPv4 address at the end.
pub open spec fn is_ipv6_literal(s: Seq<char>) -> bool {
    ||| (forall|i: int| !double_colon_at(s, i)) && ipv6_piece_count(s, true) == Some(8nat)
    ||| exists|i: int|
        #![trigger double_colon_at(s, i)]
        {
            &&& double_colon_at(s, i)
            &&& forall|j: int| j != i ==> !double_colon_at(s, j)
            &&& ipv6_piece_count(s.take(i), false) is Some
            &&& ipv6_piece_count(s.skip(i + 2), true) is Some
            &&& ipv6_piece_count(s.take(i), false).unwrap() + ipv6_piece_count(
                s.skip(i + 2),
                true,
            ).unwrap() <= 7
        }
}

/// An IPv4 or IPv6 address literal.
pub open spec fn is_ip_literal(s: Seq<char>) -> bool {
    is_ipv4_literal(s) || is_ipv6_literal(s)
}

/// Text made only of digits and dots, with at least one dot: it reads as an IPv4 address.
pub open spec fn looks_like_ipv4_literal(h: Seq<char>) -> bool {
    &&& h.contains('.')
    &&& forall|i: int| 0 <= i < h.len() ==> is_ascii_digit(#[trigger] h[i]) || h[i] == '.'
}

/// A DNS label: 1 to 63 ASCII letters, digits or hyphens, not starting or ending with a hyphen.
pub open spec fn is_valid_dns_label(l: Seq<char>) -> bool {
    &&& 1 <= l.len() <= MAX_DNS_LABEL_LEN
    &&& forall|i: int| 0 <= i < l.len() ==> is_ascii_alphanumeric(#[trigger] l[i]) || l[i] == '-'
    &&& l[0] != '-'
    &&& l.last() != '-'
}

/// A DNS-style host name: at most 253 characters, every `.`-separated label valid. (A name with a
/// non-ASCII character is never valid, so counting characters here equals counting UTF-8 bytes
/// wherever it matters.)
pub open spec fn is_valid_dns_hostname(h: Seq<char>) -> bool {
    let labels = split_on(h, '.');
    &&& 0 < h.len() <= MAX_DNS_HOST_LEN
    &&& forall|i: int| 0 <= i < labels.len() ==> is_valid_dns_label(#[trigger] labels[i])
}

/// A printer host: an IP literal, or a DNS host name that does not read as a (bad) IPv4 address.
pub open spec fn is_valid_printer_host(h: Seq<char>) -> bool {
    is_ip_literal(h) || (!looks_like_ipv4_literal(h) && is_valid_dns_hostname(h))
}

fn is_decimal_octet_chars(p: &Vec<char>) -> (r: bool)
    ensures
        r == is_decimal_octet(p@),
{
    if p.len() < 1 || p.len() > 3 {
        return false;
    }
    let mut i: usize = 0;
    while i < p.len()
        invariant
            i <= p.len(),
            forall|j: int| 0 <= j < i ==> is_ascii_digit(#[trigger] p@[j]),
        decreases p.len() - i,
    {
        if !is_ascii_digit_char(p[i]) {
            return false;
        }
        i += 1;
    }
    if p.len() > 1 && p[0] == '0' {
        return false;
    }
    assert(unsigned_decimal_value(p@) == Some(digits_value(p@)));
    match parse_unsigned_decimal(p, 255) {
        Some(_) => true,
        None => false,
    }
}

/// Whether `s` is an IPv4 address literal.
pub fn is_ipv4_literal_chars(s: &Vec<char>) -> (r: bool)
    ensures
        r == is_ipv4_literal(s@),
{
    let parts = split_chars(s, '.');
    if parts.len() != 4 {
        return false;
    }
    let mut i: usize = 0;
    while i < 4
        invariant
            i <= 4,
            parts.len() == 4,
            char_vec_views(parts@) == split_on(s@, '.'),
            forall|j: int| 0 <= j < i ==> is_decimal_octet(#[trigger] split_on(s@, '.')[j]),
        decreases 4 - i,
    {
        assert(parts@[i as int]@ == split_on(s@, '.')[i as int]);
        if !is_decimal_octet_chars(&parts[i]) {
            return false;
        }
        i += 1;
    }
    true
}

fn is_hex_group_chars(p: &Vec<char>) -> (r: bool)
    ensures
        r == is_hex_group(p@),
{
    if p.len() < 1 || p.len() > 4 {
        return false;
    }
    let mut i: usize = 0;
    while i < p.len()
        invariant
            i <= p.len(),
            forall|j: int| 0 <= j < i ==> is_ascii_hex_digit(#[trigger] p@[j]),
        decreases p.len() - i,
    {
        if !is_ascii_hex_digit_char(p[i]) {
            return false;
        }
        i += 1;
    }
    true
}

fn ipv6_piece_count_chars(t: &Vec<char>, ipv4_tail: bool) -> (r: Option<u128>)
    ensures
        match ipv6_piece_count(t@, ipv4_tail) {
            Some(n) => r == Some(n as u128) && n <= t@.len() + 2,
            None => r is None,
        },
{
    if t.len() == 0 {
        return Some(0);
    }
    let parts = split_chars(t, ':');
    proof {
        lemma_split_on_len(t@, ':');
    }
    let n = parts.len();
    let mut i: usize = 0;
    while i + 1 < n
        invariant
            i < n == parts.len(),
            char_vec_views(parts@) == split_on(t@, ':'),
            forall|j: int| 0 <= j < i ==> is_hex_group(#[trigger] split_on(t@, ':')[j]),
        decreases n - i,
    {
        assert(parts@[i as int]@ == split_on(t@, ':')[i as int]);
        if !is_hex_group_chars(&parts[i]) {
            return None;
        }
        i += 1;
    }
    assert(parts@[n - 1]@ == split_on(t@, ':')[n - 1]);
    if is_hex_group_chars(&parts[n - 1]) {
        Some(n as u128)
    } else if ipv4_tail && is_ipv4_literal_chars(&parts[n - 1]) {
        Some(n as u128 + 1)
    } else {
        None
    }
}

/// Whether `s` is an IPv6 address literal.
pub fn is_ipv6_literal_chars(s: &Vec<char>) -> (r: bool)
    ensures
        r == is_ipv6_literal(s@),
{
    let n = s.len();
    let mut first: usize = 0;
    while first < n && first + 1 < n && !(s[first] == ':' && s[first + 1] == ':')
        invariant
            first <= n == s.len(),
            forall|j: int| 0 <= j < first ==> !double_colon_at(s@, j),
        decreases n - first,
    {
        first += 1;
    }
    if first >= n || first + 1 >= n {
        assert forall|j: int| !double_colon_at(s@, j) by {
            if 0 <= j < first {
            }
        }
        let count = ipv6_piece_count_chars(s, true);
        assert(!(exists|i: int| #[trigger] double_colon_at(s@, i)));
        return match count {
            Some(count) => count == 8,
            None => false,
        };
    }
    assert(double_colon_at(s@, first as int));
    let mut other = first + 1;
    while other < n && other + 1 < n && !(s[other] == ':' && s[other + 1] == ':')
        invariant
            first < other <= n == s.len(),
            forall|j: int| first < j < other ==> !double_colon_at(s@, j),
        decreases n - other,
    {
        other += 1;
    }
    if other < n && other + 1 < n {
        assert(double_colon_at(s@, other as int));
        return false;
    }
    assert forall|j: int| j != first implies !double_colon_at(s@, j) by {
        if 0 <= j < first || first < j < other {
        }
    }
    let head = copy_range(s, 0, first);
    let tail = copy_range(s, first + 2, n);
    assert(head@ == s@.take(first as int));
    assert(tail@ == s@.skip(first as int + 2));
    let head_count = ipv6_piece_count_chars(&head, false);
    let tail_count = ipv6_piece_count_chars(&tail, true);
    let ghost unique_first = forall|j: int| j != first ==> !double_colon_at(s@, j);
    assert(unique_first);
    let ok = match (head_count, tail_count) {
        (Some(h), Some(t)) => h <= 7 && t <= 7 - h,
        _ => false,
    };
    proof {
        assert(forall|i: int| #[trigger] double_colon_at(s@, i) ==> i == first);
        assert(ok ==> double_colon_at(s@, first as int));
    }
    ok
}

/// Whether `h` has a dot and nothing but digits and dots.
pub fn looks_like_ipv4_literal_chars(h: &Vec<char>) -> (r: bool)
    ensures
        r == looks_like_ipv4_literal(h@),
{
    let mut has_dot = false;
    let mut i: usize = 0;
    while i < h.len()
        invariant
            i <= h.len(),
            forall|j: int| 0 <= j < i ==> is_ascii_digit(#[trigger] h@[j]) || h@[j] == '.',
            has_dot == (exists|j: int| 0 <= j < i && h@[j] == '.'),
        decreases h.len() - i,
    {
        let c = h[i];
        if !(is_ascii_digit_char(c) || c == '.') {
            return false;
        }
        if c == '.' {
            has_dot = true;
        }
        i += 1;
    }
    proof {
        if has_dot {
            let j = choose|j: int| 0 <= j < h@.len() && h@[j] == '.';
            assert(h@.contains('.'));
        }
    }
    has_dot
}

/// Whether `l` is a valid DNS label.
pub fn is_valid_dns_label_chars(l: &Vec<char>) -> (r: bool)
    ensures
        r == is_valid_dns_label(l@),
{
    if l.len() < 1 || l.len() > MAX_DNS_LABEL_LEN {
        return false;
    }
    let mut i: usize = 0;
    while i < l.len()
        invariant
            i <= l.len(),
            forall|j: int| 0 <= j < i ==> is_ascii_alphanumeric(#[trigger] l@[j]) || l@[j] == '-',
        decreases l.len() - i,
    {
        let c = l[i];
        if !(is_ascii_alphanumeric_char(c) || c == '-') {
            return false;
        }
        i += 1;
    }
    l[0] != '-' && l[l.len() - 1] != '-'
}

/// Whether `h` is a valid DNS-style host name.
pub fn is_valid_dns_hostname_chars(h: &Vec<char>) -> (r: bool)
    ensures
        r == is_valid_dns_hostname(h@),
{
    if h.len() == 0 || h.len() > MAX_DNS_HOST_LEN {
        return false;
    }
    let labels = split_chars(h, '.');
    let mut i: usize = 0;
    while i < labels.len()
        invariant
            i <= labels.len(),
            char_vec_views(labels@) == split_on(h@, '.'),
            forall|j: int| 0 <= j < i ==> is_valid_dns_label(#[trigger] split_on(h@, '.')[j]),
        decreases labels.len() - i,
    {
        assert(labels@[i as int]@ == split_on(h@, '.')[i as int]);
        if !is_valid_dns_label_chars(&labels[i]) {
            return false;
        }
        i += 1;
    }
    true
}

/// Whether `h` is a valid printer host: an IP literal or a DNS-style host name.
pub fn is_valid_printer_host_chars(h: &Vec<char>) -> (r: bool)
    ensures
        r == is_valid_printer_host(h@),
{
    if is_ipv4_literal_chars(h) || is_ipv6_literal_chars(h) {
        return true;
    }
    if looks_like_ipv4_literal_chars(h) {
        return false;
    }
    is_valid_dns_hostname_chars(h)
}

} // verus!
