//! The subscription URL guard.
//!
//! A candidate subscription must be an absolute http(s) URL with a host, and
//! the host must not point into the server's own networks: IPv4 loopback and
//! private ranges, IPv6 loopback and unique-local addresses, and the literal
//! hostname "localhost" are all refused. Without this check the later feed
//! fetch would let a user pivot the server into probing its internal network.
//!
//! The range check parses dotted-quad hosts to numbers and compares against
//! the ranges arithmetically, so representations with leading zeros are
//! caught as well.

use vstd::prelude::*;

use crate::text::{
    all_digits, digits_val, find_chr, find_chr_exec, lemma_digits_val_bounds, parse_u64, str_eq,
};

verus! {

// ---------------------------------------------------------------------------
// Dotted-quad IPv4 hosts
// ---------------------------------------------------------------------------

/// One dotted-quad component: one to three decimal digits.
pub open spec fn ipv4_seg_ok(s: Seq<char>) -> bool {
    1 <= s.len() <= 3 && all_digits(s)
}

/// The four numeric octets of a dotted-quad host, if the host has exactly
/// that shape with every component at most 255.
pub open spec fn ipv4_octets(h: Seq<char>) -> Option<(int, int, int, int)> {
    let d1 = find_chr(h, '.', 0);
    let d2 = find_chr(h, '.', d1 + 1);
    let d3 = find_chr(h, '.', d2 + 1);
    let d4 = find_chr(h, '.', d3 + 1);
    if d1 < h.len() && d2 < h.len() && d3 < h.len() && d4 == h.len() {
        let a = h.subrange(0, d1);
        let b = h.subrange(d1 + 1, d2);
        let c = h.subrange(d2 + 1, d3);
        let d = h.subrange(d3 + 1, h.len() as int);
        if ipv4_seg_ok(a) && ipv4_seg_ok(b) && ipv4_seg_ok(c) && ipv4_seg_ok(d) && digits_val(a)
            <= 255 && digits_val(b) <= 255 && digits_val(c) <= 255 && digits_val(d) <= 255 {
            Some((digits_val(a), digits_val(b), digits_val(c), digits_val(d)))
        } else {
            None
        }
    } else {
        None
    }
}

/// The disallowed IPv4 spaces: loopback 127.0.0.0/8 and the private ranges
/// 10.0.0.0/8, 172.16.0.0/12 and 192.168.0.0/16.
pub open spec fn internal_ipv4(a: int, b: int) -> bool {
    ||| a == 127
    ||| a == 10
    ||| (a == 172 && 16 <= b <= 31)
    ||| (a == 192 && b == 168)
}

/// An IPv6 host arrives in URL notation inside square brackets; strip them
/// before looking at the address text.
pub open spec fn strip_brackets(h: Seq<char>) -> Seq<char> {
    if h.len() >= 2 && h[0] == '[' && h[h.len() - 1] == ']' {
        h.subrange(1, h.len() - 1)
    } else {
        h
    }
}

/// The IPv6 unique-local block fc00::/7, matched by a leading "fc" or "fd",
/// case-insensitively.
pub open spec fn unique_local_prefix(h: Seq<char>) -> bool {
    h.len() >= 2 && (h[0] == 'f' || h[0] == 'F') && (h[1] == 'c' || h[1] == 'C' || h[1] == 'd'
        || h[1] == 'D')
}

/// Whether a URL host points into a disallowed address space: the literal
/// hostname "localhost", a dotted-quad in an internal IPv4 range, the IPv6
/// loopback "::1", or an IPv6 unique-local prefix.
pub open spec fn internal_host(host: Seq<char>) -> bool {
    let h = strip_brackets(host);
    ||| h == "localhost"@
    ||| (match ipv4_octets(h) {
        Some(o) => internal_ipv4(o.0, o.1),
        None => false,
    })
    ||| h == "::1"@
    ||| unique_local_prefix(h)
}

/// The numeric value of one dotted-quad component of `h`, the characters
/// `[from, to)`, when it is well-formed and at most 255.
fn seg_value(h: &str, from: usize, to: usize) -> (r: Option<u8>)
    requires
        from <= to <= h@.len(),
    ensures
        (match r {
            Some(v) => ipv4_seg_ok(h@.subrange(from as int, to as int)) && digits_val(
                h@.subrange(from as int, to as int),
            ) == v as int && v <= 255,
            None => !(ipv4_seg_ok(h@.subrange(from as int, to as int)) && digits_val(
                h@.subrange(from as int, to as int),
            ) <= 255),
        }),
{
    let seg = h.substring_char(from, to);
    let n = to - from;
    if n < 1 || n > 3 {
        return None;
    }
    match parse_u64(seg) {
        Some(v) => {
            proof {
                lemma_digits_val_bounds(seg@);
            }
            if v <= 255 {
                Some(v as u8)
            } else {
                None
            }
        },
        None => {
            proof {
                if all_digits(seg@) {
                    lemma_digits_val_bounds(seg@);
                }
            }
            None
        },
    }
}

/// The four octets of a dotted-quad host, or nothing if the host is not of
/// that shape.
fn ipv4_octets_exec(h: &str) -> (r: Option<(u8, u8, u8, u8)>)
    ensures
        (match r {
            Some(o) => ipv4_octets(h@) == Some((o.0 as int, o.1 as int, o.2 as int, o.3 as int)),
            None => ipv4_octets(h@) is None,
        }),
{
    let len = h.unicode_len();
    let d1 = find_chr_exec(h, '.', 0);
    if d1 == len {
        return None;
    }
    let d2 = find_chr_exec(h, '.', d1 + 1);
    if d2 == len {
        return None;
    }
    let d3 = find_chr_exec(h, '.', d2 + 1);
    if d3 == len {
        return None;
    }
    let d4 = find_chr_exec(h, '.', d3 + 1);
    if d4 != len {
        return None;
    }
    let a = seg_value(h, 0, d1);
    let b = seg_value(h, d1 + 1, d2);
    let c = seg_value(h, d2 + 1, d3);
    let d = seg_value(h, d3 + 1, len);
    match (a, b, c, d) {
        (Some(a), Some(b), Some(c), Some(d)) => Some((a, b, c, d)),
        _ => None,
    }
}

/// Decide whether a host falls in a disallowed address space.
pub fn is_internal_host(host: &str) -> (r: bool)
    ensures
        r == internal_host(host@),
{
    let len = host.unicode_len();
    let stripped = len >= 2 && host.get_char(0) == '[' && host.get_char(len - 1) == ']';
    let h: &str = if stripped {
        host.substring_char(1, len - 1)
    } else {
        host
    };
    assert(h@ == strip_brackets(host@));
    if str_eq(h, "localhost") {
        return true;
    }
    if str_eq(h, "::1") {
        return true;
    }
    let hl = h.unicode_len();
    if hl >= 2 {
        let c0 = h.get_char(0);
        let c1 = h.get_char(1);
        if (c0 == 'f' || c0 == 'F') && (c1 == 'c' || c1 == 'C' || c1 == 'd' || c1 == 'D') {
            return true;
        }
    }
    match ipv4_octets_exec(h) {
        Some(o) => {
            let (a, b, _, _) = o;
            a == 127 || a == 10 || (a == 172 && 16 <= b && b <= 31) || (a == 192 && b == 168)
        },
        None => false,
    }
}

// ---------------------------------------------------------------------------
// The URL check
// ---------------------------------------------------------------------------

/// What the URL parser extracts from a string: nothing if the string is not
/// an absolute URL, else the scheme and, when one is present, the host text.
pub uninterp spec fn url_parts_of(s: Seq<char>) -> Option<(Seq<char>, Option<Seq<char>>)>;

/// Relies on `url::Url::parse` (with the `scheme` and `host_str` accessors):
/// the parse of a URL string, its scheme and its host serialization are a
/// function of the characters alone.
#[verifier::external_body]
fn parse_url_parts(s: &str) -> (r: Option<(String, Option<String>)>)
    ensures
        r.deep_view() == url_parts_of(s@),
{
    match url::Url::parse(s) {
        Ok(u) => Some((u.scheme().to_owned(), u.host_str().map(|h| h.to_owned()))),
        Err(_) => None,
    }
}

/// The syntactic part of subscription validation: the string parses as an
/// absolute URL, its scheme is exactly "http" or "https", it has a host, and
/// the host is not internal. This says nothing about fetchability: the live
/// probe is a separate step, reached only when this holds.
pub open spec fn url_ok(s: Seq<char>) -> bool {
    match url_parts_of(s) {
        Some((scheme, Some(host))) => (scheme == "http"@ || scheme == "https"@) && !internal_host(
            host,
        ),
        _ => false,
    }
}

/// Decide `url_ok`: scheme and host safety, with no network touched.
pub fn check_url(s: &str) -> (r: bool)
    ensures
        r == url_ok(s@),
{
    match parse_url_parts(s) {
        None => false,
        Some((scheme, host_opt)) => match host_opt {
            None => false,
            Some(h) => (str_eq(scheme.as_str(), "http") || str_eq(scheme.as_str(), "https"))
                && !is_internal_host(h.as_str()),
        },
    }
}

/// A URL whose host is internal fails the check outright, whatever its
/// scheme: the fetch probe behind `url_ok` is never reached for it.
pub proof fn lemma_internal_host_rejected(s: Seq<char>)
    requires
        (match url_parts_of(s) {
            Some((scheme, Some(host))) => internal_host(host),
            _ => false,
        }),
    ensures
        !url_ok(s),
{
}

} // verus!
