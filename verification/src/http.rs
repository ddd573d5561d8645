//! Verified parsing of an HTTP request head: just enough to extract the
//! method, the request target (path) and the Host header, so that the
//! router can evaluate its redirect rules. Bodies are never parsed.

use vstd::prelude::*;
use crate::bytes::{
    bytes_eq, bytes_eq_ignore_case, eq_ignore_case, find_from, lemma_find_from, scan_byte, subvec,
};

verus! {

/// A CRLF pair starts at `i`.
pub open spec fn crlf_at(s: Seq<u8>, i: int) -> bool {
    i >= 0 && i + 2 <= s.len() && s[i] == 13 && s[i + 1] == 10
}

/// A CRLF CRLF (end of head) starts at `i`.
pub open spec fn crlf2_at(s: Seq<u8>, i: int) -> bool {
    i >= 0 && i + 4 <= s.len() && s[i] == 13 && s[i + 1] == 10 && s[i + 2] == 13 && s[i + 3] == 10
}

/// First CRLF at `from` or later.
pub open spec fn find_crlf(s: Seq<u8>, from: int) -> Option<int>
    decreases s.len() - from,
{
    if from < 0 || from + 2 > s.len() {
        None
    } else if crlf_at(s, from) {
        Some(from)
    } else {
        find_crlf(s, from + 1)
    }
}

/// `find_crlf` returns the first CRLF at `from` or later, or reports that
/// there is none.
pub proof fn lemma_find_crlf(s: Seq<u8>, from: int)
    requires
        0 <= from,
    ensures
        find_crlf(s, from) matches Some(i) ==> from <= i && crlf_at(s, i) && (forall|j: int|
            from <= j < i ==> !crlf_at(s, j)),
        find_crlf(s, from) is None ==> forall|j: int| from <= j ==> !crlf_at(s, j),
    decreases s.len() - from,
{
    if from + 2 <= s.len() && !crlf_at(s, from) {
        lemma_find_crlf(s, from + 1);
    }
}

/// First end-of-head marker (CRLF CRLF) at `from` or later.
pub open spec fn find_head_end(s: Seq<u8>, from: int) -> Option<int>
    decreases s.len() - from,
{
    if from < 0 || from + 4 > s.len() {
        None
    } else if crlf2_at(s, from) {
        Some(from)
    } else {
        find_head_end(s, from + 1)
    }
}

/// `find_head_end` returns the first end-of-head marker at `from` or later,
/// or reports that there is none.
pub proof fn lemma_find_head_end(s: Seq<u8>, from: int)
    requires
        0 <= from,
    ensures
        find_head_end(s, from) matches Some(i) ==> from <= i && crlf2_at(s, i) && (forall|j: int|
            from <= j < i ==> !crlf2_at(s, j)),
        find_head_end(s, from) is None ==> forall|j: int| from <= j ==> !crlf2_at(s, j),
    decreases s.len() - from,
{
    if from + 4 <= s.len() && !crlf2_at(s, from) {
        lemma_find_head_end(s, from + 1);
    }
}

/// First position of a CRLF in `v` at `from` or later.
pub fn scan_crlf(v: &Vec<u8>, from: usize) -> (r: Option<usize>)
    requires
        from <= v@.len(),
    ensures
        r matches Some(i) ==> find_crlf(v@, from as int) == Some(i as int) && from <= i && crlf_at(
            v@,
            i as int,
        ),
        r is None ==> find_crlf(v@, from as int) is None,
{
    let n = v.len();
    let mut i: usize = from;
    while n - i >= 2
        invariant
            from <= i <= n,
            n == v@.len(),
            forall|j: int| from <= j < i ==> !crlf_at(v@, j),
        decreases n - i,
    {
        if v[i] == 13 && v[i + 1] == 10 {
            proof {
                assert(crlf_at(v@, i as int));
                lemma_find_crlf(v@, from as int);
            }
            return Some(i);
        }
        i = i + 1;
    }
    proof {
        lemma_find_crlf(v@, from as int);
    }
    None
}

/// First position of the end-of-head marker in `v` at `from` or later.
pub fn scan_head_end(v: &Vec<u8>, from: usize) -> (r: Option<usize>)
    requires
        from <= v@.len(),
    ensures
        r matches Some(i) ==> find_head_end(v@, from as int) == Some(i as int) && from <= i
            && crlf2_at(v@, i as int),
        r is None ==> find_head_end(v@, from as int) is None,
{
    let n = v.len();
    let mut i: usize = from;
    while n - i >= 4
        invariant
            from <= i <= n,
            n == v@.len(),
            forall|j: int| from <= j < i ==> !crlf2_at(v@, j),
        decreases n - i,
    {
        if v[i] == 13 && v[i + 1] == 10 && v[i + 2] == 13 && v[i + 3] == 10 {
            proof {
                assert(crlf2_at(v@, i as int));
                lemma_find_head_end(v@, from as int);
            }
            return Some(i);
        }
        i = i + 1;
    }
    proof {
        lemma_find_head_end(v@, from as int);
    }
    None
}

/// The method and target of a request line `METHOD SP TARGET SP VERSION`,
/// when the line has that shape with all three parts non-empty.
pub open spec fn spec_request_line(line: Seq<u8>) -> Option<(Seq<u8>, Seq<u8>)> {
    match find_from(line, 0, 32) {
        None => None,
        Some(i) => match find_from(line, i + 1, 32) {
            None => None,
            Some(j) => if 1 <= i && i + 2 <= j && j + 2 <= line.len() {
                Some((line.subrange(0, i), line.subrange(i + 1, j)))
            } else {
                None
            },
        },
    }
}

/// The positions of the two spaces that delimit the target of a request
/// line, when the line has the request-line shape.
pub fn request_line_splits(line: &Vec<u8>) -> (r: Option<(usize, usize)>)
    ensures
        r is Some <==> spec_request_line(line@) is Some,
        r matches Some(ij) ==> 1 <= ij.0 && ij.0 + 2 <= ij.1 && ij.1 + 2 <= line@.len()
            && find_from(line@, 0, 32) == Some(ij.0 as int) && find_from(line@, ij.0 + 1, 32)
            == Some(ij.1 as int) && spec_request_line(line@) == Some(
            (line@.subrange(0, ij.0 as int), line@.subrange(ij.0 + 1, ij.1 as int)),
        ),
{
    let n = line.len();
    match scan_byte(line, 0, 32) {
        None => None,
        Some(i) => {
            match scan_byte(line, i + 1, 32) {
                None => None,
                Some(j) => {
                    if 1 <= i && j - i >= 2 && n - j >= 2 {
                        Some((i, j))
                    } else {
                        None
                    }
                },
            }
        },
    }
}

/// Split a request line into method and target.
pub fn parse_request_line(line: &Vec<u8>) -> (r: Option<(Vec<u8>, Vec<u8>)>)
    ensures
        r is Some <==> spec_request_line(line@) is Some,
        r matches Some(mt) ==> spec_request_line(line@) == Some((mt.0@, mt.1@)),
{
    match request_line_splits(line) {
        None => None,
        Some((i, j)) => Some((subvec(line, 0, i), subvec(line, i + 1, j))),
    }
}

/// The bytes of the header name "host".
pub open spec fn host_name() -> Seq<u8> {
    seq![104u8, 111u8, 115u8, 116u8]
}

/// The bytes of the header name "host".
pub fn host_label() -> (r: Vec<u8>)
    ensures
        r@ == host_name(),
{
    let mut v: Vec<u8> = Vec::new();
    v.push(104);
    v.push(111);
    v.push(115);
    v.push(116);
    proof {
        assert(v@ =~= host_name());
    }
    v
}

/// Position of the first non-space byte at `from` or later.
pub open spec fn skip_ws(s: Seq<u8>, from: int) -> int
    decreases s.len() - from,
{
    if from < 0 || from >= s.len() {
        from
    } else if s[from] == 32 {
        skip_ws(s, from + 1)
    } else {
        from
    }
}

/// `skip_ws` stays within the sequence.
pub proof fn lemma_skip_ws(s: Seq<u8>, from: int)
    requires
        0 <= from <= s.len(),
    ensures
        from <= skip_ws(s, from) <= s.len(),
    decreases s.len() - from,
{
    if from < s.len() && s[from] == 32 {
        lemma_skip_ws(s, from + 1);
    }
}

/// Position of the first non-space byte at `from` or later.
pub fn skip_spaces(v: &Vec<u8>, from: usize) -> (r: usize)
    requires
        from <= v@.len(),
    ensures
        r == skip_ws(v@, from as int),
        from <= r <= v@.len(),
{
    let mut i: usize = from;
    while i < v.len()
        invariant
            from <= i <= v@.len(),
            skip_ws(v@, from as int) == skip_ws(v@, i as int),
        decreases v@.len() - i,
    {
        if v[i] != 32 {
            return i;
        }
        i = i + 1;
    }
    i
}

/// The value of a header line `NAME : VALUE` whose name is `host` up to
/// ASCII case, with leading spaces of the value dropped.
pub open spec fn spec_header_host(line: Seq<u8>) -> Option<Seq<u8>> {
    match find_from(line, 0, 58) {
        None => None,
        Some(c) => if eq_ignore_case(line.subrange(0, c), host_name()) {
            Some(line.subrange(skip_ws(line, c + 1), line.len() as int))
        } else {
            None
        },
    }
}

/// Extract the Host header's value from one header line, if this line
/// carries it.
pub fn header_host_value(line: &Vec<u8>) -> (r: Option<Vec<u8>>)
    ensures
        r matches Some(v) ==> spec_header_host(line@) == Some(v@),
        r is None ==> spec_header_host(line@) is None,
{
    match scan_byte(line, 0, 58) {
        None => None,
        Some(c) => {
            let name = subvec(line, 0, c);
            let label = host_label();
            if bytes_eq_ignore_case(&name, &label) {
                proof {
                    lemma_skip_ws(line@, c + 1 as int);
                }
                let vs = skip_spaces(line, c + 1);
                Some(subvec(line, vs, line.len()))
            } else {
                None
            }
        },
    }
}

/// The Host header's value among the header lines of `s` between `from`
/// and `end`, where every line ends with a CRLF before `end`.
pub open spec fn spec_host_value(s: Seq<u8>, from: int, end: int) -> Option<Seq<u8>>
    decreases end - from,
{
    if from < 0 || from + 2 > end || end > s.len() {
        None
    } else {
        match find_crlf(s, from) {
            None => None,
            Some(le) => {
                if le + 2 > end {
                    None
                } else {
                    let next = if le + 2 > from {
                        le + 2
                    } else {
                        from + 1
                    };
                    match spec_header_host(s.subrange(from, le)) {
                        Some(v) => Some(v),
                        None => spec_host_value(s, next, end),
                    }
                }
            },
        }
    }
}

/// Scan the header lines in `v` between `start` and `end` for the Host
/// header and return its value.
pub fn find_host(v: &Vec<u8>, start: usize, end: usize) -> (r: Option<Vec<u8>>)
    requires
        start <= end <= v@.len(),
    ensures
        r matches Some(h) ==> spec_host_value(v@, start as int, end as int) == Some(h@),
        r is None ==> spec_host_value(v@, start as int, end as int) is None,
{
    let n = v.len();
    let mut cur: usize = start;
    while end - cur >= 2
        invariant
            n == v@.len(),
            start <= cur <= end <= v@.len(),
            spec_host_value(v@, start as int, end as int) == spec_host_value(
                v@,
                cur as int,
                end as int,
            ),
        decreases end - cur,
    {
        match scan_crlf(v, cur) {
            None => {
                return None;
            },
            Some(le) => {
                if le + 2 > end {
                    return None;
                }
                let line = subvec(v, cur, le);
                match header_host_value(&line) {
                    Some(val) => {
                        return Some(val);
                    },
                    None => {
                        cur = le + 2;
                    },
                }
            },
        }
    }
    None
}

/// Every byte of `s` is a decimal digit.
pub open spec fn all_digits(s: Seq<u8>) -> bool {
    forall|i: int| 0 <= i < s.len() ==> 48 <= #[trigger] s[i] <= 57
}

/// Numeric value of a sequence of decimal digits, most significant first.
pub open spec fn digits_val(s: Seq<u8>) -> int
    decreases s.len(),
{
    if s.len() == 0 {
        0
    } else {
        digits_val(s.drop_last()) * 10 + (s.last() - 48)
    }
}

/// Ten to the `n`th.
pub open spec fn pow10(n: nat) -> int
    decreases n,
{
    if n == 0 {
        1
    } else {
        10 * pow10((n - 1) as nat)
    }
}

/// The value of `n` digits is below ten to the `n`th.
pub proof fn lemma_digits_val_bound(s: Seq<u8>)
    requires
        all_digits(s),
    ensures
        0 <= digits_val(s) < pow10(s.len()),
    decreases s.len(),
{
    if s.len() > 0 {
        assert(all_digits(s.drop_last()));
        lemma_digits_val_bound(s.drop_last());
    }
}

/// Parse the decimal digits of `v` between `from` and `to` as a port
/// number: defined exactly when there are one to five bytes, all digits,
/// whose value fits a port.
pub fn parse_port(v: &Vec<u8>, from: usize, to: usize) -> (r: Option<u16>)
    requires
        from <= to <= v@.len(),
    ensures
        r is Some <==> 1 <= to - from <= 5 && all_digits(v@.subrange(from as int, to as int))
            && digits_val(v@.subrange(from as int, to as int)) <= 65535,
        r matches Some(p) ==> p == digits_val(v@.subrange(from as int, to as int)),
{
    if to - from < 1 || to - from > 5 {
        return None;
    }
    let mut acc: u32 = 0;
    let mut i: usize = from;
    while i < to
        invariant
            from <= i <= to <= v@.len(),
            to - from <= 5,
            all_digits(v@.subrange(from as int, i as int)),
            acc == digits_val(v@.subrange(from as int, i as int)),
        decreases to - i,
    {
        let b = v[i];
        if b < 48 || b > 57 {
            proof {
                assert(v@.subrange(from as int, to as int)[i - from] == v@[i as int]);
            }
            return None;
        }
        proof {
            lemma_digits_val_bound(v@.subrange(from as int, i as int));
            assert(pow10(0) == 1);
            assert(pow10(1) == 10);
            assert(pow10(2) == 100);
            assert(pow10(3) == 1000);
            assert(pow10(4) == 10000);
            assert(pow10((i - from) as nat) <= 10000);
        }
        acc = acc * 10 + ((b - 48) as u32);
        proof {
            assert(v@.subrange(from as int, (i + 1) as int).drop_last() =~= v@.subrange(
                from as int,
                i as int,
            ));
            assert(v@.subrange(from as int, (i + 1) as int).last() == v@[i as int]);
        }
        i = i + 1;
    }
    proof {
        assert(v@.subrange(from as int, to as int) =~= v@.subrange(from as int, i as int));
    }
    if acc <= 65535 {
        Some(acc as u16)
    } else {
        None
    }
}

/// The bytes of the method CONNECT.
pub open spec fn connect_name() -> Seq<u8> {
    seq![67u8, 79u8, 78u8, 78u8, 69u8, 67u8, 84u8]
}

/// The bytes of the method CONNECT.
pub fn connect_label() -> (r: Vec<u8>)
    ensures
        r@ == connect_name(),
{
    let mut v: Vec<u8> = Vec::new();
    v.push(67);
    v.push(79);
    v.push(78);
    v.push(78);
    v.push(69);
    v.push(67);
    v.push(84);
    proof {
        assert(v@ =~= connect_name());
    }
    v
}

/// The host and port a connect-style request asks for: the request's
/// method is CONNECT and its target has the shape `host:port`, the host
/// non-empty and the port a valid port number.
pub open spec fn spec_connect_target(s: Seq<u8>) -> Option<(Seq<u8>, u16)> {
    match spec_parse_head(s) {
        None => None,
        Some(h) => if h.method == connect_name() {
            match find_from(h.target, 0, 58) {
                None => None,
                Some(c) => {
                    let digits = h.target.subrange(c + 1, h.target.len() as int);
                    if c >= 1 && 1 <= digits.len() <= 5 && all_digits(digits) && digits_val(digits)
                        <= 65535 {
                        Some((h.target.subrange(0, c), digits_val(digits) as u16))
                    } else {
                        None
                    }
                },
            }
        } else {
            None
        },
    }
}

/// What the router reads of one request: method, target path, the Host
/// header when present, and how many bytes the head takes (body bytes are
/// never inspected).
pub struct RequestHead {
    pub method: Vec<u8>,
    pub target: Vec<u8>,
    pub host: Option<Vec<u8>>,
    pub line_len: usize,
    pub head_len: usize,
}

/// Ghost model of a parsed request head.
pub struct HeadModel {
    pub method: Seq<u8>,
    pub target: Seq<u8>,
    pub host: Option<Seq<u8>>,
    pub line_len: int,
    pub head_len: int,
}

/// The parsed head of the request that starts `s`: request line up to the
/// first CRLF, header lines up to the first CRLF CRLF.
pub open spec fn spec_parse_head(s: Seq<u8>) -> Option<HeadModel> {
    match find_head_end(s, 0) {
        None => None,
        Some(e) => match find_crlf(s, 0) {
            None => None,
            Some(le) => match spec_request_line(s.subrange(0, le)) {
                None => None,
                Some(mt) => Some(
                    HeadModel {
                        method: mt.0,
                        target: mt.1,
                        host: spec_host_value(s, le + 2, e + 2),
                        line_len: le,
                        head_len: e + 4,
                    },
                ),
            },
        },
    }
}

/// Parse the head of the request that starts `v`: the method and target of
/// the request line, and the Host header when one is present.
pub fn parse_request_head(v: &Vec<u8>) -> (r: Option<RequestHead>)
    ensures
        r is Some <==> spec_parse_head(v@) is Some,
        r matches Some(h) ==> spec_parse_head(v@) matches Some(m) && h.method@ == m.method
            && h.target@ == m.target && h.head_len == m.head_len && h.line_len == m.line_len && (
        match (h.host, m.host) {
            (Some(a), Some(b)) => a@ == b,
            (None, None) => true,
            _ => false,
        }),
{
    let n = v.len();
    let e = match scan_head_end(v, 0) {
        None => {
            return None;
        },
        Some(e) => e,
    };
    let le = match scan_crlf(v, 0) {
        None => {
            return None;
        },
        Some(le) => le,
    };
    proof {
        lemma_find_crlf(v@, 0);
        lemma_find_head_end(v@, 0);
        assert(crlf_at(v@, e as int));
        assert(le <= e);
    }
    let line = subvec(v, 0, le);
    let mt = match parse_request_line(&line) {
        None => {
            return None;
        },
        Some(mt) => mt,
    };
    let host = find_host(v, le + 2, e + 2);
    Some(RequestHead { method: mt.0, target: mt.1, host, line_len: le, head_len: e + 4 })
}

/// Read the requested target host and port from a connect-style request,
/// as the interceptor does when it accepts a proxied connection.
pub fn parse_connect_target(v: &Vec<u8>) -> (r: Option<(Vec<u8>, u16)>)
    ensures
        r matches Some(hp) ==> spec_connect_target(v@) == Some((hp.0@, hp.1)),
        r is None ==> spec_connect_target(v@) is None,
{
    let h = match parse_request_head(v) {
        None => {
            return None;
        },
        Some(h) => h,
    };
    let cl = connect_label();
    if !bytes_eq(&h.method, &cl) {
        return None;
    }
    let t = &h.target;
    let tn = t.len();
    let c = match scan_byte(t, 0, 58) {
        None => {
            return None;
        },
        Some(c) => c,
    };
    if c < 1 {
        return None;
    }
    let port = match parse_port(t, c + 1, tn) {
        None => {
            return None;
        },
        Some(p) => p,
    };
    let host = subvec(t, 0, c);
    Some((host, port))
}

} // verus!
