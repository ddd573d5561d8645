//! Server Name Indication: reading the requested host name out of the
//! client's TLS hello bytes — beside a connect-style request, the other
//! way the interceptor learns which domain to mint a leaf for. Only the
//! hello's framing is walked; nothing else of TLS is interpreted here.

use vstd::prelude::*;
use crate::bytes::subvec;

verus! {

/// The big-endian 16-bit value at `i`.
pub open spec fn be16(s: Seq<u8>, i: int) -> int {
    s[i] * 256 + s[i + 1]
}

/// Read the big-endian 16-bit value at `i`.
pub fn get_be16(v: &Vec<u8>, i: usize) -> (r: u16)
    requires
        i + 2 <= v@.len(),
        v@.len() <= usize::MAX,
    ensures
        r == be16(v@, i as int),
{
    (v[i] as u16) * 256 + (v[i + 1] as u16)
}

/// The host name named by the first server-name extension in the
/// extension bytes of `s` between `i` and `end`: each extension is a
/// 16-bit type, a 16-bit length and its body; in a server-name extension
/// the name of type host (0) starts after the 2-byte list length, a name
/// type and a 16-bit name length.
pub open spec fn sni_in_exts(s: Seq<u8>, i: int, end: int) -> Option<Seq<u8>>
    decreases end - i,
{
    if i < 0 || i + 4 > end || end > s.len() {
        None
    } else {
        let t = be16(s, i);
        let l = be16(s, i + 2);
        let next = i + 4 + l;
        if next > end {
            None
        } else if t == 0 {
            if i + 9 <= next && s[i + 6] == 0 {
                let nl = be16(s, i + 7);
                if i + 9 + nl <= next {
                    Some(s.subrange(i + 9, i + 9 + nl))
                } else {
                    None
                }
            } else {
                None
            }
        } else {
            sni_in_exts(s, next, end)
        }
    }
}

/// The server name asked for in a TLS client hello: `s` must start with a
/// handshake record carrying a client hello; the session id, cipher
/// suites and compression methods are skipped by their lengths, and the
/// first server-name extension names the host.
pub open spec fn spec_client_hello_sni(s: Seq<u8>) -> Option<Seq<u8>> {
    if s.len() < 44 || s[0] != 22 || s[5] != 1 {
        None
    } else {
        let p2 = 44 + s[43];
        if p2 + 2 > s.len() {
            None
        } else {
            let p3 = p2 + 2 + be16(s, p2);
            if p3 + 1 > s.len() {
                None
            } else {
                let p4 = p3 + 1 + s[p3];
                if p4 + 2 > s.len() {
                    None
                } else {
                    let ext_end = p4 + 2 + be16(s, p4);
                    if ext_end > s.len() {
                        None
                    } else {
                        sni_in_exts(s, p4 + 2, ext_end)
                    }
                }
            }
        }
    }
}

/// Extract the requested server name from a TLS client hello.
pub fn client_hello_sni(v: &Vec<u8>) -> (r: Option<Vec<u8>>)
    ensures
        r matches Some(name) ==> spec_client_hello_sni(v@) == Some(name@),
        r is None ==> spec_client_hello_sni(v@) is None,
{
    let n = v.len();
    if n < 44 {
        return None;
    }
    if v[0] != 22 || v[5] != 1 {
        return None;
    }
    let p2 = 44 + (v[43] as usize);
    if p2 + 2 > n {
        return None;
    }
    let cipher_len = get_be16(v, p2) as usize;
    if cipher_len > n - p2 - 2 {
        return None;
    }
    let p3 = p2 + 2 + cipher_len;
    if n - p3 < 1 {
        return None;
    }
    let p4 = p3 + 1 + (v[p3] as usize);
    if p4 > n || n - p4 < 2 {
        return None;
    }
    let ext_total = get_be16(v, p4) as usize;
    if ext_total > n - p4 - 2 {
        return None;
    }
    let ext_end = p4 + 2 + ext_total;
    find_sni(v, p4 + 2, ext_end)
}

/// Walk the extension list for the first server-name extension.
fn find_sni(v: &Vec<u8>, start: usize, end: usize) -> (r: Option<Vec<u8>>)
    requires
        start <= end <= v@.len(),
    ensures
        r matches Some(name) ==> sni_in_exts(v@, start as int, end as int) == Some(name@),
        r is None ==> sni_in_exts(v@, start as int, end as int) is None,
{
    let n = v.len();
    let mut i: usize = start;
    while end - i >= 4
        invariant
            start <= i <= end <= v@.len(),
            n == v@.len(),
            sni_in_exts(v@, start as int, end as int) == sni_in_exts(v@, i as int, end as int),
        decreases end - i,
    {
        let t = get_be16(v, i);
        let l = get_be16(v, i + 2) as usize;
        if l > end - i - 4 {
            return None;
        }
        let next = i + 4 + l;
        if t == 0 {
            if next - i >= 9 && v[i + 6] == 0 {
                let nl = get_be16(v, i + 7) as usize;
                if nl <= next - i - 9 {
                    return Some(subvec(v, i + 9, i + 9 + nl));
                }
            }
            return None;
        }
        i = next;
    }
    None
}

} // verus!
