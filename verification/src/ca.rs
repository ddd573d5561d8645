//! Certificate Authority manager: owns the root key pair and self-signed
//! root certificate, and issues short-lived leaf certificates for any
//! requested domain, signed by the root.
//!
//! Certificates are modelled as records of exactly what the proxy logic
//! reads of them: subject name, the signer's public key, the CA flag, the
//! validity window and the embedded public key. Key material itself comes
//! from the caller's crypto collaborator as plain bytes; persisting the
//! root files to disk is the caller's file-system collaborator's job.

use vstd::prelude::*;
use crate::bytes::{bytes_eq, copy_vec};

verus! {

/// How long a leaf certificate stays valid after issuance, in seconds
/// (seven days).
pub const LEAF_VALIDITY_SECS: u64 = 604800;

/// What the proxy reads of an X.509 certificate.
pub struct CertRecord {
    /// Subject name (the certified domain, also its subject alternative name).
    pub subject: Vec<u8>,
    /// Public key of the authority that signed this certificate.
    pub issuer_key: Vec<u8>,
    /// Public key certified by this certificate.
    pub public_key: Vec<u8>,
    /// CA basic constraint: true only for the root.
    pub is_ca: bool,
    /// Start of the validity window (seconds since the epoch).
    pub not_before: u64,
    /// End of the validity window (seconds since the epoch).
    pub not_after: u64,
}

/// A certificate chains to a signer exactly when its issuer key is the
/// signer's public key.
pub open spec fn spec_signed_by(c: CertRecord, signer_key: Seq<u8>) -> bool {
    c.issuer_key@ == signer_key
}

/// The certificate is within its validity window at time `t`.
pub open spec fn spec_valid_at(c: CertRecord, t: u64) -> bool {
    c.not_before <= t <= c.not_after
}

/// A well-formed root certificate: a CA certificate signed by its own key,
/// with an ordered validity window.
pub open spec fn spec_self_signed_ca(c: CertRecord) -> bool {
    c.is_ca && c.issuer_key@ == c.public_key@ && c.not_before <= c.not_after
}

/// Field-wise equality of certificate records.
pub open spec fn cert_eq(a: CertRecord, b: CertRecord) -> bool {
    &&& a.subject@ == b.subject@
    &&& a.issuer_key@ == b.issuer_key@
    &&& a.public_key@ == b.public_key@
    &&& a.is_ca == b.is_ca
    &&& a.not_before == b.not_before
    &&& a.not_after == b.not_after
}

impl CertRecord {
    /// An identical copy (a derived `Clone` would say nothing in contracts).
    pub fn duplicate(&self) -> (r: CertRecord)
        ensures
            cert_eq(r, *self),
    {
        CertRecord {
            subject: copy_vec(&self.subject),
            issuer_key: copy_vec(&self.issuer_key),
            public_key: copy_vec(&self.public_key),
            is_ca: self.is_ca,
            not_before: self.not_before,
            not_after: self.not_after,
        }
    }
}

/// Whether `c` is acceptable as a leaf for `domain` at time `now` under a
/// root certificate `root`: the subject is the domain, the issuer key is
/// the root's public key, it is no CA itself, and `now` falls within its
/// validity window.
pub open spec fn spec_leaf_ok(c: CertRecord, root: CertRecord, domain: Seq<u8>, now: u64) -> bool {
    &&& c.subject@ == domain
    &&& spec_signed_by(c, root.public_key@)
    &&& !c.is_ca
    &&& spec_valid_at(c, now)
}

/// Check a leaf certificate against the root it claims to chain to.
pub fn verify_leaf(c: &CertRecord, root: &CertRecord, domain: &Vec<u8>, now: u64) -> (r: bool)
    ensures
        r == spec_leaf_ok(*c, *root, domain@, now),
{
    bytes_eq(&c.subject, domain) && bytes_eq(&c.issuer_key, &root.public_key) && !c.is_ca
        && c.not_before <= now && now <= c.not_after
}

/// The root authority: its self-signed certificate and its private key.
pub struct RootAuthority {
    pub cert: CertRecord,
    pub private_key: Vec<u8>,
}

/// Well-formed root authority.
pub open spec fn spec_root_wf(r: RootAuthority) -> bool {
    spec_self_signed_ca(r.cert)
}

/// Field-wise equality of root authorities.
pub open spec fn root_eq(a: RootAuthority, b: RootAuthority) -> bool {
    cert_eq(a.cert, b.cert) && a.private_key@ == b.private_key@
}

impl RootAuthority {
    /// An identical copy.
    pub fn duplicate(&self) -> (r: RootAuthority)
        ensures
            root_eq(r, *self),
    {
        RootAuthority { cert: self.cert.duplicate(), private_key: copy_vec(&self.private_key) }
    }
}

/// A leaf certificate handed to a connection: the certificate presented to
/// the client and the matching private key.
pub struct LeafCertificate {
    pub cert: CertRecord,
    pub private_key: Vec<u8>,
}

/// Fresh key material, produced by the caller's crypto collaborator.
pub struct KeyPair {
    pub private_key: Vec<u8>,
    pub public_key: Vec<u8>,
}

/// Why a leaf could not be issued. Refusing one leaf refuses only that
/// connection, never the whole proxy.
#[derive(PartialEq, Eq, Structural, Debug)]
pub enum IssueError {
    /// No root authority is on record yet.
    NoRoot,
}

/// The Certificate Authority manager. Holds the root authority once it is
/// established; the root is immutable for the life of the manager.
pub struct CaManager {
    pub root: Option<RootAuthority>,
}

/// State of the manager after `ensure_ca`: an existing root is kept, else
/// the candidate is installed.
pub open spec fn spec_ensure_ca(m: CaManager, candidate: RootAuthority) -> CaManager {
    match m.root {
        Some(_) => m,
        None => CaManager { root: Some(candidate) },
    }
}

/// The root on record after `ensure_ca`.
pub open spec fn spec_ensure_ca_root(m: CaManager, candidate: RootAuthority) -> RootAuthority {
    match m.root {
        Some(r) => r,
        None => candidate,
    }
}

/// Field-wise equality of manager states.
pub open spec fn ca_state_eq(a: CaManager, b: CaManager) -> bool {
    match (a.root, b.root) {
        (Some(x), Some(y)) => root_eq(x, y),
        (None, None) => true,
        _ => false,
    }
}

/// Every root the manager holds is well formed.
pub open spec fn spec_ca_wf(m: CaManager) -> bool {
    m.root matches Some(r) ==> spec_root_wf(r)
}

impl CaManager {
    /// A manager with no root on record yet.
    pub fn new() -> (r: CaManager)
        ensures
            r.root is None,
            spec_ca_wf(r),
    {
        CaManager { root: None }
    }

    /// Establish the root authority: if one is already on record it is kept
    /// untouched and returned; otherwise the freshly generated `candidate`
    /// is installed and returned. The returned copy is what the caller
    /// persists to disk.
    pub fn ensure_ca(&mut self, candidate: RootAuthority) -> (issued: RootAuthority)
        requires
            spec_root_wf(candidate),
            spec_ca_wf(*old(self)),
        ensures
            ca_state_eq(*final(self), spec_ensure_ca(*old(self), candidate)),
            root_eq(issued, spec_ensure_ca_root(*old(self), candidate)),
            final(self).root is Some,
            spec_ca_wf(*final(self)),
            spec_root_wf(issued),
    {
        let issued = match &self.root {
            Some(r) => r.duplicate(),
            None => candidate.duplicate(),
        };
        if self.root.is_none() {
            self.root = Some(candidate);
        }
        issued
    }

    /// Issue a leaf certificate for `domain`, signed by the root: subject
    /// and subject alternative name equal the domain, the issuer key is the
    /// root's public key, and the validity window starts at `now` and runs
    /// for `LEAF_VALIDITY_SECS`. Fails exactly when no root is on record.
    pub fn issue_leaf(&self, domain: &Vec<u8>, fresh: KeyPair, now: u64) -> (r: Result<
        LeafCertificate,
        IssueError,
    >)
        requires
            now + LEAF_VALIDITY_SECS <= u64::MAX,
        ensures
            r is Ok <==> self.root is Some,
            match (self.root, r) {
                (Some(root), Ok(leaf)) => {
                    &&& spec_leaf_ok(leaf.cert, root.cert, domain@, now)
                    &&& leaf.cert.subject@ == domain@
                    &&& spec_signed_by(leaf.cert, root.cert.public_key@)
                    &&& !leaf.cert.is_ca
                    &&& spec_valid_at(leaf.cert, now)
                    &&& leaf.cert.not_before == now
                    &&& leaf.cert.not_after == now + LEAF_VALIDITY_SECS
                    &&& leaf.cert.public_key@ == fresh.public_key@
                    &&& leaf.private_key@ == fresh.private_key@
                },
                (None, Err(e)) => e == IssueError::NoRoot,
                _ => false,
            },
    {
        match &self.root {
            Some(root) => {
                let KeyPair { private_key, public_key } = fresh;
                Ok(
                    LeafCertificate {
                        cert: CertRecord {
                            subject: copy_vec(domain),
                            issuer_key: copy_vec(&root.cert.public_key),
                            public_key,
                            is_ca: false,
                            not_before: now,
                            not_after: now + LEAF_VALIDITY_SECS,
                        },
                        private_key,
                    },
                )
            },
            None => Err(IssueError::NoRoot),
        }
    }
}

/// The eight little-endian bytes of `n`.
pub open spec fn spec_enc_u64(n: u64) -> Seq<u8> {
    seq![
        (n % 256) as u8,
        ((n / 256) % 256) as u8,
        ((n / 65536) % 256) as u8,
        ((n / 16777216) % 256) as u8,
        ((n / 4294967296) % 256) as u8,
        ((n / 1099511627776) % 256) as u8,
        ((n / 281474976710656) % 256) as u8,
        ((n / 72057594037927936) % 256) as u8,
    ]
}

/// A byte field, prefixed by its length.
pub open spec fn spec_enc_bytes(s: Seq<u8>) -> Seq<u8> {
    spec_enc_u64(s.len() as u64) + s
}

/// The byte form in which a certificate record is persisted: its fields
/// in order, each length-prefixed or fixed-width, so that equal records
/// give byte-identical files.
pub open spec fn spec_encode_cert(c: CertRecord) -> Seq<u8> {
    spec_enc_bytes(c.subject@) + spec_enc_bytes(c.issuer_key@) + spec_enc_bytes(c.public_key@)
        + seq![if c.is_ca { 1u8 } else { 0u8 }] + spec_enc_u64(c.not_before) + spec_enc_u64(
        c.not_after,
    )
}

/// Append the eight little-endian bytes of `n`.
fn push_u64(out: &mut Vec<u8>, n: u64)
    ensures
        final(out)@ == old(out)@ + spec_enc_u64(n),
{
    out.push((n % 256) as u8);
    out.push(((n / 256) % 256) as u8);
    out.push(((n / 65536) % 256) as u8);
    out.push(((n / 16777216) % 256) as u8);
    out.push(((n / 4294967296) % 256) as u8);
    out.push(((n / 1099511627776) % 256) as u8);
    out.push(((n / 281474976710656) % 256) as u8);
    out.push(((n / 72057594037927936) % 256) as u8);
    proof {
        assert(out@ =~= old(out)@ + spec_enc_u64(n));
    }
}

/// Append a byte field, prefixed by its length.
fn push_bytes(out: &mut Vec<u8>, s: &Vec<u8>)
    ensures
        final(out)@ == old(out)@ + spec_enc_bytes(s@),
{
    push_u64(out, s.len() as u64);
    crate::bytes::append_to(out, s);
    proof {
        assert(out@ =~= old(out)@ + spec_enc_bytes(s@));
    }
}

impl CertRecord {
    /// The bytes under which this record is persisted.
    pub fn encode(&self) -> (r: Vec<u8>)
        ensures
            r@ == spec_encode_cert(*self),
    {
        let mut out: Vec<u8> = Vec::new();
        push_bytes(&mut out, &self.subject);
        push_bytes(&mut out, &self.issuer_key);
        push_bytes(&mut out, &self.public_key);
        if self.is_ca {
            out.push(1);
        } else {
            out.push(0);
        }
        push_u64(&mut out, self.not_before);
        push_u64(&mut out, self.not_after);
        proof {
            assert(out@ =~= spec_encode_cert(*self));
        }
        out
    }
}

/// Equal certificate records persist as byte-identical files.
pub proof fn lemma_encode_deterministic(a: CertRecord, b: CertRecord)
    requires
        cert_eq(a, b),
    ensures
        spec_encode_cert(a) == spec_encode_cert(b),
{
}

/// Index of the first cache entry at `i` or later whose domain is `domain`.
pub open spec fn cache_find(
    s: Seq<(Vec<u8>, LeafCertificate)>,
    domain: Seq<u8>,
    i: int,
) -> Option<int>
    decreases s.len() - i,
{
    if i < 0 || i >= s.len() {
        None
    } else if s[i].0@ == domain {
        Some(i)
    } else {
        cache_find(s, domain, i + 1)
    }
}

/// `cache_find` returns the first entry for the domain, or reports that
/// there is none.
pub proof fn lemma_cache_find(s: Seq<(Vec<u8>, LeafCertificate)>, domain: Seq<u8>, i: int)
    requires
        0 <= i,
    ensures
        cache_find(s, domain, i) matches Some(k) ==> i <= k < s.len() && s[k].0@ == domain && (
        forall|j: int| i <= j < k ==> s[j].0@ != domain),
        cache_find(s, domain, i) is None ==> forall|j: int| i <= j < s.len() ==> s[j].0@ != domain,
    decreases s.len() - i,
{
    if i < s.len() && s[i].0@ != domain {
        lemma_cache_find(s, domain, i + 1);
    }
}

/// Cache of issued leaves, keyed by domain, kept for the lifetime of the
/// running proxy and cleared at disconnect. Duplicate issuance for one
/// domain is tolerated: a later entry is only reached once an earlier one
/// is gone, and both are equally valid.
pub struct LeafCache {
    pub entries: Vec<(Vec<u8>, LeafCertificate)>,
}

impl LeafCache {
    /// An empty cache.
    pub fn new() -> (r: LeafCache)
        ensures
            r.entries@.len() == 0,
    {
        LeafCache { entries: Vec::new() }
    }

    /// The cached leaf for `domain`, when one is there.
    pub fn lookup(&self, domain: &Vec<u8>) -> (r: Option<&LeafCertificate>)
        ensures
            r matches Some(l) ==> cache_find(self.entries@, domain@, 0) matches Some(k) && *l
                == self.entries@[k].1,
            r is None ==> cache_find(self.entries@, domain@, 0) is None,
    {
        let mut i: usize = 0;
        while i < self.entries.len()
            invariant
                i <= self.entries@.len(),
                forall|j: int| 0 <= j < i ==> self.entries@[j].0@ != domain@,
            decreases self.entries@.len() - i,
        {
            let entry = &self.entries[i];
            if bytes_eq(&entry.0, domain) {
                proof {
                    lemma_cache_find(self.entries@, domain@, 0);
                }
                return Some(&entry.1);
            }
            i = i + 1;
        }
        proof {
            lemma_cache_find(self.entries@, domain@, 0);
        }
        None
    }

    /// Remember a leaf for its domain.
    pub fn insert(&mut self, domain: Vec<u8>, leaf: LeafCertificate)
        ensures
            final(self).entries@ == old(self).entries@.push((domain, leaf)),
    {
        self.entries.push((domain, leaf));
    }

    /// Drop every cached leaf, as disconnect must.
    pub fn clear(&mut self)
        ensures
            final(self).entries@.len() == 0,
    {
        self.entries = Vec::new();
    }
}

/// CA idempotence: once `ensure_ca` has run, running it again — with any
/// later candidate — returns the same root certificate and key bytes and
/// leaves the manager's state exactly as it was.
pub proof fn lemma_ensure_ca_idempotent(m: CaManager, c1: RootAuthority, c2: RootAuthority)
    ensures
        spec_ensure_ca(spec_ensure_ca(m, c1), c2) == spec_ensure_ca(m, c1),
        root_eq(
            spec_ensure_ca_root(spec_ensure_ca(m, c1), c2),
            spec_ensure_ca_root(m, c1),
        ),
{
}

} // verus!
