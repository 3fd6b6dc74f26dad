use hmac::Mac;
use vstd::prelude::*;
use vstd::string::StringSliceAdditionalSpecFns;

use crate::hex::{from_hex, hex_decode, hex_slices_on_boundaries};
use crate::text::str_is_empty;

verus! {

/// One peer as a reporting node sees it, with its cumulative traffic
/// counters when the node sends them.
#[derive(Debug, Clone, PartialEq, Eq)]
pub struct ReportedPeer {
    pub peer_id: u32,
    pub ip: Option<String>,
    pub hostname: Option<String>,
    pub rx_bytes: Option<u64>,
    pub tx_bytes: Option<u64>,
}

/// The peer list handed to the admin UI.
#[derive(Debug)]
pub struct PeersResponse {
    pub peers: Vec<ReportedPeer>,
}

/// A signed report of the peers a node sees.
#[derive(Debug)]
pub struct ReportPeersRequest {
    pub reporter: Option<String>,
    pub peers: Vec<ReportedPeer>,
}

pub fn copy_opt_string(s: &Option<String>) -> (r: Option<String>)
    ensures
        r == *s,
{
    match s {
        Some(v) => Some(v.clone()),
        None => None,
    }
}

impl ReportedPeer {
    /// A field-by-field copy.
    pub fn duplicate(&self) -> (r: Self)
        ensures
            r == *self,
    {
        ReportedPeer {
            peer_id: self.peer_id,
            ip: copy_opt_string(&self.ip),
            hostname: copy_opt_string(&self.hostname),
            rx_bytes: self.rx_bytes,
            tx_bytes: self.tx_bytes,
        }
    }
}

/// The latest peer list reported to the admin node (shared behind a mutex
/// by the server; the caller holds the lock).
#[derive(Debug)]
pub struct PeerStore {
    peers: Vec<ReportedPeer>,
}

impl View for PeerStore {
    type V = Seq<ReportedPeer>;

    closed spec fn view(&self) -> Seq<ReportedPeer> {
        self.peers@
    }
}

impl Default for PeerStore {
    fn default() -> (s: Self)
        ensures
            s@ == Seq::<ReportedPeer>::empty(),
    {
        PeerStore { peers: Vec::new() }
    }
}

impl PeerStore {
    /// Replaces the stored list by a newly reported one.
    pub fn replace(&mut self, peers: Vec<ReportedPeer>)
        ensures
            final(self)@ == peers@,
    {
        self.peers = peers;
    }

    /// A copy of the stored list: exactly what was last stored.
    pub fn snapshot(&self) -> (r: Vec<ReportedPeer>)
        ensures
            r@ == self@,
    {
        let mut r: Vec<ReportedPeer> = Vec::new();
        let mut i: usize = 0;
        while i < self.peers.len()
            invariant
                i <= self.peers@.len(),
                r@ =~= self.peers@.take(i as int),
            decreases self.peers@.len() - i,
        {
            r.push(self.peers[i].duplicate());
            i = i + 1;
        }
        assert(self.peers@.take(i as int) =~= self.peers@);
        r
    }

    /// Number of stored peers.
    pub fn count(&self) -> (n: usize)
        ensures
            n == self@.len(),
    {
        self.peers.len()
    }
}

/// Why a peer report is refused.
#[derive(Debug, Clone, Copy, PartialEq, Eq, Structural)]
pub enum ReportRejection {
    /// No report secret is configured (answered 403).
    NotConfigured,
    /// The signature header is absent or not hex (answered 403).
    MissingSignature,
    /// The MAC could not be keyed (answered 500).
    MacInitFailed,
    /// The signature is not the HMAC of the body (answered 403).
    InvalidSignature,
}

/// HMAC-SHA256 of `msg` under `key`, as the `hmac` crate computes it.
pub uninterp spec fn hmac_sha256_tag(key: Seq<u8>, msg: Seq<u8>) -> Seq<u8>;

/// Calls `Hmac::<Sha256>::new_from_slice(key)`, `Mac::update(msg)` and
/// `Mac::verify_slice(tag)`. Claims: keying never fails (the crate's
/// `new_from_slice` for HMAC accepts any key length), and the tag is
/// accepted exactly when it equals the HMAC of `msg` under `key`
/// (`verify_slice` rejects any other length, then compares in constant time).
#[verifier::external_body]
fn hmac_sha256_verify(key: &[u8], msg: &[u8], tag: &[u8]) -> (r: Option<bool>)
    ensures
        r == Some(tag@ == hmac_sha256_tag(key@, msg@)),
{
    match hmac::Hmac::<sha2::Sha256>::new_from_slice(key) {
        Ok(mut mac) => {
            mac.update(msg);
            Some(mac.verify_slice(tag).is_ok())
        },
        Err(_) => None,
    }
}

/// The verdict on a report: refused when no secret is configured, when the
/// signature is absent or not hex, or when it is not the HMAC-SHA256 of the
/// body (UTF-8 bytes) keyed by the secret (UTF-8 bytes).
pub open spec fn report_verdict(
    secret: Option<Seq<char>>,
    signature: Option<Seq<char>>,
    body: Seq<char>,
) -> Result<(), ReportRejection> {
    match secret {
        None => Err(ReportRejection::NotConfigured),
        Some(sk) => {
            if sk.len() == 0 {
                Err(ReportRejection::NotConfigured)
            } else {
                match signature {
                    None => Err(ReportRejection::MissingSignature),
                    Some(sig) => match hex_decode(vstd::utf8::encode_utf8(sig)) {
                        None => Err(ReportRejection::MissingSignature),
                        Some(tag) => if tag == hmac_sha256_tag(
                            vstd::utf8::encode_utf8(sk),
                            vstd::utf8::encode_utf8(body),
                        ) {
                            Ok(())
                        } else {
                            Err(ReportRejection::InvalidSignature)
                        },
                    },
                }
            }
        },
    }
}

pub open spec fn opt_str_view(s: Option<&str>) -> Option<Seq<char>> {
    match s {
        Some(v) => Some(v@),
        None => None,
    }
}

/// Checks the signature of a peer report (`X-Report-Sig`, hex) against the
/// configured secret before the body is read.
pub fn check_report_signature(secret: &Option<String>, signature: Option<&str>, body: &str) -> (res: Result<
    (),
    ReportRejection,
>)
    requires
        secret matches Some(k) && k@.len() > 0 ==> (signature matches Some(s) ==> hex_slices_on_boundaries(
            s.spec_bytes(),
        )),
    ensures
        res == report_verdict(
            match secret {
                Some(s) => Some(s@),
                None => None,
            },
            opt_str_view(signature),
            body@,
        ),
{
    let key = match secret {
        Some(s) => {
            if str_is_empty(s.as_str()) {
                return Err(ReportRejection::NotConfigured);
            }
            s.as_str()
        },
        None => {
            return Err(ReportRejection::NotConfigured);
        },
    };
    let sig = match signature {
        Some(s) => s,
        None => {
            return Err(ReportRejection::MissingSignature);
        },
    };
    let tag = match from_hex(sig) {
        Some(t) => t,
        None => {
            return Err(ReportRejection::MissingSignature);
        },
    };
    match hmac_sha256_verify(key.as_bytes(), body.as_bytes(), tag.as_slice()) {
        None => Err(ReportRejection::MacInitFailed),
        Some(true) => Ok(()),
        Some(false) => Err(ReportRejection::InvalidSignature),
    }
}

/// A report with a valid signature is accepted: the HMAC-SHA256 of the body
/// under the configured (non-empty) secret, written as lower-case hex,
/// passes the check.
pub proof fn lemma_signed_report_accepted(secret: Seq<char>, body: Seq<char>, signature: Seq<char>)
    requires
        secret.len() > 0,
        vstd::utf8::encode_utf8(signature) == crate::hex::hex_encode(
            hmac_sha256_tag(vstd::utf8::encode_utf8(secret), vstd::utf8::encode_utf8(body)),
        ),
    ensures
        report_verdict(Some(secret), Some(signature), body) == Ok::<(), ReportRejection>(()),
{
    crate::hex::lemma_hex_roundtrip(
        hmac_sha256_tag(vstd::utf8::encode_utf8(secret), vstd::utf8::encode_utf8(body)),
    );
}

/// Without a configured secret every report is refused, whatever it carries.
pub proof fn lemma_unconfigured_refuses_all(
    secret: Option<Seq<char>>,
    signature: Option<Seq<char>>,
    body: Seq<char>,
)
    requires
        secret is None || secret->0.len() == 0,
    ensures
        report_verdict(secret, signature, body) == Err::<(), ReportRejection>(ReportRejection::NotConfigured),
{
}

} // verus!
