//! The server public key that CredSSP binds to: taken from the first TLS
//! certificate the server presents, parsed with `picky`.

use vstd::prelude::*;

use picky::x509::Cert;

use crate::der::{copy_range, locate_raw_public_key, spki_outcome, RawKeyLocation, SpkiOutcome};

verus! {

/// The DER-encoded SubjectPublicKeyInfo of the X.509 certificate in `der`, as
/// `picky` gives it: `Cert::from_der` parses the bytes, and `PublicKey::to_der`
/// encodes the certificate's key (`Cert::public_key` only borrows that field).
/// `None` when the bytes do not parse as a certificate or the key does not
/// encode. Both steps depend on the bytes alone.
pub uninterp spec fn picky_spki_der(der: Seq<u8>) -> Option<Seq<u8>>;

/// Trusted wrapper of `picky::x509::Cert::from_der` followed by
/// `picky::key::PublicKey::to_der` on the certificate's public key: the
/// SubjectPublicKeyInfo of the certificate, as `picky_spki_der` names it.
#[verifier::external_body]
fn cert_spki_der(der: &[u8]) -> (r: Option<Vec<u8>>)
    ensures
        match r {
            Some(v) => picky_spki_der(der@) == Some(v@),
            None => picky_spki_der(der@) is None,
        },
{
    match Cert::from_der(der) {
        Ok(cert) => cert.public_key().to_der().ok(),
        Err(_) => None,
    }
}

/// The key CredSSP uses for a SubjectPublicKeyInfo: its raw key when one can be
/// extracted, else the whole SubjectPublicKeyInfo. `None` for an empty key BIT
/// STRING, on which the extraction reads past its input.
pub fn public_key_from_spki(spki_der: Vec<u8>) -> (r: Option<Vec<u8>>)
    ensures
        spki_outcome(spki_der@) is EmptyBitString <==> r is None,
        spki_outcome(spki_der@) is Malformed ==> (r matches Some(v) && v@ == spki_der@),
        spki_outcome(spki_der@) matches SpkiOutcome::Key(s, e) ==> (r matches Some(v) && v@ == spki_der@.subrange(s, e)),
{
    match locate_raw_public_key(&spki_der) {
        RawKeyLocation::Key { start, end } => Some(copy_range(&spki_der, start, end)),
        RawKeyLocation::Malformed => Some(spki_der),
        RawKeyLocation::EmptyBitString => None,
    }
}

/// The server public key for CredSSP from the server's first certificate (if any):
/// empty when there is no certificate, it does not parse, or its key cannot be
/// encoded; otherwise as [`public_key_from_spki`] gives it for the certificate's
/// SubjectPublicKeyInfo.
pub fn server_public_key(first_cert: Option<&[u8]>) -> (r: Option<Vec<u8>>)
    ensures
        first_cert is None ==> (r matches Some(v) && v@.len() == 0),
        first_cert matches Some(der) ==> match picky_spki_der(der@) {
            None => r matches Some(v) && v@.len() == 0,
            Some(spki) => match spki_outcome(spki) {
                SpkiOutcome::EmptyBitString => r is None,
                SpkiOutcome::Malformed => r matches Some(v) && v@ == spki,
                SpkiOutcome::Key(s, e) => r matches Some(v) && v@ == spki.subrange(s, e),
            },
        },
{
    let der = match first_cert {
        Some(der) => der,
        None => return Some(Vec::new()),
    };
    match cert_spki_der(der) {
        Some(spki_der) => public_key_from_spki(spki_der),
        None => Some(Vec::new()),
    }
}

} // verus!
