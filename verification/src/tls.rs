//! The certificates that a client trusts.

use vstd::prelude::*;

verus! {

/// The root certificates of a TLS client.
#[verifier::external_type_specification]
#[verifier::external_body]
pub struct ExRootCertStore(rustls::RootCertStore);

/// What TLS reports when something fails.
#[verifier::external_type_specification]
#[verifier::external_body]
pub struct ExTlsError(rustls::Error);

/// The trust anchors that a store holds, in the order they were added: of each
/// its subject, its public key info and its name constraints.
pub uninterp spec fn store_anchors(store: rustls::RootCertStore) -> Seq<
    (Seq<u8>, Seq<u8>, Option<Seq<u8>>),
>;

/// The trust anchor that a DER-encoded certificate is read as, if it can be.
pub uninterp spec fn trust_anchor(der: Seq<u8>) -> Option<(Seq<u8>, Seq<u8>, Option<Seq<u8>>)>;

/// What a DER-encoded certificate that cannot be read is refused with.
pub uninterp spec fn refusal(der: Seq<u8>) -> rustls::Error;

/// Calls `rustls::RootCertStore::empty`: a store without trust anchors.
#[verifier::external_body]
fn empty_store() -> (store: rustls::RootCertStore)
    ensures
        store_anchors(store) == Seq::<(Seq<u8>, Seq<u8>, Option<Seq<u8>>)>::empty(),
{
    rustls::RootCertStore::empty()
}

/// Calls `rustls::RootCertStore::add`: reads `der` as a trust anchor and appends
/// it to the store, or reports an error and leaves the store alone. Whether `der`
/// can be read, and what it is read as or refused with, depends on its bytes
/// alone.
#[verifier::external_body]
fn add_certificate(store: &mut rustls::RootCertStore, der: &[u8]) -> (result: Result<
    (),
    rustls::Error,
>)
    ensures
        result is Ok <==> trust_anchor(der@) is Some,
        result matches Err(e) ==> e == refusal(der@),
        store_anchors(*final(store)) == (match trust_anchor(der@) {
            Some(anchor) => store_anchors(*old(store)).push(anchor),
            None => store_anchors(*old(store)),
        }),
{
    store.add(rustls::pki_types::CertificateDer::from(der))
}

/// A certificate that cannot be trusted because it cannot be read.
#[derive(Debug)]
pub struct UnreadableCertificate {
    /// Its index among those given.
    pub index: usize,
    /// What TLS refused it with.
    pub cause: rustls::Error,
}

/// Pins exactly `certificates`, each DER-encoded: a self-signed certificate is
/// trusted by itself rather than verified against an authority. The first one
/// that cannot be read is reported.
pub fn trusted_roots(certificates: &Vec<Vec<u8>>) -> (roots: Result<
    rustls::RootCertStore,
    UnreadableCertificate,
>)
    ensures
        match roots {
            Ok(store) => (forall|i: int|
                0 <= i < certificates@.len() ==> trust_anchor(#[trigger] certificates@[i]@) is Some)
                && store_anchors(store) == Seq::new(
                certificates@.len(),
                |i: int| trust_anchor(certificates@[i]@).unwrap(),
            ),
            Err(e) => e.index < certificates@.len() && trust_anchor(certificates@[e.index as int]@)
                is None && e.cause == refusal(certificates@[e.index as int]@) && forall|i: int|
                0 <= i < e.index ==> trust_anchor(#[trigger] certificates@[i]@) is Some,
        },
{
    let mut store = empty_store();
    let mut index: usize = 0;
    while index < certificates.len()
        invariant
            index <= certificates@.len(),
            forall|i: int|
                0 <= i < index ==> trust_anchor(#[trigger] certificates@[i]@) is Some,
            store_anchors(store) =~= Seq::new(
                index as nat,
                |i: int| trust_anchor(certificates@[i]@).unwrap(),
            ),
        decreases certificates@.len() - index,
    {
        match add_certificate(&mut store, certificates[index].as_slice()) {
            Ok(()) => {},
            Err(cause) => {
                return Err(UnreadableCertificate { index, cause });
            },
        }
        index = index + 1;
    }
    Ok(store)
}

} // verus!
