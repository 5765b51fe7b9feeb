//! The origin CA "create certificate" endpoint.
use vstd::prelude::*;

use crate::cloudflare::client::HttpMethod;

verus! {

/// `pem::encode_config` of a `pem::Pem` with the given tag and contents, with `LF` line
/// endings and no headers.
pub uninterp spec fn pem_encode_lf(tag: Seq<char>, contents: Seq<u8>) -> Seq<char>;

/// First line of a PEM block with the given tag, line ending included.
pub open spec fn pem_begin_line(tag: Seq<char>) -> Seq<char> {
    "-----BEGIN "@ + tag + "-----"@ + seq!['\n']
}

/// Last line of a PEM block with the given tag, line ending included.
pub open spec fn pem_end_line(tag: Seq<char>) -> Seq<char> {
    "-----END "@ + tag + "-----"@ + seq!['\n']
}

/// `pem::encode_config(&Pem::new(tag, contents), EncodeConfig::new().set_line_ending(LF))`.
/// Claimed, as its source shows: the result is determined by tag and contents, starts with
/// the `-----BEGIN <tag>-----` line and ends with the `-----END <tag>-----` line. The
/// base64 body between them is left to the name.
#[verifier::external_body]
pub(crate) fn pem_encode(tag: &str, contents: &[u8]) -> (r: String)
    ensures
        r@ == pem_encode_lf(tag@, contents@),
        pem_begin_line(tag@).len() + pem_end_line(tag@).len() <= r@.len(),
        r@.take(pem_begin_line(tag@).len() as int) == pem_begin_line(tag@),
        r@.skip(r@.len() - pem_end_line(tag@).len()) == pem_end_line(tag@),
{
    let p = pem::Pem::new(tag, contents);
    pem::encode_config(&p, pem::EncodeConfig::new().set_line_ending(pem::LineEnding::LF))
}

/// Key type of a requested origin certificate.
#[derive(Clone, Copy, Debug, PartialEq, Eq, Structural)]
pub enum RequestType {
    /// `origin-rsa`
    OriginRsa,
    /// `origin-ecc`
    OriginRcc,
    /// `keyless-certificate`
    KeylessCertificate,
}

/// Create Origin certificate
/// <https://developers.cloudflare.com/api/operations/origin-ca-create-certificate>
pub struct CreateCertificate {
    pub csr: String,
    pub hostnames: Vec<String>,
    pub request_type: RequestType,
    pub requested_validity: Option<usize>,
}

/// The tag of a PEM-encoded certificate signing request.
pub open spec fn csr_pem_tag() -> Seq<char> {
    "CERTIFICATE REQUEST"@
}

impl CreateCertificate {
    /// The request that signs the DER-encoded CSR `csr_der` for `hostnames` as an RSA
    /// origin certificate with the default validity.
    pub fn new(hostnames: Vec<String>, csr_der: &[u8]) -> (r: CreateCertificate)
        ensures
            r.csr@ == pem_encode_lf(csr_pem_tag(), csr_der@),
            r.csr@.take(pem_begin_line(csr_pem_tag()).len() as int) == pem_begin_line(csr_pem_tag()),
            r.csr@.skip(r.csr@.len() - pem_end_line(csr_pem_tag()).len()) == pem_end_line(csr_pem_tag()),
            r.hostnames == hostnames,
            r.request_type == RequestType::OriginRsa,
            r.requested_validity is None,
    {
        let csr = pem_encode("CERTIFICATE REQUEST", csr_der);
        CreateCertificate {
            csr,
            hostnames,
            request_type: RequestType::OriginRsa,
            requested_validity: None,
        }
    }

    /// HTTP method of the endpoint.
    pub fn method(&self) -> (m: HttpMethod)
        ensures
            m == HttpMethod::Post,
    {
        HttpMethod::Post
    }

    /// Path of the endpoint, relative to the API root.
    pub fn path(&self) -> (p: String)
        ensures
            p@ == "certificates"@,
    {
        String::from_str("certificates")
    }
}

/// An issued origin certificate, as the API returns it.
pub struct Certificate {
    pub certificate: String,
    pub csr: String,
    pub expires_on: String,
    pub hostnames: Vec<String>,
    pub id: String,
    pub request_type: RequestType,
    pub requested_validity: usize,
}

} // verus!
