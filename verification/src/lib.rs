//! Certificate issuance for domains: DNS-01 challenge bookkeeping for ACME,
//! Cloudflare origin certificates, and the DNS record naming rules they share.

pub mod acme;
pub mod certificate;
pub mod cloudflare;
pub mod dns;

pub use certificate::{Certificate, CertificateResult};
