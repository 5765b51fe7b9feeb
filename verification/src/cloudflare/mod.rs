//! Cloudflare origin certificates.
pub mod api;
pub mod client;

use vstd::prelude::*;


use crate::dns::utils::text::{chars_of, count_char, count_char_in};
use self::client::{
    api_client_new, client_credentials, client_environment, ApiCredentials, ApiEnvironment,
    CloudflareError,
};

verus! {

/// A connection to the Cloudflare API authenticated with an origin CA service key.
pub struct Cloudflare {
    pub client: cloudflare::framework::async_api::Client,
}

/// Hostnames an origin certificate for `domain` covers: a domain with exactly one dot
/// (an apex such as `example.com`) also gets its wildcard `*.example.com`, listed first.
pub open spec fn spec_certificate_hostnames(domain: Seq<char>) -> Seq<Seq<char>> {
    if count_char(domain, '.') == 1 {
        seq![seq!['*', '.'] + domain, domain]
    } else {
        seq![domain]
    }
}

/// An origin certificate for `domain` covers `domain` itself, listed last, and at most
/// one other hostname, its wildcard `*.domain`; the wildcard is requested exactly when
/// the domain has one dot, and a domain with any other number of dots gets `domain` alone.
pub proof fn lemma_certificate_hostnames(domain: Seq<char>)
    ensures
        ({
            let h = spec_certificate_hostnames(domain);
            let wildcard = seq!['*', '.'] + domain;
            &&& 1 <= h.len() <= 2
            &&& h.last() == domain
            &&& forall|i: int| 0 <= i < h.len() ==> #[trigger] h[i] == domain || h[i] == wildcard
            &&& (exists|i: int| 0 <= i < h.len() && #[trigger] h[i] == wildcard) <==> count_char(domain, '.') == 1
            &&& count_char(domain, '.') != 1 ==> h == seq![domain]
        }),
{
    let h = spec_certificate_hostnames(domain);
    let wildcard = seq!['*', '.'] + domain;
    assert(wildcard.len() == domain.len() + 2);
    if count_char(domain, '.') == 1 {
        assert(h[0] == wildcard);
    } else {
        assert forall|i: int| 0 <= i < h.len() implies #[trigger] h[i] != wildcard by {
            assert(h[i] == domain);
        }
    }
}

impl Cloudflare {
    /// The hostnames to request an origin certificate for, for `domain`.
    pub fn certificate_hostnames(domain: String) -> (r: Vec<String>)
        ensures
            r.deep_view() == spec_certificate_hostnames(domain@),
    {
        let ghost d = domain@;
        let chars = chars_of(domain.as_str());
        if count_char_in(&chars, '.') == 1 {
            let mut wildcard = String::from_str("*.");
            wildcard.append(domain.as_str());
            proof {
                reveal_strlit("*.");
                assert("*."@ =~= seq!['*', '.']);
            }
            let mut r: Vec<String> = Vec::new();
            r.push(wildcard);
            r.push(domain);
            assert(r.deep_view()[0] == seq!['*', '.'] + d);
            assert(r.deep_view() =~= spec_certificate_hostnames(d));
            r
        } else {
            let mut r: Vec<String> = Vec::new();
            r.push(domain);
            assert(r.deep_view() =~= spec_certificate_hostnames(d));
            r
        }
    }

    /// Builds a client for the production Cloudflare API that authenticates with the
    /// given origin CA service key.
    pub fn new(key: String) -> (r: Result<Cloudflare, CloudflareError>)
        ensures
            r matches Ok(c) ==> client_credentials(c.client) == (ApiCredentials::Service { key })
                && client_environment(c.client) == ApiEnvironment::Production,
            r is Err ==> r == Err::<Cloudflare, CloudflareError>(CloudflareError::HttpClient),
    {
        match api_client_new(ApiCredentials::Service { key }, ApiEnvironment::Production) {
            Ok(client) => Ok(Cloudflare { client }),
            Err(_) => Err(CloudflareError::HttpClient),
        }
    }
}

} // verus!
