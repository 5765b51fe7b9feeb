//! DNS records on Cloudflare.
pub mod api;

use vstd::prelude::*;


use crate::cloudflare::client::{
    api_client_new, client_credentials, client_environment, ApiCredentials, ApiEnvironment,
    CloudflareError,
};

verus! {

/// A Cloudflare API connection authenticated with a user API token.
pub struct CloudflareClient {
    pub client: cloudflare::framework::async_api::Client,
}

impl CloudflareClient {
    pub fn new(token: String) -> (r: Result<CloudflareClient, CloudflareError>)
        ensures
            r matches Ok(c) ==> client_credentials(c.client) == (ApiCredentials::UserAuthToken { token })
                && client_environment(c.client) == ApiEnvironment::Production,
            r is Err ==> r == Err::<CloudflareClient, CloudflareError>(CloudflareError::HttpClient),
    {
        match api_client_new(ApiCredentials::UserAuthToken { token }, ApiEnvironment::Production) {
            Ok(client) => Ok(CloudflareClient { client }),
            Err(_) => Err(CloudflareError::HttpClient),
        }
    }
}

impl crate::dns::DnsClient for CloudflareClient {
    fn wrap(self) -> (r: crate::dns::Clients)
        ensures
            r == crate::dns::Clients::Cloudflare(self),
    {
        crate::dns::Clients::Cloudflare(self)
    }
}

} // verus!
