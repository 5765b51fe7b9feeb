//! The Cloudflare API client, shared by origin certificates and DNS records.
use vstd::prelude::*;


verus! {

#[verifier::external_type_specification]
#[verifier::external_body]
pub struct ExCloudflareApiClient(cloudflare::framework::async_api::Client);

#[verifier::external_type_specification]
#[verifier::external_body]
pub struct ExCloudflareFrameworkError(cloudflare::framework::Error);

/// How requests to the Cloudflare API authenticate.
pub enum ApiCredentials {
    /// An origin CA service key (`X-Auth-User-Service-Key`).
    Service { key: String },
    /// A user API token (`Authorization: Bearer`).
    UserAuthToken { token: String },
}

/// Which Cloudflare API host requests go to.
pub enum ApiEnvironment {
    /// `https://api.cloudflare.com/client/v4`
    Production,
}

/// HTTP methods of the API endpoints this library calls.
#[derive(Clone, Copy, Debug, PartialEq, Eq, Structural)]
pub enum HttpMethod {
    Get,
    Post,
    Delete,
}

/// Errors of this library's Cloudflare API use.
#[derive(Debug, PartialEq, Eq, Structural)]
pub enum CloudflareError {
    /// The HTTP client behind the API client could not be set up.
    HttpClient,
}

/// The credentials a Cloudflare API client authenticates with, as [`ApiCredentials`].
pub uninterp spec fn client_credentials(client: cloudflare::framework::async_api::Client) -> ApiCredentials;

/// The API host a Cloudflare API client sends its requests to.
pub uninterp spec fn client_environment(client: cloudflare::framework::async_api::Client) -> ApiEnvironment;

/// `cloudflare::framework::async_api::Client::new` with the default client configuration.
/// Claimed, as its source shows: the client keeps the credentials and environment it is
/// built with. Its source fails only when the underlying `reqwest` client cannot be built
/// on this machine (TLS backend setup), which nothing here can predict: when it succeeds
/// is not stated.
#[verifier::external_body]
pub(crate) fn api_client_new(
    credentials: ApiCredentials,
    environment: ApiEnvironment,
) -> (r: Result<cloudflare::framework::async_api::Client, cloudflare::framework::Error>)
    ensures
        r matches Ok(c) ==> client_credentials(c) == credentials && client_environment(c) == environment,
{
    let credentials = match credentials {
        ApiCredentials::Service { key } => cloudflare::framework::auth::Credentials::Service { key },
        ApiCredentials::UserAuthToken { token } => {
            cloudflare::framework::auth::Credentials::UserAuthToken { token }
        },
    };
    let environment = match environment {
        ApiEnvironment::Production => cloudflare::framework::Environment::Production,
    };
    cloudflare::framework::async_api::Client::new(credentials, Default::default(), environment)
}

} // verus!
