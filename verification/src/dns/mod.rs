//! DNS providers for ACME DNS-01 challenges, and the names of the challenge records.
pub mod cloudflare;
pub mod manual;
pub mod utils;

use vstd::prelude::*;

use crate::cloudflare::client::{client_credentials, client_environment, ApiCredentials, ApiEnvironment, CloudflareError};
use self::cloudflare::CloudflareClient;
use self::manual::ManualClient;
use self::utils::rfind::{lemma_rfind_nth_index, lemma_rfind_nth_none_iff, rfind_nth_char, rfind_nth_index};
use self::utils::text::{chars_of, count_char};

verus! {

/// Lookups allowed after the first while waiting for a new challenge record to become
/// visible in DNS.
pub const PROPAGATION_RETRIES: usize = 10;

/// The label under which DNS-01 challenge records are published.
pub open spec fn challenge_label() -> Seq<char> {
    "_acme-challenge"@
}

/// The zone a challenge record for `domain` is created in: the last two labels of
/// `domain`, or all of it when it has at most one dot.
pub open spec fn spec_record_zone(domain: Seq<char>) -> Seq<char> {
    match rfind_nth_index(domain, '.', 1) {
        Some(k) => domain.skip(k + 1),
        None => domain,
    }
}

/// The name of the challenge record for `domain`, relative to its zone.
pub open spec fn spec_record_name(domain: Seq<char>) -> Seq<char> {
    match rfind_nth_index(domain, '.', 1) {
        Some(k) => challenge_label() + seq!['.'] + domain.take(k),
        None => challenge_label(),
    }
}

/// The zone of a challenge record holds the last two labels of the domain: for a domain
/// with at least two dots it is what follows the second dot from the end, so it has
/// exactly one dot, and the record's name is the label, a dot and what precedes that dot.
/// A domain with at most one dot is its own zone, and the name is the label alone.
pub proof fn lemma_record_zone_is_last_two_labels(domain: Seq<char>)
    ensures
        count_char(domain, '.') >= 2 ==> {
            &&& count_char(spec_record_zone(domain), '.') == 1
            &&& exists|k: int| #![trigger domain[k]] 0 <= k < domain.len() && {
                &&& domain[k] == '.'
                &&& domain == domain.take(k) + seq!['.'] + spec_record_zone(domain)
                &&& spec_record_name(domain) == challenge_label() + seq!['.'] + domain.take(k)
            }
        },
        count_char(domain, '.') <= 1 ==> spec_record_zone(domain) == domain
            && spec_record_name(domain) == challenge_label(),
{
    lemma_rfind_nth_index(domain, '.', 1);
    lemma_rfind_nth_none_iff(domain, '.', 1);
    if let Some(k) = rfind_nth_index(domain, '.', 1) {
        assert(domain =~= domain.take(k) + seq!['.'] + domain.skip(k + 1));
        assert(domain[k] == '.');
    }
}

/// Where the TXT record answering a DNS-01 challenge for a domain lives.
pub struct ChallengeRecord {
    /// The zone the record is created in.
    pub zone: String,
    /// The record's name relative to `zone`.
    pub name: String,
    /// The record's fully qualified name, `name.zone`.
    pub fqdn: String,
}

/// Errors of publishing and checking challenge records.
#[derive(Debug)]
pub enum DnsError {
    /// No zone is listed for the domain.
    ZoneNotFound { domain: String },
    /// The domain cannot be put in a DNS query.
    InvalidQueryDomain,
    /// The DNS query could not be encoded (never for a domain `rustdns` accepts).
    QueryEncoding,
    /// The DNS response could not be decoded.
    ResponseDecoding,
}

/// The DNS providers that can publish challenge records.
pub enum Clients {
    Cloudflare(CloudflareClient),
    Manual(ManualClient),
}

/// A DNS provider.
pub trait DnsClient {
    /// The provider as one of [`Clients`].
    fn wrap(self) -> Clients;
}

impl Clients {
    /// Where the challenge record for `domain` is published: split at the second dot
    /// from the end into a relative name and its zone.
    pub fn challenge_record(domain: &String) -> (r: ChallengeRecord)
        ensures
            r.zone@ == spec_record_zone(domain@),
            r.name@ == spec_record_name(domain@),
            r.fqdn@ == r.name@ + seq!['.'] + r.zone@,
            r.fqdn@ == challenge_label() + seq!['.'] + domain@,
            count_char(r.zone@, '.') <= 1,
            count_char(domain@, '.') >= 2 ==> count_char(r.zone@, '.') == 1,
            count_char(domain@, '.') <= 1 ==> r.zone@ == domain@,
    {
        proof {
            lemma_record_zone_is_last_two_labels(domain@);
        }
        let s = domain.as_str();
        let ghost d = s@;
        let chars = chars_of(s);
        let len = chars.len();
        proof {
            reveal_strlit(".");
            assert("."@ =~= seq!['.']);
            utils::rfind::lemma_rfind_nth_index(d, '.', 1);
        }
        let (zone, name) = match rfind_nth_char(&chars, '.', 1) {
            Some(k) => {
                let zone = s.substring_char(k + 1, len).to_owned();
                let mut name = String::from_str("_acme-challenge");
                name.append(".");
                name.append(s.substring_char(0, k));
                proof {
                    assert(d =~= d.take(k as int) + seq!['.'] + d.skip(k + 1));
                }
                (zone, name)
            },
            None => (s.to_owned(), String::from_str("_acme-challenge")),
        };
        let mut fqdn = name.clone();
        fqdn.append(".");
        fqdn.append(zone.as_str());
        ChallengeRecord { zone, name, fqdn }
    }

    /// The manual provider: the operator creates the records by hand.
    pub fn manual() -> (r: Clients)
        ensures
            r is Manual,
    {
        ManualClient::new().wrap()
    }

    /// The Cloudflare provider, authenticated with an API token.
    pub fn cloudflare(token: String) -> (r: Result<Clients, CloudflareError>)
        ensures
            r matches Ok(c) ==> c is Cloudflare,
            r matches Ok(Clients::Cloudflare(c)) ==> client_credentials(c.client)
                == (ApiCredentials::UserAuthToken { token }) && client_environment(c.client)
                == ApiEnvironment::Production,
            r is Err ==> r == Err::<Clients, CloudflareError>(CloudflareError::HttpClient),
    {
        let client = CloudflareClient::new(token)?;
        Ok(client.wrap())
    }
}

} // verus!
