//! The "list zones" endpoint, used to find the zone a record goes in.
use vstd::prelude::*;

use crate::cloudflare::client::HttpMethod;
use crate::dns::DnsError;

verus! {

#[verifier::external_type_specification]
#[verifier::external_body]
pub struct ExZoneStatus(cloudflare::endpoints::zone::Status);

#[verifier::external_type_specification]
#[verifier::external_body]
pub struct ExListZonesOrder(cloudflare::endpoints::zone::ListZonesOrder);

#[verifier::external_type_specification]
#[verifier::external_body]
pub struct ExOrderDirection(cloudflare::framework::OrderDirection);

#[verifier::external_type_specification]
#[verifier::external_body]
pub struct ExSearchMatch(cloudflare::framework::SearchMatch);

/// A zone, as the API lists it.
pub struct Zone {
    pub id: String,
}

/// The zones a listing returned, in the API's order.
pub struct Zones(pub Vec<Zone>);

/// List zones.
pub struct ListZones {
    pub params: ListZonesParams,
}

/// Query parameters of a zone listing; `None` leaves a parameter out.
pub struct ListZonesParams {
    pub name: Option<String>,
    pub status: Option<cloudflare::endpoints::zone::Status>,
    pub page: Option<u32>,
    pub per_page: Option<u32>,
    pub order: Option<cloudflare::endpoints::zone::ListZonesOrder>,
    pub direction: Option<cloudflare::framework::OrderDirection>,
    pub search_match: Option<cloudflare::framework::SearchMatch>,
}

impl Default for ListZonesParams {
    fn default() -> (r: ListZonesParams)
        ensures
            r.name is None,
            r.status is None,
            r.page is None,
            r.per_page is None,
            r.order is None,
            r.direction is None,
            r.search_match is None,
    {
        ListZonesParams {
            name: None,
            status: None,
            page: None,
            per_page: None,
            order: None,
            direction: None,
            search_match: None,
        }
    }
}

impl ListZones {
    /// The listing that looks up the zone named `domain`: one result per page, no
    /// other filter.
    pub fn for_domain(domain: &String) -> (r: ListZones)
        ensures
            r.params.name matches Some(n) && n@ == domain@,
            r.params.status is None,
            r.params.page is None,
            r.params.per_page == Some(1u32),
            r.params.order is None,
            r.params.direction is None,
            r.params.search_match is None,
    {
        ListZones {
            params: ListZonesParams {
                name: Some(domain.clone()),
                per_page: Some(1),
                ..Default::default()
            },
        }
    }

    /// HTTP method of the endpoint.
    pub fn method(&self) -> (m: HttpMethod)
        ensures
            m == HttpMethod::Get,
    {
        HttpMethod::Get
    }

    /// Path of the endpoint, relative to the API root.
    pub fn path(&self) -> (p: String)
        ensures
            p@ == "zones"@,
    {
        String::from_str("zones")
    }
}

impl Zones {
    /// The identifier of the zone of `domain`: the first zone listed, or
    /// [`DnsError::ZoneNotFound`] for `domain` when the listing is empty.
    pub fn zone_id(&self, domain: &String) -> (r: Result<String, DnsError>)
        ensures
            self.0@.len() > 0 ==> (r matches Ok(id) && id@ == self.0@[0].id@),
            self.0@.len() == 0 ==> (r matches Err(DnsError::ZoneNotFound { domain: d }) && d@ == domain@),
    {
        if self.0.len() == 0 {
            Err(DnsError::ZoneNotFound { domain: domain.clone() })
        } else {
            Ok(self.0[0].id.clone())
        }
    }
}

} // verus!
