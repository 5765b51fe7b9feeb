//! The "create DNS record" endpoint.
use vstd::prelude::*;

verus! {

/// A created DNS record, as the API returns it.
pub struct DnsRecord {
    pub id: String,
}

/// Path of the endpoint that creates records in the zone `zone_identifier`, relative to
/// the API root.
pub fn dns_records_path(zone_identifier: &str) -> (p: String)
    ensures
        p@ == "zones/"@ + zone_identifier@ + "/dns_records"@,
{
    let mut p = String::from_str("zones/");
    p.append(zone_identifier);
    p.append("/dns_records");
    p
}

} // verus!
