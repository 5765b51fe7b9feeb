use ssl_manager::dns::cloudflare::api::dns::dns_records_path;
use ssl_manager::dns::cloudflare::api::zone::{ListZones, ListZonesParams, Zone, Zones};
use ssl_manager::dns::manual::ManualClient;
use ssl_manager::dns::{Clients, DnsError};

#[test]
fn challenge_record_for_apex_domain() {
    let r = Clients::challenge_record(&"example.com".to_string());
    assert_eq!(r.zone, "example.com");
    assert_eq!(r.name, "_acme-challenge");
    assert_eq!(r.fqdn, "_acme-challenge.example.com");
}

#[test]
fn challenge_record_for_subdomain() {
    let r = Clients::challenge_record(&"a.b.example.com".to_string());
    assert_eq!(r.zone, "example.com");
    assert_eq!(r.name, "_acme-challenge.a.b");
    assert_eq!(r.fqdn, "_acme-challenge.a.b.example.com");
}

#[test]
fn challenge_record_for_single_label() {
    let r = Clients::challenge_record(&"localhost".to_string());
    assert_eq!(r.zone, "localhost");
    assert_eq!(r.name, "_acme-challenge");
    assert_eq!(r.fqdn, "_acme-challenge.localhost");
}

#[test]
fn challenge_record_fqdn_prefixes_domain() {
    for domain in ["x.y", "www.example.co.uk", "é.example.org", ".", "a..b"] {
        let r = Clients::challenge_record(&domain.to_string());
        assert_eq!(r.fqdn, format!("_acme-challenge.{}", domain));
        assert_eq!(r.fqdn, format!("{}.{}", r.name, r.zone));
        assert!(r.zone.matches('.').count() <= 1);
    }
}

#[test]
fn manual_instructions() {
    assert_eq!(
        ManualClient::create_instruction("example.com", "_acme-challenge.www", "token"),
        "_acme-challenge.www.example.com IN TXT token"
    );
    assert_eq!(
        ManualClient::delete_instruction("example.com", "_acme-challenge"),
        "_acme-challenge.example.com IN TXT"
    );
}

#[test]
fn manual_provider() {
    assert!(matches!(Clients::manual(), Clients::Manual(_)));
    let _ = ManualClient::new();
}

#[test]
fn dns_records_endpoint_path() {
    assert_eq!(dns_records_path("abc123"), "zones/abc123/dns_records");
}

#[test]
fn list_zones_for_domain() {
    let l = ListZones::for_domain(&"example.com".to_string());
    assert_eq!(l.params.name.as_deref(), Some("example.com"));
    assert_eq!(l.params.per_page, Some(1));
    assert!(l.params.page.is_none());
    assert!(l.params.status.is_none());
    assert!(l.params.order.is_none());
    assert!(l.params.direction.is_none());
    assert!(l.params.search_match.is_none());
    assert_eq!(l.path(), "zones");
    let d = ListZonesParams::default();
    assert!(d.name.is_none() && d.per_page.is_none());
}

#[test]
fn zone_id_takes_first_zone() {
    let zones = Zones(vec![Zone { id: "z1".to_string() }, Zone { id: "z2".to_string() }]);
    assert_eq!(zones.zone_id(&"example.com".to_string()).ok(), Some("z1".to_string()));
}

#[test]
fn zone_id_not_found() {
    let zones = Zones(vec![]);
    match zones.zone_id(&"example.com".to_string()) {
        Err(DnsError::ZoneNotFound { domain }) => assert_eq!(domain, "example.com"),
        _ => panic!("expected ZoneNotFound"),
    }
}

#[test]
fn manual_removal_names_created_record() {
    let (d, n) = ManualClient::record_id("example.com".to_string(), "_acme-challenge.www".to_string());
    assert_eq!(d, "example.com");
    assert_eq!(n, "_acme-challenge.www");
    let create = ManualClient::create_instruction(&d, &n, "tok");
    let remove = ManualClient::delete_instruction(&d, &n);
    assert_eq!(create, format!("{} tok", remove));
}
