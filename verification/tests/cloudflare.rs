use ssl_manager::cloudflare::api::certificates::{CreateCertificate, RequestType};
use ssl_manager::cloudflare::client::HttpMethod;
use ssl_manager::cloudflare::Cloudflare;
use ssl_manager::dns::cloudflare::CloudflareClient;
use ssl_manager::dns::Clients;

#[test]
fn hostnames_for_apex_domain_add_wildcard() {
    assert_eq!(
        Cloudflare::certificate_hostnames("example.com".to_string()),
        vec!["*.example.com".to_string(), "example.com".to_string()]
    );
}

#[test]
fn hostnames_for_subdomain() {
    assert_eq!(
        Cloudflare::certificate_hostnames("app.example.com".to_string()),
        vec!["app.example.com".to_string()]
    );
    assert_eq!(Cloudflare::certificate_hostnames("localhost".to_string()), vec!["localhost".to_string()]);
}

#[test]
fn create_certificate_request_pem() {
    let der = vec![1u8, 2, 3, 4, 5];
    let req = CreateCertificate::new(vec!["example.com".to_string()], &der);
    assert_eq!(req.csr, "-----BEGIN CERTIFICATE REQUEST-----\nAQIDBAU=\n-----END CERTIFICATE REQUEST-----\n");
    assert_eq!(req.hostnames, vec!["example.com".to_string()]);
    assert_eq!(req.request_type, RequestType::OriginRsa);
    assert_eq!(req.requested_validity, None);
    assert_eq!(req.method(), HttpMethod::Post);
    assert_eq!(req.path(), "certificates");
}

#[test]
fn create_certificate_request_pem_wraps_lines() {
    let der = vec![0u8; 60];
    let req = CreateCertificate::new(vec![], &der);
    let lines: Vec<&str> = req.csr.lines().collect();
    assert_eq!(lines.len(), 4);
    assert_eq!(lines[1].len(), 64);
    assert_eq!(lines[2].len(), 16);
}

#[test]
fn cloudflare_clients_build() {
    assert!(Cloudflare::new("key".to_string()).is_ok());
    assert!(CloudflareClient::new("token".to_string()).is_ok());
    assert!(matches!(Clients::cloudflare("token".to_string()), Ok(Clients::Cloudflare(_))));
}
