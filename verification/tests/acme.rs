use ssl_manager::acme::challenges::{
    AuthzInfo, AuthzStatus, ChallengeInfo, ChallengeKind, ChallengeSetup, SetupAction, SetupPhase,
};
use ssl_manager::acme::ready::{ReadyPoll, ReadyStep};
use ssl_manager::acme::{check_new_order, contact_uri, AcmeError, OrderStatus};

fn challenge(kind: ChallengeKind, url: &str, value: &str) -> ChallengeInfo {
    ChallengeInfo { kind, url: url.to_string(), dns_value: value.to_string() }
}

fn authz(identifier: &str, status: AuthzStatus, challenges: Vec<ChallengeInfo>) -> AuthzInfo {
    AuthzInfo { identifier: identifier.to_string(), status, challenges }
}

fn id(zone: &str, record: &str) -> (String, String) {
    (zone.to_string(), record.to_string())
}

#[test]
fn contact_uri_is_mailto() {
    assert_eq!(contact_uri("admin@example.com"), "mailto:admin@example.com");
}

#[test]
fn new_order_must_be_pending() {
    assert_eq!(check_new_order(OrderStatus::Pending), Ok(()));
    assert_eq!(
        check_new_order(OrderStatus::Ready),
        Err(AcmeError::UnexpectedOrderStatus(OrderStatus::Ready))
    );
    assert_eq!(
        check_new_order(OrderStatus::Invalid),
        Err(AcmeError::UnexpectedOrderStatus(OrderStatus::Invalid))
    );
}

#[test]
fn challenge_setup_happy_path() {
    let auths = vec![
        authz("example.com", AuthzStatus::Pending, vec![
            challenge(ChallengeKind::Http01, "u-http", "h"),
            challenge(ChallengeKind::Dns01, "u-dns1", "v1"),
            challenge(ChallengeKind::Dns01, "u-dns1b", "v1b"),
        ]),
        authz("valid.example.com", AuthzStatus::Valid, vec![challenge(ChallengeKind::Dns01, "u-v", "vv")]),
        authz("nodns.example.com", AuthzStatus::Pending, vec![challenge(ChallengeKind::TlsAlpn01, "u-t", "t")]),
        authz("www.example.com", AuthzStatus::Pending, vec![challenge(ChallengeKind::Dns01, "u-dns2", "v2")]),
    ];
    let (mut s, a) = ChallengeSetup::new(auths);
    match a {
        SetupAction::CreateRecord { identifier, value } => {
            assert_eq!(identifier, "example.com");
            assert_eq!(value, "v1");
        },
        _ => panic!("expected a record"),
    }
    match s.record_created(Some(id("example.com", "r1"))) {
        SetupAction::CreateRecord { identifier, value } => {
            assert_eq!(identifier, "www.example.com");
            assert_eq!(value, "v2");
        },
        _ => panic!("expected a record"),
    }
    match s.record_created(Some(id("example.com", "r2"))) {
        SetupAction::SetReady { url } => assert_eq!(url, "u-dns1"),
        _ => panic!("expected set ready"),
    }
    match s.ready_set(true) {
        SetupAction::SetReady { url } => assert_eq!(url, "u-dns2"),
        _ => panic!("expected set ready"),
    }
    match s.ready_set(true) {
        SetupAction::Finished { names, dns_ids } => {
            assert_eq!(names, vec!["example.com".to_string(), "www.example.com".to_string()]);
            assert_eq!(dns_ids, vec![id("example.com", "r1"), id("example.com", "r2")]);
        },
        _ => panic!("expected finished"),
    }
}

#[test]
fn challenge_setup_skips_failed_record() {
    let auths = vec![
        authz("a.example", AuthzStatus::Pending, vec![challenge(ChallengeKind::Dns01, "ua", "va")]),
        authz("b.example", AuthzStatus::Pending, vec![challenge(ChallengeKind::Dns01, "ub", "vb")]),
    ];
    let (mut s, _) = ChallengeSetup::new(auths);
    let a = s.record_created(None);
    assert!(matches!(a, SetupAction::CreateRecord { .. }));
    match s.record_created(Some(id("example", "rb"))) {
        SetupAction::SetReady { url } => assert_eq!(url, "ub"),
        _ => panic!("expected set ready"),
    }
    match s.ready_set(true) {
        SetupAction::Finished { names, dns_ids } => {
            assert_eq!(names, vec!["b.example".to_string()]);
            assert_eq!(dns_ids, vec![id("example", "rb")]);
        },
        _ => panic!("expected finished"),
    }
}

#[test]
fn challenge_setup_cleans_up_after_ready_failure() {
    let auths = vec![
        authz("a.example", AuthzStatus::Pending, vec![challenge(ChallengeKind::Dns01, "ua", "va")]),
        authz("b.example", AuthzStatus::Pending, vec![challenge(ChallengeKind::Dns01, "ub", "vb")]),
    ];
    let (mut s, _) = ChallengeSetup::new(auths);
    s.record_created(Some(id("za", "ra")));
    s.record_created(Some(id("zb", "rb")));
    match s.ready_set(false) {
        SetupAction::DeleteRecord { domain_id, dns_id } => {
            assert_eq!((domain_id, dns_id), id("za", "ra"));
        },
        _ => panic!("expected a deletion"),
    }
    assert_eq!(s.phase, SetupPhase::Cleanup { record: 0 });
    match s.record_deleted() {
        SetupAction::DeleteRecord { domain_id, dns_id } => {
            assert_eq!((domain_id, dns_id), id("zb", "rb"));
        },
        _ => panic!("expected a deletion"),
    }
    assert!(matches!(s.record_deleted(), SetupAction::Failed));
}

#[test]
fn challenge_setup_nothing_to_do() {
    let (s, a) = ChallengeSetup::new(vec![]);
    assert_eq!(s.phase, SetupPhase::Ready { challenge: 0 });
    match a {
        SetupAction::Finished { names, dns_ids } => {
            assert!(names.is_empty());
            assert!(dns_ids.is_empty());
        },
        _ => panic!("expected finished"),
    }
    let (_, a) = ChallengeSetup::new(vec![authz("v", AuthzStatus::Valid, vec![])]);
    assert!(matches!(a, SetupAction::Finished { .. }));
}

#[test]
fn ready_poll_waits_nine_times_at_most() {
    let mut p = ReadyPoll::new();
    assert_eq!((p.tries, p.delay_secs), (1, 1));
    let mut waits = vec![];
    let last = loop {
        match p.observe(OrderStatus::Pending) {
            ReadyStep::Wait { secs } => waits.push(secs),
            other => break other,
        }
    };
    assert_eq!(waits, vec![2, 4, 8, 16, 32, 64, 128, 256]);
    assert_eq!(last, ReadyStep::Fail(AcmeError::OrderNotReady));
}

#[test]
fn ready_poll_ready_and_invalid() {
    let mut p = ReadyPoll::new();
    assert_eq!(p.observe(OrderStatus::Processing), ReadyStep::Wait { secs: 2 });
    assert_eq!(p.observe(OrderStatus::Ready), ReadyStep::Ready);
    let mut q = ReadyPoll::new();
    assert_eq!(q.observe(OrderStatus::Invalid), ReadyStep::Fail(AcmeError::OrderInvalid));
}
