use ssl_manager::dns::utils::lookup::{
    contains_value, response_txt_values, txt_query, TxtCheck, TxtCheckStep,
};
use ssl_manager::dns::DnsError;
use std::time::Duration;

fn response_with(records: Vec<rustdns::Resource>) -> Vec<u8> {
    let mut m = rustdns::Message::default();
    for r in records {
        m.answers.push(rustdns::Record::new(
            "_acme-challenge.example.com.",
            rustdns::Class::Internet,
            Duration::from_secs(60),
            r,
        ));
    }
    m.to_vec().unwrap()
}

#[test]
fn txt_query_encodes_question() {
    let q = txt_query("_acme-challenge.example.com").unwrap();
    let m = rustdns::Message::from_slice(&q).unwrap();
    assert_eq!(m.questions.len(), 1);
    assert!(format!("{:?}", m.questions[0]).contains("TXT"));
    assert!(m.questions[0].name.starts_with("_acme-challenge.example.com"));
}

#[test]
fn txt_query_layout() {
    let q = txt_query("_acme-challenge.example.com").unwrap();
    assert_eq!(&q[4..12], &[0u8, 1, 0, 0, 0, 0, 0, 0][..]);
    let mut tail = vec![15u8];
    tail.extend_from_slice(b"_acme-challenge");
    tail.push(7);
    tail.extend_from_slice(b"example");
    tail.push(3);
    tail.extend_from_slice(b"com");
    tail.extend_from_slice(&[0, 0, 16, 0, 1]);
    assert_eq!(&q[12..], &tail[..]);
}

#[test]
fn txt_query_refuses_invalid_domain() {
    let long = "a".repeat(300);
    assert!(matches!(txt_query(&long), Err(DnsError::InvalidQueryDomain)));
}

#[test]
fn response_txt_values_keeps_valid_txt_strings() {
    let bytes = response_with(vec![
        rustdns::Resource::TXT(rustdns::TXT(vec![b"hello".to_vec(), vec![0xff, 0xfe], b"world".to_vec()])),
        rustdns::Resource::SPF(rustdns::TXT(vec![b"v=spf1 -all".to_vec()])),
        rustdns::Resource::TXT(rustdns::TXT(vec!["é".as_bytes().to_vec()])),
    ]);
    let values = response_txt_values(&bytes).ok().unwrap();
    assert_eq!(values, vec!["hello".to_string(), "world".to_string(), "é".to_string()]);
}

#[test]
fn response_txt_values_empty_answer() {
    let bytes = response_with(vec![]);
    assert_eq!(response_txt_values(&bytes).ok().unwrap(), Vec::<String>::new());
}

#[test]
fn response_txt_values_rejects_garbage() {
    assert!(matches!(response_txt_values(&[1, 2, 3]), Err(DnsError::ResponseDecoding)));
}

#[test]
fn contains_value_exact_match() {
    let records = vec!["abc".to_string(), "def".to_string()];
    assert!(contains_value(&records, "def"));
    assert!(!contains_value(&records, "de"));
    assert!(!contains_value(&vec![], "abc"));
}

#[test]
fn txt_check_doubles_waits_then_gives_up() {
    let mut c = TxtCheck::new(10);
    assert_eq!(c.wait_secs, 1);
    let none: Vec<String> = vec![];
    let mut waits = vec![];
    loop {
        match c.observe(&none, "v") {
            TxtCheckStep::Wait { secs } => waits.push(secs),
            TxtCheckStep::NotFound => break,
            TxtCheckStep::Found => panic!("nothing was found"),
        }
    }
    assert_eq!(waits, vec![2, 4, 8, 16, 32, 64, 128, 256, 512, 1024]);
    assert_eq!(c.retries, 0);
}

#[test]
fn txt_check_found_stops() {
    let mut c = TxtCheck::new(3);
    let none: Vec<String> = vec![];
    assert_eq!(c.observe(&none, "v"), TxtCheckStep::Wait { secs: 2 });
    assert_eq!(c.observe(&vec!["x".to_string(), "v".to_string()], "v"), TxtCheckStep::Found);
    assert_eq!(c.retries, 2);
    assert_eq!(c.wait_secs, 2);
}

#[test]
fn txt_check_without_retries_looks_once() {
    let mut c = TxtCheck::new(0);
    assert_eq!(c.observe(&vec![], "v"), TxtCheckStep::NotFound);
}

#[test]
fn txt_check_largest_schedule() {
    let mut c = TxtCheck::new(63);
    let mut last = 0;
    for _ in 0..63 {
        match c.observe(&vec![], "v") {
            TxtCheckStep::Wait { secs } => last = secs,
            _ => panic!("expected a wait"),
        }
    }
    assert_eq!(last, 1u64 << 63);
    assert_eq!(c.observe(&vec![], "v"), TxtCheckStep::NotFound);
}

#[test]
fn txt_check_many_retries_found_early() {
    let mut c = TxtCheck::new(100);
    assert_eq!(c.wait_secs, 1);
    assert_eq!(c.observe(&vec!["v".to_string()], "v"), TxtCheckStep::Found);
    let mut d = TxtCheck::new(100);
    let mut last = 0;
    for _ in 0..63 {
        match d.observe(&vec![], "v") {
            TxtCheckStep::Wait { secs } => last = secs,
            _ => panic!("expected a wait"),
        }
    }
    assert_eq!(last, 1u64 << 63);
    assert_eq!(d.retries, 37);
    assert_eq!(d.observe(&vec!["v".to_string()], "v"), TxtCheckStep::Found);
}
