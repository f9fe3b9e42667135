use swir_operator::outcome::{error_requeue_after, ReconcileError, Stage};
use swir_operator::source::{
    certs_bundle, folder_certs_dir, folder_config_path, folder_otel_path, http_config_fetched, http_config_url, single_entry,
};
use swir_operator::reconcile::Fetched;
use swir_operator::strmap::StrMap;

fn s(x: &str) -> String {
    x.to_string()
}

fn pairs(m: &StrMap) -> Vec<(String, String)> {
    (0..m.len()).map(|i| {
        let (k, v) = m.entry(i);
        (k.clone(), v.clone())
    }).collect()
}

#[test]
fn folder_locations() {
    assert_eq!(folder_config_path(&s("./configs"), &s("prod"), &s("checkout")), "./configs/prod/checkout-config.yaml");
    assert_eq!(folder_certs_dir(&s("./certs"), &s("prod")), "./certs/prod");
    assert_eq!(folder_otel_path(&s("./otel"), &s("prod")), "./otel/prod/otel-agent-config.yaml");
}

#[test]
fn http_location() {
    assert_eq!(http_config_url(&s("http://cfg:8080"), &s("prod"), &s("checkout")), "http://cfg:8080/prod/checkout");
}

#[test]
fn single_entry_map() {
    let m = single_entry(&s("checkout"), s("<yaml>"));
    assert_eq!(pairs(&m), vec![(s("checkout"), s("<yaml>"))]);
}

#[test]
fn http_success_yields_the_single_config_entry() {
    let url = s("http://cfg:8080/prod/checkout");
    match http_config_fetched(url.clone(), &s("checkout"), 200, s("body")) {
        Fetched::Found(m) => assert_eq!(pairs(&m), vec![(s("checkout"), s("body"))]),
        Fetched::Unavailable(l) => panic!("unexpected failure at {}", l),
    }
    match http_config_fetched(url, &s("content"), 204, s("")) {
        Fetched::Found(m) => assert_eq!(pairs(&m), vec![(s("content"), s(""))]),
        Fetched::Unavailable(l) => panic!("unexpected failure at {}", l),
    }
}

#[test]
fn http_error_status_is_unavailable() {
    let url = s("http://cfg:8080/prod/checkout");
    for status in [404u16, 500, 199, 300] {
        assert_eq!(
            http_config_fetched(url.clone(), &s("checkout"), status, s("not found")),
            Fetched::Unavailable(url.clone())
        );
    }
}

#[test]
fn certificates_come_out_sorted_whatever_the_listing_order() {
    let first = certs_bundle(vec![(s("b.pem"), Some(s("B"))), (s("a.pem"), Some(s("A"))), (s("c.pem"), None)]);
    let second = certs_bundle(vec![(s("c.pem"), None), (s("a.pem"), Some(s("A"))), (s("b.pem"), Some(s("B")))]);
    assert_eq!(pairs(&first), vec![(s("a.pem"), s("A")), (s("b.pem"), s("B"))]);
    assert_eq!(first, second);
}

#[test]
fn unreadable_certificates_are_left_out() {
    let m = certs_bundle(vec![(s("a.pem"), Some(s("A"))), (s("broken.pem"), None), (s("b.pem"), Some(s("B")))]);
    assert_eq!(pairs(&m), vec![(s("a.pem"), s("A")), (s("b.pem"), s("B"))]);
    let m = certs_bundle(vec![]);
    assert_eq!(m.len(), 0);
}

#[test]
fn requeue_delay_is_constant_for_every_error() {
    assert_eq!(error_requeue_after(&ReconcileError::PatchApplyFailed { stage: Stage::Containers }), 1);
    assert_eq!(error_requeue_after(&ReconcileError::ConfigMapCreateFailed { name: s("x-config") }), 1);
}
