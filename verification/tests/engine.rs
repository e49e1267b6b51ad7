//! Lifecycle engine scenarios: cold start, warm start, transient failure,
//! processing timeout, renewal and backoff arithmetic.

use tokio_rustls_acme::acme::{Auth, AuthStatus, Challenge, Identifier, Order, OrderStatus};
use tokio_rustls_acme::config::AcmeConfig;
use tokio_rustls_acme::order::{AuthAttempt, OrderAction, OrderError, OrderRun, auth_poll_step};
use tokio_rustls_acme::state::{
    AcmeState, EarlyAction, EventOk, EventError, renewal_wait,
};
use tokio_rustls_acme::backoff_secs;

type TestState = AcmeState<String, String>;

fn test_config() -> AcmeConfig {
    AcmeConfig::new(vec!["example.test".to_string()])
        .contact_push("mailto:admin@example.test".to_string())
}

fn test_bundle() -> Vec<u8> {
    let key = rcgen::KeyPair::generate_for(&rcgen::PKCS_ECDSA_P256_SHA256).unwrap();
    let mut params = rcgen::CertificateParams::new(vec!["example.test".to_string()]).unwrap();
    params.not_before = rcgen::date_time_ymd(2000, 1, 1);
    params.not_after = rcgen::date_time_ymd(3000, 1, 1);
    let cert = params.self_signed(&key).unwrap();
    [key.serialize_pem(), "\n".to_string(), cert.pem()]
        .concat()
        .into_bytes()
}

const NOW: i64 = 1_700_000_000;
// not_before 2000-01-01, not_after 3000-01-01
const NB: i64 = 946_684_800;
const NA: i64 = 32_503_680_000;

#[test]
fn renewal_wait_is_two_thirds_point() {
    // renewal instant: na - (na - nb) / 3
    let instant = NA - (NA - NB) / 3;
    assert_eq!(instant, 21_984_681_600);
    assert_eq!(renewal_wait(NB, NA, NOW), (instant - NOW) as u64);
    // past the instant: immediate renewal
    assert_eq!(renewal_wait(NB, NA, instant + 5), 0);
    // degenerate validity
    assert_eq!(renewal_wait(10, 5, 0), 0);
}

#[test]
fn backoff_secs_doubles_and_caps() {
    assert_eq!(backoff_secs(0), 1);
    assert_eq!(backoff_secs(1), 2);
    assert_eq!(backoff_secs(10), 1024);
    assert_eq!(backoff_secs(16), 65536);
}

#[test]
fn cold_start_happy_path() {
    let mut state: TestState = test_config().state();
    let mut events: Vec<EventOk> = Vec::new();

    // startup: empty caches
    let (ev, key) = state.on_cert_load_result(Ok(None), NOW);
    assert!(ev.is_none() && key.is_none());
    let ev = state.on_account_load_result(Ok(None));
    assert!(ev.is_none());

    // schedule the first order: a fresh account key is generated and queued
    let account_key = state.schedule_order();
    assert!(!account_key.is_empty());
    match state.take_early_action() {
        Some(EarlyAction::StoreAccount(k)) => assert_eq!(k, account_key),
        _ => panic!("expected a queued account store"),
    }
    match state.account_store_done(Ok(())) {
        Ok(ev) => events.push(ev),
        Err(_) => panic!("store reported failure"),
    }

    // the order succeeds with a fresh bundle
    let bundle = test_bundle();
    let (ev, deployed) = state.on_order_result(Ok(bundle.clone()), NOW);
    match ev {
        Ok(e) => events.push(e),
        Err(_) => panic!("deployment failed"),
    }
    let deployed = deployed.expect("a certificate to install");
    assert_eq!(deployed.not_before, NB);
    assert_eq!(deployed.not_after, NA);

    // the fresh bundle is queued for the certificate cache
    match state.take_early_action() {
        Some(EarlyAction::StoreCert(pem)) => assert_eq!(pem, bundle),
        _ => panic!("expected a queued certificate store"),
    }
    match state.cert_store_done(Ok(())) {
        Ok(ev) => events.push(ev),
        Err(_) => panic!("store reported failure"),
    }

    assert_eq!(
        events,
        vec![
            EventOk::AccountCacheStore,
            EventOk::DeployedNewCert,
            EventOk::CertCacheStore,
        ]
    );

    // the renewal timer is armed at the two-thirds point
    assert_eq!(state.take_wait(), Some((21_984_681_600 - NOW) as u64));
}

#[test]
fn warm_start_uses_cached_cert() {
    let mut state: TestState = test_config().state();
    let bundle = test_bundle();
    let (ev, deployed) = state.on_cert_load_result(Ok(Some(bundle)), NOW);
    assert!(matches!(ev, Some(Ok(EventOk::DeployedCachedCert))));
    assert!(deployed.is_some());
    // no store is queued for a cached certificate, and no order is running
    assert!(state.take_early_action().is_none());
    assert!(!state.order_in_flight);
    // the renewal timer is armed: no network work before it fires
    assert_eq!(state.take_wait(), Some((21_984_681_600 - NOW) as u64));
}

#[test]
fn cache_failures_are_events_not_fatal() {
    let mut state: TestState = test_config().state();
    let (ev, deployed) = state.on_cert_load_result(Err("disk on fire".to_string()), NOW);
    assert!(deployed.is_none());
    assert!(matches!(
        ev,
        Some(Err(EventError::CertCacheLoad(ref m))) if m == "disk on fire"
    ));
    let ev = state.on_account_load_result(Err("no disk".to_string()));
    assert!(matches!(
        ev,
        Some(Err(EventError::AccountCacheLoad(ref m))) if m == "no disk"
    ));
    // the engine still schedules an order
    let _ = state.schedule_order();
    assert!(state.order_in_flight);
}

#[test]
fn corrupt_cached_cert_falls_through() {
    let mut state: TestState = test_config().state();
    let (ev, deployed) = state.on_cert_load_result(Ok(Some(b"not pem".to_vec())), NOW);
    assert!(deployed.is_none());
    assert!(matches!(ev, Some(Err(EventError::CachedCertParse(_)))));
    // no timer armed: the engine goes on to order a fresh certificate
    assert_eq!(state.take_wait(), None);
}

#[test]
fn transient_failure_backs_off_then_succeeds() {
    let mut state: TestState = test_config().state();
    let (_, _) = state.on_cert_load_result(Ok(None), NOW);
    let _ = state.on_account_load_result(Ok(None));
    let _ = state.schedule_order();
    let _ = state.take_early_action();

    // the finalize step answered 500 once: the whole order attempt fails
    let failure = OrderError::Acme(tokio_rustls_acme::acme::AcmeError::HttpRequest(
        tokio_rustls_acme::https_helper::HttpsRequestError::Non2xxStatus {
            status_code: 500,
            body: "boom".to_string(),
        },
    ));
    let (ev, deployed) = state.on_order_result(Err(failure), NOW);
    assert!(deployed.is_none());
    match ev {
        Err(EventError::Order(OrderError::Acme(
            tokio_rustls_acme::acme::AcmeError::HttpRequest(
                tokio_rustls_acme::https_helper::HttpsRequestError::Non2xxStatus {
                    status_code,
                    ..
                },
            ),
        ))) => assert_eq!(status_code, 500),
        _ => panic!("expected the order failure event"),
    }
    // first failure: one second of backoff
    assert_eq!(state.take_wait(), Some(1));

    // the retry succeeds
    let _ = state.schedule_order();
    let (ev, deployed) = state.on_order_result(Ok(test_bundle()), NOW);
    assert!(matches!(ev, Ok(EventOk::DeployedNewCert)));
    assert!(deployed.is_some());
    assert_eq!(state.backoff_cnt, 0);
}

#[test]
fn backoff_grows_and_saturates() {
    let mut state: TestState = test_config().state();
    let (_, _) = state.on_cert_load_result(Ok(None), NOW);
    let _ = state.on_account_load_result(Ok(None));
    for n in 0..20usize {
        let _ = state.schedule_order();
        let _ = state.take_early_action();
        let (_, _) = state.on_order_result(Err(OrderError::Rcgen), NOW);
        let expected = 1u64 << n.min(16);
        assert_eq!(state.take_wait(), Some(expected));
    }
    assert_eq!(state.backoff_cnt, 16);
}

fn order_with(status: OrderStatus) -> Order {
    Order {
        status,
        authorizations: vec!["https://ca.test/authz/1".to_string()],
        finalize: "https://ca.test/finalize/1".to_string(),
        error: None,
    }
}

#[test]
fn processing_timeout_after_eleven_polls() {
    let mut run = OrderRun::start(
        &vec!["example.test".to_string()],
        "https://ca.test/order/1".to_string(),
    )
    .unwrap();
    // ten re-polls with exponential spacing...
    for i in 0..10u32 {
        match run.order_step(order_with(OrderStatus::Processing)) {
            Ok(OrderAction::PollAfter(s)) => assert_eq!(s, 1u64 << i),
            _ => panic!("expected a poll"),
        }
    }
    // ...the eleventh sight of `processing` times out
    let r = run.order_step(order_with(OrderStatus::Processing));
    assert!(matches!(r, Err(OrderError::ProcessingTimeout(_))));
}

#[test]
fn order_steps_follow_status() {
    let mut run = OrderRun::start(
        &vec!["example.test".to_string()],
        "https://ca.test/order/1".to_string(),
    )
    .unwrap();
    match run.order_step(order_with(OrderStatus::Pending)) {
        Ok(OrderAction::Authorize(urls)) => {
            assert_eq!(urls, vec!["https://ca.test/authz/1".to_string()])
        },
        _ => panic!("expected authorizations"),
    }
    match run.order_step(order_with(OrderStatus::Ready)) {
        Ok(OrderAction::Finalize { url, payload }) => {
            assert_eq!(url, "https://ca.test/finalize/1");
            assert!(payload.starts_with(b"{\"csr\":\""));
        },
        _ => panic!("expected finalize"),
    }
    match run.order_step(order_with(OrderStatus::Valid {
        certificate: "https://ca.test/cert/1".to_string(),
    })) {
        Ok(OrderAction::Download(url)) => assert_eq!(url, "https://ca.test/cert/1"),
        _ => panic!("expected download"),
    }
    let r = run.order_step(order_with(OrderStatus::Invalid));
    assert!(matches!(r, Err(OrderError::BadOrder(_))));
}

#[test]
fn order_bundle_starts_with_key_pem() {
    let run = OrderRun::start(
        &vec!["example.test".to_string()],
        "https://ca.test/order/1".to_string(),
    )
    .unwrap();
    let bundle = run.assemble_bundle(&b"-----BEGIN CERTIFICATE-----\n-----END CERTIFICATE-----\n".to_vec());
    let blocks = tokio_rustls_acme::pem::pem_parse(&bundle).unwrap();
    assert!(blocks.len() >= 2);
    assert_eq!(blocks[0].tag, b"PRIVATE KEY".to_vec());
}

#[test]
fn order_key_pem_is_one_private_key_block() {
    let run = OrderRun::start(
        &vec!["example.test".to_string()],
        "https://ca.test/order/1".to_string(),
    )
    .unwrap();
    let blocks = tokio_rustls_acme::pem::pem_parse(&run.key_pem).unwrap();
    assert_eq!(blocks.len(), 1);
    assert_eq!(blocks[0].tag, b"PRIVATE KEY".to_vec());
    assert_eq!(blocks[0].der, run.key_der);
    assert!(!run.csr_der.is_empty());
}

#[test]
fn auth_attempts_exhaust_after_five() {
    let mut attempt = AuthAttempt::new("example.test".to_string());
    for i in 0..5u32 {
        match attempt.next_delay() {
            Ok(s) => assert_eq!(s, 1u64 << i),
            Err(_) => panic!("attempt refused early"),
        }
    }
    let r = attempt.next_delay();
    match r {
        Err(OrderError::TooManyAttemptsAuth(d)) => assert_eq!(d, "example.test"),
        _ => panic!("expected exhaustion"),
    }
}

#[test]
fn auth_poll_reads_status() {
    let auth = |status: AuthStatus| Auth {
        status,
        identifier: Identifier::Dns("example.test".to_string()),
        challenges: Vec::<Challenge>::new(),
    };
    assert!(matches!(auth_poll_step(auth(AuthStatus::Valid)), Ok(true)));
    assert!(matches!(auth_poll_step(auth(AuthStatus::Pending)), Ok(false)));
    assert!(matches!(
        auth_poll_step(auth(AuthStatus::Revoked)),
        Err(OrderError::BadAuth(_))
    ));
}
