use ilp_node::address::Address;
use ilp_node::echo::EchoService;
use ilp_node::http::{Credential, HttpResponse, HttpServer, InMemoryStore, MAX_PACKET_SIZE};
use ilp_node::metrics::{IncomingMetrics, MetricsLabels};
use ilp_node::packet::{FulfillBuilder, PrepareBuilder, RejectBuilder};
use ilp_node::service::{
    Account, RecordingService, RoutingRelation, WrappedService,
};
use ilp_node::errorcode::ErrorCode;
use ilp_node::timestamp::Timestamp;

type Pipeline = WrappedService<IncomingMetrics, EchoService<RecordingService>>;

fn alice() -> Account {
    Account::new(
        1,
        b"alice".to_vec(),
        Address::new(b"g.alice".to_vec()).unwrap(),
        9,
        b"XRP".to_vec(),
        RoutingRelation::Peer,
    )
}

fn store() -> InMemoryStore {
    let accounts = vec![Credential {
        username: b"alice".to_vec(),
        password: b"secret".to_vec(),
        account: alice(),
    }];
    InMemoryStore::new(Address::new(b"g.self".to_vec()).unwrap(), accounts)
}

fn server_with(reply: Result<ilp_node::packet::Fulfill, ilp_node::packet::Reject>) -> HttpServer<
    Pipeline,
    InMemoryStore,
> {
    let leaf = RecordingService::new(reply);
    let pipeline = WrappedService::wrap_incoming(EchoService::new(leaf), IncomingMetrics::new());
    HttpServer::new(pipeline, store())
}

fn sample_fulfill() -> ilp_node::packet::Fulfill {
    FulfillBuilder { fulfillment: vec![0u8; 32], data: vec![] }.build().unwrap()
}

fn sample_body() -> Vec<u8> {
    PrepareBuilder {
        amount: 100,
        expires_at: Timestamp {
            year: 2018,
            month: 6,
            day: 16,
            hour: 0,
            minute: 0,
            second: 30,
            millis: 0,
        },
        execution_condition: vec![3u8; 32],
        destination: b"g.alice".to_vec(),
        data: vec![1, 2],
    }
    .build()
    .unwrap()
    .encode()
}

fn incoming_labels() -> MetricsLabels {
    MetricsLabels {
        from_asset_code: b"XRP".to_vec(),
        from_routing_relation: RoutingRelation::Peer,
        to_asset_code: None,
        to_routing_relation: None,
    }
}

#[test]
fn non_self_prepare_is_dispatched_and_counted() {
    let mut server = server_with(Ok(sample_fulfill()));
    let auth = b"Bearer alice:secret".to_vec();
    let response = server.handle(Some(auth), sample_body());
    match response {
        HttpResponse::Ilp(bytes) => assert_eq!(bytes, sample_fulfill().encode()),
        _ => panic!("expected an ILP response"),
    }
    let counts = server.incoming.f.counters.read(&incoming_labels());
    assert_eq!(counts.prepare, 1);
    assert_eq!(counts.fulfill, 1);
    assert_eq!(counts.reject, 0);
    assert_eq!(counts.duration_count, 1);
}

#[test]
fn unknown_user_is_unauthorized_and_uncounted() {
    let mut server = server_with(Ok(sample_fulfill()));
    let auth = b"Bearer mallory:guess".to_vec();
    let response = server.handle(Some(auth), sample_body());
    assert!(matches!(response, HttpResponse::Unauthorized));
    let counts = server.incoming.f.counters.read(&incoming_labels());
    assert_eq!(counts.prepare, 0);
    assert_eq!(counts.fulfill, 0);
    assert_eq!(counts.reject, 0);
}

#[test]
fn missing_header_is_unauthorized() {
    let mut server = server_with(Ok(sample_fulfill()));
    let response = server.handle(None, sample_body());
    assert!(matches!(response, HttpResponse::Unauthorized));
    let response2 = server.handle(Some(b"Bearer no-colon-here".to_vec()), sample_body());
    assert!(matches!(response2, HttpResponse::Unauthorized));
}

#[test]
fn malformed_body_is_invalid_packet_and_uncounted() {
    let mut server = server_with(Ok(sample_fulfill()));
    let auth = b"Bearer alice:secret".to_vec();
    let response = server.handle(Some(auth), vec![0xFF, 0xFF, 0xFF]);
    assert!(matches!(response, HttpResponse::InvalidPacket));
    let counts = server.incoming.f.counters.read(&incoming_labels());
    assert_eq!(counts.prepare, 0);
    assert_eq!(counts.duration_count, 0);
}

#[test]
fn body_at_the_size_limit_is_accepted_and_over_it_rejected() {
    assert_eq!(MAX_PACKET_SIZE, 40000);
    let mut server = server_with(Ok(sample_fulfill()));
    // 40000 bytes: accepted for processing (decoding may still fail, but the
    // size gate passes)
    let response = server.handle(Some(b"Bearer alice:secret".to_vec()), vec![0u8; 40000]);
    assert!(matches!(response, HttpResponse::InvalidPacket));
    // 40001 bytes: rejected for size
    let response2 = server.handle(Some(b"Bearer alice:secret".to_vec()), vec![0u8; 40001]);
    assert!(matches!(response2, HttpResponse::PayloadTooLarge));
}

#[test]
fn downstream_reject_is_returned_verbatim_and_counted() {
    let reject = RejectBuilder {
        code: ErrorCode::t04_insufficient_liquidity(),
        triggered_by: b"g.bob".to_vec(),
        message: b"insufficient liquidity".to_vec(),
        data: vec![],
    }
    .build()
    .unwrap();
    let expected = reject.encode();
    let mut server = server_with(Err(reject));
    let response = server.handle(Some(b"Bearer alice:secret".to_vec()), sample_body());
    match response {
        HttpResponse::Ilp(bytes) => {
            assert_eq!(bytes, expected);
            // the reject still names g.bob, not this node
            match ilp_node::packet::decode(&bytes).unwrap() {
                ilp_node::packet::Packet::Reject(j) => {
                    assert_eq!(j.triggered_by().as_slice(), b"g.bob");
                }
                _ => panic!("expected a reject"),
            }
        }
        _ => panic!("expected an ILP response"),
    }
    let counts = server.incoming.f.counters.read(&incoming_labels());
    assert_eq!(counts.prepare, 1);
    assert_eq!(counts.fulfill, 0);
    assert_eq!(counts.reject, 1);
    assert_eq!(counts.duration_count, 1);
}
