use ilp_node::address::Address;
use ilp_node::metrics::{
    IncomingMetrics, MetricsLabels, MetricsTable, OutgoingMetrics,
};
use ilp_node::packet::{FulfillBuilder, PrepareBuilder, RejectBuilder};
use ilp_node::service::{
    Account, IncomingHandler, IncomingRequest, RecordingService, RequestContext, RoutingRelation,
};
use ilp_node::errorcode::ErrorCode;
use ilp_node::timestamp::Timestamp;

fn account(code: &[u8], relation: RoutingRelation) -> Account {
    Account::new(
        7,
        b"carol".to_vec(),
        Address::new(b"g.carol".to_vec()).unwrap(),
        6,
        code.to_vec(),
        relation,
    )
}

fn request_from(account: Account) -> IncomingRequest {
    let prepare = PrepareBuilder {
        amount: 1,
        expires_at: Timestamp {
            year: 2018,
            month: 1,
            day: 1,
            hour: 0,
            minute: 0,
            second: 1,
            millis: 0,
        },
        execution_condition: vec![0u8; 32],
        destination: b"g.elsewhere".to_vec(),
        data: vec![],
    }
    .build()
    .unwrap();
    IncomingRequest { from: account, prepare }
}

fn labels(code: &[u8], relation: RoutingRelation) -> MetricsLabels {
    MetricsLabels {
        from_asset_code: code.to_vec(),
        from_routing_relation: relation,
        to_asset_code: None,
        to_routing_relation: None,
    }
}

#[test]
fn each_request_counts_one_prepare_and_one_outcome() {
    let context = RequestContext::new(Address::new(b"g.node".to_vec()).unwrap());
    let mut metrics = IncomingMetrics::new();
    let fulfill = FulfillBuilder { fulfillment: vec![0u8; 32], data: vec![] }.build().unwrap();
    let mut leaf = RecordingService::new(Ok(fulfill));

    let r1 = metrics.handle(request_from(account(b"XRP", RoutingRelation::Peer)), &context, &mut leaf);
    assert!(r1.is_ok());
    let c = metrics.counters.read(&labels(b"XRP", RoutingRelation::Peer));
    assert_eq!((c.prepare, c.fulfill, c.reject, c.duration_count), (1, 1, 0, 1));

    // a second request under the same label set
    let r2 = metrics.handle(request_from(account(b"XRP", RoutingRelation::Peer)), &context, &mut leaf);
    assert!(r2.is_ok());
    let c = metrics.counters.read(&labels(b"XRP", RoutingRelation::Peer));
    assert_eq!((c.prepare, c.fulfill, c.reject, c.duration_count), (2, 2, 0, 2));

    // a rejecting downstream counts a reject under its own label set
    let reject = RejectBuilder {
        code: ErrorCode::f02_unreachable(),
        triggered_by: b"g.node".to_vec(),
        message: vec![],
        data: vec![],
    }
    .build()
    .unwrap();
    let mut rejecting = RecordingService::new(Err(reject));
    let r3 = metrics.handle(
        request_from(account(b"USD", RoutingRelation::Child)),
        &context,
        &mut rejecting,
    );
    assert!(r3.is_err());
    let c2 = metrics.counters.read(&labels(b"USD", RoutingRelation::Child));
    assert_eq!((c2.prepare, c2.fulfill, c2.reject, c2.duration_count), (1, 0, 1, 1));
    // the first label set is untouched: prepares still equal fulfills + rejects
    let c = metrics.counters.read(&labels(b"XRP", RoutingRelation::Peer));
    assert_eq!((c.prepare, c.fulfill, c.reject), (2, 2, 0));
}

#[test]
fn unseen_labels_read_zero() {
    let table = MetricsTable::new();
    let c = table.read(&labels(b"EUR", RoutingRelation::Parent));
    assert_eq!((c.prepare, c.fulfill, c.reject, c.duration_count, c.duration_total), (0, 0, 0, 0, 0));
}

#[test]
fn outgoing_metrics_build() {
    // the outgoing wrapper shares the counter table machinery
    let metrics = OutgoingMetrics::new();
    let outgoing_labels = MetricsLabels {
        from_asset_code: b"XRP".to_vec(),
        from_routing_relation: RoutingRelation::Peer,
        to_asset_code: Some(b"USD".to_vec()),
        to_routing_relation: Some(RoutingRelation::Child),
    };
    let c = metrics.counters.read(&outgoing_labels);
    assert_eq!(c.prepare, 0);
}
