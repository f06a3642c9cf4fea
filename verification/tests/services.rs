use ilp_node::address::Address;
use ilp_node::metrics::{MetricsLabels, OutgoingMetrics};
use ilp_node::packet::{FulfillBuilder, PrepareBuilder, RejectBuilder};
use ilp_node::service::{
    incoming_service_fn, outgoing_service_fn, Account, IncomingRequest, IncomingService,
    OutgoingService, RequestContext, RoutingRelation, WrappedService,
};
use ilp_node::errorcode::ErrorCode;
use ilp_node::timestamp::Timestamp;

fn expiry() -> Timestamp {
    Timestamp { year: 2018, month: 6, day: 16, hour: 0, minute: 0, second: 30, millis: 0 }
}

fn account(id: u64, address: &[u8], code: &[u8], relation: RoutingRelation) -> Account {
    Account::new(
        id,
        b"user".to_vec(),
        Address::new(address.to_vec()).unwrap(),
        9,
        code.to_vec(),
        relation,
    )
}

fn sample_prepare(amount: u64) -> ilp_node::packet::Prepare {
    PrepareBuilder {
        amount,
        expires_at: expiry(),
        execution_condition: vec![0u8; 32],
        destination: b"g.bob".to_vec(),
        data: vec![],
    }
    .build()
    .unwrap()
}

#[test]
fn into_outgoing_captures_the_original_amount() {
    let from = account(1, "g.alice".as_bytes(), b"XRP", RoutingRelation::Peer);
    let to = account(2, "g.bob".as_bytes(), b"USD", RoutingRelation::Child);
    let request = IncomingRequest { from, prepare: sample_prepare(100) };
    let mut outgoing = request.into_outgoing(to);
    assert_eq!(outgoing.original_amount, 100);
    assert_eq!(outgoing.prepare.amount(), 100);
    // a later stage rewrites the amount for its exchange rate;
    // original_amount keeps the value captured at conversion time
    outgoing.prepare.set_amount(42);
    assert_eq!(outgoing.prepare.amount(), 42);
    assert_eq!(outgoing.original_amount, 100);
}

#[test]
fn incoming_service_fn_calls_the_handler() {
    let mut service = incoming_service_fn(|request: IncomingRequest, _context: &RequestContext| {
        if request.prepare.amount() > 10 {
            Ok(FulfillBuilder { fulfillment: vec![0u8; 32], data: vec![] }.build().unwrap())
        } else {
            Err(RejectBuilder {
                code: ErrorCode::f03_invalid_amount(),
                triggered_by: vec![],
                message: vec![],
                data: vec![],
            }
            .build()
            .unwrap())
        }
    });
    let context = RequestContext::new(Address::new(b"g.node".to_vec()).unwrap());
    let from = account(1, "g.alice".as_bytes(), b"XRP", RoutingRelation::Peer);
    let big = IncomingRequest { from: from.duplicate(), prepare: sample_prepare(100) };
    assert!(service.handle_request(big, &context).is_ok());
    let small = IncomingRequest { from, prepare: sample_prepare(5) };
    let reject = service.handle_request(small, &context).unwrap_err();
    assert_eq!(reject.code().as_bytes(), *b"F03");
}

#[test]
fn wrap_outgoing_counts_sent_requests() {
    let leaf = outgoing_service_fn(|_request, _context: &RequestContext| {
        Ok(FulfillBuilder { fulfillment: vec![0u8; 32], data: vec![] }.build().unwrap())
    });
    let mut chain = WrappedService::wrap_outgoing(leaf, OutgoingMetrics::new());
    let context = RequestContext::new(Address::new(b"g.node".to_vec()).unwrap());
    let from = account(1, "g.alice".as_bytes(), b"XRP", RoutingRelation::Peer);
    let to = account(2, "g.bob".as_bytes(), b"USD", RoutingRelation::Child);
    let request = IncomingRequest { from, prepare: sample_prepare(100) }.into_outgoing(to);
    assert!(chain.send_request(request, &context).is_ok());
    let labels = MetricsLabels {
        from_asset_code: b"XRP".to_vec(),
        from_routing_relation: RoutingRelation::Peer,
        to_asset_code: Some(b"USD".to_vec()),
        to_routing_relation: Some(RoutingRelation::Child),
    };
    let counts = chain.f.counters.read(&labels);
    assert_eq!((counts.prepare, counts.fulfill, counts.reject), (1, 1, 0));
    assert_eq!(counts.duration_count, 1);
}
