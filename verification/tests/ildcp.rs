use ilp_node::address::Address;
use ilp_node::ildcp::{get_ildcp_info, IldcpRequest, IldcpResponse};
use ilp_node::packet::{FulfillBuilder, RejectBuilder};
use ilp_node::service::{Account, RecordingService, RequestContext, RoutingRelation};
use ilp_node::errorcode::ErrorCode;
use ilp_node::timestamp::Timestamp;

fn parent() -> Account {
    Account::new(
        2,
        b"parent".to_vec(),
        Address::new(b"g.parent".to_vec()).unwrap(),
        9,
        b"XRP".to_vec(),
        RoutingRelation::Parent,
    )
}

fn expiry() -> Timestamp {
    Timestamp { year: 2018, month: 6, day: 16, hour: 0, minute: 0, second: 30, millis: 0 }
}

#[test]
fn ildcp_prepare_has_the_fixed_envelope() {
    let prepare = IldcpRequest {}.to_prepare(expiry());
    assert_eq!(prepare.amount(), 0);
    assert_eq!(prepare.destination().as_slice(), b"peer.config");
    assert_eq!(prepare.data().as_slice(), b"");
    // SHA-256 of the all-zero 32-byte fulfillment
    assert_eq!(prepare.execution_condition()[0], 0x66);
    assert_eq!(prepare.execution_condition()[31], 0x25);
    assert_eq!(prepare.execution_condition().len(), 32);
}

#[test]
fn ildcp_response_round_trips() {
    let response =
        IldcpResponse::new(b"g.parent.child".to_vec(), 9, b"XRP".to_vec()).unwrap();
    let bytes = response.encode();
    let parsed = IldcpResponse::parse(&bytes).unwrap();
    assert_eq!(parsed.ilp_address().as_slice(), b"g.parent.child");
    assert_eq!(parsed.asset_scale(), 9);
    assert_eq!(parsed.asset_code().as_slice(), b"XRP");
}

#[test]
fn ildcp_response_rejects_malformed_payloads() {
    assert!(IldcpResponse::parse(&vec![]).is_none());
    // empty address
    assert!(IldcpResponse::parse(&vec![0, 9, 0]).is_none());
    // truncated
    assert!(IldcpResponse::parse(&vec![3, b'g', b'.', b'x']).is_none());
    // trailing bytes
    let response = IldcpResponse::new(b"g.x".to_vec(), 9, b"XRP".to_vec()).unwrap();
    let mut bytes = response.encode();
    bytes.push(0);
    assert!(IldcpResponse::parse(&bytes).is_none());
}

#[test]
fn get_ildcp_info_parses_the_fulfill() {
    let config = IldcpResponse::new(b"g.parent.me".to_vec(), 6, b"USD".to_vec()).unwrap();
    let fulfill =
        FulfillBuilder { fulfillment: vec![0u8; 32], data: config.encode() }.build().unwrap();
    let mut service = RecordingService::new(Ok(fulfill));
    let context = RequestContext::new(Address::new(b"local.host".to_vec()).unwrap());
    let response = get_ildcp_info(&mut service, parent(), &context, expiry()).unwrap();
    assert_eq!(response.ilp_address().as_slice(), b"g.parent.me");
    assert_eq!(response.asset_scale(), 6);
    assert_eq!(response.asset_code().as_slice(), b"USD");
    // the prepare that went out was the ILDCP request
    let seen = service.last_request().as_ref().unwrap();
    assert_eq!(seen.prepare.destination().as_slice(), b"peer.config");
    assert_eq!(seen.prepare.amount(), 0);
}

#[test]
fn get_ildcp_info_surfaces_rejects_as_errors() {
    let reject = RejectBuilder {
        code: ErrorCode::f00_bad_request(),
        triggered_by: b"g.parent".to_vec(),
        message: vec![],
        data: vec![],
    }
    .build()
    .unwrap();
    let mut service = RecordingService::new(Err(reject));
    let context = RequestContext::new(Address::new(b"local.host".to_vec()).unwrap());
    assert!(get_ildcp_info(&mut service, parent(), &context, expiry()).is_err());
}

#[test]
fn get_ildcp_info_surfaces_parse_failures_as_errors() {
    let fulfill =
        FulfillBuilder { fulfillment: vec![0u8; 32], data: vec![0xFF, 0xFF] }.build().unwrap();
    let mut service = RecordingService::new(Ok(fulfill));
    let context = RequestContext::new(Address::new(b"local.host".to_vec()).unwrap());
    assert!(get_ildcp_info(&mut service, parent(), &context, expiry()).is_err());
}
