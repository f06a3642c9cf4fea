use ilp_node::address::Address;
use ilp_node::echo::EchoService;
use ilp_node::packet::{FulfillBuilder, PrepareBuilder};
use ilp_node::service::{
    Account, IncomingRequest, IncomingService, RecordingService, RequestContext, RoutingRelation,
};
use ilp_node::timestamp::Timestamp;

fn own_address() -> Address {
    Address::new(b"g.self".to_vec()).unwrap()
}

fn alice() -> Account {
    Account::new(
        1,
        b"alice".to_vec(),
        Address::new(b"g.alice".to_vec()).unwrap(),
        9,
        b"XRP".to_vec(),
        RoutingRelation::Peer,
    )
}

fn sample_expiry() -> Timestamp {
    Timestamp { year: 2018, month: 6, day: 16, hour: 12, minute: 0, second: 30, millis: 0 }
}

fn echo_leaf() -> RecordingService {
    let fulfill = FulfillBuilder { fulfillment: vec![0u8; 32], data: vec![] }.build().unwrap();
    RecordingService::new(Ok(fulfill))
}

fn prepare_with_data(destination: &[u8], data: Vec<u8>) -> ilp_node::packet::Prepare {
    PrepareBuilder {
        amount: 100,
        expires_at: sample_expiry(),
        execution_condition: vec![3u8; 32],
        destination: destination.to_vec(),
        data,
    }
    .build()
    .unwrap()
}

#[test]
fn non_self_prepare_forwards_unchanged() {
    let mut service = EchoService::new(echo_leaf());
    let context = RequestContext::new(own_address());
    let prepare = prepare_with_data(b"g.alice", vec![1, 2, 3]);
    let expected = prepare.encode();
    let request = IncomingRequest { from: alice(), prepare };
    let result = service.handle_request(request, &context);
    assert!(result.is_ok());
    let seen = service.next_incoming.last_request().as_ref().unwrap();
    assert_eq!(seen.prepare.encode(), expected);
}

#[test]
fn echo_request_is_rewritten_and_forwarded() {
    let mut service = EchoService::new(echo_leaf());
    let context = RequestContext::new(own_address());
    let mut data = b"ECHOECHOECHOECHO".to_vec();
    data.push(0x00);
    data.push(7); // var-octet length of the source address
    data.extend_from_slice(b"g.alice");
    let prepare = prepare_with_data(b"g.self", data);
    let request = IncomingRequest { from: alice(), prepare };
    let result = service.handle_request(request, &context);
    assert!(result.is_ok());
    let seen = service.next_incoming.last_request().as_ref().unwrap();
    assert_eq!(seen.prepare.destination().as_slice(), b"g.alice");
    let mut expected_data = b"ECHOECHOECHOECHO".to_vec();
    expected_data.push(0x01);
    assert_eq!(seen.prepare.data().as_slice(), expected_data.as_slice());
    // the expiry moved 1000 ms earlier
    assert_eq!(
        seen.prepare.expires_at(),
        Timestamp { year: 2018, month: 6, day: 16, hour: 12, minute: 0, second: 29, millis: 0 }
    );
    assert_eq!(seen.prepare.amount(), 100);
}

#[test]
fn data_of_sixteen_bytes_is_too_short() {
    let mut service = EchoService::new(echo_leaf());
    let context = RequestContext::new(own_address());
    let prepare = prepare_with_data(b"g.self", b"ECHOECHOECHOECHO".to_vec());
    let request = IncomingRequest { from: alice(), prepare };
    let reject = service.handle_request(request, &context).unwrap_err();
    assert_eq!(reject.code().as_bytes(), *b"F01");
    assert_eq!(reject.triggered_by().as_slice(), b"g.self");
    let message = String::from_utf8(reject.message().clone()).unwrap();
    assert!(message.contains("length=16"));
    assert!(service.next_incoming.last_request().is_none());
}

#[test]
fn wrong_prefix_is_rejected() {
    let mut service = EchoService::new(echo_leaf());
    let context = RequestContext::new(own_address());
    let mut data = b"OHCEOHCEOHCEOHCE".to_vec();
    data.push(0x00);
    let prepare = prepare_with_data(b"g.self", data);
    let request = IncomingRequest { from: alice(), prepare };
    let reject = service.handle_request(request, &context).unwrap_err();
    assert_eq!(reject.code().as_bytes(), *b"F01");
    let message = String::from_utf8(reject.message().clone()).unwrap();
    assert_eq!(message, "packet data does not start with ECHO prefix.");
}

#[test]
fn echo_response_type_is_rejected() {
    let mut service = EchoService::new(echo_leaf());
    let context = RequestContext::new(own_address());
    let mut data = b"ECHOECHOECHOECHO".to_vec();
    data.push(0x01);
    let prepare = prepare_with_data(b"g.self", data);
    let request = IncomingRequest { from: alice(), prepare };
    let reject = service.handle_request(request, &context).unwrap_err();
    assert_eq!(reject.code().as_bytes(), *b"F01");
    let message = String::from_utf8(reject.message().clone()).unwrap();
    assert_eq!(message, "unexpected echo response.");
}

#[test]
fn short_echo_data_names_its_length() {
    let mut service = EchoService::new(echo_leaf());
    let context = RequestContext::new(own_address());
    let prepare = prepare_with_data(b"g.self", vec![0u8; 10]);
    let request = IncomingRequest { from: alice(), prepare };
    let reject = service.handle_request(request, &context).unwrap_err();
    assert_eq!(reject.code().as_bytes(), *b"F01");
    assert_eq!(reject.triggered_by().as_slice(), b"g.self");
    let message = String::from_utf8(reject.message().clone()).unwrap();
    assert!(message.contains("length=10"));
}

#[test]
fn truncated_source_address_is_rejected() {
    let mut service = EchoService::new(echo_leaf());
    let context = RequestContext::new(own_address());
    let mut data = b"ECHOECHOECHOECHO".to_vec();
    data.push(0x00);
    data.push(20); // claims 20 bytes, none follow
    let prepare = prepare_with_data(b"g.self", data);
    let request = IncomingRequest { from: alice(), prepare };
    let reject = service.handle_request(request, &context).unwrap_err();
    assert_eq!(reject.code().as_bytes(), *b"F01");
    let message = String::from_utf8(reject.message().clone()).unwrap();
    assert_eq!(message, "packet data does not contain a valid source address.");
}

#[test]
fn get_own_address_reads_the_context() {
    let service = EchoService::new(echo_leaf());
    let context = RequestContext::new(own_address());
    assert_eq!(service.get_own_address(&context).as_bytes().as_slice(), b"g.self");
}
