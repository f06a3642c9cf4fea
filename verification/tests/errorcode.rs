use ilp_node::errorcode::{ErrorClass, ErrorCode};

#[test]
fn test_class() {
    assert_eq!(ErrorCode::f00_bad_request().class(), ErrorClass::Final);
    assert_eq!(ErrorCode::t00_internal_error().class(), ErrorClass::Temporary);
    assert_eq!(ErrorCode::r00_transfer_timed_out().class(), ErrorClass::Relative);
    assert_eq!(ErrorCode::new(*b"???").class(), ErrorClass::Unknown);
}

#[test]
fn test_debug_printing() {
    assert_eq!(
        ErrorCode::f00_bad_request().debug_string(),
        String::from("ErrorCode(\"F00\")")
    );
}

#[test]
fn test_final_error_values() {
    assert_eq!(ErrorCode::f00_bad_request().display_string(), String::from("F00"));
    assert_eq!(ErrorCode::f01_invalid_packet().display_string(), String::from("F01"));
    assert_eq!(ErrorCode::f02_unreachable().display_string(), String::from("F02"));
    assert_eq!(ErrorCode::f03_invalid_amount().display_string(), String::from("F03"));
    assert_eq!(
        ErrorCode::f04_insufficient_destination_amount().display_string(),
        String::from("F04")
    );
    assert_eq!(ErrorCode::f05_wrong_condition().display_string(), String::from("F05"));
    assert_eq!(ErrorCode::f06_unexpected_payment().display_string(), String::from("F06"));
    assert_eq!(ErrorCode::f07_cannot_receive().display_string(), String::from("F07"));
    assert_eq!(ErrorCode::f08_amount_too_large().display_string(), String::from("F08"));
    assert_eq!(ErrorCode::f09_invalid_peer_response().display_string(), String::from("F09"));
    assert_eq!(ErrorCode::f99_application_error().display_string(), String::from("F99"));
}

#[test]
fn test_temporary_error_values() {
    assert_eq!(ErrorCode::t00_internal_error().display_string(), String::from("T00"));
    assert_eq!(ErrorCode::t01_peer_unreachable().display_string(), String::from("T01"));
    assert_eq!(ErrorCode::t02_peer_busy().display_string(), String::from("T02"));
    assert_eq!(ErrorCode::t03_connector_busy().display_string(), String::from("T03"));
    assert_eq!(ErrorCode::t04_insufficient_liquidity().display_string(), String::from("T04"));
    assert_eq!(ErrorCode::t05_rate_limited().display_string(), String::from("T05"));
    assert_eq!(ErrorCode::t99_application_error().display_string(), String::from("T99"));
}

#[test]
fn test_relative_error_values() {
    assert_eq!(ErrorCode::r00_transfer_timed_out().display_string(), String::from("R00"));
    assert_eq!(
        ErrorCode::r01_insufficient_source_amount().display_string(),
        String::from("R01")
    );
    assert_eq!(ErrorCode::r02_insufficient_timeout().display_string(), String::from("R02"));
    assert_eq!(ErrorCode::r99_application_error().display_string(), String::from("R99"));
}
