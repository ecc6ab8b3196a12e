use trading_api::responses::extract_error_message;

#[test]
fn error_message_fields_in_order() {
    assert_eq!(extract_error_message(r#"{"error":"bad key","message":"m"}"#), "bad key");
    assert_eq!(extract_error_message(r#"{"error":5,"message":"slow down"}"#), "slow down");
    assert_eq!(extract_error_message(r#"{"msg":"nope"}"#), "nope");
    assert_eq!(extract_error_message(r#"{"other":"x"}"#), r#"{"other":"x"}"#);
    assert_eq!(extract_error_message("plain text"), "plain text");
    assert_eq!(extract_error_message("[1,2]"), "[1,2]");
}
