use moly_kit::protocol::{BotCapabilities, BotCapability, ClientError, ClientErrorKind, ClientResult};

#[test]
fn ok_result_has_value_only() {
    let r = ClientResult::new_ok(5);
    assert_eq!(r.value(), Some(&5));
    assert!(r.has_value());
    assert!(!r.has_errors());
    assert!(r.errors().is_empty());
    assert_eq!(r.into_result().ok(), Some(5));
}

#[test]
fn empty_errors_get_a_default_error() {
    let r: ClientResult<u8> = ClientResult::new_err(vec![]);
    assert!(!r.has_value());
    assert_eq!(r.errors().len(), 1);
    assert_eq!(r.errors()[0].kind(), ClientErrorKind::Unknown);
    assert_eq!(r.errors()[0].message(), "An error ocurred, but no details were provided.");
    let errors = r.into_result().err().unwrap();
    assert_eq!(errors.len(), 1);
}

#[test]
fn value_and_errors_together() {
    let e = ClientError::new(ClientErrorKind::Network, "down".into());
    let r = ClientResult::new_ok_and_err("partial", vec![e]);
    assert!(r.has_value() && r.has_errors());
    let (value, errors) = r.into_value_and_errors();
    assert_eq!(value, Some("partial"));
    assert_eq!(errors[0].message(), "down");
}

#[test]
fn error_display_and_source() {
    let e = ClientError::new_with_source(ClientErrorKind::Format, "bad json".into(), Some("eof"));
    assert_eq!(e.to_display_string(), "Format error: bad json");
    assert_eq!(e.source_message(), Some("eof"));
    let e = ClientError::new(ClientErrorKind::Response, "500".into());
    assert_eq!(e.to_display_string(), "Remote error: 500");
    assert_eq!(e.source_message(), None);
    assert_eq!(ClientErrorKind::Network.to_human_readable(), "Network error");
    assert_eq!(ClientErrorKind::Unknown.to_human_readable(), "Unknown error");
}

#[test]
fn capabilities_are_a_set() {
    let mut caps = BotCapabilities::new().with_capability(BotCapability::Realtime);
    caps.add_capability(BotCapability::Realtime);
    caps.add_capability(BotCapability::Attachments);
    assert_eq!(caps.iter().len(), 2);
    assert!(caps.supports_realtime());
    assert!(caps.supports_attachments());
    assert!(!caps.supports_function_calling());
    assert!(caps.has_capability(&BotCapability::Attachments));
}

#[test]
fn errors_convert_into_results() {
    let r: ClientResult<u8> = ClientError::new(ClientErrorKind::Format, "x".into()).into();
    assert!(!r.has_value());
    assert_eq!(r.errors()[0].message(), "x");
    let v: Vec<ClientError> = ClientError::new(ClientErrorKind::Network, "y".into()).into();
    assert_eq!(v.len(), 1);
}
