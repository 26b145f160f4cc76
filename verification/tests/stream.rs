use betfair_data::api::login::{login_outcome, LoginError, LoginStatus};
use betfair_data::api::stream::NewLineCodec;
use betfair_data::api::stream_types::{auth_outcome, AuthFailure, StatusCode, StatusMessage, StreamErrorCode};
use bytes::{Bytes, BytesMut};

#[test]
fn codec_splits_lines() {
    let mut codec = NewLineCodec::new();
    let mut buf = BytesMut::from(&b"{\"op\":\"mcm\"}\n{\"op\""[..]);
    let line = codec.decode(&mut buf).unwrap();
    assert_eq!(&line[..], b"{\"op\":\"mcm\"}\n");
    assert_eq!(&buf[..], b"{\"op\"");
    assert_eq!(codec.next_index, 0);
    // no newline yet: nothing, and the search resumes at the end
    assert!(codec.decode(&mut buf).is_none());
    assert_eq!(codec.next_index, 5);
    buf.extend_from_slice(b":\"hb\"}\n");
    let line = codec.decode_eof(&mut buf).unwrap();
    assert_eq!(&line[..], b"{\"op\":\"hb\"}\n");
    assert!(buf.is_empty());
}

#[test]
fn codec_encode_then_decode() {
    let mut codec = NewLineCodec::new();
    let mut buf = BytesMut::new();
    codec.encode(Bytes::from_static(b"{\"op\":\"heartbeat\"}"), &mut buf);
    assert_eq!(&buf[..], b"{\"op\":\"heartbeat\"}\n");
    let line = codec.decode(&mut buf).unwrap();
    assert_eq!(&line[..], b"{\"op\":\"heartbeat\"}\n");
    assert!(buf.is_empty());
}

#[test]
fn login_status_names() {
    assert_eq!(LoginStatus::Success.__repr__(), "SUCCESS");
    assert_eq!(LoginStatus::Limited.__repr__(), "LIMITED_ACCESS");
    assert_eq!(LoginStatus::Restricted.__repr__(), "LOGIN_RESTRICTED");
    assert_eq!(LoginStatus::Fail.__repr__(), "FAIL");
    let e = LoginError { status: LoginStatus::Fail, detail: "INVALID_USERNAME_OR_PASSWORD".to_owned() };
    assert_eq!(e.status, LoginStatus::Fail);
}

#[test]
fn stream_error_code_names() {
    assert_eq!(StreamErrorCode::InvalidSessionInfo.as_ref(), "INVALID_SESSION_INFORMATION");
    assert_eq!(StreamErrorCode::MaxConnectionLimitExceeded.as_ref(), "MAX_CONNECTION_LIMIT_EXCEEDED");
    assert_eq!(StreamErrorCode::Timeout.as_ref(), "TIMEOUT");
}

#[test]
fn login_success_gives_the_token() {
    let r = login_outcome("tok".to_string(), "".to_string(), LoginStatus::Success);
    assert_eq!(r, Ok("tok".to_string()));
    let r = login_outcome("tok".to_string(), "INVALID_USERNAME_OR_PASSWORD".to_string(), LoginStatus::Fail);
    assert_eq!(r, Err("INVALID_USERNAME_OR_PASSWORD".to_string()));
    let r = login_outcome("".to_string(), "ACCOUNT_PENDING_PASSWORD_CHANGE".to_string(), LoginStatus::Limited);
    assert_eq!(r, Err("ACCOUNT_PENDING_PASSWORD_CHANGE".to_string()));
}

fn status(code: StatusCode, err: Option<StreamErrorCode>, msg: Option<&str>) -> StatusMessage {
    StatusMessage {
        id: Some(1),
        status_code: code,
        error_code: err,
        connection_id: None,
        error_message: msg.map(|m| m.to_string()),
        connection_closed: None,
        connections_available: None,
    }
}

#[test]
fn auth_outcomes() {
    assert!(auth_outcome(status(StatusCode::Success, None, None)).is_ok());
    match auth_outcome(status(StatusCode::Failure, Some(StreamErrorCode::NoSession), Some("no session"))) {
        Err(AuthFailure::Stream { code, msg }) => {
            assert_eq!(code, StreamErrorCode::NoSession);
            assert_eq!(msg, "no session");
        }
        other => panic!("unexpected {:?}", other),
    }
    assert!(matches!(
        auth_outcome(status(StatusCode::Failure, Some(StreamErrorCode::Timeout), None)),
        Err(AuthFailure::Unexpected)
    ));
    assert!(matches!(auth_outcome(status(StatusCode::Failure, None, None)), Err(AuthFailure::Unexpected)));
}
