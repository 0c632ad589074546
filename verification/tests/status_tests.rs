use offline_engine::{EngineError, Status};

#[test]
fn status_codes_roundtrip() {
    assert_eq!(Status::NotStarted.code(), 0);
    assert_eq!(Status::Success.code(), 1);
    assert_eq!(Status::Failed.code(), 2);
    assert_eq!(Status::Deleting.code(), 3);
    assert_eq!(Status::from_code(0), Some(Status::NotStarted));
    assert_eq!(Status::from_code(1), Some(Status::Success));
    assert_eq!(Status::from_code(2), Some(Status::Failed));
    assert_eq!(Status::from_code(3), Some(Status::Deleting));
    assert_eq!(Status::from_code(4), None);
    assert_eq!(Status::from_code(-1), None);
}

#[test]
fn error_messages_name_each_failure() {
    assert_eq!(
        EngineError::TransientFetch.message(),
        "the remote source could not be reached"
    );
    assert_eq!(EngineError::Decode.message(), "the fetched content is malformed");
    assert_eq!(EngineError::Storage.message(), "the local store refused the write");
    assert_eq!(
        EngineError::FatalInit.message(),
        "the engine could not be initialized"
    );
}
