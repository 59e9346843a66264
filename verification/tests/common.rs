use drawdb::common::{CommonResponse, ResponseCode, ResponseMessage};
use drawdb::error::DrawDBError;
use drawdb::store::Fault;

#[test]
fn response_codes() {
    assert_eq!(ResponseCode::Success.to_i32(), 200);
    assert_eq!(ResponseCode::Failed.to_i32(), 400);
    assert_eq!(ResponseCode::Unauthorized.to_i32(), 401);
    assert_eq!(ResponseCode::Forbidden.to_i32(), 403);
    assert_eq!(ResponseCode::NotFound.to_i32(), 404);
}

#[test]
fn response_messages() {
    assert_eq!(ResponseMessage::Success.to_string(), "成功");
    assert_eq!(ResponseMessage::Failed.to_string(), "失败");
    assert_eq!(ResponseMessage::Unauthorized.to_string(), "未授权");
    assert_eq!(ResponseMessage::Forbidden.to_string(), "禁止访问");
    assert_eq!(ResponseMessage::NotFound.to_string(), "未找到");
    assert_eq!(ResponseMessage::Default("custom".to_string()).to_string(), "custom");
}

#[test]
fn envelope_carries_code_message_and_data() {
    let data = serde_json::Value::String("t1".to_string());
    let reply = CommonResponse::new(ResponseCode::Success, ResponseMessage::Success, Some(data.clone()));
    assert_eq!(reply.code, 200);
    assert_eq!(reply.message, "成功");
    assert_eq!(reply.data, Some(data));
    let empty = CommonResponse::new(ResponseCode::NotFound, ResponseMessage::NotFound, None);
    assert_eq!(empty.code, 404);
    assert_eq!(empty.message, "未找到");
    assert_eq!(empty.data, None);
}

#[test]
fn errors_carry_their_detail() {
    assert_eq!(DrawDBError::DatabaseError("locked".to_string()).detail(), "locked");
    assert_eq!(DrawDBError::IoError("gone".to_string()).detail(), "gone");
    assert_eq!(DrawDBError::ConfigError("bad".to_string()).detail(), "bad");
    assert_eq!(DrawDBError::DeconstructError("fields is none".to_string()).detail(), "fields is none");
    assert_eq!(DrawDBError::OtherError("else".to_string()).detail(), "else");
}

#[test]
fn storage_faults_become_storage_errors() {
    assert_eq!(
        DrawDBError::from_fault(Fault::Conflict),
        DrawDBError::DatabaseError("conflict".to_string())
    );
    assert_eq!(
        DrawDBError::from_fault(Fault::NotFound),
        DrawDBError::DatabaseError("not found".to_string())
    );
}
