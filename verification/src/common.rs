//! The envelope in which every reply travels: a status code, a message and the
//! data, if any.

use crate::text::Text;
use vstd::prelude::*;

verus! {

/// `serde_json::Value`, carried as it is: a reply hands its data through without
/// looking into it.
#[verifier::external_type_specification]
#[verifier::external_body]
pub struct ExJsonValue(serde_json::Value);

/// The message of a reply.
#[derive(Debug, PartialEq, Eq)]
pub enum ResponseMessage {
    Success,
    Failed,
    Unauthorized,
    Forbidden,
    NotFound,
    /// A message of the caller's own.
    Default(String),
}

impl ResponseMessage {
    /// The text that stands for the message.
    pub open spec fn text(&self) -> Text {
        match self {
            ResponseMessage::Success => "成功"@,
            ResponseMessage::Failed => "失败"@,
            ResponseMessage::Unauthorized => "未授权"@,
            ResponseMessage::Forbidden => "禁止访问"@,
            ResponseMessage::NotFound => "未找到"@,
            ResponseMessage::Default(message) => message@,
        }
    }

    /// The message as text.
    pub fn to_string(&self) -> (text: String)
        ensures
            text@ == self.text(),
    {
        match self {
            ResponseMessage::Success => "成功".to_string(),
            ResponseMessage::Failed => "失败".to_string(),
            ResponseMessage::Unauthorized => "未授权".to_string(),
            ResponseMessage::Forbidden => "禁止访问".to_string(),
            ResponseMessage::NotFound => "未找到".to_string(),
            ResponseMessage::Default(message) => message.clone(),
        }
    }
}

/// The status of a reply.
#[derive(Debug, PartialEq, Eq, Clone, Copy)]
pub enum ResponseCode {
    Success,
    Failed,
    Unauthorized,
    Forbidden,
    NotFound,
}

impl ResponseCode {
    /// The number that stands for the status.
    pub open spec fn number(&self) -> int {
        match self {
            ResponseCode::Success => 200,
            ResponseCode::Failed => 400,
            ResponseCode::Unauthorized => 401,
            ResponseCode::Forbidden => 403,
            ResponseCode::NotFound => 404,
        }
    }

    /// The status as a number.
    pub fn to_i32(&self) -> (code: i32)
        ensures
            code == self.number(),
    {
        match self {
            ResponseCode::Success => 200,
            ResponseCode::Failed => 400,
            ResponseCode::Unauthorized => 401,
            ResponseCode::Forbidden => 403,
            ResponseCode::NotFound => 404,
        }
    }
}

/// A reply: the status as a number, the message as text, and the data as it was
/// handed in.
pub struct CommonResponse {
    pub code: i32,
    pub message: String,
    pub data: Option<serde_json::Value>,
}

impl CommonResponse {
    /// The reply with the given status, message and data.
    pub fn new(code: ResponseCode, message: ResponseMessage, data: Option<serde_json::Value>) -> (reply:
        Self)
        ensures
            reply.code == code.number(),
            reply.message@ == message.text(),
            reply.data == data,
    {
        CommonResponse { code: code.to_i32(), message: message.to_string(), data }
    }
}

} // verus!
