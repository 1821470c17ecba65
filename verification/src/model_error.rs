//! What went wrong when the analyzer could not be asked.
//!
//! The analyzer fails with a free text. The text is sorted into one of a few
//! kinds by the tokens it holds; the first kind whose tokens are found wins.

use vstd::prelude::*;
use crate::text::{chars_of, contains, has, unicode_lowercase};

verus! {

/// The kinds of analyzer failure, in the order in which they are looked for.
#[derive(Debug, Clone, Copy, PartialEq, Eq, Structural)]
pub enum ModelErrorKind {
    Unauthorized,
    InsufficientQuota,
    RateLimit,
    Timeout,
    Network,
    InvalidRequest,
    ServerError,
    Unknown,
}

/// A failure, sorted and explained.
#[derive(Debug, Clone)]
pub struct ModelErrorInfo {
    pub kind: ModelErrorKind,
    pub error_type: String,
    pub message: String,
    pub suggestion: String,
}

/// The name under which an analyzer failure is told to the user interface.
pub const MODEL_ERROR_EVENT: &'static str = "model-error";

/// The event that tells the user of an analyzer failure.
#[derive(Debug, Clone)]
pub struct ModelErrorAlert {
    pub timestamp: String,
    pub error_type: String,
    pub message: String,
    pub suggestion: String,
    pub detail: String,
    pub source: String,
}

/// The text tells of a key that is missing, wrong or not allowed.
pub open spec fn is_unauthorized(lower: Seq<char>) -> bool {
    contains(lower, "401"@) || contains(lower, "403"@) || contains(lower, "unauthorized"@)
        || contains(lower, "invalid api key"@) || contains(lower, "authentication"@)
}

/// The text tells of an account that has run dry.
pub open spec fn is_insufficient_quota(detail: Seq<char>, lower: Seq<char>) -> bool {
    contains(lower, "insufficient_quota"@) || contains(lower, "quota"@) || contains(
        lower,
        "balance"@,
    ) || contains(lower, "billing"@) || contains(lower, "payment"@) || contains(detail, "余额"@)
        || contains(detail, "欠费"@) || contains(detail, "配额"@)
}

/// The text tells of too many requests.
pub open spec fn is_rate_limit(lower: Seq<char>) -> bool {
    contains(lower, "429"@) || contains(lower, "rate limit"@) || contains(
        lower,
        "too many requests"@,
    )
}

/// The text tells of a request that took too long.
pub open spec fn is_timeout(lower: Seq<char>) -> bool {
    contains(lower, "timeout"@) || contains(lower, "timed out"@)
}

/// The text tells of a connection that could not be made or did not last.
pub open spec fn is_network(detail: Seq<char>, lower: Seq<char>) -> bool {
    contains(lower, "dns"@) || contains(lower, "failed to lookup address"@) || contains(
        lower,
        "connection refused"@,
    ) || contains(lower, "connection reset"@) || contains(lower, "connect"@) || contains(
        lower,
        "network"@,
    ) || contains(detail, "网络"@) || contains(detail, "无法连接"@) || contains(
        detail,
        "连接失败"@,
    )
}

/// The text tells of a request that the analyzer does not understand.
pub open spec fn is_invalid_request(lower: Seq<char>) -> bool {
    contains(lower, "400"@) || contains(lower, "404"@) || contains(lower, "invalid"@) || (contains(
        lower,
        "model"@,
    ) && contains(lower, "not found"@))
}

/// The text tells of a failure on the analyzer's side.
pub open spec fn is_server_error(lower: Seq<char>) -> bool {
    contains(lower, "500"@) || contains(lower, "502"@) || contains(lower, "503"@) || contains(
        lower,
        "504"@,
    )
}

/// The kind of a failure text, given the text and its lowercase form.
pub open spec fn kind_of(detail: Seq<char>, lower: Seq<char>) -> ModelErrorKind {
    if is_unauthorized(lower) {
        ModelErrorKind::Unauthorized
    } else if is_insufficient_quota(detail, lower) {
        ModelErrorKind::InsufficientQuota
    } else if is_rate_limit(lower) {
        ModelErrorKind::RateLimit
    } else if is_timeout(lower) {
        ModelErrorKind::Timeout
    } else if is_network(detail, lower) {
        ModelErrorKind::Network
    } else if is_invalid_request(lower) {
        ModelErrorKind::InvalidRequest
    } else if is_server_error(lower) {
        ModelErrorKind::ServerError
    } else {
        ModelErrorKind::Unknown
    }
}

/// The name under which a kind is reported.
pub open spec fn kind_name(kind: ModelErrorKind) -> Seq<char> {
    match kind {
        ModelErrorKind::Unauthorized => "unauthorized"@,
        ModelErrorKind::InsufficientQuota => "insufficient_quota"@,
        ModelErrorKind::RateLimit => "rate_limit"@,
        ModelErrorKind::Timeout => "timeout"@,
        ModelErrorKind::Network => "network"@,
        ModelErrorKind::InvalidRequest => "invalid_request"@,
        ModelErrorKind::ServerError => "server_error"@,
        ModelErrorKind::Unknown => "unknown"@,
    }
}

/// What the user is told of a kind.
pub open spec fn kind_message(kind: ModelErrorKind) -> Seq<char> {
    match kind {
        ModelErrorKind::Unauthorized => "API 未授权或 Key 无效"@,
        ModelErrorKind::InsufficientQuota => "余额或配额不足"@,
        ModelErrorKind::RateLimit => "请求过于频繁或触发限流"@,
        ModelErrorKind::Timeout => "请求超时"@,
        ModelErrorKind::Network => "网络连接失败"@,
        ModelErrorKind::InvalidRequest => "请求参数或模型名称无效"@,
        ModelErrorKind::ServerError => "服务端错误"@,
        ModelErrorKind::Unknown => "模型调用失败"@,
    }
}

/// What the user is advised to do about a kind.
pub open spec fn kind_suggestion(kind: ModelErrorKind) -> Seq<char> {
    match kind {
        ModelErrorKind::Unauthorized => "检查 API Key、权限和接口地址是否匹配"@,
        ModelErrorKind::InsufficientQuota => "检查账户余额或更换可用账号"@,
        ModelErrorKind::RateLimit => "降低频率或稍后重试"@,
        ModelErrorKind::Timeout => "检查网络或稍后重试"@,
        ModelErrorKind::Network => "检查网络、代理或接口地址"@,
        ModelErrorKind::InvalidRequest => "确认模型名称与接口是否兼容 OpenAI 格式"@,
        ModelErrorKind::ServerError => "稍后重试或切换节点"@,
        ModelErrorKind::Unknown => "查看错误详情或日志"@,
    }
}

impl ModelErrorKind {
    /// The name under which the kind is reported.
    pub fn name(&self) -> (s: String)
        ensures
            s@ == kind_name(*self),
    {
        match self {
            ModelErrorKind::Unauthorized => "unauthorized".to_string(),
            ModelErrorKind::InsufficientQuota => "insufficient_quota".to_string(),
            ModelErrorKind::RateLimit => "rate_limit".to_string(),
            ModelErrorKind::Timeout => "timeout".to_string(),
            ModelErrorKind::Network => "network".to_string(),
            ModelErrorKind::InvalidRequest => "invalid_request".to_string(),
            ModelErrorKind::ServerError => "server_error".to_string(),
            ModelErrorKind::Unknown => "unknown".to_string(),
        }
    }

    /// What the user is told of the kind.
    pub fn message(&self) -> (s: String)
        ensures
            s@ == kind_message(*self),
    {
        match self {
            ModelErrorKind::Unauthorized => "API 未授权或 Key 无效".to_string(),
            ModelErrorKind::InsufficientQuota => "余额或配额不足".to_string(),
            ModelErrorKind::RateLimit => "请求过于频繁或触发限流".to_string(),
            ModelErrorKind::Timeout => "请求超时".to_string(),
            ModelErrorKind::Network => "网络连接失败".to_string(),
            ModelErrorKind::InvalidRequest => "请求参数或模型名称无效".to_string(),
            ModelErrorKind::ServerError => "服务端错误".to_string(),
            ModelErrorKind::Unknown => "模型调用失败".to_string(),
        }
    }

    /// What the user is advised to do about the kind.
    pub fn suggestion(&self) -> (s: String)
        ensures
            s@ == kind_suggestion(*self),
    {
        match self {
            ModelErrorKind::Unauthorized => "检查 API Key、权限和接口地址是否匹配".to_string(),
            ModelErrorKind::InsufficientQuota => "检查账户余额或更换可用账号".to_string(),
            ModelErrorKind::RateLimit => "降低频率或稍后重试".to_string(),
            ModelErrorKind::Timeout => "检查网络或稍后重试".to_string(),
            ModelErrorKind::Network => "检查网络、代理或接口地址".to_string(),
            ModelErrorKind::InvalidRequest => "确认模型名称与接口是否兼容 OpenAI 格式".to_string(),
            ModelErrorKind::ServerError => "稍后重试或切换节点".to_string(),
            ModelErrorKind::Unknown => "查看错误详情或日志".to_string(),
        }
    }
}

/// The kind of a failure text, given the text and its lowercase form.
pub fn classify_kind(detail: &str, lower: &str) -> (kind: ModelErrorKind)
    ensures
        kind == kind_of(detail@, lower@),
{
    let d = chars_of(detail);
    let l = chars_of(lower);
    if has(&l, "401") || has(&l, "403") || has(&l, "unauthorized") || has(&l, "invalid api key")
        || has(&l, "authentication") {
        return ModelErrorKind::Unauthorized;
    }
    if has(&l, "insufficient_quota") || has(&l, "quota") || has(&l, "balance") || has(
        &l,
        "billing",
    ) || has(&l, "payment") || has(&d, "余额") || has(&d, "欠费") || has(&d, "配额") {
        return ModelErrorKind::InsufficientQuota;
    }
    if has(&l, "429") || has(&l, "rate limit") || has(&l, "too many requests") {
        return ModelErrorKind::RateLimit;
    }
    if has(&l, "timeout") || has(&l, "timed out") {
        return ModelErrorKind::Timeout;
    }
    if has(&l, "dns") || has(&l, "failed to lookup address") || has(&l, "connection refused")
        || has(&l, "connection reset") || has(&l, "connect") || has(&l, "network") || has(
        &d,
        "网络",
    ) || has(&d, "无法连接") || has(&d, "连接失败") {
        return ModelErrorKind::Network;
    }
    if has(&l, "400") || has(&l, "404") || has(&l, "invalid") || (has(&l, "model") && has(
        &l,
        "not found",
    )) {
        return ModelErrorKind::InvalidRequest;
    }
    if has(&l, "500") || has(&l, "502") || has(&l, "503") || has(&l, "504") {
        return ModelErrorKind::ServerError;
    }
    ModelErrorKind::Unknown
}

/// A kind with its name, message and advice.
pub fn describe(kind: ModelErrorKind) -> (info: ModelErrorInfo)
    ensures
        info.kind == kind,
        info.error_type@ == kind_name(kind),
        info.message@ == kind_message(kind),
        info.suggestion@ == kind_suggestion(kind),
{
    ModelErrorInfo {
        kind,
        error_type: kind.name(),
        message: kind.message(),
        suggestion: kind.suggestion(),
    }
}

/// Sorts a failure text into its kind. Letters are compared without regard to
/// case, by the Unicode lowercase form of the text.
pub fn classify_model_error(detail: &str) -> (info: ModelErrorInfo)
    ensures
        info.kind == kind_of(detail@, unicode_lowercase(detail@)),
        info.error_type@ == kind_name(info.kind),
        info.message@ == kind_message(info.kind),
        info.suggestion@ == kind_suggestion(info.kind),
{
    let lower = detail.to_lowercase();
    describe(classify_kind(detail, lower.as_str()))
}

/// The event for a failure text that came from `source` at the time `timestamp`.
pub fn build_model_error_alert(detail: &str, source: &str, timestamp: &str) -> (alert:
    ModelErrorAlert)
    ensures
        alert.timestamp@ == timestamp@,
        alert.error_type@ == kind_name(kind_of(detail@, unicode_lowercase(detail@))),
        alert.message@ == kind_message(kind_of(detail@, unicode_lowercase(detail@))),
        alert.suggestion@ == kind_suggestion(kind_of(detail@, unicode_lowercase(detail@))),
        alert.detail@ == detail@,
        alert.source@ == source@,
{
    let info = classify_model_error(detail);
    ModelErrorAlert {
        timestamp: timestamp.to_string(),
        error_type: info.error_type,
        message: info.message,
        suggestion: info.suggestion,
        detail: detail.to_string(),
        source: source.to_string(),
    }
}

} // verus!
