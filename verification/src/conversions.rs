//! Storage labels of the enumerations and the small value conversions the
//! SQL backends share.

use vstd::prelude::*;
use crate::errors::MemcoreError;
use crate::jobs::{BackgroundJobKind, BackgroundJobStatus};
use crate::text::str_eq;
use crate::types::{
    ApiKeyScope, MemoryEventOperation, MemorySource, MemoryType, OrgPlanTier, ProviderCallStatus,
    ProviderUsageCapability,
};

verus! {

impl MemoryType {
    /// The text this value is stored as.
    pub open spec fn label(self) -> Seq<char> {
        match self {
            MemoryType::Profile => "profile"@,
            MemoryType::Preference => "preference"@,
            MemoryType::Project => "project"@,
            MemoryType::Conversation => "conversation"@,
            MemoryType::Task => "task"@,
            MemoryType::Entity => "entity"@,
            MemoryType::Skill => "skill"@,
            MemoryType::System => "system"@,
        }
    }
}

pub fn memory_type_to_str(value: MemoryType) -> (r: &'static str)
    ensures
        r@ == value.label(),
{
    match value {
        MemoryType::Profile => "profile",
        MemoryType::Preference => "preference",
        MemoryType::Project => "project",
        MemoryType::Conversation => "conversation",
        MemoryType::Task => "task",
        MemoryType::Entity => "entity",
        MemoryType::Skill => "skill",
        MemoryType::System => "system",
    }
}

pub open spec fn memory_type_error_text(value: Seq<char>) -> Seq<char> {
    "invalid memory_type value: "@ + value
}

/// The value stored as `value`, if any.
pub open spec fn memory_type_parse(value: Seq<char>) -> Option<MemoryType> {
    if value == "profile"@ {
        Some(MemoryType::Profile)
    } else if value == "preference"@ {
        Some(MemoryType::Preference)
    } else if value == "project"@ {
        Some(MemoryType::Project)
    } else if value == "conversation"@ {
        Some(MemoryType::Conversation)
    } else if value == "task"@ {
        Some(MemoryType::Task)
    } else if value == "entity"@ {
        Some(MemoryType::Entity)
    } else if value == "skill"@ {
        Some(MemoryType::Skill)
    } else if value == "system"@ {
        Some(MemoryType::System)
    } else {
        None
    }
}

/// The value stored as `value`; any other text is a storage error.
pub fn memory_type_from_str(value: &str) -> (r: Result<MemoryType, MemcoreError>)
    ensures
        match memory_type_parse(value@) {
            Some(v) => r == Ok::<MemoryType, MemcoreError>(v) && v.label() == value@,
            None => r matches Err(MemcoreError::StorageError(msg)) && msg@ == memory_type_error_text(value@)
                && forall|v: MemoryType| #[trigger] v.label() != value@,
        },
{
    if str_eq(value, "profile") {
        return Ok(MemoryType::Profile);
    }
    if str_eq(value, "preference") {
        return Ok(MemoryType::Preference);
    }
    if str_eq(value, "project") {
        return Ok(MemoryType::Project);
    }
    if str_eq(value, "conversation") {
        return Ok(MemoryType::Conversation);
    }
    if str_eq(value, "task") {
        return Ok(MemoryType::Task);
    }
    if str_eq(value, "entity") {
        return Ok(MemoryType::Entity);
    }
    if str_eq(value, "skill") {
        return Ok(MemoryType::Skill);
    }
    if str_eq(value, "system") {
        return Ok(MemoryType::System);
    }
    let mut msg = String::from_str("invalid memory_type value: ");
    msg.append(value);
    Err(MemcoreError::StorageError(msg))
}

impl MemorySource {
    /// The text this value is stored as.
    pub open spec fn label(self) -> Seq<char> {
        match self {
            MemorySource::UserMessage => "user_message"@,
            MemorySource::AssistantMessage => "assistant_message"@,
            MemorySource::ApiImport => "api_import"@,
            MemorySource::Manual => "manual"@,
            MemorySource::System => "system"@,
        }
    }
}

pub fn memory_source_to_str(value: MemorySource) -> (r: &'static str)
    ensures
        r@ == value.label(),
{
    match value {
        MemorySource::UserMessage => "user_message",
        MemorySource::AssistantMessage => "assistant_message",
        MemorySource::ApiImport => "api_import",
        MemorySource::Manual => "manual",
        MemorySource::System => "system",
    }
}

pub open spec fn memory_source_error_text(value: Seq<char>) -> Seq<char> {
    "invalid source value: "@ + value
}

/// The value stored as `value`, if any.
pub open spec fn memory_source_parse(value: Seq<char>) -> Option<MemorySource> {
    if value == "user_message"@ {
        Some(MemorySource::UserMessage)
    } else if value == "assistant_message"@ {
        Some(MemorySource::AssistantMessage)
    } else if value == "api_import"@ {
        Some(MemorySource::ApiImport)
    } else if value == "manual"@ {
        Some(MemorySource::Manual)
    } else if value == "system"@ {
        Some(MemorySource::System)
    } else {
        None
    }
}

/// The value stored as `value`; any other text is a storage error.
pub fn memory_source_from_str(value: &str) -> (r: Result<MemorySource, MemcoreError>)
    ensures
        match memory_source_parse(value@) {
            Some(v) => r == Ok::<MemorySource, MemcoreError>(v) && v.label() == value@,
            None => r matches Err(MemcoreError::StorageError(msg)) && msg@ == memory_source_error_text(value@)
                && forall|v: MemorySource| #[trigger] v.label() != value@,
        },
{
    if str_eq(value, "user_message") {
        return Ok(MemorySource::UserMessage);
    }
    if str_eq(value, "assistant_message") {
        return Ok(MemorySource::AssistantMessage);
    }
    if str_eq(value, "api_import") {
        return Ok(MemorySource::ApiImport);
    }
    if str_eq(value, "manual") {
        return Ok(MemorySource::Manual);
    }
    if str_eq(value, "system") {
        return Ok(MemorySource::System);
    }
    let mut msg = String::from_str("invalid source value: ");
    msg.append(value);
    Err(MemcoreError::StorageError(msg))
}

impl MemoryEventOperation {
    /// The text this value is stored as.
    pub open spec fn label(self) -> Seq<char> {
        match self {
            MemoryEventOperation::Add => "add"@,
            MemoryEventOperation::Update => "update"@,
            MemoryEventOperation::Delete => "delete"@,
            MemoryEventOperation::NoOp => "no_op"@,
            MemoryEventOperation::ForgetUser => "forget_user"@,
        }
    }
}

pub fn memory_event_operation_to_str(value: MemoryEventOperation) -> (r: &'static str)
    ensures
        r@ == value.label(),
{
    match value {
        MemoryEventOperation::Add => "add",
        MemoryEventOperation::Update => "update",
        MemoryEventOperation::Delete => "delete",
        MemoryEventOperation::NoOp => "no_op",
        MemoryEventOperation::ForgetUser => "forget_user",
    }
}

pub open spec fn memory_event_operation_error_text(value: Seq<char>) -> Seq<char> {
    "invalid memory event operation value: "@ + value
}

/// The value stored as `value`, if any.
pub open spec fn memory_event_operation_parse(value: Seq<char>) -> Option<MemoryEventOperation> {
    if value == "add"@ {
        Some(MemoryEventOperation::Add)
    } else if value == "update"@ {
        Some(MemoryEventOperation::Update)
    } else if value == "delete"@ {
        Some(MemoryEventOperation::Delete)
    } else if value == "no_op"@ {
        Some(MemoryEventOperation::NoOp)
    } else if value == "forget_user"@ {
        Some(MemoryEventOperation::ForgetUser)
    } else {
        None
    }
}

/// The value stored as `value`; any other text is a storage error.
pub fn memory_event_operation_from_str(value: &str) -> (r: Result<MemoryEventOperation, MemcoreError>)
    ensures
        match memory_event_operation_parse(value@) {
            Some(v) => r == Ok::<MemoryEventOperation, MemcoreError>(v) && v.label() == value@,
            None => r matches Err(MemcoreError::StorageError(msg)) && msg@ == memory_event_operation_error_text(value@)
                && forall|v: MemoryEventOperation| #[trigger] v.label() != value@,
        },
{
    if str_eq(value, "add") {
        return Ok(MemoryEventOperation::Add);
    }
    if str_eq(value, "update") {
        return Ok(MemoryEventOperation::Update);
    }
    if str_eq(value, "delete") {
        return Ok(MemoryEventOperation::Delete);
    }
    if str_eq(value, "no_op") {
        return Ok(MemoryEventOperation::NoOp);
    }
    if str_eq(value, "forget_user") {
        return Ok(MemoryEventOperation::ForgetUser);
    }
    let mut msg = String::from_str("invalid memory event operation value: ");
    msg.append(value);
    Err(MemcoreError::StorageError(msg))
}

impl ApiKeyScope {
    /// The text this value is stored as.
    pub open spec fn label(self) -> Seq<char> {
        match self {
            ApiKeyScope::MemoryRead => "memory_read"@,
            ApiKeyScope::MemoryWrite => "memory_write"@,
            ApiKeyScope::MemoryDelete => "memory_delete"@,
            ApiKeyScope::UserDelete => "user_delete"@,
            ApiKeyScope::AuditRead => "audit_read"@,
            ApiKeyScope::AdminRead => "admin_read"@,
            ApiKeyScope::AdminWrite => "admin_write"@,
        }
    }
}

pub fn api_key_scope_to_str(value: ApiKeyScope) -> (r: &'static str)
    ensures
        r@ == value.label(),
{
    match value {
        ApiKeyScope::MemoryRead => "memory_read",
        ApiKeyScope::MemoryWrite => "memory_write",
        ApiKeyScope::MemoryDelete => "memory_delete",
        ApiKeyScope::UserDelete => "user_delete",
        ApiKeyScope::AuditRead => "audit_read",
        ApiKeyScope::AdminRead => "admin_read",
        ApiKeyScope::AdminWrite => "admin_write",
    }
}

pub open spec fn api_key_scope_error_text(value: Seq<char>) -> Seq<char> {
    "invalid api key scope value: "@ + value
}

/// The value stored as `value`, if any.
pub open spec fn api_key_scope_parse(value: Seq<char>) -> Option<ApiKeyScope> {
    if value == "memory_read"@ {
        Some(ApiKeyScope::MemoryRead)
    } else if value == "memory_write"@ {
        Some(ApiKeyScope::MemoryWrite)
    } else if value == "memory_delete"@ {
        Some(ApiKeyScope::MemoryDelete)
    } else if value == "user_delete"@ {
        Some(ApiKeyScope::UserDelete)
    } else if value == "audit_read"@ {
        Some(ApiKeyScope::AuditRead)
    } else if value == "admin_read"@ {
        Some(ApiKeyScope::AdminRead)
    } else if value == "admin_write"@ {
        Some(ApiKeyScope::AdminWrite)
    } else {
        None
    }
}

/// The value stored as `value`; any other text is a storage error.
pub fn api_key_scope_from_str(value: &str) -> (r: Result<ApiKeyScope, MemcoreError>)
    ensures
        match api_key_scope_parse(value@) {
            Some(v) => r == Ok::<ApiKeyScope, MemcoreError>(v) && v.label() == value@,
            None => r matches Err(MemcoreError::StorageError(msg)) && msg@ == api_key_scope_error_text(value@)
                && forall|v: ApiKeyScope| #[trigger] v.label() != value@,
        },
{
    if str_eq(value, "memory_read") {
        return Ok(ApiKeyScope::MemoryRead);
    }
    if str_eq(value, "memory_write") {
        return Ok(ApiKeyScope::MemoryWrite);
    }
    if str_eq(value, "memory_delete") {
        return Ok(ApiKeyScope::MemoryDelete);
    }
    if str_eq(value, "user_delete") {
        return Ok(ApiKeyScope::UserDelete);
    }
    if str_eq(value, "audit_read") {
        return Ok(ApiKeyScope::AuditRead);
    }
    if str_eq(value, "admin_read") {
        return Ok(ApiKeyScope::AdminRead);
    }
    if str_eq(value, "admin_write") {
        return Ok(ApiKeyScope::AdminWrite);
    }
    let mut msg = String::from_str("invalid api key scope value: ");
    msg.append(value);
    Err(MemcoreError::StorageError(msg))
}

impl ProviderUsageCapability {
    /// The text this value is stored as.
    pub open spec fn label(self) -> Seq<char> {
        match self {
            ProviderUsageCapability::Llm => "llm"@,
            ProviderUsageCapability::Embedding => "embedding"@,
            ProviderUsageCapability::Summarization => "summarization"@,
        }
    }
}

pub fn capability_to_str(value: ProviderUsageCapability) -> (r: &'static str)
    ensures
        r@ == value.label(),
{
    match value {
        ProviderUsageCapability::Llm => "llm",
        ProviderUsageCapability::Embedding => "embedding",
        ProviderUsageCapability::Summarization => "summarization",
    }
}

pub open spec fn capability_error_text(value: Seq<char>) -> Seq<char> {
    "invalid provider usage capability: "@ + value
}

/// The value stored as `value`, if any.
pub open spec fn capability_parse(value: Seq<char>) -> Option<ProviderUsageCapability> {
    if value == "llm"@ {
        Some(ProviderUsageCapability::Llm)
    } else if value == "embedding"@ {
        Some(ProviderUsageCapability::Embedding)
    } else if value == "summarization"@ {
        Some(ProviderUsageCapability::Summarization)
    } else {
        None
    }
}

/// The value stored as `value`; any other text is a storage error.
pub fn capability_from_str(value: &str) -> (r: Result<ProviderUsageCapability, MemcoreError>)
    ensures
        match capability_parse(value@) {
            Some(v) => r == Ok::<ProviderUsageCapability, MemcoreError>(v) && v.label() == value@,
            None => r matches Err(MemcoreError::StorageError(msg)) && msg@ == capability_error_text(value@)
                && forall|v: ProviderUsageCapability| #[trigger] v.label() != value@,
        },
{
    if str_eq(value, "llm") {
        return Ok(ProviderUsageCapability::Llm);
    }
    if str_eq(value, "embedding") {
        return Ok(ProviderUsageCapability::Embedding);
    }
    if str_eq(value, "summarization") {
        return Ok(ProviderUsageCapability::Summarization);
    }
    let mut msg = String::from_str("invalid provider usage capability: ");
    msg.append(value);
    Err(MemcoreError::StorageError(msg))
}

impl ProviderCallStatus {
    /// The text this value is stored as.
    pub open spec fn label(self) -> Seq<char> {
        match self {
            ProviderCallStatus::Success => "success"@,
            ProviderCallStatus::Error => "error"@,
        }
    }
}

pub fn status_to_str(value: ProviderCallStatus) -> (r: &'static str)
    ensures
        r@ == value.label(),
{
    match value {
        ProviderCallStatus::Success => "success",
        ProviderCallStatus::Error => "error",
    }
}

pub open spec fn status_error_text(value: Seq<char>) -> Seq<char> {
    "invalid provider usage status: "@ + value
}

/// The value stored as `value`, if any.
pub open spec fn status_parse(value: Seq<char>) -> Option<ProviderCallStatus> {
    if value == "success"@ {
        Some(ProviderCallStatus::Success)
    } else if value == "error"@ {
        Some(ProviderCallStatus::Error)
    } else {
        None
    }
}

/// The value stored as `value`; any other text is a storage error.
pub fn status_from_str(value: &str) -> (r: Result<ProviderCallStatus, MemcoreError>)
    ensures
        match status_parse(value@) {
            Some(v) => r == Ok::<ProviderCallStatus, MemcoreError>(v) && v.label() == value@,
            None => r matches Err(MemcoreError::StorageError(msg)) && msg@ == status_error_text(value@)
                && forall|v: ProviderCallStatus| #[trigger] v.label() != value@,
        },
{
    if str_eq(value, "success") {
        return Ok(ProviderCallStatus::Success);
    }
    if str_eq(value, "error") {
        return Ok(ProviderCallStatus::Error);
    }
    let mut msg = String::from_str("invalid provider usage status: ");
    msg.append(value);
    Err(MemcoreError::StorageError(msg))
}

impl OrgPlanTier {
    /// The text this value is stored as.
    pub open spec fn label(self) -> Seq<char> {
        match self {
            OrgPlanTier::Free => "free"@,
            OrgPlanTier::Pro => "pro"@,
            OrgPlanTier::Enterprise => "enterprise"@,
        }
    }
}

pub fn tier_to_storage(value: OrgPlanTier) -> (r: &'static str)
    ensures
        r@ == value.label(),
{
    match value {
        OrgPlanTier::Free => "free",
        OrgPlanTier::Pro => "pro",
        OrgPlanTier::Enterprise => "enterprise",
    }
}

pub open spec fn tier_error_text(value: Seq<char>) -> Seq<char> {
    "invalid org plan tier value: "@ + value
}

/// The value stored as `value`, if any.
pub open spec fn tier_parse(value: Seq<char>) -> Option<OrgPlanTier> {
    if value == "free"@ {
        Some(OrgPlanTier::Free)
    } else if value == "pro"@ {
        Some(OrgPlanTier::Pro)
    } else if value == "enterprise"@ {
        Some(OrgPlanTier::Enterprise)
    } else {
        None
    }
}

/// The value stored as `value`; any other text is a storage error.
pub fn tier_from_storage(value: &str) -> (r: Result<OrgPlanTier, MemcoreError>)
    ensures
        match tier_parse(value@) {
            Some(v) => r == Ok::<OrgPlanTier, MemcoreError>(v) && v.label() == value@,
            None => r matches Err(MemcoreError::StorageError(msg)) && msg@ == tier_error_text(value@)
                && forall|v: OrgPlanTier| #[trigger] v.label() != value@,
        },
{
    if str_eq(value, "free") {
        return Ok(OrgPlanTier::Free);
    }
    if str_eq(value, "pro") {
        return Ok(OrgPlanTier::Pro);
    }
    if str_eq(value, "enterprise") {
        return Ok(OrgPlanTier::Enterprise);
    }
    let mut msg = String::from_str("invalid org plan tier value: ");
    msg.append(value);
    Err(MemcoreError::StorageError(msg))
}

impl BackgroundJobKind {
    /// The text this value is stored as.
    pub open spec fn label(self) -> Seq<char> {
        match self {
            BackgroundJobKind::MemoryUsageSnapshot => "memory_usage_snapshot"@,
            BackgroundJobKind::ProviderUsageRetention => "provider_usage_retention"@,
        }
    }
}

pub fn job_kind_to_str(value: BackgroundJobKind) -> (r: &'static str)
    ensures
        r@ == value.label(),
{
    match value {
        BackgroundJobKind::MemoryUsageSnapshot => "memory_usage_snapshot",
        BackgroundJobKind::ProviderUsageRetention => "provider_usage_retention",
    }
}

pub open spec fn job_kind_error_text(value: Seq<char>) -> Seq<char> {
    "invalid background job kind: "@ + value
}

/// The value stored as `value`, if any.
pub open spec fn job_kind_parse(value: Seq<char>) -> Option<BackgroundJobKind> {
    if value == "memory_usage_snapshot"@ {
        Some(BackgroundJobKind::MemoryUsageSnapshot)
    } else if value == "provider_usage_retention"@ {
        Some(BackgroundJobKind::ProviderUsageRetention)
    } else {
        None
    }
}

/// The value stored as `value`; any other text is a storage error.
pub fn job_kind_from_str(value: &str) -> (r: Result<BackgroundJobKind, MemcoreError>)
    ensures
        match job_kind_parse(value@) {
            Some(v) => r == Ok::<BackgroundJobKind, MemcoreError>(v) && v.label() == value@,
            None => r matches Err(MemcoreError::StorageError(msg)) && msg@ == job_kind_error_text(value@)
                && forall|v: BackgroundJobKind| #[trigger] v.label() != value@,
        },
{
    if str_eq(value, "memory_usage_snapshot") {
        return Ok(BackgroundJobKind::MemoryUsageSnapshot);
    }
    if str_eq(value, "provider_usage_retention") {
        return Ok(BackgroundJobKind::ProviderUsageRetention);
    }
    let mut msg = String::from_str("invalid background job kind: ");
    msg.append(value);
    Err(MemcoreError::StorageError(msg))
}

impl BackgroundJobStatus {
    /// The text this value is stored as.
    pub open spec fn label(self) -> Seq<char> {
        match self {
            BackgroundJobStatus::Succeeded => "succeeded"@,
            BackgroundJobStatus::Failed => "failed"@,
            BackgroundJobStatus::Skipped => "skipped"@,
        }
    }
}

pub fn job_status_to_str(value: BackgroundJobStatus) -> (r: &'static str)
    ensures
        r@ == value.label(),
{
    match value {
        BackgroundJobStatus::Succeeded => "succeeded",
        BackgroundJobStatus::Failed => "failed",
        BackgroundJobStatus::Skipped => "skipped",
    }
}

pub open spec fn job_status_error_text(value: Seq<char>) -> Seq<char> {
    "invalid background job status: "@ + value
}

/// The value stored as `value`, if any.
pub open spec fn job_status_parse(value: Seq<char>) -> Option<BackgroundJobStatus> {
    if value == "succeeded"@ {
        Some(BackgroundJobStatus::Succeeded)
    } else if value == "failed"@ {
        Some(BackgroundJobStatus::Failed)
    } else if value == "skipped"@ {
        Some(BackgroundJobStatus::Skipped)
    } else {
        None
    }
}

/// The value stored as `value`; any other text is a storage error.
pub fn job_status_from_str(value: &str) -> (r: Result<BackgroundJobStatus, MemcoreError>)
    ensures
        match job_status_parse(value@) {
            Some(v) => r == Ok::<BackgroundJobStatus, MemcoreError>(v) && v.label() == value@,
            None => r matches Err(MemcoreError::StorageError(msg)) && msg@ == job_status_error_text(value@)
                && forall|v: BackgroundJobStatus| #[trigger] v.label() != value@,
        },
{
    if str_eq(value, "succeeded") {
        return Ok(BackgroundJobStatus::Succeeded);
    }
    if str_eq(value, "failed") {
        return Ok(BackgroundJobStatus::Failed);
    }
    if str_eq(value, "skipped") {
        return Ok(BackgroundJobStatus::Skipped);
    }
    let mut msg = String::from_str("invalid background job status: ");
    msg.append(value);
    Err(MemcoreError::StorageError(msg))
}

/// SQLite stores a flag as 0 or 1.
pub fn bool_to_i64(value: bool) -> (r: i64)
    ensures
        r == if value { 1i64 } else { 0i64 },
{
    if value {
        1
    } else {
        0
    }
}

/// Any non-zero integer reads back as `true`.
pub fn i64_to_bool(value: i64) -> (r: bool)
    ensures
        r == (value != 0),
{
    value != 0
}

/// A stored optional limit: only positive values are limits.
pub fn optional_i64_to_u64(value: Option<i64>) -> (r: Option<u64>)
    ensures
        r == match value {
            Some(v) => if v > 0 { Some(v as u64) } else { None::<u64> },
            None => None::<u64>,
        },
{
    match value {
        Some(v) => {
            if v > 0 {
                Some(v as u64)
            } else {
                None
            }
        },
        None => None,
    }
}

proof fn lemma_memory_type_labels(v: MemoryType)
    ensures
        memory_type_parse(v.label()) == Some(v),
{
    reveal_strlit("profile");
    reveal_strlit("preference");
    reveal_strlit("project");
    reveal_strlit("conversation");
    reveal_strlit("task");
    reveal_strlit("entity");
    reveal_strlit("skill");
    reveal_strlit("system");
    match v {
        MemoryType::Profile => {
            assert("profile"@.len() != "preference"@.len());
            assert("profile"@[3] != "project"@[3]);
            assert("profile"@.len() != "conversation"@.len());
            assert("profile"@.len() != "task"@.len());
            assert("profile"@.len() != "entity"@.len());
            assert("profile"@.len() != "skill"@.len());
            assert("profile"@.len() != "system"@.len());
        },
        MemoryType::Preference => {
            assert("preference"@.len() != "profile"@.len());
            assert("preference"@.len() != "project"@.len());
            assert("preference"@.len() != "conversation"@.len());
            assert("preference"@.len() != "task"@.len());
            assert("preference"@.len() != "entity"@.len());
            assert("preference"@.len() != "skill"@.len());
            assert("preference"@.len() != "system"@.len());
        },
        MemoryType::Project => {
            assert("project"@[3] != "profile"@[3]);
            assert("project"@.len() != "preference"@.len());
            assert("project"@.len() != "conversation"@.len());
            assert("project"@.len() != "task"@.len());
            assert("project"@.len() != "entity"@.len());
            assert("project"@.len() != "skill"@.len());
            assert("project"@.len() != "system"@.len());
        },
        MemoryType::Conversation => {
            assert("conversation"@.len() != "profile"@.len());
            assert("conversation"@.len() != "preference"@.len());
            assert("conversation"@.len() != "project"@.len());
            assert("conversation"@.len() != "task"@.len());
            assert("conversation"@.len() != "entity"@.len());
            assert("conversation"@.len() != "skill"@.len());
            assert("conversation"@.len() != "system"@.len());
        },
        MemoryType::Task => {
            assert("task"@.len() != "profile"@.len());
            assert("task"@.len() != "preference"@.len());
            assert("task"@.len() != "project"@.len());
            assert("task"@.len() != "conversation"@.len());
            assert("task"@.len() != "entity"@.len());
            assert("task"@.len() != "skill"@.len());
            assert("task"@.len() != "system"@.len());
        },
        MemoryType::Entity => {
            assert("entity"@.len() != "profile"@.len());
            assert("entity"@.len() != "preference"@.len());
            assert("entity"@.len() != "project"@.len());
            assert("entity"@.len() != "conversation"@.len());
            assert("entity"@.len() != "task"@.len());
            assert("entity"@.len() != "skill"@.len());
            assert("entity"@[0] != "system"@[0]);
        },
        MemoryType::Skill => {
            assert("skill"@.len() != "profile"@.len());
            assert("skill"@.len() != "preference"@.len());
            assert("skill"@.len() != "project"@.len());
            assert("skill"@.len() != "conversation"@.len());
            assert("skill"@.len() != "task"@.len());
            assert("skill"@.len() != "entity"@.len());
            assert("skill"@.len() != "system"@.len());
        },
        MemoryType::System => {
            assert("system"@.len() != "profile"@.len());
            assert("system"@.len() != "preference"@.len());
            assert("system"@.len() != "project"@.len());
            assert("system"@.len() != "conversation"@.len());
            assert("system"@.len() != "task"@.len());
            assert("system"@[0] != "entity"@[0]);
            assert("system"@.len() != "skill"@.len());
        },
    }
}

proof fn lemma_memory_source_labels(v: MemorySource)
    ensures
        memory_source_parse(v.label()) == Some(v),
{
    reveal_strlit("user_message");
    reveal_strlit("assistant_message");
    reveal_strlit("api_import");
    reveal_strlit("manual");
    reveal_strlit("system");
    match v {
        MemorySource::UserMessage => {
            assert("user_message"@.len() != "assistant_message"@.len());
            assert("user_message"@.len() != "api_import"@.len());
            assert("user_message"@.len() != "manual"@.len());
            assert("user_message"@.len() != "system"@.len());
        },
        MemorySource::AssistantMessage => {
            assert("assistant_message"@.len() != "user_message"@.len());
            assert("assistant_message"@.len() != "api_import"@.len());
            assert("assistant_message"@.len() != "manual"@.len());
            assert("assistant_message"@.len() != "system"@.len());
        },
        MemorySource::ApiImport => {
            assert("api_import"@.len() != "user_message"@.len());
            assert("api_import"@.len() != "assistant_message"@.len());
            assert("api_import"@.len() != "manual"@.len());
            assert("api_import"@.len() != "system"@.len());
        },
        MemorySource::Manual => {
            assert("manual"@.len() != "user_message"@.len());
            assert("manual"@.len() != "assistant_message"@.len());
            assert("manual"@.len() != "api_import"@.len());
            assert("manual"@[0] != "system"@[0]);
        },
        MemorySource::System => {
            assert("system"@.len() != "user_message"@.len());
            assert("system"@.len() != "assistant_message"@.len());
            assert("system"@.len() != "api_import"@.len());
            assert("system"@[0] != "manual"@[0]);
        },
    }
}

proof fn lemma_memory_event_operation_labels(v: MemoryEventOperation)
    ensures
        memory_event_operation_parse(v.label()) == Some(v),
{
    reveal_strlit("add");
    reveal_strlit("update");
    reveal_strlit("delete");
    reveal_strlit("no_op");
    reveal_strlit("forget_user");
    match v {
        MemoryEventOperation::Add => {
            assert("add"@.len() != "update"@.len());
            assert("add"@.len() != "delete"@.len());
            assert("add"@.len() != "no_op"@.len());
            assert("add"@.len() != "forget_user"@.len());
        },
        MemoryEventOperation::Update => {
            assert("update"@.len() != "add"@.len());
            assert("update"@[0] != "delete"@[0]);
            assert("update"@.len() != "no_op"@.len());
            assert("update"@.len() != "forget_user"@.len());
        },
        MemoryEventOperation::Delete => {
            assert("delete"@.len() != "add"@.len());
            assert("delete"@[0] != "update"@[0]);
            assert("delete"@.len() != "no_op"@.len());
            assert("delete"@.len() != "forget_user"@.len());
        },
        MemoryEventOperation::NoOp => {
            assert("no_op"@.len() != "add"@.len());
            assert("no_op"@.len() != "update"@.len());
            assert("no_op"@.len() != "delete"@.len());
            assert("no_op"@.len() != "forget_user"@.len());
        },
        MemoryEventOperation::ForgetUser => {
            assert("forget_user"@.len() != "add"@.len());
            assert("forget_user"@.len() != "update"@.len());
            assert("forget_user"@.len() != "delete"@.len());
            assert("forget_user"@.len() != "no_op"@.len());
        },
    }
}

proof fn lemma_api_key_scope_labels(v: ApiKeyScope)
    ensures
        api_key_scope_parse(v.label()) == Some(v),
{
    reveal_strlit("memory_read");
    reveal_strlit("memory_write");
    reveal_strlit("memory_delete");
    reveal_strlit("user_delete");
    reveal_strlit("audit_read");
    reveal_strlit("admin_read");
    reveal_strlit("admin_write");
    match v {
        ApiKeyScope::MemoryRead => {
            assert("memory_read"@.len() != "memory_write"@.len());
            assert("memory_read"@.len() != "memory_delete"@.len());
            assert("memory_read"@[0] != "user_delete"@[0]);
            assert("memory_read"@.len() != "audit_read"@.len());
            assert("memory_read"@.len() != "admin_read"@.len());
            assert("memory_read"@[0] != "admin_write"@[0]);
        },
        ApiKeyScope::MemoryWrite => {
            assert("memory_write"@.len() != "memory_read"@.len());
            assert("memory_write"@.len() != "memory_delete"@.len());
            assert("memory_write"@.len() != "user_delete"@.len());
            assert("memory_write"@.len() != "audit_read"@.len());
            assert("memory_write"@.len() != "admin_read"@.len());
            assert("memory_write"@.len() != "admin_write"@.len());
        },
        ApiKeyScope::MemoryDelete => {
            assert("memory_delete"@.len() != "memory_read"@.len());
            assert("memory_delete"@.len() != "memory_write"@.len());
            assert("memory_delete"@.len() != "user_delete"@.len());
            assert("memory_delete"@.len() != "audit_read"@.len());
            assert("memory_delete"@.len() != "admin_read"@.len());
            assert("memory_delete"@.len() != "admin_write"@.len());
        },
        ApiKeyScope::UserDelete => {
            assert("user_delete"@[0] != "memory_read"@[0]);
            assert("user_delete"@.len() != "memory_write"@.len());
            assert("user_delete"@.len() != "memory_delete"@.len());
            assert("user_delete"@.len() != "audit_read"@.len());
            assert("user_delete"@.len() != "admin_read"@.len());
            assert("user_delete"@[0] != "admin_write"@[0]);
        },
        ApiKeyScope::AuditRead => {
            assert("audit_read"@.len() != "memory_read"@.len());
            assert("audit_read"@.len() != "memory_write"@.len());
            assert("audit_read"@.len() != "memory_delete"@.len());
            assert("audit_read"@.len() != "user_delete"@.len());
            assert("audit_read"@[1] != "admin_read"@[1]);
            assert("audit_read"@.len() != "admin_write"@.len());
        },
        ApiKeyScope::AdminRead => {
            assert("admin_read"@.len() != "memory_read"@.len());
            assert("admin_read"@.len() != "memory_write"@.len());
            assert("admin_read"@.len() != "memory_delete"@.len());
            assert("admin_read"@.len() != "user_delete"@.len());
            assert("admin_read"@[1] != "audit_read"@[1]);
            assert("admin_read"@.len() != "admin_write"@.len());
        },
        ApiKeyScope::AdminWrite => {
            assert("admin_write"@[0] != "memory_read"@[0]);
            assert("admin_write"@.len() != "memory_write"@.len());
            assert("admin_write"@.len() != "memory_delete"@.len());
            assert("admin_write"@[0] != "user_delete"@[0]);
            assert("admin_write"@.len() != "audit_read"@.len());
            assert("admin_write"@.len() != "admin_read"@.len());
        },
    }
}

proof fn lemma_provider_usage_capability_labels(v: ProviderUsageCapability)
    ensures
        capability_parse(v.label()) == Some(v),
{
    reveal_strlit("llm");
    reveal_strlit("embedding");
    reveal_strlit("summarization");
    match v {
        ProviderUsageCapability::Llm => {
            assert("llm"@.len() != "embedding"@.len());
            assert("llm"@.len() != "summarization"@.len());
        },
        ProviderUsageCapability::Embedding => {
            assert("embedding"@.len() != "llm"@.len());
            assert("embedding"@.len() != "summarization"@.len());
        },
        ProviderUsageCapability::Summarization => {
            assert("summarization"@.len() != "llm"@.len());
            assert("summarization"@.len() != "embedding"@.len());
        },
    }
}

proof fn lemma_provider_call_status_labels(v: ProviderCallStatus)
    ensures
        status_parse(v.label()) == Some(v),
{
    reveal_strlit("success");
    reveal_strlit("error");
    match v {
        ProviderCallStatus::Success => {
            assert("success"@.len() != "error"@.len());
        },
        ProviderCallStatus::Error => {
            assert("error"@.len() != "success"@.len());
        },
    }
}

proof fn lemma_org_plan_tier_labels(v: OrgPlanTier)
    ensures
        tier_parse(v.label()) == Some(v),
{
    reveal_strlit("free");
    reveal_strlit("pro");
    reveal_strlit("enterprise");
    match v {
        OrgPlanTier::Free => {
            assert("free"@.len() != "pro"@.len());
            assert("free"@.len() != "enterprise"@.len());
        },
        OrgPlanTier::Pro => {
            assert("pro"@.len() != "free"@.len());
            assert("pro"@.len() != "enterprise"@.len());
        },
        OrgPlanTier::Enterprise => {
            assert("enterprise"@.len() != "free"@.len());
            assert("enterprise"@.len() != "pro"@.len());
        },
    }
}

proof fn lemma_background_job_kind_labels(v: BackgroundJobKind)
    ensures
        job_kind_parse(v.label()) == Some(v),
{
    reveal_strlit("memory_usage_snapshot");
    reveal_strlit("provider_usage_retention");
    match v {
        BackgroundJobKind::MemoryUsageSnapshot => {
            assert("memory_usage_snapshot"@.len() != "provider_usage_retention"@.len());
        },
        BackgroundJobKind::ProviderUsageRetention => {
            assert("provider_usage_retention"@.len() != "memory_usage_snapshot"@.len());
        },
    }
}

proof fn lemma_background_job_status_labels(v: BackgroundJobStatus)
    ensures
        job_status_parse(v.label()) == Some(v),
{
    reveal_strlit("succeeded");
    reveal_strlit("failed");
    reveal_strlit("skipped");
    match v {
        BackgroundJobStatus::Succeeded => {
            assert("succeeded"@.len() != "failed"@.len());
            assert("succeeded"@.len() != "skipped"@.len());
        },
        BackgroundJobStatus::Failed => {
            assert("failed"@.len() != "succeeded"@.len());
            assert("failed"@.len() != "skipped"@.len());
        },
        BackgroundJobStatus::Skipped => {
            assert("skipped"@.len() != "succeeded"@.len());
            assert("skipped"@.len() != "failed"@.len());
        },
    }
}

/// Every stored label reads back as the value it was written from, and a
/// label that reads back as a value is that value's label.
pub proof fn law_labels_round_trip()
    ensures
        forall|v: MemoryType| #[trigger] memory_type_parse(v.label()) == Some(v),
        forall|s: Seq<char>| #[trigger] memory_type_parse(s) is Some ==> memory_type_parse(s)->0.label() == s,
        forall|v: MemorySource| #[trigger] memory_source_parse(v.label()) == Some(v),
        forall|s: Seq<char>| #[trigger] memory_source_parse(s) is Some ==> memory_source_parse(s)->0.label() == s,
        forall|v: MemoryEventOperation| #[trigger] memory_event_operation_parse(v.label()) == Some(v),
        forall|s: Seq<char>| #[trigger] memory_event_operation_parse(s) is Some ==> memory_event_operation_parse(s)->0.label() == s,
        forall|v: ApiKeyScope| #[trigger] api_key_scope_parse(v.label()) == Some(v),
        forall|s: Seq<char>| #[trigger] api_key_scope_parse(s) is Some ==> api_key_scope_parse(s)->0.label() == s,
        forall|v: ProviderUsageCapability| #[trigger] capability_parse(v.label()) == Some(v),
        forall|s: Seq<char>| #[trigger] capability_parse(s) is Some ==> capability_parse(s)->0.label() == s,
        forall|v: ProviderCallStatus| #[trigger] status_parse(v.label()) == Some(v),
        forall|s: Seq<char>| #[trigger] status_parse(s) is Some ==> status_parse(s)->0.label() == s,
        forall|v: OrgPlanTier| #[trigger] tier_parse(v.label()) == Some(v),
        forall|s: Seq<char>| #[trigger] tier_parse(s) is Some ==> tier_parse(s)->0.label() == s,
        forall|v: BackgroundJobKind| #[trigger] job_kind_parse(v.label()) == Some(v),
        forall|s: Seq<char>| #[trigger] job_kind_parse(s) is Some ==> job_kind_parse(s)->0.label() == s,
        forall|v: BackgroundJobStatus| #[trigger] job_status_parse(v.label()) == Some(v),
        forall|s: Seq<char>| #[trigger] job_status_parse(s) is Some ==> job_status_parse(s)->0.label() == s,
{
    assert forall|v: MemoryType| #[trigger] memory_type_parse(v.label()) == Some(v) by {
        lemma_memory_type_labels(v);
    }
    assert forall|v: MemorySource| #[trigger] memory_source_parse(v.label()) == Some(v) by {
        lemma_memory_source_labels(v);
    }
    assert forall|v: MemoryEventOperation| #[trigger] memory_event_operation_parse(v.label()) == Some(v) by {
        lemma_memory_event_operation_labels(v);
    }
    assert forall|v: ApiKeyScope| #[trigger] api_key_scope_parse(v.label()) == Some(v) by {
        lemma_api_key_scope_labels(v);
    }
    assert forall|v: ProviderUsageCapability| #[trigger] capability_parse(v.label()) == Some(v) by {
        lemma_provider_usage_capability_labels(v);
    }
    assert forall|v: ProviderCallStatus| #[trigger] status_parse(v.label()) == Some(v) by {
        lemma_provider_call_status_labels(v);
    }
    assert forall|v: OrgPlanTier| #[trigger] tier_parse(v.label()) == Some(v) by {
        lemma_org_plan_tier_labels(v);
    }
    assert forall|v: BackgroundJobKind| #[trigger] job_kind_parse(v.label()) == Some(v) by {
        lemma_background_job_kind_labels(v);
    }
    assert forall|v: BackgroundJobStatus| #[trigger] job_status_parse(v.label()) == Some(v) by {
        lemma_background_job_status_labels(v);
    }
}

} // verus!
