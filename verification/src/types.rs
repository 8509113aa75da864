//! Records the stores keep. Timestamps are nanoseconds since the Unix epoch
//! (UTC) as `i128`; ids are the 128-bit value of a UUID, whose numeric order is
//! the order of its canonical text form. JSON metadata is carried as its
//! serialized text.

use vstd::prelude::*;

verus! {

/// Kind of fact a memory holds.
#[derive(Clone, Copy, Debug, PartialEq, Eq, Structural)]
pub enum MemoryType {
    Profile,
    Preference,
    Project,
    Conversation,
    Task,
    Entity,
    Skill,
    System,
}

/// Where a fact came from.
#[derive(Clone, Copy, Debug, PartialEq, Eq, Structural)]
pub enum MemorySource {
    UserMessage,
    AssistantMessage,
    ApiImport,
    Manual,
    System,
}

/// What a memory event did to a fact.
#[derive(Clone, Copy, Debug, PartialEq, Eq, Structural)]
pub enum MemoryEventOperation {
    Add,
    Update,
    Delete,
    NoOp,
    ForgetUser,
}

/// Permission an API key grants.
#[derive(Clone, Copy, Debug, PartialEq, Eq, Structural)]
pub enum ApiKeyScope {
    MemoryRead,
    MemoryWrite,
    MemoryDelete,
    UserDelete,
    AuditRead,
    AdminRead,
    AdminWrite,
}

/// Kind of provider call a usage event records.
#[derive(Clone, Copy, Debug, PartialEq, Eq, Structural)]
pub enum ProviderUsageCapability {
    Llm,
    Embedding,
    Summarization,
}

/// Whether a provider call succeeded.
#[derive(Clone, Copy, Debug, PartialEq, Eq, Structural)]
pub enum ProviderCallStatus {
    Success,
    Error,
}

/// Commercial tier of an organization's plan.
#[derive(Clone, Copy, Debug, PartialEq, Eq, Structural)]
pub enum OrgPlanTier {
    Free,
    Pro,
    Enterprise,
}

/// The organization and user every tenant-scoped call acts for.
#[derive(Debug)]
pub struct TenantContext {
    pub org_id: String,
    pub user_id: String,
}

/// A durable unit of memory. `confidence_bits` and `importance_bits` are the
/// IEEE-754 bit patterns of the two `f32` scores.
#[derive(Debug)]
pub struct Fact {
    pub id: u128,
    pub org_id: String,
    pub user_id: String,
    pub memory_type: MemoryType,
    pub content: String,
    pub summary: Option<String>,
    pub source: MemorySource,
    pub confidence_bits: u32,
    pub importance_bits: u32,
    pub valid_at: Option<i128>,
    pub invalid_at: Option<i128>,
    pub recorded_at: i128,
    pub updated_at: i128,
    pub metadata_json: String,
}

/// An append-only record of why a fact changed.
#[derive(Debug)]
pub struct MemoryEvent {
    pub id: u128,
    pub org_id: String,
    pub user_id: String,
    pub fact_id: Option<u128>,
    pub operation: MemoryEventOperation,
    pub input_text: Option<String>,
    pub previous_content: Option<String>,
    pub new_content: Option<String>,
    pub provider_name: Option<String>,
    pub model_name: Option<String>,
    pub metadata_json: String,
    pub created_at: i128,
}

/// A stored API key (only its hash).
#[derive(Debug)]
pub struct ApiKeyRecord {
    pub id: u128,
    pub org_id: String,
    pub name: String,
    pub key_hash: String,
    pub scopes: Vec<ApiKeyScope>,
    pub created_at: i128,
    pub revoked_at: Option<i128>,
}

/// Abstract value of a stored API key: the scopes as a sequence.
pub struct ApiKeyView {
    pub id: u128,
    pub org_id: Seq<char>,
    pub name: Seq<char>,
    pub key_hash: Seq<char>,
    pub scopes: Seq<ApiKeyScope>,
    pub created_at: i128,
    pub revoked_at: Option<i128>,
}

impl ApiKeyView {
    /// A key is active until it is revoked.
    pub open spec fn active(self) -> bool {
        self.revoked_at is None
    }

    pub open spec fn sort_key(self) -> (i128, u128) {
        (self.created_at, self.id)
    }
}

impl View for ApiKeyRecord {
    type V = ApiKeyView;

    open spec fn view(&self) -> ApiKeyView {
        ApiKeyView {
            id: self.id,
            org_id: self.org_id@,
            name: self.name@,
            key_hash: self.key_hash@,
            scopes: self.scopes@,
            created_at: self.created_at,
            revoked_at: self.revoked_at,
        }
    }
}

/// Copy of an optional string.
pub fn copy_opt_string(s: &Option<String>) -> (r: Option<String>)
    ensures
        r == *s,
{
    match s {
        Some(v) => Some(v.clone()),
        None => None,
    }
}

/// Whether `record` belongs to `tenant`.
pub open spec fn same_tenant(org_id: Seq<char>, user_id: Seq<char>, tenant: TenantContext) -> bool {
    org_id == tenant.org_id@ && user_id == tenant.user_id@
}

impl TenantContext {
    pub fn duplicate(&self) -> (r: TenantContext)
        ensures
            r == *self,
    {
        TenantContext { org_id: self.org_id.clone(), user_id: self.user_id.clone() }
    }

    /// Whether a record with these owner ids belongs to this tenant.
    pub fn owns(&self, org_id: &String, user_id: &String) -> (r: bool)
        ensures
            r == same_tenant(org_id@, user_id@, *self),
    {
        *org_id == self.org_id && *user_id == self.user_id
    }
}

impl Fact {
    /// Listing position of a fact: most recently updated first.
    pub open spec fn sort_key(self) -> (i128, u128) {
        (self.updated_at, self.id)
    }

    pub fn duplicate(&self) -> (r: Fact)
        ensures
            r == *self,
    {
        Fact {
            id: self.id,
            org_id: self.org_id.clone(),
            user_id: self.user_id.clone(),
            memory_type: self.memory_type,
            content: self.content.clone(),
            summary: copy_opt_string(&self.summary),
            source: self.source,
            confidence_bits: self.confidence_bits,
            importance_bits: self.importance_bits,
            valid_at: self.valid_at,
            invalid_at: self.invalid_at,
            recorded_at: self.recorded_at,
            updated_at: self.updated_at,
            metadata_json: self.metadata_json.clone(),
        }
    }
}

impl MemoryEvent {
    /// Listing position of an event: newest first.
    pub open spec fn sort_key(self) -> (i128, u128) {
        (self.created_at, self.id)
    }

    pub fn duplicate(&self) -> (r: MemoryEvent)
        ensures
            r == *self,
    {
        MemoryEvent {
            id: self.id,
            org_id: self.org_id.clone(),
            user_id: self.user_id.clone(),
            fact_id: self.fact_id,
            operation: self.operation,
            input_text: copy_opt_string(&self.input_text),
            previous_content: copy_opt_string(&self.previous_content),
            new_content: copy_opt_string(&self.new_content),
            provider_name: copy_opt_string(&self.provider_name),
            model_name: copy_opt_string(&self.model_name),
            metadata_json: self.metadata_json.clone(),
            created_at: self.created_at,
        }
    }
}

impl ApiKeyRecord {
    pub fn is_active(&self) -> (r: bool)
        ensures
            r == self@.active(),
    {
        self.revoked_at.is_none()
    }

    pub fn duplicate(&self) -> (r: ApiKeyRecord)
        ensures
            r@ == self@,
    {
        let mut scopes: Vec<ApiKeyScope> = Vec::new();
        for i in 0..self.scopes.len()
            invariant
                scopes@ == self.scopes@.take(i as int),
        {
            scopes.push(self.scopes[i]);
        }
        assert(scopes@ == self.scopes@);
        ApiKeyRecord {
            id: self.id,
            org_id: self.org_id.clone(),
            name: self.name.clone(),
            key_hash: self.key_hash.clone(),
            scopes,
            created_at: self.created_at,
            revoked_at: self.revoked_at,
        }
    }
}

} // verus!
