//! Organization plans kept in memory, one per organization id.

use vstd::prelude::*;
use crate::errors::MemcoreError;
use crate::text::{chars_of, str_eq, trim, trim_chars};
use crate::types::{OrgPlanTier, copy_opt_string};

verus! {

/// Optional caps a plan puts on an organization.
#[derive(Clone, Copy, Debug, PartialEq, Eq, Structural)]
pub struct OrgPlanLimits {
    pub max_users_per_org: Option<u64>,
    pub max_memories_per_user: Option<u64>,
    pub max_memories_per_org: Option<u64>,
    pub daily_provider_request_limit: Option<u64>,
    pub daily_provider_token_limit: Option<u64>,
}

/// An organization's plan.
#[derive(Debug)]
pub struct OrgPlanConfig {
    pub org_id: String,
    pub tier: OrgPlanTier,
    pub limits: OrgPlanLimits,
    pub is_active: bool,
    pub metadata_json: Option<String>,
    pub created_at: i128,
    pub updated_at: i128,
}

impl OrgPlanConfig {
    pub fn duplicate(&self) -> (r: OrgPlanConfig)
        ensures
            r == *self,
    {
        OrgPlanConfig {
            org_id: self.org_id.clone(),
            tier: self.tier,
            limits: self.limits,
            is_active: self.is_active,
            metadata_json: copy_opt_string(&self.metadata_json),
            created_at: self.created_at,
            updated_at: self.updated_at,
        }
    }
}

/// An organization id is usable when it holds more than whitespace.
pub open spec fn org_id_valid(org_id: Seq<char>) -> bool {
    trim(org_id).len() > 0
}

/// Refuses an organization id made only of whitespace.
pub fn validate_org_id(org_id: &str) -> (r: Result<(), MemcoreError>)
    ensures
        if org_id_valid(org_id@) {
            r is Ok
        } else {
            r matches Err(MemcoreError::ValidationError(msg)) && msg@ == "org_id cannot be empty"@
        },
{
    let trimmed = trim_chars(&chars_of(org_id));
    if trimmed.len() == 0 {
        return Err(MemcoreError::ValidationError(String::from_str("org_id cannot be empty")));
    }
    Ok(())
}

/// The plan stored for organization `k` among `s`, when there is one.
pub open spec fn plan_index(s: Seq<OrgPlanConfig>, k: Seq<char>) -> int {
    choose|i: int| 0 <= i < s.len() && s[i].org_id@ == k
}

pub open spec fn has_plan(s: Seq<OrgPlanConfig>, k: Seq<char>) -> bool {
    exists|i: int| 0 <= i < s.len() && (#[trigger] s[i]).org_id@ == k
}

/// Plans kept in memory, at most one per organization id.
pub struct MockOrgPlanStore {
    plans: Vec<OrgPlanConfig>,
}

impl View for MockOrgPlanStore {
    type V = Map<Seq<char>, OrgPlanConfig>;

    closed spec fn view(&self) -> Map<Seq<char>, OrgPlanConfig> {
        Map::new(
            |k: Seq<char>| has_plan(self.plans@, k),
            |k: Seq<char>| self.plans@[plan_index(self.plans@, k)],
        )
    }
}

/// Plan stored as the value for key `k`.
proof fn lemma_plan_at(s: Seq<OrgPlanConfig>, i: int)
    requires
        0 <= i < s.len(),
        forall|a: int, b: int| 0 <= a < b < s.len() ==> (#[trigger] s[a]).org_id@ != (#[trigger] s[b]).org_id@,
    ensures
        has_plan(s, s[i].org_id@),
        plan_index(s, s[i].org_id@) == i,
{
    let k = s[i].org_id@;
    assert(has_plan(s, k));
    let j = plan_index(s, k);
    if j != i {
        if j < i {
            assert(s[j].org_id@ != s[i].org_id@);
        } else {
            assert(s[i].org_id@ != s[j].org_id@);
        }
    }
}

impl MockOrgPlanStore {
    pub closed spec fn wf(&self) -> bool {
        forall|a: int, b: int| 0 <= a < b < self.plans@.len() ==> (#[trigger] self.plans@[a]).org_id@ != (#[trigger] self.plans@[b]).org_id@
    }

    pub fn new() -> (s: MockOrgPlanStore)
        ensures
            s.wf(),
            s@ == Map::<Seq<char>, OrgPlanConfig>::empty(),
    {
        let s = MockOrgPlanStore { plans: Vec::new() };
        assert(s@ =~= Map::<Seq<char>, OrgPlanConfig>::empty());
        s
    }

    fn find(&self, org_id: &str) -> (r: Option<usize>)
        requires
            self.wf(),
        ensures
            match r {
                Some(i) => i < self.plans@.len() && self.plans@[i as int].org_id@ == org_id@ && self@.contains_key(org_id@)
                    && self@[org_id@] == self.plans@[i as int],
                None => !self@.contains_key(org_id@),
            },
    {
        let mut i: usize = 0;
        while i < self.plans.len()
            invariant
                self.wf(),
                i <= self.plans@.len(),
                forall|j: int| 0 <= j < i ==> (#[trigger] self.plans@[j]).org_id@ != org_id@,
            decreases self.plans.len() - i,
        {
            if str_eq(self.plans[i].org_id.as_str(), org_id) {
                proof {
                    lemma_plan_at(self.plans@, i as int);
                }
                return Some(i);
            }
            i = i + 1;
        }
        None
    }

    /// The plan of `org_id`, if any; a blank id is refused.
    pub fn get_org_plan(&self, org_id: &str) -> (r: Result<Option<OrgPlanConfig>, MemcoreError>)
        requires
            self.wf(),
        ensures
            if org_id_valid(org_id@) {
                r matches Ok(found) && match found {
                    Some(p) => self@.contains_key(org_id@) && p == self@[org_id@],
                    None => !self@.contains_key(org_id@),
                }
            } else {
                r matches Err(MemcoreError::ValidationError(msg)) && msg@ == "org_id cannot be empty"@
            },
    {
        validate_org_id(org_id)?;
        match self.find(org_id) {
            Some(i) => Ok(Some(self.plans[i].duplicate())),
            None => Ok(None),
        }
    }

    /// Stores `plan` under its organization id, keeping the creation time of
    /// a plan it replaces, and hands back what was stored.
    pub fn upsert_org_plan(&mut self, plan: OrgPlanConfig) -> (r: Result<OrgPlanConfig, MemcoreError>)
        requires
            old(self).wf(),
        ensures
            final(self).wf(),
            if org_id_valid(plan.org_id@) {
                let stored = OrgPlanConfig {
                    created_at: if old(self)@.contains_key(plan.org_id@) {
                        old(self)@[plan.org_id@].created_at
                    } else {
                        plan.created_at
                    },
                    ..plan
                };
                r == Ok::<OrgPlanConfig, MemcoreError>(stored) && final(self)@ == old(self)@.insert(plan.org_id@, stored)
            } else {
                r matches Err(MemcoreError::ValidationError(msg)) && msg@ == "org_id cannot be empty"@
                    && final(self)@ == old(self)@
            },
    {
        validate_org_id(plan.org_id.as_str())?;
        let mut plan = plan;
        let ghost before = self@;
        match self.find(plan.org_id.as_str()) {
            Some(i) => {
                plan.created_at = self.plans[i].created_at;
                let ghost old_plans = self.plans@;
                self.plans.set(i, plan.duplicate());
                proof {
                    assert forall|k: Seq<char>| #![auto] self@.contains_key(k) == before.insert(plan.org_id@, plan).contains_key(k) by {
                        if has_plan(old_plans, k) {
                            let j = plan_index(old_plans, k);
                            assert(self.plans@[j].org_id@ == k || j == i);
                        }
                        if has_plan(self.plans@, k) {
                            let j = choose|j: int| 0 <= j < self.plans@.len() && (#[trigger] self.plans@[j]).org_id@ == k;
                            if j != i {
                                assert(old_plans[j].org_id@ == k);
                            }
                        }
                    }
                    assert forall|k: Seq<char>| #![auto] self@.contains_key(k) implies self@[k] == before.insert(plan.org_id@, plan)[k] by {
                        let j = choose|j: int| 0 <= j < self.plans@.len() && (#[trigger] self.plans@[j]).org_id@ == k;
                        lemma_plan_at(self.plans@, j);
                        if j != i {
                            assert(old_plans[j] == self.plans@[j]);
                            lemma_plan_at(old_plans, j);
                        }
                    }
                    assert(self@ =~= before.insert(plan.org_id@, plan));
                }
            },
            None => {
                let ghost old_plans = self.plans@;
                self.plans.push(plan.duplicate());
                proof {
                    let n = old_plans.len() as int;
                    assert forall|k: Seq<char>| #![auto] self@.contains_key(k) == before.insert(plan.org_id@, plan).contains_key(k) by {
                        if has_plan(old_plans, k) {
                            let j = plan_index(old_plans, k);
                            assert(self.plans@[j] == old_plans[j]);
                        }
                        if k == plan.org_id@ {
                            assert(self.plans@[n].org_id@ == k);
                        }
                        if has_plan(self.plans@, k) {
                            let j = choose|j: int| 0 <= j < self.plans@.len() && (#[trigger] self.plans@[j]).org_id@ == k;
                            if j != n {
                                assert(old_plans[j].org_id@ == k);
                            }
                        }
                    }
                    assert forall|k: Seq<char>| #![auto] self@.contains_key(k) implies self@[k] == before.insert(plan.org_id@, plan)[k] by {
                        let j = choose|j: int| 0 <= j < self.plans@.len() && (#[trigger] self.plans@[j]).org_id@ == k;
                        lemma_plan_at(self.plans@, j);
                        if j != n {
                            assert(old_plans[j] == self.plans@[j]);
                            lemma_plan_at(old_plans, j);
                        }
                    }
                    assert(self@ =~= before.insert(plan.org_id@, plan));
                }
            },
        }
        Ok(plan)
    }

    /// Removes the plan of `org_id`, telling whether there was one; a blank
    /// id is refused.
    pub fn delete_org_plan(&mut self, org_id: &str) -> (r: Result<bool, MemcoreError>)
        requires
            old(self).wf(),
        ensures
            final(self).wf(),
            if org_id_valid(org_id@) {
                r == Ok::<bool, MemcoreError>(old(self)@.contains_key(org_id@)) && final(self)@ == old(self)@.remove(org_id@)
            } else {
                r matches Err(MemcoreError::ValidationError(msg)) && msg@ == "org_id cannot be empty"@
                    && final(self)@ == old(self)@
            },
    {
        validate_org_id(org_id)?;
        let ghost before = self@;
        match self.find(org_id) {
            Some(i) => {
                let ghost old_plans = self.plans@;
                self.plans.remove(i);
                proof {
                    assert forall|a: int, b: int| 0 <= a < b < self.plans@.len() implies (#[trigger] self.plans@[a]).org_id@ != (#[trigger] self.plans@[b]).org_id@ by {
                        let a0 = if a < i { a } else { a + 1 };
                        let b0 = if b < i { b } else { b + 1 };
                        assert(self.plans@[a] == old_plans[a0]);
                        assert(self.plans@[b] == old_plans[b0]);
                    }
                    assert forall|k: Seq<char>| #![auto] self@.contains_key(k) == before.remove(org_id@).contains_key(k) by {
                        if has_plan(old_plans, k) && k != org_id@ {
                            let j = plan_index(old_plans, k);
                            assert(j != i);
                            let j2 = if j < i { j } else { j - 1 };
                            assert(self.plans@[j2] == old_plans[j]);
                        }
                        if has_plan(self.plans@, k) {
                            let j = choose|j: int| 0 <= j < self.plans@.len() && (#[trigger] self.plans@[j]).org_id@ == k;
                            let j0 = if j < i { j } else { j + 1 };
                            assert(self.plans@[j] == old_plans[j0]);
                            assert(j0 != i);
                            if k == org_id@ {
                                if j0 < i {
                                    assert(old_plans[j0].org_id@ != old_plans[i as int].org_id@);
                                } else {
                                    assert(old_plans[i as int].org_id@ != old_plans[j0].org_id@);
                                }
                            }
                        }
                    }
                    assert forall|k: Seq<char>| #![auto] self@.contains_key(k) implies self@[k] == before.remove(org_id@)[k] by {
                        let j = choose|j: int| 0 <= j < self.plans@.len() && (#[trigger] self.plans@[j]).org_id@ == k;
                        lemma_plan_at(self.plans@, j);
                        let j0 = if j < i { j } else { j + 1 };
                        assert(self.plans@[j] == old_plans[j0]);
                        lemma_plan_at(old_plans, j0);
                    }
                    assert(self@ =~= before.remove(org_id@));
                }
                Ok(true)
            },
            None => {
                assert(before.remove(org_id@) =~= before);
                Ok(false)
            },
        }
    }
}

/// Plans of different organizations do not interfere: storing or deleting
/// one organization's plan leaves every other organization's plan as it was.
pub proof fn law_org_plan_isolation(plans: Map<Seq<char>, OrgPlanConfig>, org: Seq<char>, stored: OrgPlanConfig, other: Seq<char>)
    requires
        org != other,
    ensures
        plans.insert(org, stored).contains_key(other) == plans.contains_key(other),
        plans.contains_key(other) ==> plans.insert(org, stored)[other] == plans[other],
        plans.remove(org).contains_key(other) == plans.contains_key(other),
        plans.contains_key(other) ==> plans.remove(org)[other] == plans[other],
{
}

} // verus!
