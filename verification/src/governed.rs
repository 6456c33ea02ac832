//! Governed decisions: who asks, for whom, and for what purpose.
use crate::text::blank;
use crate::tools::GovernedDecisionParams;
use crate::trust::{bare_fact_id, bare_id};
use vstd::prelude::*;

verus! {

/// `semantic_memory::CallerPrincipalV1::new`: refuses a blank name.
#[verifier::external_body]
fn check_caller(name: &str) -> (r: Result<(), String>)
    ensures
        (match r {
            Ok(_) => !blank(name@),
            Err(message) => blank(name@) && message@ == "caller principal must be non-empty"@,
        }),
{
    semantic_memory::CallerPrincipalV1::new(name).map(|_| ())
}

/// `semantic_memory::SubjectPrincipalV1::new`: refuses a blank name.
#[verifier::external_body]
fn check_subject(name: &str) -> (r: Result<(), String>)
    ensures
        (match r {
            Ok(_) => !blank(name@),
            Err(message) => blank(name@) && message@ == "subject principal must be non-empty"@,
        }),
{
    semantic_memory::SubjectPrincipalV1::new(name).map(|_| ())
}

/// Why a request for a decision is refused, if it is: every principal has a
/// name, those of a lease included.
pub open spec fn governed_fault(params: GovernedDecisionParams) -> Option<Seq<char>> {
    if blank(params.caller@) {
        Some("caller principal must be non-empty"@)
    } else if blank(params.subject@) {
        Some("subject principal must be non-empty"@)
    } else {
        match params.delegation_or_elevation {
            Some(lease) => if blank(lease.delegator@) {
                Some("subject principal must be non-empty"@)
            } else if blank(lease.delegatee@) {
                Some("caller principal must be non-empty"@)
            } else {
                None
            },
            None => None,
        }
    }
}

/// The fact that a request for a decision is about, or why the request is
/// refused.
pub fn check_governed(params: &GovernedDecisionParams) -> (r: Result<String, String>)
    ensures
        (match r {
            Ok(fact) => governed_fault(*params) is None && fact@ == bare_id(params.fact_id@),
            Err(message) => governed_fault(*params) == Some(message@),
        }),
{
    if let Err(message) = check_caller(&params.caller) {
        return Err(message);
    }
    if let Err(message) = check_subject(&params.subject) {
        return Err(message);
    }
    if let Some(lease) = &params.delegation_or_elevation {
        if let Err(message) = check_subject(&lease.delegator) {
            return Err(message);
        }
        if let Err(message) = check_caller(&lease.delegatee) {
            return Err(message);
        }
    }
    Ok(bare_fact_id(&params.fact_id))
}

/// A decision is taken just where every principal has a name: the caller, the
/// subject, and both sides of a lease where there is one.
pub proof fn law_decisions_need_named_principals(params: GovernedDecisionParams)
    ensures
        governed_fault(params) is None <==> !blank(params.caller@) && !blank(params.subject@) && (
        params.delegation_or_elevation matches Some(lease) ==> !blank(lease.delegator@) && !blank(
            lease.delegatee@,
        )),
{
}

}
