use vstd::prelude::*;

use crate::error::Error;
use crate::holdings::AccountId;

verus! {

#[derive(Clone, Copy, Debug, PartialEq, Eq, Structural)]
pub enum PolicyStatus {
    Active,
    Expired,
    Cancelled,
    Suspended,
}

#[derive(Clone, Copy, Debug, PartialEq, Eq, Structural)]
pub enum ClaimStatus {
    Submitted,
    UnderReview,
    Approved,
    Rejected,
    Paid,
    Disputed,
}

#[derive(Clone, Copy, Debug, PartialEq, Eq, Structural)]
pub enum PolicyType {
    Liability,
    Property,
    Comprehensive,
    Custom,
}

#[derive(Clone, Copy, Debug, PartialEq, Eq, Structural)]
pub enum ClaimType {
    Theft,
    Damage,
    Loss,
    Liability,
    Other,
}

/// An insurance policy on a registered asset.
#[derive(Clone, Copy, Debug)]
pub struct InsurancePolicy {
    pub policy_id: [u8; 32],
    pub holder: AccountId,
    pub insurer: AccountId,
    pub asset_id: [u8; 32],
    pub policy_type: PolicyType,
    pub coverage_amount: i128,
    pub deductible: i128,
    pub premium: i128,
    pub start_date: u64,
    pub end_date: u64,
    pub status: PolicyStatus,
    pub auto_renew: bool,
    pub last_payment: u64,
}

/// A claim filed against a policy.
#[derive(Clone, Copy, Debug)]
pub struct InsuranceClaim {
    pub claim_id: [u8; 32],
    pub policy_id: [u8; 32],
    pub asset_id: [u8; 32],
    pub claimant: AccountId,
    pub claim_type: ClaimType,
    pub amount: i128,
    pub status: ClaimStatus,
    pub filed_at: u64,
    pub approved_amount: i128,
}

pub open spec fn create_policy_error(p: InsurancePolicy, now: u64, exists: bool) -> Option<Error> {
    if p.coverage_amount <= 0 || p.deductible >= p.coverage_amount || p.premium <= 0
        || p.start_date >= p.end_date || p.start_date < now {
        Some(Error::InvalidPayment)
    } else if exists {
        Some(Error::AssetAlreadyExists)
    } else {
        None
    }
}

/// Decides whether `policy` may be created at time `now`: a positive
/// coverage above the deductible, a positive premium, a start before the end
/// and not in the past, and an id not yet taken (`exists`).
pub fn create_policy(policy: &InsurancePolicy, now: u64, exists: bool) -> (r: Result<(), Error>)
    ensures
        r is Err <==> create_policy_error(*policy, now, exists) is Some,
        r is Err ==> Some(r->Err_0) == create_policy_error(*policy, now, exists),
{
    if policy.coverage_amount <= 0 || policy.deductible >= policy.coverage_amount {
        return Err(Error::InvalidPayment);
    }
    if policy.premium <= 0 {
        return Err(Error::InvalidPayment);
    }
    if policy.start_date >= policy.end_date {
        return Err(Error::InvalidPayment);
    }
    if policy.start_date < now {
        return Err(Error::InvalidPayment);
    }
    if exists {
        return Err(Error::AssetAlreadyExists);
    }
    Ok(())
}

pub open spec fn cancel_policy_error(p: InsurancePolicy, caller: AccountId) -> Option<Error> {
    if caller != p.holder && caller != p.insurer {
        Some(Error::Unauthorized)
    } else if p.status != PolicyStatus::Active && p.status != PolicyStatus::Suspended {
        Some(Error::Unauthorized)
    } else {
        None
    }
}

/// Cancels an active or suspended policy, on behalf of its holder or insurer.
pub fn cancel_policy(policy: &mut InsurancePolicy, caller: AccountId) -> (r: Result<(), Error>)
    ensures
        r is Err <==> cancel_policy_error(*old(policy), caller) is Some,
        match r {
            Ok(_) => *final(policy) == (InsurancePolicy {
                status: PolicyStatus::Cancelled,
                ..*old(policy)
            }),
            Err(e) => *final(policy) == *old(policy) && Some(e) == cancel_policy_error(
                *old(policy),
                caller,
            ),
        },
{
    if caller != policy.holder && caller != policy.insurer {
        return Err(Error::Unauthorized);
    }
    if policy.status != PolicyStatus::Active && policy.status != PolicyStatus::Suspended {
        return Err(Error::Unauthorized);
    }
    policy.status = PolicyStatus::Cancelled;
    Ok(())
}

pub open spec fn suspend_policy_error(p: InsurancePolicy, insurer: AccountId) -> Option<Error> {
    if insurer != p.insurer || p.status != PolicyStatus::Active {
        Some(Error::Unauthorized)
    } else {
        None
    }
}

/// Suspends an active policy, on behalf of its insurer.
pub fn suspend_policy(policy: &mut InsurancePolicy, insurer: AccountId) -> (r: Result<(), Error>)
    ensures
        r is Err <==> suspend_policy_error(*old(policy), insurer) is Some,
        match r {
            Ok(_) => *final(policy) == (InsurancePolicy {
                status: PolicyStatus::Suspended,
                ..*old(policy)
            }),
            Err(e) => *final(policy) == *old(policy) && e == Error::Unauthorized,
        },
{
    if insurer != policy.insurer {
        return Err(Error::Unauthorized);
    }
    if policy.status != PolicyStatus::Active {
        return Err(Error::Unauthorized);
    }
    policy.status = PolicyStatus::Suspended;
    Ok(())
}

pub open spec fn expire_policy_error(p: InsurancePolicy, now: u64) -> Option<Error> {
    if p.end_date >= now {
        Some(Error::Unauthorized)
    } else if p.status != PolicyStatus::Active && p.status != PolicyStatus::Suspended {
        Some(Error::Unauthorized)
    } else {
        None
    }
}

/// Expires an active or suspended policy whose end date has passed.
pub fn expire_policy(policy: &mut InsurancePolicy, now: u64) -> (r: Result<(), Error>)
    ensures
        r is Err <==> expire_policy_error(*old(policy), now) is Some,
        match r {
            Ok(_) => *final(policy) == (InsurancePolicy {
                status: PolicyStatus::Expired,
                ..*old(policy)
            }),
            Err(e) => *final(policy) == *old(policy) && e == Error::Unauthorized,
        },
{
    if policy.end_date >= now {
        return Err(Error::Unauthorized);
    }
    if policy.status != PolicyStatus::Active && policy.status != PolicyStatus::Suspended {
        return Err(Error::Unauthorized);
    }
    policy.status = PolicyStatus::Expired;
    Ok(())
}

pub open spec fn renew_policy_error(
    p: InsurancePolicy,
    new_end_date: u64,
    new_premium: i128,
    insurer: AccountId,
    now: u64,
) -> Option<Error> {
    if insurer != p.insurer {
        Some(Error::Unauthorized)
    } else if p.status != PolicyStatus::Active && p.status != PolicyStatus::Expired {
        Some(Error::Unauthorized)
    } else if new_end_date <= now || new_premium <= 0 {
        Some(Error::InvalidPayment)
    } else {
        None
    }
}

/// Renews an active or expired policy to a later end date and a new
/// premium, on behalf of its insurer; the payment is recorded at `now`.
pub fn renew_policy(
    policy: &mut InsurancePolicy,
    new_end_date: u64,
    new_premium: i128,
    insurer: AccountId,
    now: u64,
) -> (r: Result<(), Error>)
    ensures
        r is Err <==> renew_policy_error(*old(policy), new_end_date, new_premium, insurer, now) is Some,
        match r {
            Ok(_) => *final(policy) == (InsurancePolicy {
                end_date: new_end_date,
                premium: new_premium,
                status: PolicyStatus::Active,
                last_payment: now,
                ..*old(policy)
            }),
            Err(e) => *final(policy) == *old(policy) && Some(e) == renew_policy_error(
                *old(policy),
                new_end_date,
                new_premium,
                insurer,
                now,
            ),
        },
{
    if insurer != policy.insurer {
        return Err(Error::Unauthorized);
    }
    if policy.status != PolicyStatus::Active && policy.status != PolicyStatus::Expired {
        return Err(Error::Unauthorized);
    }
    if new_end_date <= now {
        return Err(Error::InvalidPayment);
    }
    if new_premium <= 0 {
        return Err(Error::InvalidPayment);
    }
    policy.end_date = new_end_date;
    policy.premium = new_premium;
    policy.status = PolicyStatus::Active;
    policy.last_payment = now;
    Ok(())
}

pub open spec fn file_claim_error(
    policy: InsurancePolicy,
    claim: InsuranceClaim,
    exists: bool,
) -> Option<Error> {
    if policy.status != PolicyStatus::Active {
        Some(Error::Unauthorized)
    } else if claim.amount <= 0 {
        Some(Error::InvalidPayment)
    } else if exists {
        Some(Error::AssetAlreadyExists)
    } else if claim.status != ClaimStatus::Submitted {
        Some(Error::Unauthorized)
    } else {
        None
    }
}

/// Decides whether `claim` may be filed against `policy`: the policy is
/// active, the amount positive, the claim id not yet taken (`exists`) and
/// the claim freshly submitted.
pub fn file_insurance_claim(policy: &InsurancePolicy, claim: &InsuranceClaim, exists: bool) -> (r:
    Result<(), Error>)
    ensures
        r is Err <==> file_claim_error(*policy, *claim, exists) is Some,
        r is Err ==> Some(r->Err_0) == file_claim_error(*policy, *claim, exists),
{
    if policy.status != PolicyStatus::Active {
        return Err(Error::Unauthorized);
    }
    if claim.amount <= 0 {
        return Err(Error::InvalidPayment);
    }
    if exists {
        return Err(Error::AssetAlreadyExists);
    }
    if claim.status != ClaimStatus::Submitted {
        return Err(Error::Unauthorized);
    }
    Ok(())
}

/// Moves a submitted claim under review, on behalf of the policy's insurer.
pub fn mark_insurance_claim_under_review(
    claim: &mut InsuranceClaim,
    policy: &InsurancePolicy,
    insurer: AccountId,
) -> (r: Result<(), Error>)
    ensures
        r is Err <==> (insurer != policy.insurer || old(claim).status != ClaimStatus::Submitted),
        match r {
            Ok(_) => *final(claim) == (InsuranceClaim {
                status: ClaimStatus::UnderReview,
                ..*old(claim)
            }),
            Err(e) => *final(claim) == *old(claim) && e == Error::Unauthorized,
        },
{
    if insurer != policy.insurer {
        return Err(Error::Unauthorized);
    }
    if claim.status != ClaimStatus::Submitted {
        return Err(Error::Unauthorized);
    }
    claim.status = ClaimStatus::UnderReview;
    Ok(())
}

pub open spec fn approve_claim_error(
    claim: InsuranceClaim,
    policy: InsurancePolicy,
    insurer: AccountId,
    approved_amount: i128,
) -> Option<Error> {
    if insurer != policy.insurer || claim.status != ClaimStatus::UnderReview {
        Some(Error::Unauthorized)
    } else if approved_amount <= 0 || approved_amount > policy.coverage_amount {
        Some(Error::InvalidPayment)
    } else {
        None
    }
}

/// Approves a claim under review for an amount within the coverage, on
/// behalf of the policy's insurer.
pub fn approve_insurance_claim(
    claim: &mut InsuranceClaim,
    policy: &InsurancePolicy,
    insurer: AccountId,
    approved_amount: i128,
) -> (r: Result<(), Error>)
    ensures
        r is Err <==> approve_claim_error(*old(claim), *policy, insurer, approved_amount) is Some,
        match r {
            Ok(_) => *final(claim) == (InsuranceClaim {
                status: ClaimStatus::Approved,
                approved_amount,
                ..*old(claim)
            }),
            Err(e) => *final(claim) == *old(claim) && Some(e) == approve_claim_error(
                *old(claim),
                *policy,
                insurer,
                approved_amount,
            ),
        },
{
    if insurer != policy.insurer {
        return Err(Error::Unauthorized);
    }
    if claim.status != ClaimStatus::UnderReview {
        return Err(Error::Unauthorized);
    }
    if approved_amount <= 0 {
        return Err(Error::InvalidPayment);
    }
    if approved_amount > policy.coverage_amount {
        return Err(Error::InvalidPayment);
    }
    claim.status = ClaimStatus::Approved;
    claim.approved_amount = approved_amount;
    Ok(())
}

/// Rejects a submitted claim or one under review, on behalf of the policy's
/// insurer.
pub fn reject_insurance_claim(
    claim: &mut InsuranceClaim,
    policy: &InsurancePolicy,
    insurer: AccountId,
) -> (r: Result<(), Error>)
    ensures
        r is Err <==> (insurer != policy.insurer || (old(claim).status != ClaimStatus::Submitted
            && old(claim).status != ClaimStatus::UnderReview)),
        match r {
            Ok(_) => *final(claim) == (InsuranceClaim {
                status: ClaimStatus::Rejected,
                ..*old(claim)
            }),
            Err(e) => *final(claim) == *old(claim) && e == Error::Unauthorized,
        },
{
    if insurer != policy.insurer {
        return Err(Error::Unauthorized);
    }
    if claim.status != ClaimStatus::Submitted && claim.status != ClaimStatus::UnderReview {
        return Err(Error::Unauthorized);
    }
    claim.status = ClaimStatus::Rejected;
    Ok(())
}

/// Disputes a rejected claim, on behalf of its claimant.
pub fn dispute_insurance_claim(claim: &mut InsuranceClaim, claimant: AccountId) -> (r: Result<
    (),
    Error,
>)
    ensures
        r is Err <==> (claimant != old(claim).claimant || old(claim).status != ClaimStatus::Rejected),
        match r {
            Ok(_) => *final(claim) == (InsuranceClaim {
                status: ClaimStatus::Disputed,
                ..*old(claim)
            }),
            Err(e) => *final(claim) == *old(claim) && e == Error::Unauthorized,
        },
{
    if claimant != claim.claimant {
        return Err(Error::Unauthorized);
    }
    if claim.status != ClaimStatus::Rejected {
        return Err(Error::Unauthorized);
    }
    claim.status = ClaimStatus::Disputed;
    Ok(())
}

/// Marks an approved claim as paid, on behalf of the policy's insurer.
pub fn pay_insurance_claim(
    claim: &mut InsuranceClaim,
    policy: &InsurancePolicy,
    insurer: AccountId,
) -> (r: Result<(), Error>)
    ensures
        r is Err <==> (insurer != policy.insurer || old(claim).status != ClaimStatus::Approved),
        match r {
            Ok(_) => *final(claim) == (InsuranceClaim { status: ClaimStatus::Paid, ..*old(claim) }),
            Err(e) => *final(claim) == *old(claim) && e == Error::Unauthorized,
        },
{
    if insurer != policy.insurer {
        return Err(Error::Unauthorized);
    }
    if claim.status != ClaimStatus::Approved {
        return Err(Error::Unauthorized);
    }
    claim.status = ClaimStatus::Paid;
    Ok(())
}

} // verus!
