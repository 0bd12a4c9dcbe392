use vstd::prelude::*;

use crate::error::Error;
use crate::holdings::AccountId;

verus! {

#[derive(Clone, Copy, Debug, PartialEq, Eq, Structural)]
pub enum LeaseStatus {
    Active,
    Returned,
    Cancelled,
    Expired,
}

/// A lease of a registered asset from a lessor to a lessee.
#[derive(Clone, Copy, Debug)]
pub struct Lease {
    pub lease_id: [u8; 32],
    pub asset_id: [u8; 32],
    pub lessor: AccountId,
    pub lessee: AccountId,
    pub start_timestamp: u64,
    pub end_timestamp: u64,
    pub rent_per_period: i128,
    pub deposit: i128,
    pub status: LeaseStatus,
}

pub open spec fn create_lease_error(
    start: u64,
    end: u64,
    exists: bool,
    current: Option<LeaseStatus>,
) -> Option<Error> {
    if end <= start {
        Some(Error::InvalidTimestamps)
    } else if exists {
        Some(Error::LeaseAlreadyExists)
    } else if current == Some(LeaseStatus::Active) {
        Some(Error::AssetAlreadyLeased)
    } else {
        None
    }
}

/// Creates an active lease. `exists` tells whether the lease id is taken;
/// `current` is the status of the lease last recorded for the asset, if any:
/// an asset is leased to one lessee at a time.
pub fn create_lease(
    asset_id: [u8; 32],
    lease_id: [u8; 32],
    lessor: AccountId,
    lessee: AccountId,
    start: u64,
    end: u64,
    rent: i128,
    deposit: i128,
    exists: bool,
    current: Option<LeaseStatus>,
) -> (r: Result<Lease, Error>)
    ensures
        r is Err <==> create_lease_error(start, end, exists, current) is Some,
        match r {
            Ok(l) => l == (Lease {
                lease_id,
                asset_id,
                lessor,
                lessee,
                start_timestamp: start,
                end_timestamp: end,
                rent_per_period: rent,
                deposit,
                status: LeaseStatus::Active,
            }),
            Err(e) => Some(e) == create_lease_error(start, end, exists, current),
        },
{
    if end <= start {
        return Err(Error::InvalidTimestamps);
    }
    if exists {
        return Err(Error::LeaseAlreadyExists);
    }
    if let Some(status) = current {
        if status == LeaseStatus::Active {
            return Err(Error::AssetAlreadyLeased);
        }
    }
    Ok(
        Lease {
            lease_id,
            asset_id,
            lessor,
            lessee,
            start_timestamp: start,
            end_timestamp: end,
            rent_per_period: rent,
            deposit,
            status: LeaseStatus::Active,
        },
    )
}

pub open spec fn return_lease_error(l: Lease, caller: AccountId) -> Option<Error> {
    if caller != l.lessor && caller != l.lessee {
        Some(Error::Unauthorized)
    } else if l.status != LeaseStatus::Active {
        Some(Error::InvalidLeaseStatus)
    } else {
        None
    }
}

/// Ends an active lease by returning the asset, on behalf of the lessor or
/// the lessee.
pub fn return_leased_asset(lease: &mut Lease, caller: AccountId) -> (r: Result<(), Error>)
    ensures
        r is Err <==> return_lease_error(*old(lease), caller) is Some,
        match r {
            Ok(_) => *final(lease) == (Lease { status: LeaseStatus::Returned, ..*old(lease) }),
            Err(e) => *final(lease) == *old(lease) && Some(e) == return_lease_error(
                *old(lease),
                caller,
            ),
        },
{
    if caller != lease.lessor && caller != lease.lessee {
        return Err(Error::Unauthorized);
    }
    if lease.status != LeaseStatus::Active {
        return Err(Error::InvalidLeaseStatus);
    }
    lease.status = LeaseStatus::Returned;
    Ok(())
}

pub open spec fn cancel_lease_error(l: Lease, caller: AccountId, now: u64) -> Option<Error> {
    if caller != l.lessor {
        Some(Error::Unauthorized)
    } else if l.status != LeaseStatus::Active {
        Some(Error::InvalidLeaseStatus)
    } else if now >= l.start_timestamp {
        Some(Error::LeaseAlreadyStarted)
    } else {
        None
    }
}

/// Cancels an active lease before it starts, on behalf of the lessor.
pub fn cancel_lease(lease: &mut Lease, caller: AccountId, now: u64) -> (r: Result<(), Error>)
    ensures
        r is Err <==> cancel_lease_error(*old(lease), caller, now) is Some,
        match r {
            Ok(_) => *final(lease) == (Lease { status: LeaseStatus::Cancelled, ..*old(lease) }),
            Err(e) => *final(lease) == *old(lease) && Some(e) == cancel_lease_error(
                *old(lease),
                caller,
                now,
            ),
        },
{
    if caller != lease.lessor {
        return Err(Error::Unauthorized);
    }
    if lease.status != LeaseStatus::Active {
        return Err(Error::InvalidLeaseStatus);
    }
    if now >= lease.start_timestamp {
        return Err(Error::LeaseAlreadyStarted);
    }
    lease.status = LeaseStatus::Cancelled;
    Ok(())
}

pub open spec fn expire_lease_error(l: Lease, now: u64) -> Option<Error> {
    if l.status != LeaseStatus::Active {
        Some(Error::InvalidLeaseStatus)
    } else if now <= l.end_timestamp {
        Some(Error::LeaseNotExpired)
    } else {
        None
    }
}

/// Expires an active lease once its end has passed; anyone may do so.
pub fn expire_lease(lease: &mut Lease, now: u64) -> (r: Result<(), Error>)
    ensures
        r is Err <==> expire_lease_error(*old(lease), now) is Some,
        match r {
            Ok(_) => *final(lease) == (Lease { status: LeaseStatus::Expired, ..*old(lease) }),
            Err(e) => *final(lease) == *old(lease) && Some(e) == expire_lease_error(*old(lease), now),
        },
{
    if lease.status != LeaseStatus::Active {
        return Err(Error::InvalidLeaseStatus);
    }
    if now <= lease.end_timestamp {
        return Err(Error::LeaseNotExpired);
    }
    lease.status = LeaseStatus::Expired;
    Ok(())
}

} // verus!
