//! Checks shared by the operations. Each one passes or names the error the
//! operation fails with.
use crate::codec::Pubkey;
use crate::processor::{Account, CampaignError};
use vstd::prelude::*;

verus! {

/// The account's holder signed the call.
pub fn require_signer(account: &Account) -> (r: Result<(), CampaignError>)
    ensures
        r == if account.is_signer {
            Ok::<(), CampaignError>(())
        } else {
            Err(CampaignError::AuthorizationError)
        },
{
    if account.is_signer {
        Ok(())
    } else {
        Err(CampaignError::AuthorizationError)
    }
}

/// The account belongs to the program `program_id`.
pub fn require_owned_by_program(account: &Account, program_id: &Pubkey) -> (r: Result<
    (),
    CampaignError,
>)
    ensures
        r == if account.owner@ == program_id@ {
            Ok::<(), CampaignError>(())
        } else {
            Err(CampaignError::OwnershipError)
        },
{
    if account.owner.same_as(program_id) {
        Ok(())
    } else {
        Err(CampaignError::OwnershipError)
    }
}

/// The account holds at least `min_balance`, the rent floor for its data size.
pub fn require_minimum_balance(account: &Account, min_balance: u64) -> (r: Result<
    (),
    CampaignError,
>)
    ensures
        r == if account.lamports >= min_balance {
            Ok::<(), CampaignError>(())
        } else {
            Err(CampaignError::InsufficientFunds)
        },
{
    if account.lamports >= min_balance {
        Ok(())
    } else {
        Err(CampaignError::InsufficientFunds)
    }
}

/// The caller is the campaign's administrator.
pub fn require_identity_match(record_admin: &Pubkey, caller: &Pubkey) -> (r: Result<
    (),
    CampaignError,
>)
    ensures
        r == if record_admin@ == caller@ {
            Ok::<(), CampaignError>(())
        } else {
            Err(CampaignError::AuthorizationError)
        },
{
    if record_admin.same_as(caller) {
        Ok(())
    } else {
        Err(CampaignError::AuthorizationError)
    }
}

} // verus!
