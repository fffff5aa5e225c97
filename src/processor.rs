//! Instruction dispatch and the three campaign operations.
//!
//! Each operation reads and updates an ordered list of accounts. Every check
//! runs before any account is changed, so a failed operation leaves the list
//! exactly as it was.
use crate::codec::{
    decode_record, decode_record_spec, decode_request, decode_request_spec, encode_record,
    encodes_record, record_bytes, CampaignRecord, Pubkey, RecordModel,
};
use crate::guard::{
    require_identity_match, require_minimum_balance, require_owned_by_program, require_signer,
};
use vstd::prelude::*;
use vstd::slice::*;

verus! {

/// Why an operation was refused.
#[derive(Clone, Copy, Debug, PartialEq, Eq, Structural)]
pub enum CampaignError {
    /// Empty instruction, unknown opcode, or a payload naming another administrator.
    InvalidInstruction,
    /// A required signature is missing, or the signer is not the campaign's administrator.
    AuthorizationError,
    /// An account that must belong to this program does not.
    OwnershipError,
    /// A balance is below the rent floor, or a withdrawal would go below it.
    InsufficientFunds,
    /// Stored or supplied bytes are not the layout they must be.
    DataCorruption,
    /// Fewer accounts were supplied than the operation reads.
    NotEnoughAccounts,
    /// A balance or the donated total would pass `u64::MAX`.
    Overflow,
}

/// An account as the host hands it to an operation.
#[derive(Clone, Debug, PartialEq, Eq)]
pub struct Account {
    pub key: Pubkey,
    pub owner: Pubkey,
    pub is_signer: bool,
    pub lamports: u64,
    pub data: Vec<u8>,
}

/// The mathematical content of an account.
pub struct AccountModel {
    pub key: Seq<u8>,
    pub owner: Seq<u8>,
    pub is_signer: bool,
    pub lamports: u64,
    pub data: Seq<u8>,
}

impl View for Account {
    type V = AccountModel;

    open spec fn view(&self) -> AccountModel {
        AccountModel {
            key: self.key@,
            owner: self.owner@,
            is_signer: self.is_signer,
            lamports: self.lamports,
            data: self.data@,
        }
    }
}

/// The operation that an instruction selects by its first byte.
#[derive(Clone, Copy, Debug, PartialEq, Eq, Structural)]
pub enum Instruction {
    CreateCampaign,
    Withdraw,
    Donate,
}

/// The models of a list of accounts, in order.
pub open spec fn models(accts: Seq<Account>) -> Seq<AccountModel> {
    accts.map_values(|a: Account| a@)
}

/// `a` with its data replaced.
pub open spec fn with_data(a: AccountModel, data: Seq<u8>) -> AccountModel {
    AccountModel { data, ..a }
}

/// `a` with its balance replaced.
pub open spec fn with_lamports(a: AccountModel, lamports: u64) -> AccountModel {
    AccountModel { lamports, ..a }
}

/// `n` zero bytes.
pub open spec fn zeros(n: int) -> Seq<u8> {
    Seq::new(n as nat, |i: int| 0u8)
}

/// The record stored by a create: the payload with nothing donated yet.
pub open spec fn fresh_record(m: RecordModel) -> RecordModel {
    RecordModel { amount_donated: 0, ..m }
}

/// The opcode that `data` starts with, if it is one.
pub open spec fn instruction_spec(data: Seq<u8>) -> Option<Instruction> {
    if data.len() == 0 {
        None
    } else if data[0] == 0 {
        Some(Instruction::CreateCampaign)
    } else if data[0] == 1 {
        Some(Instruction::Withdraw)
    } else if data[0] == 2 {
        Some(Instruction::Donate)
    } else {
        None
    }
}

/// The accounts after a create, or the error it fails with.
/// Accounts: writing account, then the creator.
pub open spec fn create_outcome(
    pid: Seq<u8>,
    accts: Seq<AccountModel>,
    payload: Seq<u8>,
    floor: u64,
) -> Result<Seq<AccountModel>, CampaignError> {
    if accts.len() < 2 {
        Err(CampaignError::NotEnoughAccounts)
    } else if !accts[1].is_signer {
        Err(CampaignError::AuthorizationError)
    } else if accts[0].owner != pid {
        Err(CampaignError::OwnershipError)
    } else {
        match decode_record_spec(payload) {
            None => Err(CampaignError::DataCorruption),
            Some(m) => {
                let enc = record_bytes(fresh_record(m));
                let size = accts[0].data.len();
                if m.admin != accts[1].key {
                    Err(CampaignError::InvalidInstruction)
                } else if accts[0].lamports < floor {
                    Err(CampaignError::InsufficientFunds)
                } else if enc.len() > size {
                    Err(CampaignError::DataCorruption)
                } else {
                    Ok(accts.update(0, with_data(accts[0], enc + zeros(size - enc.len()))))
                }
            },
        }
    }
}

/// The accounts after a withdraw, or the error it fails with.
/// Accounts: writing account, then the administrator.
pub open spec fn withdraw_outcome(
    pid: Seq<u8>,
    accts: Seq<AccountModel>,
    payload: Seq<u8>,
    floor: u64,
) -> Result<Seq<AccountModel>, CampaignError> {
    if accts.len() < 2 {
        Err(CampaignError::NotEnoughAccounts)
    } else if !accts[1].is_signer {
        Err(CampaignError::AuthorizationError)
    } else if accts[0].owner != pid {
        Err(CampaignError::OwnershipError)
    } else {
        match decode_record_spec(accts[0].data) {
            None => Err(CampaignError::DataCorruption),
            Some(m) => if m.admin != accts[1].key {
                Err(CampaignError::AuthorizationError)
            } else {
                match decode_request_spec(payload) {
                    None => Err(CampaignError::DataCorruption),
                    Some(amount) => if accts[0].lamports < floor || accts[0].lamports - floor
                        < amount {
                        Err(CampaignError::InsufficientFunds)
                    } else if accts[1].lamports + amount > u64::MAX {
                        Err(CampaignError::Overflow)
                    } else {
                        Ok(
                            accts.update(
                                0,
                                with_lamports(accts[0], (accts[0].lamports - amount) as u64),
                            ).update(
                                1,
                                with_lamports(accts[1], (accts[1].lamports + amount) as u64),
                            ),
                        )
                    },
                }
            },
        }
    }
}

/// The accounts after a donation, or the error it fails with.
/// Accounts: writing account, donor's staging account, then the donor.
pub open spec fn donate_outcome(pid: Seq<u8>, accts: Seq<AccountModel>) -> Result<
    Seq<AccountModel>,
    CampaignError,
> {
    if accts.len() < 3 {
        Err(CampaignError::NotEnoughAccounts)
    } else if !accts[2].is_signer {
        Err(CampaignError::AuthorizationError)
    } else if accts[0].owner != pid {
        Err(CampaignError::OwnershipError)
    } else if accts[1].owner != pid {
        Err(CampaignError::OwnershipError)
    } else {
        match decode_record_spec(accts[0].data) {
            None => Err(CampaignError::DataCorruption),
            Some(m) => {
                let moved = accts[1].lamports;
                if m.amount_donated + moved > u64::MAX || accts[0].lamports + moved > u64::MAX {
                    Err(CampaignError::Overflow)
                } else {
                    let updated = RecordModel {
                        amount_donated: (m.amount_donated + moved) as u64,
                        ..m
                    };
                    let w = AccountModel {
                        lamports: (accts[0].lamports + moved) as u64,
                        data: record_bytes(updated),
                        ..accts[0]
                    };
                    Ok(accts.update(0, w).update(1, with_lamports(accts[1], 0)))
                }
            },
        }
    }
}

/// The accounts after any instruction, or the error it fails with.
pub open spec fn process_outcome(
    pid: Seq<u8>,
    accts: Seq<AccountModel>,
    data: Seq<u8>,
    floor: u64,
) -> Result<Seq<AccountModel>, CampaignError> {
    let payload = data.subrange(1, data.len() as int);
    match instruction_spec(data) {
        None => Err(CampaignError::InvalidInstruction),
        Some(Instruction::CreateCampaign) => create_outcome(pid, accts, payload, floor),
        Some(Instruction::Withdraw) => withdraw_outcome(pid, accts, payload, floor),
        Some(Instruction::Donate) => donate_outcome(pid, accts),
    }
}

/// The account list after an operation whose outcome is `out`: the new
/// accounts on success, the unchanged ones on failure.
pub open spec fn applied(
    out: Result<Seq<AccountModel>, CampaignError>,
    r: Result<(), CampaignError>,
    before: Seq<Account>,
    after: Seq<Account>,
) -> bool {
    match out {
        Ok(s) => r is Ok && models(after) == s,
        Err(e) => r == Err::<(), CampaignError>(e) && after == before,
    }
}

/// Reads the opcode byte.
pub fn parse_instruction(data: &[u8]) -> (r: Option<Instruction>)
    ensures
        r == instruction_spec(data@),
{
    if data.len() == 0 {
        None
    } else if data[0] == 0 {
        Some(Instruction::CreateCampaign)
    } else if data[0] == 1 {
        Some(Instruction::Withdraw)
    } else if data[0] == 2 {
        Some(Instruction::Donate)
    } else {
        None
    }
}

proof fn lemma_decoded_ok(b: Seq<u8>)
    requires
        decode_record_spec(b).is_some(),
    ensures
        encodes_record(b, decode_record_spec(b).unwrap()),
{
}

/// Creates a campaign: stores the payload's record, with nothing donated, in
/// the writing account. `min_balance` is the rent floor for the writing
/// account's data size.
pub fn create_campaign(
    program_id: &Pubkey,
    accounts: &mut Vec<Account>,
    payload: &[u8],
    min_balance: u64,
) -> (r: Result<(), CampaignError>)
    ensures
        applied(
            create_outcome(program_id@, models(old(accounts)@), payload@, min_balance),
            r,
            old(accounts)@,
            final(accounts)@,
        ),
{
    if accounts.len() < 2 {
        return Err(CampaignError::NotEnoughAccounts);
    }
    if let Err(e) = require_signer(&accounts[1]) {
        return Err(e);
    }
    if let Err(e) = require_owned_by_program(&accounts[0], program_id) {
        return Err(e);
    }
    let decoded = decode_record(payload);
    if decoded.is_none() {
        return Err(CampaignError::DataCorruption);
    }
    let mut rec = decoded.unwrap();
    proof {
        lemma_decoded_ok(payload@);
    }
    if !rec.admin.same_as(&accounts[1].key) {
        return Err(CampaignError::InvalidInstruction);
    }
    if let Err(e) = require_minimum_balance(&accounts[0], min_balance) {
        return Err(e);
    }
    rec.amount_donated = 0;
    assert(rec@ == fresh_record(decode_record_spec(payload@).unwrap()));
    let enc = encode_record(&rec);
    let size = accounts[0].data.len();
    if enc.len() > size {
        return Err(CampaignError::DataCorruption);
    }
    let mut out = enc;
    while out.len() < size
        invariant
            enc@.len() <= out@.len() <= size,
            out@ == enc@ + zeros(out@.len() - enc@.len()),
        decreases size - out@.len(),
    {
        out.push(0u8);
        assert(out@ =~= enc@ + zeros(out@.len() - enc@.len()));
    }
    let ghost before = accounts@;
    accounts[0].data = out;
    assert(models(accounts@) =~= models(before).update(
        0,
        with_data(before[0]@, enc@ + zeros(size - enc@.len())),
    ));
    Ok(())
}


/// Withdraws the requested amount from the writing account to its
/// administrator, keeping the writing account at or above `min_balance`.
pub fn withdraw(
    program_id: &Pubkey,
    accounts: &mut Vec<Account>,
    payload: &[u8],
    min_balance: u64,
) -> (r: Result<(), CampaignError>)
    ensures
        applied(
            withdraw_outcome(program_id@, models(old(accounts)@), payload@, min_balance),
            r,
            old(accounts)@,
            final(accounts)@,
        ),
{
    if accounts.len() < 2 {
        return Err(CampaignError::NotEnoughAccounts);
    }
    if let Err(e) = require_signer(&accounts[1]) {
        return Err(e);
    }
    if let Err(e) = require_owned_by_program(&accounts[0], program_id) {
        return Err(e);
    }
    let decoded = decode_record(accounts[0].data.as_slice());
    if decoded.is_none() {
        return Err(CampaignError::DataCorruption);
    }
    let rec = decoded.unwrap();
    if let Err(e) = require_identity_match(&rec.admin, &accounts[1].key) {
        return Err(e);
    }
    let request = decode_request(payload);
    if request.is_none() {
        return Err(CampaignError::DataCorruption);
    }
    let amount = request.unwrap().amount;
    let balance = accounts[0].lamports;
    if balance < min_balance || balance - min_balance < amount {
        return Err(CampaignError::InsufficientFunds);
    }
    let admin_balance = accounts[1].lamports;
    if admin_balance > u64::MAX - amount {
        return Err(CampaignError::Overflow);
    }
    let ghost before = accounts@;
    accounts[0].lamports = balance - amount;
    accounts[1].lamports = admin_balance + amount;
    assert(models(accounts@) =~= models(before).update(
        0,
        with_lamports(before[0]@, (balance - amount) as u64),
    ).update(1, with_lamports(before[1]@, (admin_balance + amount) as u64)));
    Ok(())
}

/// Moves the staging account's whole balance into the writing account and
/// adds it to the record's donated total.
///
/// Open authorization gap: the donor's signature authorizes the call, but
/// nothing ties the donor to the staging account, so any program-owned
/// account holding someone else's stake can be named as the source. Closing
/// it needs the staging account to record its depositor's identity.
pub fn donate(program_id: &Pubkey, accounts: &mut Vec<Account>) -> (r: Result<(), CampaignError>)
    ensures
        applied(donate_outcome(program_id@, models(old(accounts)@)), r, old(accounts)@, final(accounts)@),
{
    if accounts.len() < 3 {
        return Err(CampaignError::NotEnoughAccounts);
    }
    if let Err(e) = require_signer(&accounts[2]) {
        return Err(e);
    }
    if let Err(e) = require_owned_by_program(&accounts[0], program_id) {
        return Err(e);
    }
    if let Err(e) = require_owned_by_program(&accounts[1], program_id) {
        return Err(e);
    }
    let decoded = decode_record(accounts[0].data.as_slice());
    if decoded.is_none() {
        return Err(CampaignError::DataCorruption);
    }
    let mut rec = decoded.unwrap();
    proof {
        lemma_decoded_ok(accounts@[0].data@);
    }
    let moved = accounts[1].lamports;
    let balance = accounts[0].lamports;
    if rec.amount_donated > u64::MAX - moved || balance > u64::MAX - moved {
        return Err(CampaignError::Overflow);
    }
    rec.amount_donated = rec.amount_donated + moved;
    let enc = encode_record(&rec);
    let ghost before = accounts@;
    accounts[0].lamports = balance + moved;
    accounts[0].data = enc;
    accounts[1].lamports = 0;
    proof {
        let m = decode_record_spec(before[0].data@).unwrap();
        assert(rec@ == RecordModel { amount_donated: (m.amount_donated + moved) as u64, ..m });
        assert(models(accounts@) =~= models(before).update(
            0,
            AccountModel {
                lamports: (balance + moved) as u64,
                data: record_bytes(rec@),
                ..before[0]@
            },
        ).update(1, with_lamports(before[1]@, 0)));
    }
    Ok(())
}

/// Runs one instruction: its first byte selects the operation, the rest is
/// that operation's payload. `min_balance` is the rent floor for the first
/// account's data size.
pub fn process_instruction(
    program_id: &Pubkey,
    accounts: &mut Vec<Account>,
    instruction_data: &[u8],
    min_balance: u64,
) -> (r: Result<(), CampaignError>)
    ensures
        applied(
            process_outcome(program_id@, models(old(accounts)@), instruction_data@, min_balance),
            r,
            old(accounts)@,
            final(accounts)@,
        ),
{
    let op = parse_instruction(instruction_data);
    if op.is_none() {
        return Err(CampaignError::InvalidInstruction);
    }
    let payload = slice_subrange(instruction_data, 1, instruction_data.len());
    assert(payload@ == instruction_data@.subrange(1, instruction_data@.len() as int));
    match op.unwrap() {
        Instruction::CreateCampaign => create_campaign(program_id, accounts, payload, min_balance),
        Instruction::Withdraw => withdraw(program_id, accounts, payload, min_balance),
        Instruction::Donate => donate(program_id, accounts),
    }
}

} // verus!
