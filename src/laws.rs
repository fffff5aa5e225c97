//! Properties of the operations, stated over their account models.
use crate::codec::{
    decode_record_spec, decode_request_spec, lemma_decode_encode, lemma_encode_decode,
    lemma_record_len_keeps, RecordModel,
};
use crate::processor::{
    create_outcome, donate_outcome, fresh_record, process_outcome, withdraw_outcome, zeros,
    AccountModel, CampaignError,
};
use vstd::prelude::*;

verus! {

/// A create by a signing creator whose payload names that creator as
/// administrator, on a program-owned writing account at or above the rent
/// floor and sized to the record, succeeds. The writing account then holds
/// the payload's record with nothing donated, its other fields exactly as
/// given, and no balance changes.
pub proof fn lemma_create_stores_fresh_record(
    pid: Seq<u8>,
    accts: Seq<AccountModel>,
    payload: Seq<u8>,
    floor: u64,
    m: RecordModel,
)
    requires
        accts.len() >= 2,
        accts[1].is_signer,
        accts[0].owner == pid,
        decode_record_spec(payload) == Some(m),
        m.admin == accts[1].key,
        accts[0].lamports >= floor,
        accts[0].data.len() == payload.len(),
    ensures
        create_outcome(pid, accts, payload, floor) is Ok,
        ({
            let after = create_outcome(pid, accts, payload, floor).unwrap();
            &&& after.len() == accts.len()
            &&& decode_record_spec(after[0].data) == Some(fresh_record(m))
            &&& after[0].lamports == accts[0].lamports
            &&& after[1] == accts[1]
        }),
{
    lemma_encode_decode(payload);
    lemma_record_len_keeps(m, 0);
    lemma_decode_encode(fresh_record(m));
    let enc = crate::codec::record_bytes(fresh_record(m));
    assert(enc + zeros(0) =~= enc);
}

/// A create whose creator did not sign fails with an authorization error; one
/// whose payload names another administrator fails as an invalid instruction.
pub proof fn lemma_create_refusals(
    pid: Seq<u8>,
    accts: Seq<AccountModel>,
    payload: Seq<u8>,
    floor: u64,
)
    requires
        accts.len() >= 2,
    ensures
        !accts[1].is_signer ==> create_outcome(pid, accts, payload, floor) == Err::<
            Seq<AccountModel>,
            CampaignError,
        >(CampaignError::AuthorizationError),
        accts[1].is_signer && accts[0].owner == pid && decode_record_spec(payload) is Some
            && decode_record_spec(payload).unwrap().admin != accts[1].key ==> create_outcome(
            pid,
            accts,
            payload,
            floor,
        ) == Err::<Seq<AccountModel>, CampaignError>(CampaignError::InvalidInstruction),
{
}

/// A withdraw by the signing administrator of an amount within the headroom
/// above the rent floor moves exactly that amount from the writing account to
/// the administrator and leaves the stored record bytes as they were.
pub proof fn lemma_withdraw_within_headroom(
    pid: Seq<u8>,
    accts: Seq<AccountModel>,
    payload: Seq<u8>,
    floor: u64,
    amount: u64,
)
    requires
        accts.len() >= 2,
        accts[1].is_signer,
        accts[0].owner == pid,
        decode_record_spec(accts[0].data) is Some,
        decode_record_spec(accts[0].data).unwrap().admin == accts[1].key,
        decode_request_spec(payload) == Some(amount),
        floor <= accts[0].lamports,
        amount <= accts[0].lamports - floor,
        accts[1].lamports + amount <= u64::MAX,
    ensures
        withdraw_outcome(pid, accts, payload, floor) is Ok,
        ({
            let after = withdraw_outcome(pid, accts, payload, floor).unwrap();
            &&& after.len() == accts.len()
            &&& after[0].lamports == accts[0].lamports - amount
            &&& after[1].lamports == accts[1].lamports + amount
            &&& after[0].data == accts[0].data
            &&& after[1].data == accts[1].data
        }),
{
}

/// A withdraw of more than the headroom above the rent floor fails with
/// insufficient funds, whatever else holds of the call.
pub proof fn lemma_withdraw_over_headroom(
    pid: Seq<u8>,
    accts: Seq<AccountModel>,
    payload: Seq<u8>,
    floor: u64,
    amount: u64,
)
    requires
        accts.len() >= 2,
        accts[1].is_signer,
        accts[0].owner == pid,
        decode_record_spec(accts[0].data) is Some,
        decode_record_spec(accts[0].data).unwrap().admin == accts[1].key,
        decode_request_spec(payload) == Some(amount),
        accts[0].lamports < floor || accts[0].lamports - floor < amount,
    ensures
        withdraw_outcome(pid, accts, payload, floor) == Err::<Seq<AccountModel>, CampaignError>(
            CampaignError::InsufficientFunds,
        ),
{
}

/// A donation moves the staging account's whole balance `moved` into the
/// writing account: the record's total grows by `moved`, the writing
/// balance grows by `moved`, and the staging balance becomes zero.
pub proof fn lemma_donate_moves_stake(pid: Seq<u8>, accts: Seq<AccountModel>, m: RecordModel)
    requires
        accts.len() >= 3,
        accts[2].is_signer,
        accts[0].owner == pid,
        accts[1].owner == pid,
        decode_record_spec(accts[0].data) == Some(m),
        m.amount_donated + accts[1].lamports <= u64::MAX,
        accts[0].lamports + accts[1].lamports <= u64::MAX,
    ensures
        donate_outcome(pid, accts) is Ok,
        ({
            let after = donate_outcome(pid, accts).unwrap();
            let moved = accts[1].lamports;
            &&& after.len() == accts.len()
            &&& decode_record_spec(after[0].data) == Some(
                RecordModel { amount_donated: (m.amount_donated + moved) as u64, ..m },
            )
            &&& after[0].lamports == accts[0].lamports + moved
            &&& after[1].lamports == 0
        }),
{
    lemma_encode_decode(accts[0].data);
    let moved = accts[1].lamports;
    lemma_decode_encode(RecordModel { amount_donated: (m.amount_donated + moved) as u64, ..m });
}

/// The accounts after the same instruction has been run `n` times in a row.
pub open spec fn replayed(
    pid: Seq<u8>,
    accts: Seq<AccountModel>,
    data: Seq<u8>,
    floor: u64,
    n: nat,
) -> Seq<AccountModel>
    decreases n,
{
    if n == 0 {
        accts
    } else {
        let prev = replayed(pid, accts, data, floor, (n - 1) as nat);
        match process_outcome(pid, prev, data, floor) {
            Ok(s) => s,
            Err(_) => prev,
        }
    }
}

/// An instruction that fails changes nothing, so running it again any number
/// of times fails with the same error and still changes nothing.
pub proof fn lemma_failed_call_replays(
    pid: Seq<u8>,
    accts: Seq<AccountModel>,
    data: Seq<u8>,
    floor: u64,
    n: nat,
)
    requires
        process_outcome(pid, accts, data, floor) is Err,
    ensures
        replayed(pid, accts, data, floor, n) == accts,
        process_outcome(pid, replayed(pid, accts, data, floor, n), data, floor) == process_outcome(
            pid,
            accts,
            data,
            floor,
        ),
    decreases n,
{
    if n > 0 {
        lemma_failed_call_replays(pid, accts, data, floor, (n - 1) as nat);
    }
}

} // verus!
