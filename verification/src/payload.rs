//! The requests to the token ledger, as the bytes that its contract reads.

use cosmwasm_std::StdError;
use vstd::prelude::*;

verus! {

/// The JSON text of the token ledger's request to move `amount` from this
/// contract's own account to `recipient`; `None` where the serialiser
/// refuses the request.
pub uninterp spec fn transfer_payload(recipient: Seq<char>, amount: u128) -> Option<Seq<u8>>;

/// The JSON text of the token ledger's request to move `amount` from `owner`
/// to `recipient`, out of what `owner` has allowed this contract to move;
/// `None` where the serialiser refuses the request.
pub uninterp spec fn transfer_from_payload(
    owner: Seq<char>,
    recipient: Seq<char>,
    amount: u128,
) -> Option<Seq<u8>>;

/// A payment out of this contract's custody: `amount` to `recipient`.
#[derive(Debug, PartialEq, Eq)]
pub struct Transfer {
    pub recipient: String,
    pub amount: u128,
}

/// What a [`Transfer`] stands for.
pub struct TransferView {
    pub recipient: Seq<char>,
    pub amount: u128,
}

impl DeepView for Transfer {
    type V = TransferView;

    open spec fn deep_view(&self) -> TransferView {
        TransferView { recipient: self.recipient@, amount: self.amount }
    }
}

/// The encoded request for the payment `transfer`.
pub open spec fn payload_of(transfer: TransferView) -> Option<Seq<u8>> {
    transfer_payload(transfer.recipient, transfer.amount)
}

/// The encoded requests for the payments of `plan`, in their order; `None`
/// where the serialiser refuses one of them.
pub open spec fn transfer_payloads(plan: Seq<TransferView>) -> Option<Seq<Seq<u8>>> {
    if forall|i: int| 0 <= i < plan.len() ==> (#[trigger] payload_of(plan[i])) is Some {
        Some(Seq::new(plan.len(), |i: int| payload_of(plan[i])->Some_0))
    } else {
        None
    }
}

/// The byte strings that `requests` holds.
pub open spec fn texts(requests: Vec<Vec<u8>>) -> Seq<Seq<u8>> {
    Seq::new(requests@.len(), |i: int| requests@[i]@)
}

/// What the encoder answered for a whole plan, as the mathematics sees it.
pub open spec fn encoded_all(answer: Result<Vec<Vec<u8>>, StdError>) -> Option<Seq<Seq<u8>>> {
    match answer {
        Ok(requests) => Some(texts(requests)),
        Err(_) => None,
    }
}

/// What the encoder answered, as the mathematics sees it.
pub open spec fn encoded(answer: Result<Vec<u8>, StdError>) -> Option<Seq<u8>> {
    match answer {
        Ok(bytes) => Some(bytes@),
        Err(_) => None,
    }
}

/// Calls `cosmwasm_std::to_json_binary` on `cw20::Cw20ExecuteMsg::Transfer`
/// with the given recipient and amount. Trusted: the serialiser computes its
/// answer from the request alone, so the answer is `transfer_payload` of the
/// two arguments, and an error exactly where that is `None`.
#[verifier::external_body]
pub(crate) fn encode_transfer(recipient: &String, amount: u128) -> (answer: Result<
    Vec<u8>,
    StdError,
>)
    ensures
        encoded(answer) == transfer_payload(recipient@, amount),
{
    let request = cw20::Cw20ExecuteMsg::Transfer {
        recipient: recipient.clone(),
        amount: cosmwasm_std::Uint128::new(amount),
    };
    match cosmwasm_std::to_json_binary(&request) {
        Ok(binary) => Ok(binary.into()),
        Err(e) => Err(e),
    }
}

/// Calls `cosmwasm_std::to_json_binary` on
/// `cw20::Cw20ExecuteMsg::TransferFrom` with the given owner, recipient and
/// amount. Trusted: the serialiser computes its answer from the request
/// alone, so the answer is `transfer_from_payload` of the three arguments,
/// and an error exactly where that is `None`.
#[verifier::external_body]
pub(crate) fn encode_transfer_from(
    owner: &String,
    recipient: &String,
    amount: u128,
) -> (answer: Result<Vec<u8>, StdError>)
    ensures
        encoded(answer) == transfer_from_payload(owner@, recipient@, amount),
{
    let request = cw20::Cw20ExecuteMsg::TransferFrom {
        owner: owner.clone(),
        recipient: recipient.clone(),
        amount: cosmwasm_std::Uint128::new(amount),
    };
    match cosmwasm_std::to_json_binary(&request) {
        Ok(binary) => Ok(binary.into()),
        Err(e) => Err(e),
    }
}

/// Encodes the request for each payment of `plan`, in their order, and
/// gives up at the first that the serialiser refuses.
pub fn encode_transfers(plan: &Vec<Transfer>) -> (answer: Result<Vec<Vec<u8>>, StdError>)
    ensures
        encoded_all(answer) == transfer_payloads(plan.deep_view()),
        answer matches Ok(requests) ==> requests.len() == plan.len(),
{
    let ghost want = plan.deep_view();
    let mut requests: Vec<Vec<u8>> = Vec::new();
    let mut i: usize = 0;
    while i < plan.len()
        invariant
            i <= plan.len(),
            want == plan.deep_view(),
            requests.len() == i,
            forall|j: int| 0 <= j < i ==> #[trigger] payload_of(want[j]) == Some(requests@[j]@),
        decreases plan.len() - i,
    {
        match encode_transfer(&plan[i].recipient, plan[i].amount) {
            Ok(request) => {
                requests.push(request);
            },
            Err(e) => {
                assert(payload_of(want[i as int]) is None);
                return Err(e);
            },
        }
        i = i + 1;
    }
    assert(texts(requests) =~= transfer_payloads(want)->Some_0);
    Ok(requests)
}

} // verus!
