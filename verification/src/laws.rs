use vstd::prelude::*;

use crate::contract::{mint_key, mint_nft_spec};
use crate::error::ContractError;
use crate::msg::{CoinView, OutMsgView};
use crate::state::{MintParamsView, StateView};

verus! {

/// One mint request, at the level of mathematical values: who asks, from
/// which coordinator address, with which payment, for which collection.
#[verifier::ext_equal]
pub ghost struct MintRequest {
    pub contract_address: Seq<char>,
    pub sender: Seq<char>,
    pub funds: Seq<CoinView>,
    pub params: MintParamsView,
}

/// Runs one mint request against a state.
pub open spec fn mint_step(s: StateView, req: MintRequest) -> (
    StateView,
    Result<Seq<OutMsgView>, ContractError>,
) {
    mint_nft_spec(s, req.contract_address, req.sender, req.funds, req.params)
}

/// The state after running a sequence of mint requests in order, each
/// against the state the previous one left.
pub open spec fn state_after_mints(s: StateView, reqs: Seq<MintRequest>) -> StateView
    decreases reqs.len(),
{
    if reqs.len() == 0 {
        s
    } else {
        mint_step(state_after_mints(s, reqs.drop_last()), reqs.last()).0
    }
}

/// Every mint in the sequence succeeds when run in its turn.
pub open spec fn all_mints_succeed(s: StateView, reqs: Seq<MintRequest>) -> bool
    decreases reqs.len(),
{
    if reqs.len() == 0 {
        true
    } else {
        all_mints_succeed(s, reqs.drop_last()) && mint_step(
            state_after_mints(s, reqs.drop_last()),
            reqs.last(),
        ).1 is Ok
    }
}

/// The item identifier that the mint at position `i` issues: one past the
/// token-sequence value of the state it runs against.
pub open spec fn issued_token_id(s: StateView, reqs: Seq<MintRequest>, i: int) -> nat {
    state_after_mints(s, reqs.take(i)).token_index + 1
}

/// Law: `N` sequential successful mints starting from token-sequence value
/// `k` issue exactly the identifiers `k+1, ..., k+N`, in order, and leave
/// the counter at `k+N`. The identifiers are strictly increasing, so none
/// is ever issued twice — whatever collections the mints target.
pub proof fn lemma_token_sequence(s: StateView, reqs: Seq<MintRequest>)
    requires
        all_mints_succeed(s, reqs),
    ensures
        state_after_mints(s, reqs).token_index == s.token_index + reqs.len(),
        forall|i: int|
            0 <= i < reqs.len() ==> #[trigger] issued_token_id(s, reqs, i) == s.token_index + i
                + 1,
        forall|i: int, j: int|
            0 <= i < j < reqs.len() ==> issued_token_id(s, reqs, i) < issued_token_id(s, reqs, j),
    decreases reqs.len(),
{
    if reqs.len() == 0 {
    } else {
        let prefix = reqs.drop_last();
        lemma_token_sequence(s, prefix);
        assert(reqs.take(reqs.len() - 1) =~= prefix);
        assert(state_after_mints(s, reqs.take(reqs.len() - 1)).token_index == s.token_index
            + reqs.len() - 1);
        let s_last = state_after_mints(s, prefix);
        assert(mint_step(s_last, reqs.last()).1 is Ok);
        assert(mint_step(s_last, reqs.last()).0.token_index == s_last.token_index + 1);
        assert forall|i: int| 0 <= i < reqs.len() implies #[trigger] issued_token_id(s, reqs, i)
            == s.token_index + i + 1 by {
            if i < reqs.len() - 1 {
                assert(reqs.take(i) =~= prefix.take(i));
                assert(issued_token_id(s, prefix, i) == s.token_index + i + 1);
            }
        }
    }
}

/// Law: the mint instruction emitted by the mint at position `i` of a run
/// of successful mints carries exactly the identifier that mint issues.
pub proof fn lemma_issued_id_is_emitted(s: StateView, reqs: Seq<MintRequest>, i: int)
    requires
        all_mints_succeed(s, reqs),
        0 <= i < reqs.len(),
    ensures
        ({
            let out = mint_step(state_after_mints(s, reqs.take(i)), reqs[i]).1;
            &&& out matches Ok(msgs)
            &&& msgs.len() == 3
            &&& msgs[0] matches OutMsgView::MintToken { token_id, .. }
            &&& token_id == issued_token_id(s, reqs, i)
        }),
    decreases reqs.len(),
{
    if i == reqs.len() - 1 {
        assert(reqs.take(i) =~= reqs.drop_last());
        assert(reqs[i] == reqs.last());
    } else {
        let prefix = reqs.drop_last();
        assert(all_mints_succeed(s, prefix));
        assert(reqs.take(i) =~= prefix.take(i));
        assert(reqs[i] == prefix[i]);
        lemma_issued_id_is_emitted(s, prefix, i);
        assert(issued_token_id(s, prefix, i) == issued_token_id(s, reqs, i));
    }
}

/// Law: a mint whose attached payment contains any coin whose amount
/// differs from the collection's mint fee always fails with
/// `IncorrectFunds` — whatever currency that coin is in — and leaves the
/// state unchanged.
pub proof fn lemma_mint_rejects_wrong_amount(
    s: StateView,
    contract_address: Seq<char>,
    sender: Seq<char>,
    funds: Seq<CoinView>,
    params: MintParamsView,
    i: int,
)
    requires
        s.collections.contains_key(mint_key(params)),
        s.collections[mint_key(params)].collection_address is Some,
        0 <= i < funds.len(),
        funds[i].amount != s.collections[mint_key(params)].mint_fee,
    ensures
        mint_nft_spec(s, contract_address, sender, funds, params).1 == Err::<
            Seq<OutMsgView>,
            ContractError,
        >(ContractError::IncorrectFunds {}),
        mint_nft_spec(s, contract_address, sender, funds, params).0 == s,
{
    assert(funds[i].amount != s.collections[mint_key(params)].mint_fee);
}

} // verus!
