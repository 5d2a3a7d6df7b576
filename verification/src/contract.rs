use vstd::prelude::*;

use crate::error::ContractError;
use crate::msg::{
    CoinView, CollectionInfoResponse, ConfigResponse, Env, ExecuteMsg, InstantiateMsg, MessageInfo,
    OutMsg, OutMsgView, QueryAnswer, QueryMsg, Reply, ReplyOutcome, ReplyOutcomeView, Response,
};
use crate::state::{
    default_collection_info, increment_reply_id, increment_token_index, CollectionInfo,
    CollectionInfoView, CollectionParams, CollectionParamsView, Config, ConfigView, MintParams,
    MintParamsView, PendingInstantiation, PendingInstantiationView, State, StateView,
    UpdateMintFeeParams, WithdrawParams,
};
use crate::store::{CollectionStore, PendingStore};

verus! {

/// The native currency every payment in this design is denominated in.
pub open spec fn spec_fee_denom() -> Seq<char> {
    "uxion"@
}

/// The executable value of [`spec_fee_denom`].
fn fee_denom() -> (s: String)
    ensures
        s@ == spec_fee_denom(),
{
    "uxion".to_string()
}

/// The instructions a successful operation emitted, or its error.
pub open spec fn result_view(r: Result<Response, ContractError>) -> Result<
    Seq<OutMsgView>,
    ContractError,
> {
    match r {
        Ok(resp) => Ok(resp@),
        Err(e) => Err(e),
    }
}

/// The protocol treasury's cut of a mint fee, rounded down.
pub open spec fn treasury_share(fee: nat, percent: nat) -> nat {
    fee * percent / 100
}

/// The collection creator's cut of a mint fee: whatever the treasury's
/// rounded-down cut leaves over, so the two shares always add up to the fee.
pub open spec fn creator_share(fee: nat, percent: nat) -> nat {
    (fee - treasury_share(fee, percent)) as nat
}

/// The treasury's and the creator's shares of any fee partition it exactly:
/// `treasury_share + creator_share == fee`, with no rounding residue lost.
pub proof fn lemma_fee_split_total(fee: nat, percent: nat)
    requires
        percent <= 100,
    ensures
        treasury_share(fee, percent) <= fee,
        treasury_share(fee, percent) + creator_share(fee, percent) == fee,
{
    assert(fee * percent <= fee * 100) by {
        vstd::arithmetic::mul::lemma_mul_inequality(percent as int, 100, fee as int);
        vstd::arithmetic::mul::lemma_mul_is_commutative(fee as int, percent as int);
        vstd::arithmetic::mul::lemma_mul_is_commutative(fee as int, 100);
    }
    assert(fee * percent / 100 <= fee * 100 / 100) by {
        vstd::arithmetic::div_mod::lemma_div_is_ordered(
            fee * percent as int,
            fee * 100 as int,
            100,
        );
    }
    assert(fee * 100 / 100 == fee) by {
        vstd::arithmetic::div_mod::lemma_div_multiples_vanish(fee as int, 100);
        vstd::arithmetic::mul::lemma_mul_is_commutative(fee as int, 100);
    }
}

/// The fee split as the mint path computes it, without overflowing `u128`:
/// splitting `fee` into hundreds and a remainder gives exactly the
/// mathematical `floor(fee * percent / 100)`, and both intermediate products
/// and the final sum stay at or under `fee`.
proof fn lemma_fee_split_exec(fee: u128, percent: u128)
    requires
        percent <= 100,
    ensures
        (fee as int / 100) * percent <= fee - (fee as int % 100),
        ((fee as int % 100) * percent) / 100 <= fee as int % 100,
        (fee as int / 100) * percent + ((fee as int % 100) * percent) / 100 == treasury_share(
            fee as nat,
            percent as nat,
        ),
        treasury_share(fee as nat, percent as nat) <= fee,
{
    let q = fee as int / 100;
    let r = fee as int % 100;
    let p = percent as int;
    assert(fee == 100 * q + r) by {
        vstd::arithmetic::div_mod::lemma_fundamental_div_mod(fee as int, 100);
    }
    assert(q * p <= q * 100) by {
        vstd::arithmetic::mul::lemma_mul_inequality(p, 100, q);
        vstd::arithmetic::mul::lemma_mul_is_commutative(q, p);
        vstd::arithmetic::mul::lemma_mul_is_commutative(q, 100);
    }
    assert(q * 100 == fee - r) by {
        vstd::arithmetic::mul::lemma_mul_is_commutative(q, 100);
    }
    assert(r * p <= r * 100) by {
        vstd::arithmetic::mul::lemma_mul_inequality(p, 100, r);
        vstd::arithmetic::mul::lemma_mul_is_commutative(r, p);
        vstd::arithmetic::mul::lemma_mul_is_commutative(r, 100);
    }
    assert((r * p) / 100 <= (r * 100) / 100) by {
        vstd::arithmetic::div_mod::lemma_div_is_ordered(r * p, r * 100, 100);
    }
    assert((r * 100) / 100 == r) by {
        vstd::arithmetic::div_mod::lemma_div_multiples_vanish(r, 100);
        vstd::arithmetic::mul::lemma_mul_is_commutative(r, 100);
    }
    assert((r * p) / 100 + q * p == (r * p + (q * p) * 100) / 100) by {
        vstd::arithmetic::div_mod::lemma_hoist_over_denominator(r * p, q * p, 100nat);
    }
    assert(r * p + (q * p) * 100 == (fee as int) * p) by (nonlinear_arith)
        requires
            fee == 100 * q + r,
    ;
    assert(treasury_share(fee as nat, percent as nat) == ((fee as int) * p) / 100);
}

/// How the whole state looks right after initialization: the supplied owner
/// (or the sender, when none is supplied) with the fixed two-percent
/// protocol cut, an empty catalog, no pending requests, both counters zero.
pub open spec fn instantiate_spec(sender: Seq<char>, owner: Option<Seq<char>>) -> StateView {
    StateView {
        config: ConfigView {
            owner: match owner {
                Some(o) => o,
                None => sender,
            },
            mint_percent: 2,
        },
        collections: Map::empty(),
        pending: Map::empty(),
        token_index: 0,
        reply_id: 0,
    }
}

/// Initializes the coordinator's durable state.
///
/// The owner is the identity named in the message, or the sender when the
/// message names none; the protocol fee percentage starts at two percent.
pub fn instantiate(info: MessageInfo, msg: InstantiateMsg) -> (s: State)
    ensures
        s.wf(),
        s@ == instantiate_spec(info@.sender, msg@.owner),
{
    let owner: String = match msg.owner {
        Some(o) => o,
        None => info.sender,
    };
    let s = State {
        config: Config { owner, mint_percent: 2 },
        collections: CollectionStore::new(),
        pending: PendingStore::new(),
        token_index: 0,
        reply_id: 0,
    };
    proof {
        assert(s@ =~= instantiate_spec(info@.sender, msg@.owner));
    }
    s
}

/// What registering a collection does to the state, and what it emits:
/// reject empty names or symbols; otherwise mint the next correlation
/// token, file the pending request and the provisional record (registry
/// address still unknown), and issue one create-request tagged with the
/// token.
pub open spec fn create_collection_spec(
    s: StateView,
    contract_address: Seq<char>,
    sender: Seq<char>,
    funds: Seq<CoinView>,
    params: CollectionParamsView,
) -> (StateView, Result<Seq<OutMsgView>, ContractError>) {
    if params.name.len() == 0 || params.symbol.len() == 0 {
        (s, Err(ContractError::InvalidInput {}))
    } else {
        let id = s.reply_id + 1;
        let pending = PendingInstantiationView { creator: sender, collection_name: params.name };
        let record = CollectionInfoView {
            name: params.name,
            symbol: params.symbol,
            mint_fee: params.mint_fee,
            collection_address: None,
        };
        let request = OutMsgView::InstantiateCollection {
            code_id: params.code_id,
            name: params.name,
            symbol: params.symbol,
            minter: contract_address,
            funds: funds,
            reply_id: id,
        };
        (
            StateView {
                config: s.config,
                collections: s.collections.insert((sender, params.name), record),
                pending: s.pending.insert(id, pending),
                token_index: s.token_index,
                reply_id: id,
            },
            Ok(seq![request]),
        )
    }
}

/// Registers a new collection and asks the registry service to create its
/// child registry.
///
/// On success exactly one pending request and one provisional record (with
/// no registry address yet) are added, under a correlation token that was
/// not outstanding before, and exactly one create-request is emitted,
/// tagged with that token. The call never waits for the registry service:
/// the completion arrives later through [`reply`]. On failure nothing
/// changes.
pub fn execute_create_collection(
    state: &mut State,
    env: Env,
    info: MessageInfo,
    params: CollectionParams,
) -> (r: Result<Response, ContractError>)
    requires
        old(state).wf(),
        old(state).reply_id < u64::MAX,
    ensures
        final(state).wf(),
        final(state)@ == create_collection_spec(
            old(state)@,
            env.contract_address@,
            info@.sender,
            info@.funds,
            params@,
        ).0,
        result_view(r) == create_collection_spec(
            old(state)@,
            env.contract_address@,
            info@.sender,
            info@.funds,
            params@,
        ).1,
        (params.name@.len() == 0 || params.symbol@.len() == 0) <==> r matches Err(
            ContractError::InvalidInput {},
        ),
        r is Err ==> final(state)@ == old(state)@,
        r is Ok ==> !old(state)@.pending.contains_key(old(state)@.reply_id + 1)
            && final(state)@.pending == old(state)@.pending.insert(
            old(state)@.reply_id + 1,
            PendingInstantiationView { creator: info@.sender, collection_name: params.name@ },
        ) && final(state)@.collections == old(state)@.collections.insert(
            (info@.sender, params.name@),
            CollectionInfoView {
                name: params.name@,
                symbol: params.symbol@,
                mint_fee: params.mint_fee as nat,
                collection_address: None,
            },
        ),
{
    if params.name.as_str().is_empty() || params.symbol.as_str().is_empty() {
        return Err(ContractError::InvalidInput {});
    }
    let reply_id = increment_reply_id(state);
    let pending = PendingInstantiation {
        creator: info.sender.clone(),
        collection_name: params.name.clone(),
    };
    state.pending.save(reply_id, pending);
    let collection_info = CollectionInfo {
        name: params.name.clone(),
        symbol: params.symbol.clone(),
        mint_fee: params.mint_fee,
        collection_address: None,
    };
    state.collections.save(info.sender.clone(), params.name.clone(), collection_info);
    let request = OutMsg::InstantiateCollection {
        code_id: params.code_id,
        name: params.name,
        symbol: params.symbol,
        minter: env.contract_address,
        funds: info.funds,
        reply_id,
    };
    let mut messages: Vec<OutMsg> = Vec::new();
    messages.push(request);
    let resp = Response { messages };
    proof {
        let spec_out = create_collection_spec(
            old(state)@,
            env.contract_address@,
            info@.sender,
            info@.funds,
            params@,
        );
        assert forall|id: nat| #[trigger] state@.pending.contains_key(id) implies id
            <= state@.reply_id by {
            if id != old(state)@.reply_id + 1 {
                assert(old(state)@.pending.contains_key(id));
            }
        }
        assert forall|id: nat| #[trigger] state@.pending.contains_key(id)
            implies state@.collections.contains_key(
            (state@.pending[id].creator, state@.pending[id].collection_name),
        ) by {
            if id != old(state)@.reply_id + 1 {
                assert(old(state)@.pending.contains_key(id));
                assert(old(state)@.collections.contains_key(
                    (old(state)@.pending[id].creator, old(state)@.pending[id].collection_name),
                ));
            }
        }
        assert(state@ =~= spec_out.0);
        assert(resp@ =~= spec_out.1->Ok_0);
    }
    Ok(resp)
}

/// Every attached coin is in the required currency and carries exactly the
/// required fee. Any mismatch in either the currency or the amount of any
/// coin makes the whole payment invalid.
pub open spec fn funds_match_fee(funds: Seq<CoinView>, fee: nat) -> bool {
    forall|i: int|
        0 <= i < funds.len() ==> (#[trigger] funds[i]).denom == spec_fee_denom() && funds[i].amount
            == fee
}

/// The catalog key a mint request addresses.
pub open spec fn mint_key(params: MintParamsView) -> (Seq<char>, Seq<char>) {
    (params.collection_creator, params.collection_name)
}

/// A mint may go ahead exactly when the addressed collection exists, its
/// registry address has been resolved, and the attached payment matches its
/// mint fee.
pub open spec fn mint_allowed(s: StateView, funds: Seq<CoinView>, params: MintParamsView) -> bool {
    &&& s.collections.contains_key(mint_key(params))
    &&& s.collections[mint_key(params)].collection_address is Some
    &&& funds_match_fee(funds, s.collections[mint_key(params)].mint_fee)
}

/// What minting does to the state, and what it emits: reject unknown or
/// still-unresolved collections, then reject payments that mismatch the
/// fee; otherwise advance the token-sequence counter, instruct the registry
/// to mint the item under the new identifier for the buyer, and emit the
/// two transfers of the fee split (treasury share to the coordinator
/// itself, remainder to the collection's creator).
pub open spec fn mint_nft_spec(
    s: StateView,
    contract_address: Seq<char>,
    sender: Seq<char>,
    funds: Seq<CoinView>,
    params: MintParamsView,
) -> (StateView, Result<Seq<OutMsgView>, ContractError>) {
    let key = mint_key(params);
    if !(s.collections.contains_key(key) && s.collections[key].collection_address is Some) {
        (s, Err(ContractError::CollectionNotFound {}))
    } else if !funds_match_fee(funds, s.collections[key].mint_fee) {
        (s, Err(ContractError::IncorrectFunds {}))
    } else {
        let fee = s.collections[key].mint_fee;
        let token_id = s.token_index + 1;
        let msgs = seq![
            OutMsgView::MintToken {
                collection_address: params.collection_address,
                token_id: token_id,
                owner: sender,
                token_uri: params.token_uri,
            },
            OutMsgView::BankSend {
                to_address: contract_address,
                denom: spec_fee_denom(),
                amount: treasury_share(fee, s.config.mint_percent),
            },
            OutMsgView::BankSend {
                to_address: params.collection_creator,
                denom: spec_fee_denom(),
                amount: creator_share(fee, s.config.mint_percent),
            },
        ];
        (
            StateView {
                config: s.config,
                collections: s.collections,
                pending: s.pending,
                token_index: token_id,
                reply_id: s.reply_id,
            },
            Ok(msgs),
        )
    }
}

/// Mints one item into a resolved collection and settles the fee.
///
/// Success is owed exactly when the collection exists with a resolved
/// registry address and every attached coin is the required currency in the
/// exact fee amount; a payment whose amount differs from the fee is always
/// rejected, whatever its currency. On success the global token-sequence
/// counter advances by one, the new value becomes the item's identifier,
/// and the two emitted transfers partition the fee exactly. On failure
/// nothing changes.
pub fn execute_mint_nft(
    state: &mut State,
    env: Env,
    info: MessageInfo,
    params: MintParams,
) -> (r: Result<Response, ContractError>)
    requires
        old(state).wf(),
        old(state).token_index < u64::MAX,
    ensures
        final(state).wf(),
        final(state)@ == mint_nft_spec(
            old(state)@,
            env.contract_address@,
            info@.sender,
            info@.funds,
            params@,
        ).0,
        result_view(r) == mint_nft_spec(
            old(state)@,
            env.contract_address@,
            info@.sender,
            info@.funds,
            params@,
        ).1,
        r is Ok <==> mint_allowed(old(state)@, info@.funds, params@),
        r is Err ==> final(state)@ == old(state)@,
        old(state)@.collections.contains_key(mint_key(params@)) && old(state)@.collections[mint_key(
            params@,
        )].collection_address is Some && (exists|i: int|
            0 <= i < info@.funds.len() && (#[trigger] info@.funds[i]).amount != old(
                state,
            )@.collections[mint_key(params@)].mint_fee) ==> r matches Err(
            ContractError::IncorrectFunds {},
        ),
        r is Ok ==> treasury_share(
            old(state)@.collections[mint_key(params@)].mint_fee,
            old(state)@.config.mint_percent,
        ) + creator_share(
            old(state)@.collections[mint_key(params@)].mint_fee,
            old(state)@.config.mint_percent,
        ) == old(state)@.collections[mint_key(params@)].mint_fee,
        r is Ok ==> final(state)@.token_index == old(state)@.token_index + 1,
{
    let mint_fee: u128;
    match state.collections.get(&params.collection_creator, &params.collection_name) {
        Some(record) => {
            if record.collection_address.is_none() {
                return Err(ContractError::CollectionNotFound {});
            }
            mint_fee = record.mint_fee;
        },
        None => {
            return Err(ContractError::CollectionNotFound {});
        },
    }
    let required_denom = fee_denom();
    let n: usize = info.funds.len();
    let mut i: usize = 0;
    while i < n
        invariant
            n == info.funds@.len(),
            i <= n,
            forall|j: int|
                0 <= j < i ==> (#[trigger] info.funds@[j]@).denom == spec_fee_denom()
                    && info.funds@[j]@.amount == mint_fee as nat,
            required_denom@ == spec_fee_denom(),
            *state == *old(state),
            state.wf(),
            old(state)@.collections.contains_key(mint_key(params@)),
            old(state)@.collections[mint_key(params@)].collection_address is Some,
            mint_fee as nat == old(state)@.collections[mint_key(params@)].mint_fee,
        decreases n - i,
    {
        let c = &info.funds[i];
        if !(c.denom == required_denom && c.amount == mint_fee) {
            proof {
                assert(info@.funds[i as int] == info.funds@[i as int]@);
                assert(!funds_match_fee(info@.funds, mint_fee as nat));
            }
            return Err(ContractError::IncorrectFunds {});
        }
        i = i + 1;
    }
    proof {
        assert forall|j: int| 0 <= j < info@.funds.len() implies (
        #[trigger] info@.funds[j]).denom == spec_fee_denom() && info@.funds[j].amount
            == mint_fee as nat by {
            assert(info@.funds[j] == info.funds@[j]@);
        }
        lemma_fee_split_exec(mint_fee, state.config.mint_percent);
        lemma_fee_split_total(mint_fee as nat, state.config.mint_percent as nat);
    }
    let token_id = increment_token_index(state);
    let mint_percent = state.config.mint_percent;
    let q: u128 = mint_fee / 100;
    let rem: u128 = mint_fee % 100;
    let treasury_amount: u128 = q * mint_percent + (rem * mint_percent) / 100;
    let creator_amount: u128 = mint_fee - treasury_amount;
    let mut messages: Vec<OutMsg> = Vec::new();
    messages.push(
        OutMsg::MintToken {
            collection_address: params.collection_address,
            token_id,
            owner: info.sender,
            token_uri: params.token_uri,
        },
    );
    messages.push(
        OutMsg::BankSend {
            to_address: env.contract_address,
            denom: fee_denom(),
            amount: treasury_amount,
        },
    );
    messages.push(
        OutMsg::BankSend {
            to_address: params.collection_creator,
            denom: fee_denom(),
            amount: creator_amount,
        },
    );
    let resp = Response { messages };
    proof {
        let spec_out = mint_nft_spec(
            old(state)@,
            env.contract_address@,
            info@.sender,
            info@.funds,
            params@,
        );
        assert(state@ =~= spec_out.0);
        assert(resp@ =~= spec_out.1->Ok_0);
    }
    Ok(resp)
}

/// What a fee update does: only the named collection's record changes, and
/// only its fee; a creator can touch no one else's collections because the
/// catalog key is their own identity.
pub open spec fn update_mint_fee_spec(
    s: StateView,
    sender: Seq<char>,
    collection_name: Seq<char>,
    mint_fee: nat,
) -> (StateView, Result<Seq<OutMsgView>, ContractError>) {
    let key = (sender, collection_name);
    if !s.collections.contains_key(key) {
        (s, Err(ContractError::CollectionNotFound {}))
    } else {
        let record = s.collections[key];
        (
            StateView {
                config: s.config,
                collections: s.collections.insert(
                    key,
                    CollectionInfoView {
                        name: record.name,
                        symbol: record.symbol,
                        mint_fee: mint_fee,
                        collection_address: record.collection_address,
                    },
                ),
                pending: s.pending,
                token_index: s.token_index,
                reply_id: s.reply_id,
            },
            Ok(Seq::empty()),
        )
    }
}

/// Changes the mint fee of one of the sender's own collections.
///
/// The operation is creator-gated by construction: the record is looked up
/// under the sender's identity, so a sender without a collection of that
/// name gets the not-found error and nothing changes.
pub fn execute_update_mint_fee(
    state: &mut State,
    _env: Env,
    info: MessageInfo,
    params: UpdateMintFeeParams,
) -> (r: Result<Response, ContractError>)
    requires
        old(state).wf(),
    ensures
        final(state).wf(),
        final(state)@ == update_mint_fee_spec(
            old(state)@,
            info@.sender,
            params.collection_name@,
            params.mint_fee as nat,
        ).0,
        result_view(r) == update_mint_fee_spec(
            old(state)@,
            info@.sender,
            params.collection_name@,
            params.mint_fee as nat,
        ).1,
        r is Ok <==> old(state)@.collections.contains_key(
            (info@.sender, params.collection_name@),
        ),
        r is Err ==> final(state)@ == old(state)@,
{
    let updated: CollectionInfo;
    match state.collections.get(&info.sender, &params.collection_name) {
        Some(record) => {
            updated = CollectionInfo {
                name: record.name.clone(),
                symbol: record.symbol.clone(),
                mint_fee: params.mint_fee,
                collection_address: record.collection_address.clone(),
            };
        },
        None => {
            return Err(ContractError::CollectionNotFound {});
        },
    }
    state.collections.save(info.sender, params.collection_name, updated);
    proof {
        assert forall|id: nat| #[trigger] state@.pending.contains_key(id)
            implies state@.collections.contains_key(
            (state@.pending[id].creator, state@.pending[id].collection_name),
        ) by {
            assert(old(state)@.pending.contains_key(id));
            assert(old(state)@.collections.contains_key(
                (old(state)@.pending[id].creator, old(state)@.pending[id].collection_name),
            ));
        }
        assert(state@ =~= update_mint_fee_spec(
            old(state)@,
            info@.sender,
            params.collection_name@,
            params.mint_fee as nat,
        ).0);
    }
    let messages: Vec<OutMsg> = Vec::new();
    proof {
        assert(messages@.map_values(|m: OutMsg| m@) =~= Seq::<OutMsgView>::empty());
    }
    Ok(Response { messages })
}

/// What a config update does: nothing unless the sender is the current
/// owner; otherwise the whole record is replaced.
pub open spec fn update_config_spec(s: StateView, sender: Seq<char>, new_config: ConfigView) -> (
    StateView,
    Result<Seq<OutMsgView>, ContractError>,
) {
    if sender != s.config.owner {
        (s, Err(ContractError::Unauthorized {}))
    } else {
        (
            StateView {
                config: new_config,
                collections: s.collections,
                pending: s.pending,
                token_index: s.token_index,
                reply_id: s.reply_id,
            },
            Ok(Seq::empty()),
        )
    }
}

/// Replaces the whole configuration record.
///
/// A sender other than the current owner always gets `Unauthorized` and the
/// configuration stays exactly as it was.
pub fn execute_update_config(
    state: &mut State,
    _env: Env,
    info: MessageInfo,
    new_config: Config,
) -> (r: Result<Response, ContractError>)
    requires
        old(state).wf(),
        new_config.wf(),
    ensures
        final(state).wf(),
        final(state)@ == update_config_spec(old(state)@, info@.sender, new_config@).0,
        result_view(r) == update_config_spec(old(state)@, info@.sender, new_config@).1,
        info@.sender != old(state)@.config.owner <==> r matches Err(
            ContractError::Unauthorized {},
        ),
        r is Err ==> final(state)@ == old(state)@,
{
    if !(info.sender == state.config.owner) {
        return Err(ContractError::Unauthorized {});
    }
    state.config = new_config;
    proof {
        assert(state@ =~= update_config_spec(old(state)@, info@.sender, new_config@).0);
    }
    let messages: Vec<OutMsg> = Vec::new();
    proof {
        assert(messages@.map_values(|m: OutMsg| m@) =~= Seq::<OutMsgView>::empty());
    }
    Ok(Response { messages })
}

/// What a withdrawal does: nothing unless the sender is the owner, and even
/// then no durable state changes; one transfer of the requested amount to
/// the requested destination is emitted. Whether the coordinator's balance
/// covers it is the host's concern: if not, the host aborts the whole
/// transaction.
pub open spec fn withdraw_spec(
    s: StateView,
    sender: Seq<char>,
    withdraw_amount: nat,
    withdraw_address: Seq<char>,
) -> (StateView, Result<Seq<OutMsgView>, ContractError>) {
    if sender != s.config.owner {
        (s, Err(ContractError::Unauthorized {}))
    } else {
        (
            s,
            Ok(
                seq![
                    OutMsgView::BankSend {
                        to_address: withdraw_address,
                        denom: spec_fee_denom(),
                        amount: withdraw_amount,
                    },
                ],
            ),
        )
    }
}

/// Sends accumulated protocol balance to a destination of the owner's
/// choosing.
///
/// A sender other than the owner always gets `Unauthorized`; in every case
/// the durable state is left untouched.
pub fn execute_withdraw(
    state: &mut State,
    _env: Env,
    info: MessageInfo,
    params: WithdrawParams,
) -> (r: Result<Response, ContractError>)
    requires
        old(state).wf(),
    ensures
        final(state).wf(),
        final(state)@ == old(state)@,
        result_view(r) == withdraw_spec(
            old(state)@,
            info@.sender,
            params.withdraw_amount as nat,
            params.withdraw_address@,
        ).1,
        info@.sender != old(state)@.config.owner <==> r matches Err(
            ContractError::Unauthorized {},
        ),
{
    if !(info.sender == state.config.owner) {
        return Err(ContractError::Unauthorized {});
    }
    let mut messages: Vec<OutMsg> = Vec::new();
    messages.push(
        OutMsg::BankSend {
            to_address: params.withdraw_address,
            denom: fee_denom(),
            amount: params.withdraw_amount,
        },
    );
    let resp = Response { messages };
    proof {
        assert(resp@ =~= withdraw_spec(
            old(state)@,
            info@.sender,
            params.withdraw_amount as nat,
            params.withdraw_address@,
        ).1->Ok_0);
    }
    Ok(resp)
}

/// Dispatches one inbound mutating operation to its handler.
pub fn execute(state: &mut State, env: Env, info: MessageInfo, msg: ExecuteMsg) -> (r: Result<
    Response,
    ContractError,
>)
    requires
        old(state).wf(),
        old(state).reply_id < u64::MAX,
        old(state).token_index < u64::MAX,
        msg matches ExecuteMsg::UpdateConfig(c) ==> c.wf(),
    ensures
        final(state).wf(),
        r is Err ==> final(state)@ == old(state)@,
        match msg {
            ExecuteMsg::CreateCollection(params) => final(state)@ == create_collection_spec(
                old(state)@,
                env.contract_address@,
                info@.sender,
                info@.funds,
                params@,
            ).0 && result_view(r) == create_collection_spec(
                old(state)@,
                env.contract_address@,
                info@.sender,
                info@.funds,
                params@,
            ).1,
            ExecuteMsg::MintNFT(params) => final(state)@ == mint_nft_spec(
                old(state)@,
                env.contract_address@,
                info@.sender,
                info@.funds,
                params@,
            ).0 && result_view(r) == mint_nft_spec(
                old(state)@,
                env.contract_address@,
                info@.sender,
                info@.funds,
                params@,
            ).1,
            ExecuteMsg::Withdraw(params) => final(state)@ == old(state)@ && result_view(r)
                == withdraw_spec(
                old(state)@,
                info@.sender,
                params.withdraw_amount as nat,
                params.withdraw_address@,
            ).1,
            ExecuteMsg::UpdateConfig(config) => final(state)@ == update_config_spec(
                old(state)@,
                info@.sender,
                config@,
            ).0 && result_view(r) == update_config_spec(old(state)@, info@.sender, config@).1,
            ExecuteMsg::UpdateMintFee(params) => final(state)@ == update_mint_fee_spec(
                old(state)@,
                info@.sender,
                params.collection_name@,
                params.mint_fee as nat,
            ).0 && result_view(r) == update_mint_fee_spec(
                old(state)@,
                info@.sender,
                params.collection_name@,
                params.mint_fee as nat,
            ).1,
        },
{
    match msg {
        ExecuteMsg::CreateCollection(params) => execute_create_collection(
            state,
            env,
            info,
            params,
        ),
        ExecuteMsg::MintNFT(params) => execute_mint_nft(state, env, info, params),
        ExecuteMsg::Withdraw(params) => execute_withdraw(state, env, info, params),
        ExecuteMsg::UpdateConfig(config) => execute_update_config(state, env, info, config),
        ExecuteMsg::UpdateMintFee(params) => execute_update_mint_fee(state, env, info, params),
    }
}

/// What a completion does: reject a token that is not the one currently
/// expected or has no pending request; on a failed outcome report the
/// registry error and leave the pending request and provisional record
/// exactly where they were; on success resolve the provisional record's
/// registry address and retire the pending request, terminally.
pub open spec fn reply_spec(s: StateView, id: nat, outcome: ReplyOutcomeView) -> (
    StateView,
    Result<Seq<OutMsgView>, ContractError>,
) {
    if id != s.reply_id || !s.pending.contains_key(id) {
        (s, Err(ContractError::InvalidReplyID {}))
    } else {
        match outcome {
            ReplyOutcomeView::Success { contract_address } => {
                let pending = s.pending[id];
                let key = (pending.creator, pending.collection_name);
                let record = s.collections[key];
                (
                    StateView {
                        config: s.config,
                        collections: s.collections.insert(
                            key,
                            CollectionInfoView {
                                name: record.name,
                                symbol: record.symbol,
                                mint_fee: record.mint_fee,
                                collection_address: Some(contract_address),
                            },
                        ),
                        pending: s.pending.remove(id),
                        token_index: s.token_index,
                        reply_id: s.reply_id,
                    },
                    Ok(Seq::empty()),
                )
            },
            ReplyOutcomeView::Failure {} => (s, Err(ContractError::InstantiateCw721Error {})),
        }
    }
}

/// Finalizes an asynchronous collection creation when its completion
/// arrives from the registry service.
///
/// Success is owed exactly when the token matches the currently expected
/// correlation value, a pending request is stored under it, and the outcome
/// carries the created registry's address; then that pending request is
/// gone for good and the provisional record now holds the address. On any
/// failure — wrong token, or a failed creation — nothing changes: the
/// pending request and provisional record stay in place.
pub fn reply(state: &mut State, msg: Reply) -> (r: Result<Response, ContractError>)
    requires
        old(state).wf(),
    ensures
        final(state).wf(),
        final(state)@ == reply_spec(old(state)@, msg.id as nat, msg.outcome@).0,
        result_view(r) == reply_spec(old(state)@, msg.id as nat, msg.outcome@).1,
        r is Ok <==> (msg.id as nat == old(state)@.reply_id && old(state)@.pending.contains_key(
            msg.id as nat,
        ) && msg.outcome is Success),
        r is Err ==> final(state)@ == old(state)@,
        r is Ok ==> !final(state)@.pending.contains_key(msg.id as nat) && final(state)@.pending
            == old(state)@.pending.remove(msg.id as nat) && (msg.outcome@ matches
        ReplyOutcomeView::Success { contract_address } ==> final(state)@.collections[(
            old(state)@.pending[msg.id as nat].creator,
            old(state)@.pending[msg.id as nat].collection_name,
        )].collection_address == Some(contract_address)),
{
    if msg.id != state.reply_id {
        return Err(ContractError::InvalidReplyID {});
    }
    let creator: String;
    let collection_name: String;
    match state.pending.get(msg.id) {
        Some(p) => {
            creator = p.creator.clone();
            collection_name = p.collection_name.clone();
        },
        None => {
            return Err(ContractError::InvalidReplyID {});
        },
    }
    match msg.outcome {
        ReplyOutcome::Success { contract_address } => {
            let resolved: CollectionInfo;
            match state.collections.get(&creator, &collection_name) {
                Some(record) => {
                    resolved = CollectionInfo {
                        name: record.name.clone(),
                        symbol: record.symbol.clone(),
                        mint_fee: record.mint_fee,
                        collection_address: Some(contract_address),
                    };
                },
                None => {
                    proof {
                        assert(old(state)@.pending.contains_key(msg.id as nat));
                        assert(false);
                    }
                    return Err(ContractError::PendingCollectionNotFound {});
                },
            }
            state.collections.save(creator, collection_name, resolved);
            state.pending.remove(msg.id);
            proof {
                assert forall|id: nat| #[trigger] state@.pending.contains_key(id) implies id
                    <= state@.reply_id by {
                    assert(old(state)@.pending.contains_key(id));
                }
                assert forall|id: nat| #[trigger] state@.pending.contains_key(id)
                    implies state@.collections.contains_key(
                    (state@.pending[id].creator, state@.pending[id].collection_name),
                ) by {
                    assert(old(state)@.pending.contains_key(id));
                    assert(old(state)@.collections.contains_key(
                        (old(state)@.pending[id].creator, old(state)@.pending[id].collection_name),
                    ));
                }
                assert(state@ =~= reply_spec(old(state)@, msg.id as nat, msg.outcome@).0);
            }
            let messages: Vec<OutMsg> = Vec::new();
            proof {
                assert(messages@.map_values(|m: OutMsg| m@) =~= Seq::<OutMsgView>::empty());
            }
            Ok(Response { messages })
        },
        ReplyOutcome::Failure {} => Err(ContractError::InstantiateCw721Error {}),
    }
}

/// The record the collection query reports: the stored record, or the
/// default (blank) record when the catalog has none under that key.
pub open spec fn creator_collections_spec(
    s: StateView,
    creator: Seq<char>,
    collection_name: Seq<char>,
) -> CollectionInfoView {
    if s.collections.contains_key((creator, collection_name)) {
        s.collections[(creator, collection_name)]
    } else {
        default_collection_info()
    }
}

/// Answers one read-only query. Queries never change state.
pub fn query(state: &State, msg: QueryMsg) -> (r: QueryAnswer)
    requires
        state.wf(),
    ensures
        match msg {
            QueryMsg::Config {} => r matches QueryAnswer::Config(c) && c@ == state@.config,
            QueryMsg::TokenIndex {} => r matches QueryAnswer::TokenIndex(t) && t
                == state.token_index,
            QueryMsg::CreatorCollections { creator, collection_name } => r matches
                QueryAnswer::CreatorCollections(ci) && ci@ == creator_collections_spec(
                state@,
                creator@,
                collection_name@,
            ),
        },
{
    match msg {
        QueryMsg::Config {} => QueryAnswer::Config(query_config(state)),
        QueryMsg::TokenIndex {} => QueryAnswer::TokenIndex(query_token_index(state)),
        QueryMsg::CreatorCollections { creator, collection_name } => {
            QueryAnswer::CreatorCollections(
                query_creator_collections(state, creator, collection_name),
            )
        },
    }
}

/// The current configuration.
fn query_config(state: &State) -> (r: ConfigResponse)
    ensures
        r@ == state@.config,
{
    ConfigResponse { owner: state.config.owner.clone(), mint_percent: state.config.mint_percent }
}

/// The current value of the global token-sequence counter.
fn query_token_index(state: &State) -> (r: u64)
    ensures
        r == state.token_index,
{
    state.token_index
}

/// The record stored under (creator, collection name), or the default
/// record when there is none.
fn query_creator_collections(state: &State, creator: String, collection_name: String) -> (r:
    CollectionInfoResponse)
    requires
        state.wf(),
    ensures
        r@ == creator_collections_spec(state@, creator@, collection_name@),
{
    match state.collections.get(&creator, &collection_name) {
        Some(record) => CollectionInfoResponse {
            name: record.name.clone(),
            symbol: record.symbol.clone(),
            mint_fee: record.mint_fee,
            collection_address: record.collection_address.clone(),
        },
        None => CollectionInfoResponse {
            name: String::new(),
            symbol: String::new(),
            mint_fee: 0,
            collection_address: None,
        },
    }
}

} // verus!
