use vstd::prelude::*;

use crate::state::{
    CollectionInfo, CollectionInfoView, CollectionParams, Config, ConfigView, MintParams,
    UpdateMintFeeParams, WithdrawParams,
};

verus! {

/// One attached payment: an amount of a named native currency.
#[derive(Clone, Debug, PartialEq, Eq)]
pub struct Coin {
    pub denom: String,
    pub amount: u128,
}

/// The mathematical value of a [`Coin`].
#[verifier::ext_equal]
pub ghost struct CoinView {
    pub denom: Seq<char>,
    pub amount: nat,
}

impl View for Coin {
    type V = CoinView;

    open spec fn view(&self) -> CoinView {
        CoinView { denom: self.denom@, amount: self.amount as nat }
    }
}

/// Who sent the inbound request, and the payment attached to it.
#[derive(Clone, Debug, PartialEq, Eq)]
pub struct MessageInfo {
    pub sender: String,
    pub funds: Vec<Coin>,
}

/// The mathematical value of a [`MessageInfo`].
#[verifier::ext_equal]
pub ghost struct MessageInfoView {
    pub sender: Seq<char>,
    pub funds: Seq<CoinView>,
}

impl View for MessageInfo {
    type V = MessageInfoView;

    open spec fn view(&self) -> MessageInfoView {
        MessageInfoView { sender: self.sender@, funds: self.funds@.map_values(|c: Coin| c@) }
    }
}

/// The host-provided execution context: the coordinator's own address.
#[derive(Clone, Debug, PartialEq, Eq)]
pub struct Env {
    pub contract_address: String,
}

/// What initializes the coordinator: an optional owner identity (the sender
/// becomes owner when none is given). The fee percentage is fixed at
/// initialization and changes only through a whole-record config update.
#[derive(Clone, Debug, PartialEq, Eq)]
pub struct InstantiateMsg {
    pub owner: Option<String>,
    pub mint_percent: u128,
}

/// The mathematical value of an [`InstantiateMsg`].
#[verifier::ext_equal]
pub ghost struct InstantiateMsgView {
    pub owner: Option<Seq<char>>,
    pub mint_percent: nat,
}

impl View for InstantiateMsg {
    type V = InstantiateMsgView;

    open spec fn view(&self) -> InstantiateMsgView {
        InstantiateMsgView {
            owner: match self.owner {
                Some(o) => Some(o@),
                None => None,
            },
            mint_percent: self.mint_percent as nat,
        }
    }
}

/// The closed family of inbound mutating operations.
#[derive(Clone, Debug, PartialEq, Eq)]
pub enum ExecuteMsg {
    CreateCollection(CollectionParams),
    MintNFT(MintParams),
    Withdraw(WithdrawParams),
    UpdateConfig(Config),
    UpdateMintFee(UpdateMintFeeParams),
}

/// The read-only query surface.
#[derive(Clone, Debug, PartialEq, Eq)]
pub enum QueryMsg {
    /// The owner identity and protocol fee percentage.
    Config {},
    /// The current value of the global token-sequence counter.
    TokenIndex {},
    /// The collection record stored under (creator, collection name), or a
    /// default record when none exists.
    CreatorCollections { creator: String, collection_name: String },
}

/// The answer to a [`QueryMsg`], one variant per query.
#[derive(Clone, Debug, PartialEq, Eq)]
pub enum QueryAnswer {
    Config(ConfigResponse),
    TokenIndex(u64),
    CreatorCollections(CollectionInfoResponse),
}

/// The response to [`QueryMsg::Config`].
#[derive(Clone, Debug, PartialEq, Eq)]
pub struct ConfigResponse {
    pub owner: String,
    pub mint_percent: u128,
}

impl View for ConfigResponse {
    type V = ConfigView;

    open spec fn view(&self) -> ConfigView {
        ConfigView { owner: self.owner@, mint_percent: self.mint_percent as nat }
    }
}

impl vstd::std_specs::convert::FromSpecImpl<Config> for ConfigResponse {
    open spec fn obeys_from_spec() -> bool {
        true
    }

    open spec fn from_spec(config: Config) -> ConfigResponse {
        ConfigResponse { owner: config.owner, mint_percent: config.mint_percent }
    }
}

impl From<Config> for ConfigResponse {
    fn from(config: Config) -> (r: ConfigResponse) {
        ConfigResponse { owner: config.owner, mint_percent: config.mint_percent }
    }
}

/// The response to [`QueryMsg::CreatorCollections`].
#[derive(Clone, Debug, PartialEq, Eq)]
pub struct CollectionInfoResponse {
    pub name: String,
    pub symbol: String,
    pub mint_fee: u128,
    pub collection_address: Option<String>,
}

impl View for CollectionInfoResponse {
    type V = CollectionInfoView;

    open spec fn view(&self) -> CollectionInfoView {
        CollectionInfoView {
            name: self.name@,
            symbol: self.symbol@,
            mint_fee: self.mint_fee as nat,
            collection_address: match self.collection_address {
                Some(a) => Some(a@),
                None => None,
            },
        }
    }
}

impl vstd::std_specs::convert::FromSpecImpl<CollectionInfo> for CollectionInfoResponse {
    open spec fn obeys_from_spec() -> bool {
        true
    }

    open spec fn from_spec(collection_info: CollectionInfo) -> CollectionInfoResponse {
        CollectionInfoResponse {
            name: collection_info.name,
            symbol: collection_info.symbol,
            mint_fee: collection_info.mint_fee,
            collection_address: collection_info.collection_address,
        }
    }
}

impl From<CollectionInfo> for CollectionInfoResponse {
    fn from(collection_info: CollectionInfo) -> (r: CollectionInfoResponse) {
        CollectionInfoResponse {
            name: collection_info.name,
            symbol: collection_info.symbol,
            mint_fee: collection_info.mint_fee,
            collection_address: collection_info.collection_address,
        }
    }
}

/// One outbound instruction for the host to carry out as part of the same
/// all-or-nothing transaction as the state change that emitted it.
#[derive(Clone, Debug, PartialEq, Eq)]
pub enum OutMsg {
    /// Ask the registry service to create the child registry for a new
    /// collection. The completion comes back later, tagged with `reply_id`.
    InstantiateCollection {
        code_id: u64,
        name: String,
        symbol: String,
        /// The coordinator's own address, installed as the registry's minter.
        minter: String,
        /// Any funds the creator attached, forwarded unchanged.
        funds: Vec<Coin>,
        /// The correlation token for routing the completion callback.
        reply_id: u64,
    },
    /// Ask the child registry at `collection_address` to mint one item.
    MintToken {
        collection_address: String,
        token_id: u64,
        owner: String,
        token_uri: String,
    },
    /// Transfer an amount of native currency to `to_address`.
    BankSend {
        to_address: String,
        denom: String,
        amount: u128,
    },
}

/// The mathematical value of an [`OutMsg`].
#[verifier::ext_equal]
pub ghost enum OutMsgView {
    InstantiateCollection {
        code_id: u64,
        name: Seq<char>,
        symbol: Seq<char>,
        minter: Seq<char>,
        funds: Seq<CoinView>,
        reply_id: nat,
    },
    MintToken {
        collection_address: Seq<char>,
        token_id: nat,
        owner: Seq<char>,
        token_uri: Seq<char>,
    },
    BankSend {
        to_address: Seq<char>,
        denom: Seq<char>,
        amount: nat,
    },
}

impl View for OutMsg {
    type V = OutMsgView;

    open spec fn view(&self) -> OutMsgView {
        match self {
            OutMsg::InstantiateCollection { code_id, name, symbol, minter, funds, reply_id } => {
                OutMsgView::InstantiateCollection {
                    code_id: *code_id,
                    name: name@,
                    symbol: symbol@,
                    minter: minter@,
                    funds: funds@.map_values(|c: Coin| c@),
                    reply_id: *reply_id as nat,
                }
            },
            OutMsg::MintToken { collection_address, token_id, owner, token_uri } => {
                OutMsgView::MintToken {
                    collection_address: collection_address@,
                    token_id: *token_id as nat,
                    owner: owner@,
                    token_uri: token_uri@,
                }
            },
            OutMsg::BankSend { to_address, denom, amount } => {
                OutMsgView::BankSend {
                    to_address: to_address@,
                    denom: denom@,
                    amount: *amount as nat,
                }
            },
        }
    }
}

/// What a successful operation hands back to the host: the instructions to
/// carry out, in order.
#[derive(Clone, Debug, PartialEq, Eq)]
pub struct Response {
    pub messages: Vec<OutMsg>,
}

impl View for Response {
    type V = Seq<OutMsgView>;

    open spec fn view(&self) -> Seq<OutMsgView> {
        self.messages@.map_values(|m: OutMsg| m@)
    }
}

/// How the registry service's creation attempt ended.
#[derive(Clone, Debug, PartialEq, Eq)]
pub enum ReplyOutcome {
    /// The child registry exists; here is its address.
    Success { contract_address: String },
    /// The registry service failed to create the child registry.
    Failure {},
}

/// The mathematical value of a [`ReplyOutcome`].
#[verifier::ext_equal]
pub ghost enum ReplyOutcomeView {
    Success { contract_address: Seq<char> },
    Failure {},
}

impl View for ReplyOutcome {
    type V = ReplyOutcomeView;

    open spec fn view(&self) -> ReplyOutcomeView {
        match self {
            ReplyOutcome::Success { contract_address } => {
                ReplyOutcomeView::Success { contract_address: contract_address@ }
            },
            ReplyOutcome::Failure {} => ReplyOutcomeView::Failure {},
        }
    }
}

/// The completion callback: which request it answers, and how it went.
#[derive(Clone, Debug, PartialEq, Eq)]
pub struct Reply {
    pub id: u64,
    pub outcome: ReplyOutcome,
}

} // verus!
