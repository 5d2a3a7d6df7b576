use vstd::prelude::*;

use crate::store::{CollectionStore, PendingStore};

verus! {

/// The coordinator's singleton configuration: the owner identity and the
/// protocol's percentage cut of every mint fee.
#[derive(Clone, Debug, PartialEq, Eq)]
pub struct Config {
    pub owner: String,
    /// Protocol share of each mint fee, in whole percent; always in [0, 100].
    pub mint_percent: u128,
}

/// The mathematical value of a [`Config`].
#[verifier::ext_equal]
pub ghost struct ConfigView {
    pub owner: Seq<char>,
    pub mint_percent: nat,
}

impl View for Config {
    type V = ConfigView;

    open spec fn view(&self) -> ConfigView {
        ConfigView { owner: self.owner@, mint_percent: self.mint_percent as nat }
    }
}

impl Config {
    /// A configuration is well formed when the fee percentage is a percentage.
    pub open spec fn wf(self) -> bool {
        self.mint_percent <= 100
    }
}

/// One collection's durable record. `collection_address` is `None` from
/// creation until the asynchronous completion arrives, then set exactly once.
#[derive(Clone, Debug, PartialEq, Eq)]
pub struct CollectionInfo {
    pub name: String,
    pub symbol: String,
    pub mint_fee: u128,
    pub collection_address: Option<String>,
}

/// The mathematical value of a [`CollectionInfo`].
#[verifier::ext_equal]
pub ghost struct CollectionInfoView {
    pub name: Seq<char>,
    pub symbol: Seq<char>,
    pub mint_fee: nat,
    pub collection_address: Option<Seq<char>>,
}

impl View for CollectionInfo {
    type V = CollectionInfoView;

    open spec fn view(&self) -> CollectionInfoView {
        CollectionInfoView {
            name: self.name@,
            symbol: self.symbol@,
            mint_fee: self.mint_fee as nat,
            collection_address: match self.collection_address {
                Some(a) => Some(a@),
                None => None,
            },
        }
    }
}

/// The record a query reports for a collection that does not exist.
pub open spec fn default_collection_info() -> CollectionInfoView {
    CollectionInfoView {
        name: Seq::empty(),
        symbol: Seq::empty(),
        mint_fee: 0,
        collection_address: None,
    }
}

impl Default for CollectionInfo {
    /// An empty record: blank name and symbol, zero fee, no registry address.
    fn default() -> (d: CollectionInfo)
        ensures
            d@ == default_collection_info(),
    {
        CollectionInfo {
            name: String::new(),
            symbol: String::new(),
            mint_fee: 0,
            collection_address: None,
        }
    }
}

/// What a creator supplies to register a new collection.
#[derive(Clone, Debug, PartialEq, Eq)]
pub struct CollectionParams {
    /// The registry-code identifier the child registry is built from.
    pub code_id: u64,
    pub name: String,
    pub symbol: String,
    pub mint_fee: u128,
}

/// The mathematical value of a [`CollectionParams`].
#[verifier::ext_equal]
pub ghost struct CollectionParamsView {
    pub code_id: u64,
    pub name: Seq<char>,
    pub symbol: Seq<char>,
    pub mint_fee: nat,
}

impl View for CollectionParams {
    type V = CollectionParamsView;

    open spec fn view(&self) -> CollectionParamsView {
        CollectionParamsView {
            code_id: self.code_id,
            name: self.name@,
            symbol: self.symbol@,
            mint_fee: self.mint_fee as nat,
        }
    }
}

/// What a buyer supplies to mint one item into an existing collection.
#[derive(Clone, Debug, PartialEq, Eq)]
pub struct MintParams {
    pub collection_creator: String,
    pub collection_name: String,
    pub collection_address: String,
    pub code_id: u64,
    pub owner: String,
    pub token_uri: String,
}

/// The mathematical value of a [`MintParams`].
#[verifier::ext_equal]
pub ghost struct MintParamsView {
    pub collection_creator: Seq<char>,
    pub collection_name: Seq<char>,
    pub collection_address: Seq<char>,
    pub code_id: u64,
    pub owner: Seq<char>,
    pub token_uri: Seq<char>,
}

impl View for MintParams {
    type V = MintParamsView;

    open spec fn view(&self) -> MintParamsView {
        MintParamsView {
            collection_creator: self.collection_creator@,
            collection_name: self.collection_name@,
            collection_address: self.collection_address@,
            code_id: self.code_id,
            owner: self.owner@,
            token_uri: self.token_uri@,
        }
    }
}

/// What a creator supplies to change one collection's mint fee.
#[derive(Clone, Debug, PartialEq, Eq)]
pub struct UpdateMintFeeParams {
    pub collection_name: String,
    pub mint_fee: u128,
}

/// What the owner supplies to withdraw accumulated protocol balance.
#[derive(Clone, Debug, PartialEq, Eq)]
pub struct WithdrawParams {
    pub withdraw_amount: u128,
    pub withdraw_address: String,
}

/// One in-flight creation request, stored under its correlation token from
/// the moment the create-request is issued until its completion arrives.
#[derive(Clone, Debug, PartialEq, Eq)]
pub struct PendingInstantiation {
    pub creator: String,
    pub collection_name: String,
}

/// The mathematical value of a [`PendingInstantiation`].
#[verifier::ext_equal]
pub ghost struct PendingInstantiationView {
    pub creator: Seq<char>,
    pub collection_name: Seq<char>,
}

impl View for PendingInstantiation {
    type V = PendingInstantiationView;

    open spec fn view(&self) -> PendingInstantiationView {
        PendingInstantiationView {
            creator: self.creator@,
            collection_name: self.collection_name@,
        }
    }
}

/// The coordinator's whole durable state: the singleton config, the catalog
/// of collections keyed by (creator, name), the in-flight creation requests
/// keyed by correlation token, and the two monotonic counters.
pub struct State {
    pub config: Config,
    pub collections: CollectionStore,
    pub pending: PendingStore,
    /// Global token-sequence counter; the next item gets `token_index + 1`.
    pub token_index: u64,
    /// Correlation-token counter; the next request gets `reply_id + 1`.
    pub reply_id: u64,
}

/// The mathematical value of the whole durable [`State`].
#[verifier::ext_equal]
pub ghost struct StateView {
    pub config: ConfigView,
    pub collections: Map<(Seq<char>, Seq<char>), CollectionInfoView>,
    pub pending: Map<nat, PendingInstantiationView>,
    pub token_index: nat,
    pub reply_id: nat,
}

impl View for State {
    type V = StateView;

    open spec fn view(&self) -> StateView {
        StateView {
            config: self.config@,
            collections: self.collections@,
            pending: self.pending@,
            token_index: self.token_index as nat,
            reply_id: self.reply_id as nat,
        }
    }
}

/// The invariant of the durable state, at the level of its mathematical
/// value:
/// - the protocol fee percentage is a percentage;
/// - every outstanding correlation token was minted by the counter, so a
///   freshly minted token never collides with an outstanding one;
/// - every pending request points at a provisional record that the catalog
///   already holds.
pub open spec fn state_inv(s: StateView) -> bool {
    &&& s.config.mint_percent <= 100
    &&& forall|id: nat| #[trigger] s.pending.contains_key(id) ==> id <= s.reply_id
    &&& forall|id: nat| #[trigger] s.pending.contains_key(id)
        ==> s.collections.contains_key((s.pending[id].creator, s.pending[id].collection_name))
}

impl State {
    /// Well-formedness: the two stores really are maps (no duplicate keys)
    /// and the state invariant holds of the mathematical value.
    pub open spec fn wf(self) -> bool {
        &&& self.collections.wf()
        &&& self.pending.wf()
        &&& state_inv(self@)
    }
}

/// Advances the global token-sequence counter and returns the new value,
/// which is the identifier of the item being minted.
pub fn increment_token_index(state: &mut State) -> (val: u64)
    requires
        old(state).token_index < u64::MAX,
    ensures
        val == old(state).token_index + 1,
        final(state).token_index == val,
        final(state).config == old(state).config,
        final(state).collections == old(state).collections,
        final(state).pending == old(state).pending,
        final(state).reply_id == old(state).reply_id,
{
    let val: u64 = state.token_index + 1;
    state.token_index = val;
    val
}

/// Mints a fresh correlation token by advancing the reply-id counter, and
/// returns the new value.
pub fn increment_reply_id(state: &mut State) -> (val: u64)
    requires
        old(state).reply_id < u64::MAX,
    ensures
        val == old(state).reply_id + 1,
        final(state).reply_id == val,
        final(state).config == old(state).config,
        final(state).collections == old(state).collections,
        final(state).pending == old(state).pending,
        final(state).token_index == old(state).token_index,
{
    let val: u64 = state.reply_id + 1;
    state.reply_id = val;
    val
}

} // verus!
