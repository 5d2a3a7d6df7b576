use mintyplex::contract::{execute, instantiate, query, reply};
use mintyplex::mock::Cw721MockExecuteMsg;
use mintyplex::msg::{
    Coin, CollectionInfoResponse, ConfigResponse, Env, ExecuteMsg, InstantiateMsg, MessageInfo,
    OutMsg, QueryAnswer, QueryMsg, Reply, ReplyOutcome,
};
use mintyplex::state::{
    CollectionInfo, CollectionParams, Config, MintParams, State, UpdateMintFeeParams,
    WithdrawParams,
};
use mintyplex::ContractError;

const COORDINATOR: &str = "mintyplex_contract";

fn mock_env() -> Env {
    Env { contract_address: COORDINATOR.to_string() }
}

fn info(sender: &str) -> MessageInfo {
    MessageInfo { sender: sender.to_string(), funds: vec![] }
}

fn info_with_funds(sender: &str, funds: Vec<Coin>) -> MessageInfo {
    MessageInfo { sender: sender.to_string(), funds }
}

fn coin(amount: u128, denom: &str) -> Coin {
    Coin { denom: denom.to_string(), amount }
}

fn create_collection(state: &mut State, creator: &str, name: &str, symbol: &str, mint_fee: u128) -> u64 {
    let params = CollectionParams {
        code_id: 1,
        name: name.to_string(),
        symbol: symbol.to_string(),
        mint_fee,
    };
    let res = execute(state, mock_env(), info(creator), ExecuteMsg::CreateCollection(params))
        .unwrap();
    assert_eq!(res.messages.len(), 1);
    match &res.messages[0] {
        OutMsg::InstantiateCollection { reply_id, minter, .. } => {
            assert_eq!(minter, COORDINATOR);
            *reply_id
        },
        _ => panic!("expected a create-request"),
    }
}

fn resolve(state: &mut State, id: u64, address: &str) {
    reply(
        state,
        Reply { id, outcome: ReplyOutcome::Success { contract_address: address.to_string() } },
    )
    .unwrap();
}

fn query_collection(state: &State, creator: &str, name: &str) -> CollectionInfoResponse {
    match query(
        state,
        QueryMsg::CreatorCollections {
            creator: creator.to_string(),
            collection_name: name.to_string(),
        },
    ) {
        QueryAnswer::CreatorCollections(collection_info) => collection_info,
        _ => panic!("unexpected query answer"),
    }
}

fn query_config(state: &State) -> ConfigResponse {
    match query(state, QueryMsg::Config {}) {
        QueryAnswer::Config(config) => config,
        _ => panic!("unexpected query answer"),
    }
}

fn query_token_index(state: &State) -> u64 {
    match query(state, QueryMsg::TokenIndex {}) {
        QueryAnswer::TokenIndex(index) => index,
        _ => panic!("unexpected query answer"),
    }
}

fn mint(
    state: &mut State,
    buyer: &str,
    creator: &str,
    name: &str,
    address: &str,
    funds: Vec<Coin>,
) -> Result<mintyplex::msg::Response, ContractError> {
    let params = MintParams {
        collection_creator: creator.to_string(),
        collection_name: name.to_string(),
        collection_address: address.to_string(),
        code_id: 1,
        owner: buyer.to_string(),
        token_uri: "ipfs://item".to_string(),
    };
    execute(state, mock_env(), info_with_funds(buyer, funds), ExecuteMsg::MintNFT(params))
}

/// The whole lifecycle: register "book"/"BOOK" at a one-million fee, watch
/// the record go from unresolved to resolved, then mint one item with the
/// exact fee and check every emitted instruction.
#[test]
fn full_lifecycle_scenario() {
    let mut state = instantiate(info("creator_c"), InstantiateMsg { owner: None, mint_percent: 2 });

    let id = create_collection(&mut state, "creator_c", "book", "BOOK", 1_000_000);

    let record = query_collection(&state, "creator_c", "book");
    assert_eq!(record.name, "book");
    assert_eq!(record.symbol, "BOOK");
    assert_eq!(record.mint_fee, 1_000_000);
    assert_eq!(record.collection_address, None);

    resolve(&mut state, id, "reg1");
    let record = query_collection(&state, "creator_c", "book");
    assert_eq!(record.collection_address, Some("reg1".to_string()));

    let res = mint(
        &mut state,
        "buyer",
        "creator_c",
        "book",
        "reg1",
        vec![coin(1_000_000, "uxion")],
    )
    .unwrap();

    assert_eq!(res.messages.len(), 3);
    match &res.messages[0] {
        OutMsg::MintToken { collection_address, token_id, owner, token_uri } => {
            assert_eq!(collection_address, "reg1");
            assert_eq!(*token_id, 1);
            assert_eq!(owner, "buyer");
            assert_eq!(token_uri, "ipfs://item");
            // the instruction, restated on the child registry's own surface
            let registry_msg = Cw721MockExecuteMsg::Mint {
                token_id: format!("{}", token_id),
                owner: owner.clone(),
                token_uri: Some(token_uri.clone()),
            };
            assert_eq!(
                registry_msg,
                Cw721MockExecuteMsg::Mint {
                    token_id: "1".to_string(),
                    owner: "buyer".to_string(),
                    token_uri: Some("ipfs://item".to_string()),
                }
            );
        },
        _ => panic!("expected the mint instruction first"),
    }
    let amounts: Vec<u128> = res.messages[1..]
        .iter()
        .map(|m| match m {
            OutMsg::BankSend { amount, denom, .. } => {
                assert_eq!(denom, "uxion");
                *amount
            },
            _ => panic!("expected a transfer"),
        })
        .collect();
    assert_eq!(amounts.iter().sum::<u128>(), 1_000_000);
    assert_eq!(query_token_index(&state), 1);
}

/// The fee split at the documented example: two percent of one million is
/// twenty thousand for the treasury and the rest for the creator.
#[test]
fn fee_split_exact_values() {
    let mut state = instantiate(info("creator_c"), InstantiateMsg { owner: None, mint_percent: 2 });
    let id = create_collection(&mut state, "creator_c", "book", "BOOK", 1_000_000);
    resolve(&mut state, id, "reg1");

    let res = mint(
        &mut state,
        "buyer",
        "creator_c",
        "book",
        "reg1",
        vec![coin(1_000_000, "uxion")],
    )
    .unwrap();

    assert_eq!(
        res.messages[1],
        OutMsg::BankSend {
            to_address: COORDINATOR.to_string(),
            denom: "uxion".to_string(),
            amount: 20_000,
        }
    );
    assert_eq!(
        res.messages[2],
        OutMsg::BankSend {
            to_address: "creator_c".to_string(),
            denom: "uxion".to_string(),
            amount: 980_000,
        }
    );
}

/// An odd fee and percentage still partition exactly: floor rounding on the
/// treasury side, remainder to the creator, nothing lost.
#[test]
fn fee_split_rounds_down_to_treasury() {
    let mut state =
        instantiate(info("owner_o"), InstantiateMsg { owner: Some("owner_o".to_string()), mint_percent: 2 });
    execute(
        &mut state,
        mock_env(),
        info("owner_o"),
        ExecuteMsg::UpdateConfig(Config { owner: "owner_o".to_string(), mint_percent: 3 }),
    )
    .unwrap();

    let id = create_collection(&mut state, "creator_c", "zine", "ZNE", 999);
    resolve(&mut state, id, "reg1");

    let res =
        mint(&mut state, "buyer", "creator_c", "zine", "reg1", vec![coin(999, "uxion")]).unwrap();

    // floor(999 * 3 / 100) == 29, and 29 + 970 == 999
    match (&res.messages[1], &res.messages[2]) {
        (
            OutMsg::BankSend { amount: treasury, .. },
            OutMsg::BankSend { amount: creator, .. },
        ) => {
            assert_eq!(*treasury, 29);
            assert_eq!(*creator, 970);
            assert_eq!(treasury + creator, 999);
        },
        _ => panic!("expected the two transfers"),
    }
}

/// A failed completion reports the registry error and leaves both the
/// pending request and the provisional record untouched, so a later
/// successful completion for the same token still resolves the record.
#[test]
fn failed_completion_keeps_pending() {
    let mut state = instantiate(info("creator_c"), InstantiateMsg { owner: None, mint_percent: 2 });
    let id = create_collection(&mut state, "creator_c", "book", "BOOK", 1_000_000);

    let err = reply(&mut state, Reply { id, outcome: ReplyOutcome::Failure {} }).unwrap_err();
    assert_eq!(err, ContractError::InstantiateCw721Error {});

    let record = query_collection(&state, "creator_c", "book");
    assert_eq!(record.collection_address, None);

    // the pending request survived, so the retry of the completion lands
    resolve(&mut state, id, "reg1");
    let record = query_collection(&state, "creator_c", "book");
    assert_eq!(record.collection_address, Some("reg1".to_string()));
}

/// A resolved completion retires its pending request: the same token is
/// rejected the second time.
#[test]
fn completion_is_terminal() {
    let mut state = instantiate(info("creator_c"), InstantiateMsg { owner: None, mint_percent: 2 });
    let id = create_collection(&mut state, "creator_c", "book", "BOOK", 1_000_000);
    resolve(&mut state, id, "reg1");

    let err = reply(
        &mut state,
        Reply { id, outcome: ReplyOutcome::Success { contract_address: "reg2".to_string() } },
    )
    .unwrap_err();
    assert_eq!(err, ContractError::InvalidReplyID {});

    let record = query_collection(&state, "creator_c", "book");
    assert_eq!(record.collection_address, Some("reg1".to_string()));
}

/// A completion under an unknown or stale correlation token is rejected.
#[test]
fn unknown_reply_id_rejected() {
    let mut state = instantiate(info("creator_c"), InstantiateMsg { owner: None, mint_percent: 2 });

    let err = reply(
        &mut state,
        Reply { id: 99, outcome: ReplyOutcome::Success { contract_address: "reg1".to_string() } },
    )
    .unwrap_err();
    assert_eq!(err, ContractError::InvalidReplyID {});

    let first = create_collection(&mut state, "creator_c", "book", "BOOK", 1_000_000);
    let second = create_collection(&mut state, "creator_c", "zine", "ZNE", 5);
    assert_eq!(second, first + 1);

    // only the currently expected token is accepted
    let err = reply(
        &mut state,
        Reply {
            id: first,
            outcome: ReplyOutcome::Success { contract_address: "reg1".to_string() },
        },
    )
    .unwrap_err();
    assert_eq!(err, ContractError::InvalidReplyID {});
}

/// Any coin whose amount is not the fee fails the mint, whatever its
/// currency; a right-amount coin in the wrong currency fails too.
#[test]
fn mint_rejects_mismatched_funds() {
    let mut state = instantiate(info("creator_c"), InstantiateMsg { owner: None, mint_percent: 2 });
    let id = create_collection(&mut state, "creator_c", "book", "BOOK", 1_000_000);
    resolve(&mut state, id, "reg1");

    for funds in [
        vec![coin(999_999, "uxion")],
        vec![coin(1_000_001, "uxion")],
        vec![coin(999_999, "other")],
        vec![coin(1_000_000, "wrong_denom")],
        vec![coin(1_000_000, "uxion"), coin(5, "uxion")],
    ] {
        let err = mint(&mut state, "buyer", "creator_c", "book", "reg1", funds).unwrap_err();
        assert_eq!(err, ContractError::IncorrectFunds {});
    }
    assert_eq!(query_token_index(&state), 0);
}

/// A mint with no coins attached passes the payment check: every attached
/// coin — of which there are none — matches the fee.
#[test]
fn mint_with_empty_funds_is_accepted() {
    let mut state = instantiate(info("creator_c"), InstantiateMsg { owner: None, mint_percent: 2 });
    let id = create_collection(&mut state, "creator_c", "book", "BOOK", 1_000_000);
    resolve(&mut state, id, "reg1");

    let res = mint(&mut state, "buyer", "creator_c", "book", "reg1", vec![]);
    assert!(res.is_ok());
}

/// A mint against an unknown collection, or one whose registry address is
/// not resolved yet, is rejected.
#[test]
fn mint_requires_resolved_collection() {
    let mut state = instantiate(info("creator_c"), InstantiateMsg { owner: None, mint_percent: 2 });

    let err = mint(
        &mut state,
        "buyer",
        "creator_c",
        "book",
        "reg1",
        vec![coin(1_000_000, "uxion")],
    )
    .unwrap_err();
    assert_eq!(err, ContractError::CollectionNotFound {});

    create_collection(&mut state, "creator_c", "book", "BOOK", 1_000_000);
    // created, but the completion has not arrived: still not mintable
    let err = mint(
        &mut state,
        "buyer",
        "creator_c",
        "book",
        "reg1",
        vec![coin(1_000_000, "uxion")],
    )
    .unwrap_err();
    assert_eq!(err, ContractError::CollectionNotFound {});
}

/// Sequential successful mints issue consecutive identifiers, even across
/// distinct collections, and the counter reports how many were issued.
#[test]
fn token_sequence_across_collections() {
    let mut state = instantiate(info("creator_c"), InstantiateMsg { owner: None, mint_percent: 2 });
    let book = create_collection(&mut state, "creator_c", "book", "BOOK", 1_000_000);
    resolve(&mut state, book, "reg1");
    let zine = create_collection(&mut state, "creator_c", "zine", "ZNE", 5);
    resolve(&mut state, zine, "reg2");

    let mut issued: Vec<u64> = vec![];
    for (name, address, fee) in
        [("book", "reg1", 1_000_000), ("zine", "reg2", 5), ("book", "reg1", 1_000_000)]
    {
        let res = mint(
            &mut state,
            "buyer",
            "creator_c",
            name,
            address,
            vec![coin(fee, "uxion")],
        )
        .unwrap();
        match &res.messages[0] {
            OutMsg::MintToken { token_id, .. } => issued.push(*token_id),
            _ => panic!("expected the mint instruction first"),
        }
    }
    assert_eq!(issued, vec![1, 2, 3]);
    assert_eq!(query_token_index(&state), 3);
}

/// A config update from a non-owner fails with `Unauthorized` and changes
/// nothing; so does a withdrawal.
#[test]
fn unauthorized_callers_change_nothing() {
    let mut state =
        instantiate(info("owner_o"), InstantiateMsg { owner: Some("owner_o".to_string()), mint_percent: 2 });

    let err = execute(
        &mut state,
        mock_env(),
        info("intruder"),
        ExecuteMsg::UpdateConfig(Config { owner: "intruder".to_string(), mint_percent: 50 }),
    )
    .unwrap_err();
    assert_eq!(err, ContractError::Unauthorized {});

    let err = execute(
        &mut state,
        mock_env(),
        info("intruder"),
        ExecuteMsg::Withdraw(WithdrawParams {
            withdraw_amount: 1,
            withdraw_address: "intruder".to_string(),
        }),
    )
    .unwrap_err();
    assert_eq!(err, ContractError::Unauthorized {});

    let config = query_config(&state);
    assert_eq!(config.owner, "owner_o");
    assert_eq!(config.mint_percent, 2);
}

/// A fee update for a name the sender owns no collection under is rejected
/// with the not-found error.
#[test]
fn update_mint_fee_unknown_collection_rejected() {
    let mut state = instantiate(info("creator_c"), InstantiateMsg { owner: None, mint_percent: 2 });

    let err = execute(
        &mut state,
        mock_env(),
        info("creator_c"),
        ExecuteMsg::UpdateMintFee(UpdateMintFeeParams {
            collection_name: "book".to_string(),
            mint_fee: 10,
        }),
    )
    .unwrap_err();
    assert_eq!(err, ContractError::CollectionNotFound {});
}

/// Querying a collection nobody registered reports the default record.
#[test]
fn query_unknown_collection_returns_default() {
    let state = instantiate(info("creator_c"), InstantiateMsg { owner: None, mint_percent: 2 });

    let record = query_collection(&state, "creator_c", "nothing");
    assert_eq!(record.name, "");
    assert_eq!(record.symbol, "");
    assert_eq!(record.mint_fee, 0);
    assert_eq!(record.collection_address, None);
}

/// The response conversions carry every field over unchanged.
#[test]
fn response_conversions() {
    let config = Config { owner: "owner_o".to_string(), mint_percent: 7 };
    let config_response = ConfigResponse::from(config);
    assert_eq!(config_response.owner, "owner_o");
    assert_eq!(config_response.mint_percent, 7);

    let collection_info = CollectionInfo {
        name: "book".to_string(),
        symbol: "BOOK".to_string(),
        mint_fee: 42,
        collection_address: Some("reg1".to_string()),
    };
    let collection_response = CollectionInfoResponse::from(collection_info);
    assert_eq!(collection_response.name, "book");
    assert_eq!(collection_response.symbol, "BOOK");
    assert_eq!(collection_response.mint_fee, 42);
    assert_eq!(collection_response.collection_address, Some("reg1".to_string()));
}
