use mintyplex::contract::{execute_create_collection, instantiate, query};
use mintyplex::msg::{Env, InstantiateMsg, MessageInfo, QueryAnswer, QueryMsg};
use mintyplex::state::CollectionParams;
use mintyplex::ContractError;

fn mock_env() -> Env {
    Env { contract_address: "mintyplex_contract".to_string() }
}

fn mock_info(sender: &str) -> MessageInfo {
    MessageInfo { sender: sender.to_string(), funds: vec![] }
}

#[test]
fn proper_instantiation() {
    let msg = InstantiateMsg { owner: None, mint_percent: 2 };
    let info = mock_info("creator");

    let state = instantiate(info, msg);

    let config = match query(&state, QueryMsg::Config {}) {
        QueryAnswer::Config(config) => config,
        _ => panic!("instantiation failed"),
    };
    assert_eq!("creator".to_string(), config.owner);
    assert_eq!(2, config.mint_percent);
}

#[test]
fn collection_creation() {
    let env = mock_env();
    let info = mock_info("creator");
    let msg = InstantiateMsg { owner: None, mint_percent: 2 };
    let mut state = instantiate(info.clone(), msg);

    let cw721_non_transferable_code_id = 465;

    let params: CollectionParams = CollectionParams {
        code_id: cw721_non_transferable_code_id,
        name: "book".to_string(),
        symbol: "book".to_string(),
        mint_fee: 1_000_000,
    };

    let invalid_params: CollectionParams = CollectionParams {
        code_id: cw721_non_transferable_code_id,
        name: "".to_string(),
        symbol: "".to_string(),
        mint_fee: 1_000_000,
    };

    let err = execute_create_collection(&mut state, env.clone(), info.clone(), invalid_params)
        .unwrap_err();
    assert_eq!(err, ContractError::InvalidInput {});

    let res = execute_create_collection(&mut state, env.clone(), info.clone(), params);
    assert!(res.is_ok());
}
