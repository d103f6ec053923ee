use xasset::contract::TokenContract;
use xasset::error::Error;
use xasset::orchestrator::{GovernanceContract, OrchestratorContract};

fn create_governance_contract() -> (GovernanceContract, u64) {
    let admin: u64 = 7;
    (GovernanceContract { address: 50, admin }, admin)
}

fn instance_owned_by(owner: u64) -> TokenContract {
    TokenContract::new(
        100,
        owner,
        200,
        300,
        300,
        "USDT".to_string(),
        11000,
        "United States Dollar xAsset".to_string(),
        "xUSD".to_string(),
        7,
        1100,
    )
}

#[test]
fn test_governance_constructor() {
    let (_client, _admin) = create_governance_contract();
}

#[test]
fn governance_changes_ratio_of_owned_instance() {
    let (gov, admin) = create_governance_contract();
    let mut token = instance_owned_by(gov.address);
    assert_eq!(gov.execute_change(admin, &mut token, 15000), Ok(15000));
    assert_eq!(token.minimum_collateralization_ratio(), 15000);
    assert_eq!(gov.execute_change(admin + 1, &mut token, 12000), Err(Error::Unauthorized));
    let mut other = instance_owned_by(99);
    assert_eq!(gov.execute_change(admin, &mut other, 12000), Err(Error::Unauthorized));
    assert_eq!(other.minimum_collateralization_ratio(), 11000);
}

#[test]
fn registry_refuses_second_deploy_and_unknown_symbol() {
    let mut orch = OrchestratorContract::new(1, 2, 3, vec![0u8; 32]);
    assert_eq!(orch.get_asset_contract(&"xUSD".to_string()), Err(Error::NoSuchAsset));
    assert_eq!(orch.set_asset_contract(1, "xUSD".to_string(), 40), Ok(()));
    assert_eq!(orch.set_asset_contract(1, "xUSD".to_string(), 41), Err(Error::AssetAlreadyDeployed));
    assert_eq!(orch.set_asset_contract(9, "xEUR".to_string(), 41), Err(Error::Unauthorized));
    assert_eq!(orch.get_asset_contract(&"xUSD".to_string()), Ok(40));
    assert_eq!(orch.set_existing_asset_contract(1, "xUSD".to_string(), 42), Ok(()));
    assert_eq!(orch.get_asset_contract(&"xUSD".to_string()), Ok(42));
    assert_eq!(orch.set_existing_asset_contract(1, "xEUR".to_string(), 43), Ok(()));
    assert_eq!(orch.get_asset_contract(&"xEUR".to_string()), Ok(43));
    assert_eq!(orch.update_xasset_wasm_hash(1, vec![1u8; 32]), Ok(vec![1u8; 32]));
    assert_eq!(orch.wasm_hash, vec![1u8; 32]);
}

#[test]
fn deploy_records_instance_and_upgrade_finds_it() {
    let mut orch = OrchestratorContract::new(1, 2, 3, vec![0u8; 32]);
    let t = orch
        .deploy_asset_contract(1, 77, 4, "USDT".to_string(), 11000, "Dollar".to_string(), "xUSD".to_string(), 7, 1100)
        .unwrap();
    assert_eq!((t.address, t.admin, t.xlm_sac, t.xlm_contract, t.asset_contract), (77, 1, 2, 3, 4));
    assert_eq!(t.symbol(), "xUSD".to_string());
    assert_eq!(t.minimum_collateralization_ratio(), 11000);
    assert_eq!(t.get_total_xasset(), 0);
    let again = orch.deploy_asset_contract(1, 78, 4, "USDT".to_string(), 11000, "D".to_string(), "xUSD".to_string(), 7, 1100);
    assert_eq!(again.err(), Some(Error::AssetAlreadyDeployed));
    let stranger = orch.deploy_asset_contract(5, 79, 4, "EUR".to_string(), 11000, "E".to_string(), "xEUR".to_string(), 7, 1100);
    assert_eq!(stranger.err(), Some(Error::Unauthorized));
    assert_eq!(orch.upgrade_existing_asset_contract(1, &"xUSD".to_string()), Ok(77));
    assert_eq!(orch.upgrade_existing_asset_contract(1, &"xEUR".to_string()), Err(Error::NoSuchAsset));
    assert_eq!(orch.upgrade_existing_asset_contract(2, &"xUSD".to_string()), Err(Error::Unauthorized));
}
