use stellar_router::harness::{
    ContractSlot, DeployedContract, TestAccount, TestSuite, TestnetConfig,
};

fn account(address: &str) -> TestAccount {
    TestAccount { address: address.to_string(), secret: "S".to_string() }
}

fn contract(id: &str) -> DeployedContract {
    DeployedContract {
        contract_id: id.to_string(),
        wasm_path: "w".to_string(),
        name: "n".to_string(),
        network: "testnet".to_string(),
    }
}

fn suite() -> TestSuite {
    TestSuite::with_accounts(
        TestnetConfig::from_settings(None, None, None),
        account("GADMIN"),
        account("GUSER1"),
        account("GUSER2"),
    )
}

#[test]
fn config_defaults_to_public_testnet() {
    let c = TestnetConfig::from_settings(None, None, None);
    assert_eq!(c.network, "testnet");
    assert_eq!(c.rpc_url, "https://soroban-testnet.stellar.org");
    assert_eq!(c.network_passphrase, "Test SDF Network ; September 2015");
    let c = TestnetConfig::from_settings(Some("futurenet".to_string()), None, Some("P".to_string()));
    assert_eq!((c.network.as_str(), c.network_passphrase.as_str()), ("futurenet", "P"));
}

#[test]
fn keys_are_read_from_generate_output() {
    let out = "Generated new key\nPublic key:  GABC123 \r\nSecret key: SXYZ789\n";
    let a = TestAccount::parse_keys(out).unwrap();
    assert_eq!(a.address, "GABC123");
    assert_eq!(a.secret, "SXYZ789");
}

#[test]
fn missing_keys_are_reported() {
    assert_eq!(TestAccount::parse_keys("nothing here").err().unwrap(), "Failed to parse public key");
    assert_eq!(
        TestAccount::parse_keys("Public key: GABC\n").err().unwrap(),
        "Failed to parse secret key"
    );
}

#[test]
fn key_value_stops_at_the_next_colon() {
    let a = TestAccount::parse_keys("Public key: G:extra\nSecret key:S\n").unwrap();
    assert_eq!(a.address, "G");
    assert_eq!(a.secret, "S");
}

#[test]
fn generate_failure_reports_stderr() {
    let r = TestAccount::from_generate_output(false, b"", b"boom");
    assert_eq!(r.err().unwrap(), "stellar keys generate failed: boom");
    let r = TestAccount::from_generate_output(true, b"Public key: GA\nSecret key: SA\n", b"");
    assert_eq!(r.unwrap().address, "GA");
}

#[test]
fn invalid_utf8_is_replaced() {
    let r = TestAccount::from_generate_output(false, b"", &[0x66, 0xff, 0x67]);
    assert_eq!(r.err().unwrap(), "stellar keys generate failed: f\u{fffd}g");
}

#[test]
fn command_arguments() {
    assert_eq!(TestAccount::generate_args(), ["keys", "generate", "--no-fund"]);
    assert_eq!(account("GA").fund_args("testnet"), ["keys", "fund", "GA", "--network", "testnet"]);
    assert_eq!(
        DeployedContract::deploy_args("x.wasm", "testnet", &account("GA")),
        ["contract", "deploy", "--wasm", "x.wasm", "--network", "testnet", "--source", "GA"]
    );
    let args = vec!["--name".to_string(), "oracle".to_string()];
    assert_eq!(
        contract("CID").invoke_args("resolve", &args, &account("GA")),
        [
            "contract", "invoke", "--id", "CID", "--network", "testnet", "--source", "GA", "--",
            "resolve", "--name", "oracle"
        ]
    );
}

#[test]
fn fund_outcome_reports_stderr() {
    assert_eq!(TestAccount::fund_outcome(true, b"x"), Ok(()));
    assert_eq!(TestAccount::fund_outcome(false, b"no"), Err("Friendbot funding failed: no".to_string()));
}

#[test]
fn deploy_output_gives_trimmed_id() {
    let c = DeployedContract::from_deploy_output(true, b"  CABC\n", b"", "p.wasm", "router-core", "testnet")
        .unwrap();
    assert_eq!(c.contract_id, "CABC");
    assert_eq!((c.wasm_path.as_str(), c.name.as_str(), c.network.as_str()), ("p.wasm", "router-core", "testnet"));
    let e = DeployedContract::from_deploy_output(false, b"", b"denied", "p", "n", "t").err().unwrap();
    assert_eq!(e, "Contract deployment failed: denied");
}

#[test]
fn invoke_outcomes() {
    assert_eq!(DeployedContract::invoke_outcome(true, b" 1 \n", b""), Ok("1".to_string()));
    assert_eq!(
        DeployedContract::invoke_outcome(false, b"", b" err \n"),
        Err("Contract invocation failed:  err \n".to_string())
    );
    assert_eq!(DeployedContract::try_invoke_outcome(false, b"", b" err \n"), Err("err".to_string()));
    assert_eq!(DeployedContract::try_invoke_outcome(true, b"ok\n", b"warn"), Ok("ok".to_string()));
}

#[test]
fn missing_contracts_are_reported() {
    let s = suite();
    assert_eq!(s.core_contract().err().unwrap(), "Core contract not deployed");
    assert_eq!(s.registry().err().unwrap(), "Registry contract not deployed");
    assert_eq!(s.access().err().unwrap(), "Access contract not deployed");
    assert_eq!(s.middleware().err().unwrap(), "Middleware contract not deployed");
}

#[test]
fn installed_contracts_are_found() {
    let mut s = suite();
    s.install(ContractSlot::Core, contract("CORE"));
    s.install(ContractSlot::Registry, contract("REG"));
    s.install(ContractSlot::Access, contract("ACC"));
    s.install(ContractSlot::Middleware, contract("MID"));
    assert_eq!(s.core_contract().unwrap().contract_id, "CORE");
    assert_eq!(s.registry().unwrap().contract_id, "REG");
    assert_eq!(s.access().unwrap().contract_id, "ACC");
    assert_eq!(s.middleware().unwrap().contract_id, "MID");
    assert!(s.contract(ContractSlot::Timelock).is_none());
}

#[test]
fn deployment_order_and_artifacts() {
    let order = TestSuite::deployment_order();
    assert_eq!(
        order,
        [
            ContractSlot::Registry,
            ContractSlot::Access,
            ContractSlot::Middleware,
            ContractSlot::Timelock,
            ContractSlot::Multicall,
            ContractSlot::Core
        ]
    );
    assert_eq!(ContractSlot::Core.wasm_path(), "target/wasm32-unknown-unknown/release/router_core.wasm");
    assert_eq!(ContractSlot::Multicall.package_name(), "router-multicall");
}

#[test]
fn initializations_cover_deployed_contracts_in_order() {
    let mut s = suite();
    for slot in TestSuite::deployment_order() {
        s.install(slot, contract("C"));
    }
    let calls = s.initializations();
    let got: Vec<(ContractSlot, Vec<String>)> =
        calls.iter().map(|c| (c.slot, c.args.clone())).collect();
    let admin = "GADMIN".to_string();
    let strs = |v: &[&str]| v.iter().map(|s| s.to_string()).collect::<Vec<_>>();
    assert_eq!(
        got,
        vec![
            (ContractSlot::Registry, strs(&["--admin", &admin])),
            (ContractSlot::Access, strs(&["--super_admin", &admin])),
            (ContractSlot::Middleware, strs(&["--admin", &admin])),
            (ContractSlot::Timelock, strs(&["--admin", &admin, "--min_delay", "60"])),
            (ContractSlot::Multicall, strs(&["--admin", &admin, "--max_batch_size", "10"])),
            (ContractSlot::Core, strs(&["--admin", &admin])),
        ]
    );
    assert!(calls.iter().all(|c| c.method == "initialize"));
}

#[test]
fn initializations_skip_missing_contracts() {
    let mut s = suite();
    s.install(ContractSlot::Timelock, contract("T"));
    let calls = s.initializations();
    assert_eq!(calls.len(), 1);
    assert_eq!(calls[0].slot, ContractSlot::Timelock);
    assert!(suite().initializations().is_empty());
}
