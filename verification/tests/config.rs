use bridge::config::{
    Config, ContractConfig, LoadConfig, LoadNode, LoadTransactionConfig, NodeDefaults,
};

fn account_mainnet() -> Vec<u8> {
    // 0x1B68Cb0B50181FC4006Ce572cF346e596E51818b
    vec![
        0x1B, 0x68, 0xCb, 0x0B, 0x50, 0x18, 0x1F, 0xC4, 0x00, 0x6C, 0xe5, 0x72, 0xcF, 0x34, 0x6e,
        0x59, 0x6E, 0x51, 0x81, 0x8b,
    ]
}

fn account_testnet() -> Vec<u8> {
    // 0x0000000000000000000000000000000000000001
    let mut a = vec![0u8; 20];
    a[19] = 1;
    a
}

fn contract() -> ContractConfig {
    ContractConfig {
        bin: vec![0x60, 0x60, 0x60],
        deposit_selector: Some(vec![1, 2, 3, 4]),
        deposit_event_topic: Some(vec![9u8; 32]),
    }
}

#[test]
fn full_setup_keeps_given_values_and_fills_the_rest() {
    let loaded = LoadConfig {
        mainnet: LoadNode {
            account: account_mainnet(),
            contract: contract(),
            ipc: Some(String::from("/mainnet.ipc")),
            deploy_tx: None,
            poll_interval: Some(2),
            required_confirmations: Some(100),
        },
        testnet: LoadNode {
            account: account_testnet(),
            contract: contract(),
            ipc: Some(String::from("/testnet.ipc")),
            deploy_tx: Some(LoadTransactionConfig {
                gas: Some(20),
                gas_price: None,
                value: Some(15),
            }),
            poll_interval: None,
            required_confirmations: None,
        },
    };
    let config = Config::from_load_struct(loaded);

    assert_eq!(config.mainnet.account, account_mainnet());
    assert_eq!(config.mainnet.ipc, "/mainnet.ipc");
    assert_eq!(config.mainnet.poll_interval, 2);
    assert_eq!(config.mainnet.required_confirmations, 100);
    assert_eq!(config.mainnet.deploy_tx.gas, 0);
    assert_eq!(config.mainnet.deploy_tx.gas_price, 0);
    assert_eq!(config.mainnet.deploy_tx.value, 0);

    assert_eq!(config.testnet.account, account_testnet());
    assert_eq!(config.testnet.ipc, "/testnet.ipc");
    assert_eq!(config.testnet.deploy_tx.gas, 20);
    assert_eq!(config.testnet.deploy_tx.gas_price, 0);
    assert_eq!(config.testnet.deploy_tx.value, 15);
    assert_eq!(config.testnet.poll_interval, 1);
    assert_eq!(config.testnet.required_confirmations, 12);
}

#[test]
fn minimal_setup_falls_back_to_every_default() {
    let loaded = LoadConfig {
        mainnet: LoadNode {
            account: account_mainnet(),
            contract: contract(),
            ipc: None,
            deploy_tx: None,
            poll_interval: None,
            required_confirmations: None,
        },
        testnet: LoadNode {
            account: account_testnet(),
            contract: contract(),
            ipc: None,
            deploy_tx: None,
            poll_interval: None,
            required_confirmations: None,
        },
    };
    let config = Config::from_load_struct(loaded);

    for node in [&config.mainnet, &config.testnet] {
        assert_eq!(node.ipc, "");
        assert_eq!(node.deploy_tx.gas, 0);
        assert_eq!(node.deploy_tx.gas_price, 0);
        assert_eq!(node.deploy_tx.value, 0);
        assert_eq!(node.poll_interval, 1);
        assert_eq!(node.required_confirmations, 12);
    }
    assert_eq!(config.mainnet.account, account_mainnet());
    assert_eq!(config.testnet.account, account_testnet());
}

#[test]
fn chain_defaults_use_an_empty_ipc_path() {
    assert_eq!(NodeDefaults::mainnet().ipc, "");
    assert_eq!(NodeDefaults::testnet().ipc, "");
}
