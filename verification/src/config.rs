//! Per-chain configuration, as the pipeline reads it: plain values, resolved
//! before the pipeline starts and read-only afterwards. A configuration file
//! may leave some fields out; the `Load` forms carry those as options, and
//! the functions here resolve them against each chain's defaults.

use vstd::prelude::*;

verus! {

/// Poll interval, in time units, when the file names none.
pub const DEFAULT_POLL_INTERVAL: u64 = 1;

/// Confirmation depth when the file names none.
pub const DEFAULT_CONFIRMATIONS: u64 = 12;

/// Parameters of an outgoing transaction.
pub struct TransactionConfig {
    /// Gas limit.
    pub gas: u64,
    /// Gas price.
    pub gas_price: u64,
    /// Value sent along.
    pub value: u64,
}

/// One chain's contract artifact, reduced to the plain values the pipeline
/// reads: the compiled bytecode, and the two values derived from the ABI
/// description that the contract binding needs. An absent option means the
/// ABI description lacks that entry -- a configuration error the binding
/// reports at startup.
pub struct ContractConfig {
    /// Compiled contract bytecode, used only at deployment.
    pub bin: Vec<u8>,
    /// 4-byte selector of the `deposit` function, if the ABI has one.
    pub deposit_selector: Option<Vec<u8>>,
    /// 32-byte signature topic of the `Deposit` event, if the ABI has one.
    pub deposit_event_topic: Option<Vec<u8>>,
}

/// Settings for one chain's node, fully resolved.
pub struct Node {
    /// 20-byte account that signs outgoing transactions.
    pub account: Vec<u8>,
    /// The chain's bridge contract artifact.
    pub contract: ContractConfig,
    /// Path of the node's IPC endpoint.
    pub ipc: String,
    /// Parameters of the deployment transaction.
    pub deploy_tx: TransactionConfig,
    /// Poll interval in time units.
    pub poll_interval: u64,
    /// Blocks a log's block must be buried under before release.
    pub required_confirmations: u64,
}

/// The whole application configuration: one node per chain.
pub struct Config {
    /// The main chain's node.
    pub mainnet: Node,
    /// The side chain's node.
    pub testnet: Node,
}

/// Transaction parameters as the file gives them; an absent field defaults
/// to zero.
pub struct LoadTransactionConfig {
    /// Gas limit, if given.
    pub gas: Option<u64>,
    /// Gas price, if given.
    pub gas_price: Option<u64>,
    /// Value, if given.
    pub value: Option<u64>,
}

/// One node's settings as the file gives them, with the contract artifact
/// already read and reduced to plain values.
pub struct LoadNode {
    /// 20-byte signing account.
    pub account: Vec<u8>,
    /// The contract artifact.
    pub contract: ContractConfig,
    /// IPC endpoint path, if given.
    pub ipc: Option<String>,
    /// Deployment transaction parameters, if given.
    pub deploy_tx: Option<LoadTransactionConfig>,
    /// Poll interval, if given.
    pub poll_interval: Option<u64>,
    /// Confirmation depth, if given.
    pub required_confirmations: Option<u64>,
}

/// The whole file, one entry per chain.
pub struct LoadConfig {
    /// The main chain's entry.
    pub mainnet: LoadNode,
    /// The side chain's entry.
    pub testnet: LoadNode,
}

/// The given value, or the default where none is given.
pub open spec fn or_default(v: Option<u64>, d: u64) -> u64 {
    match v {
        Some(x) => x,
        None => d,
    }
}

/// The transaction parameters an optional file entry resolves to.
pub open spec fn tx_from_load(tx: Option<LoadTransactionConfig>) -> TransactionConfig {
    match tx {
        Some(t) => (TransactionConfig {
            gas: or_default(t.gas, 0),
            gas_price: or_default(t.gas_price, 0),
            value: or_default(t.value, 0),
        }),
        None => (TransactionConfig { gas: 0, gas_price: 0, value: 0 }),
    }
}

/// How a resolved node relates to its file entry and the chain's default
/// IPC path.
pub open spec fn node_resolved(r: Node, node: LoadNode, default_ipc: Seq<char>) -> bool {
    &&& r.account@ == node.account@
    &&& r.contract == node.contract
    &&& (match node.ipc {
        Some(p) => r.ipc@ == p@,
        None => r.ipc@ == default_ipc,
    })
    &&& r.deploy_tx == tx_from_load(node.deploy_tx)
    &&& r.poll_interval == or_default(node.poll_interval, DEFAULT_POLL_INTERVAL)
    &&& r.required_confirmations == or_default(
        node.required_confirmations,
        DEFAULT_CONFIRMATIONS,
    )
}

/// Defaults that differ per chain.
pub struct NodeDefaults {
    /// Default IPC endpoint path.
    pub ipc: String,
}

impl NodeDefaults {
    /// Defaults for the main chain's node.
    pub fn mainnet() -> (r: NodeDefaults)
        ensures
            r.ipc@ == Seq::<char>::empty(),
    {
        NodeDefaults { ipc: String::new() }
    }

    /// Defaults for the side chain's node.
    pub fn testnet() -> (r: NodeDefaults)
        ensures
            r.ipc@ == Seq::<char>::empty(),
    {
        NodeDefaults { ipc: String::new() }
    }
}

impl Node {
    /// Resolves one file entry against the chain's defaults: an absent IPC
    /// path falls back to the default, absent transaction parameters to
    /// zero, the poll interval to one time unit, and the confirmation depth
    /// to twelve blocks.
    pub fn from_load_struct(node: LoadNode, defaults: NodeDefaults) -> (r: Node)
        ensures
            node_resolved(r, node, defaults.ipc@),
    {
        let deploy_tx = match node.deploy_tx {
            Some(tx) => TransactionConfig {
                gas: match tx.gas {
                    Some(g) => g,
                    None => 0,
                },
                gas_price: match tx.gas_price {
                    Some(g) => g,
                    None => 0,
                },
                value: match tx.value {
                    Some(v) => v,
                    None => 0,
                },
            },
            None => TransactionConfig { gas: 0, gas_price: 0, value: 0 },
        };
        Node {
            account: node.account,
            contract: node.contract,
            ipc: match node.ipc {
                Some(p) => p,
                None => defaults.ipc,
            },
            deploy_tx,
            poll_interval: match node.poll_interval {
                Some(p) => p,
                None => DEFAULT_POLL_INTERVAL,
            },
            required_confirmations: match node.required_confirmations {
                Some(c) => c,
                None => DEFAULT_CONFIRMATIONS,
            },
        }
    }
}

impl Config {
    /// Resolves a whole loaded file, each chain's entry against that
    /// chain's defaults.
    pub fn from_load_struct(config: LoadConfig) -> (r: Config)
        ensures
            node_resolved(r.mainnet, config.mainnet, Seq::<char>::empty()),
            node_resolved(r.testnet, config.testnet, Seq::<char>::empty()),
    {
        Config {
            mainnet: Node::from_load_struct(config.mainnet, NodeDefaults::mainnet()),
            testnet: Node::from_load_struct(config.testnet, NodeDefaults::testnet()),
        }
    }
}

} // verus!
