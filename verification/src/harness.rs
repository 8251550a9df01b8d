//! Testnet harness for the router contracts: the accounts and contracts it
//! works with, the `stellar` CLI arguments it passes, how it reads the CLI's
//! answers, and the order in which a suite deploys and initializes contracts.
use crate::text::{
    find_line_containing, first_line_containing, lines, lines_of, second_piece,
    second_piece_of, trim, trimmed,
};
use vstd::prelude::*;
use vstd::string::StringExecFns;
use vstd::utf8::{decode_utf8, valid_utf8};

verus! {

/// What `String::from_utf8_lossy` makes of `bytes`.
pub uninterp spec fn lossy_text(bytes: Seq<u8>) -> Seq<char>;

/// `String::from_utf8_lossy`, owned: decodes `bytes` as UTF-8 and replaces
/// each invalid sequence by U+FFFD. Stated here: the result is `lossy_text`
/// of the bytes, and valid UTF-8 decodes to exactly its characters; how an
/// invalid sequence is replaced is left to the name.
#[verifier::external_body]
fn decode_lossy(bytes: &[u8]) -> (s: String)
    ensures
        s@ == lossy_text(bytes@),
        valid_utf8(bytes@) ==> s@ == decode_utf8(bytes@),
{
    String::from_utf8_lossy(bytes).into_owned()
}

/// The text of a process's output bytes: their UTF-8 decoding when they are
/// valid UTF-8, what `String::from_utf8_lossy` makes of them otherwise.
pub open spec fn output_text(bytes: Seq<u8>) -> Seq<char> {
    if valid_utf8(bytes) {
        decode_utf8(bytes)
    } else {
        lossy_text(bytes)
    }
}

/// The character sequences of a sequence of strings.
pub open spec fn texts(v: Seq<String>) -> Seq<Seq<char>> {
    v.map_values(|s: String| s@)
}

/// The value after the first `:` on the first line of `output` that contains
/// `label`, trimmed.
pub open spec fn labelled_value(output: Seq<char>, label: Seq<char>) -> Option<Seq<char>> {
    match first_line_containing(lines_of(output), label) {
        None => None,
        Some(line) => match second_piece(line, ':') {
            None => None,
            Some(piece) => Some(trimmed(piece)),
        },
    }
}

/// Configuration for Stellar testnet integration tests.
pub struct TestnetConfig {
    pub network: String,
    pub rpc_url: String,
    pub network_passphrase: String,
}

/// Test account with keypair.
pub struct TestAccount {
    pub address: String,
    pub secret: String,
}

/// Deployed contract instance.
pub struct DeployedContract {
    pub contract_id: String,
    pub wasm_path: String,
    pub name: String,
    pub network: String,
}

/// The router contracts a suite deploys.
#[derive(Clone, Copy, Debug, PartialEq, Eq, Structural)]
pub enum ContractSlot {
    Registry,
    Access,
    Middleware,
    Timelock,
    Multicall,
    Core,
}

/// One `initialize` call that a suite makes on one of its contracts.
pub struct Initialization {
    pub slot: ContractSlot,
    pub method: String,
    pub args: Vec<String>,
}

/// Shared integration-test fixture that deploys and initializes all contracts.
pub struct TestSuite {
    pub config: TestnetConfig,
    pub admin: TestAccount,
    pub user1: TestAccount,
    pub user2: TestAccount,
    pub router_core: Option<DeployedContract>,
    pub router_registry: Option<DeployedContract>,
    pub router_access: Option<DeployedContract>,
    pub router_middleware: Option<DeployedContract>,
    pub router_timelock: Option<DeployedContract>,
    pub router_multicall: Option<DeployedContract>,
}

/// Network used when none is configured.
pub open spec fn default_network() -> Seq<char> {
    "testnet"@
}

/// RPC endpoint used when none is configured.
pub open spec fn default_rpc_url() -> Seq<char> {
    "https://soroban-testnet.stellar.org"@
}

/// Network passphrase used when none is configured.
pub open spec fn default_passphrase() -> Seq<char> {
    "Test SDF Network ; September 2015"@
}

/// A configured value, or the default when there is none.
pub open spec fn or_default(v: Option<String>, default: Seq<char>) -> Seq<char> {
    match v {
        Some(s) => s@,
        None => default,
    }
}

/// The build artifact of each contract.
pub open spec fn wasm_path_of(slot: ContractSlot) -> Seq<char> {
    match slot {
        ContractSlot::Registry => "target/wasm32-unknown-unknown/release/router_registry.wasm"@,
        ContractSlot::Access => "target/wasm32-unknown-unknown/release/router_access.wasm"@,
        ContractSlot::Middleware => "target/wasm32-unknown-unknown/release/router_middleware.wasm"@,
        ContractSlot::Timelock => "target/wasm32-unknown-unknown/release/router_timelock.wasm"@,
        ContractSlot::Multicall => "target/wasm32-unknown-unknown/release/router_multicall.wasm"@,
        ContractSlot::Core => "target/wasm32-unknown-unknown/release/router_core.wasm"@,
    }
}

/// The name under which each contract is deployed.
pub open spec fn package_name_of(slot: ContractSlot) -> Seq<char> {
    match slot {
        ContractSlot::Registry => "router-registry"@,
        ContractSlot::Access => "router-access"@,
        ContractSlot::Middleware => "router-middleware"@,
        ContractSlot::Timelock => "router-timelock"@,
        ContractSlot::Multicall => "router-multicall"@,
        ContractSlot::Core => "router-core"@,
    }
}

/// The order in which a suite deploys its contracts.
pub open spec fn deployment_sequence() -> Seq<ContractSlot> {
    seq![
        ContractSlot::Registry,
        ContractSlot::Access,
        ContractSlot::Middleware,
        ContractSlot::Timelock,
        ContractSlot::Multicall,
        ContractSlot::Core,
    ]
}

/// The order in which a suite initializes its contracts: the deployment
/// order, with router-core, which builds on the others, last.
pub open spec fn initialization_sequence() -> Seq<ContractSlot> {
    deployment_sequence()
}

/// The arguments of each contract's `initialize` call, for an admin address.
pub open spec fn init_args_of(slot: ContractSlot, admin: Seq<char>) -> Seq<Seq<char>> {
    match slot {
        ContractSlot::Access => seq!["--super_admin"@, admin],
        ContractSlot::Timelock => seq!["--admin"@, admin, "--min_delay"@, "60"@],
        ContractSlot::Multicall => seq!["--admin"@, admin, "--max_batch_size"@, "10"@],
        _ => seq!["--admin"@, admin],
    }
}

/// The `initialize` calls a suite makes: one per deployed contract, in
/// initialization order, each as its contract and its arguments.
pub open spec fn initialization_plan(suite: TestSuite) -> Seq<(ContractSlot, Seq<Seq<char>>)> {
    initialization_sequence().filter(|slot: ContractSlot| suite.slot(slot) is Some).map_values(
        |slot: ContractSlot| (slot, init_args_of(slot, suite.admin.address@)),
    )
}

impl Initialization {
    /// The contract and the arguments of this call.
    pub open spec fn view(&self) -> (ContractSlot, Seq<Seq<char>>) {
        (self.slot, texts(self.args@))
    }
}

/// Strings holding the given texts, in order.
fn strings_of(parts: &[&str]) -> (v: Vec<String>)
    ensures
        texts(v@) == parts@.map_values(|p: &str| p@),
{
    let mut v: Vec<String> = Vec::new();
    let mut i: usize = 0;
    while i < parts.len()
        invariant
            i <= parts@.len(),
            texts(v@) == parts@.take(i as int).map_values(|p: &str| p@),
        decreases parts@.len() - i,
    {
        let ghost before = texts(v@);
        let part = String::from_str(parts[i]);
        v.push(part);
        proof {
            assert(texts(v@) =~= before.push(parts@[i as int]@));
            assert(parts@.take(i + 1) =~= parts@.take(i as int).push(parts@[i as int]));
            assert(texts(v@) =~= parts@.take(i + 1).map_values(|p: &str| p@));
        }
        i = i + 1;
    }
    proof {
        assert(parts@.take(parts@.len() as int) =~= parts@);
    }
    v
}

/// `prefix` followed by `rest`.
fn joined(prefix: &str, rest: &str) -> (s: String)
    ensures
        s@ == prefix@ + rest@,
{
    let mut s = String::from_str(prefix);
    s.append(rest);
    s
}

impl ContractSlot {
    /// The build artifact of this contract.
    pub fn wasm_path(&self) -> (p: &'static str)
        ensures
            p@ == wasm_path_of(*self),
    {
        match self {
            ContractSlot::Registry => "target/wasm32-unknown-unknown/release/router_registry.wasm",
            ContractSlot::Access => "target/wasm32-unknown-unknown/release/router_access.wasm",
            ContractSlot::Middleware => "target/wasm32-unknown-unknown/release/router_middleware.wasm",
            ContractSlot::Timelock => "target/wasm32-unknown-unknown/release/router_timelock.wasm",
            ContractSlot::Multicall => "target/wasm32-unknown-unknown/release/router_multicall.wasm",
            ContractSlot::Core => "target/wasm32-unknown-unknown/release/router_core.wasm",
        }
    }

    /// The name under which this contract is deployed.
    pub fn package_name(&self) -> (n: &'static str)
        ensures
            n@ == package_name_of(*self),
    {
        match self {
            ContractSlot::Registry => "router-registry",
            ContractSlot::Access => "router-access",
            ContractSlot::Middleware => "router-middleware",
            ContractSlot::Timelock => "router-timelock",
            ContractSlot::Multicall => "router-multicall",
            ContractSlot::Core => "router-core",
        }
    }

    /// The arguments of this contract's `initialize` call.
    pub fn init_args(&self, admin: &str) -> (args: Vec<String>)
        ensures
            texts(args@) == init_args_of(*self, admin@),
    {
        let args = match self {
            ContractSlot::Access => strings_of(&["--super_admin", admin]),
            ContractSlot::Timelock => strings_of(&["--admin", admin, "--min_delay", "60"]),
            ContractSlot::Multicall => strings_of(&["--admin", admin, "--max_batch_size", "10"]),
            _ => strings_of(&["--admin", admin]),
        };
        proof {
            assert(texts(args@) =~= init_args_of(*self, admin@));
        }
        args
    }
}

impl TestnetConfig {
    /// The configuration from the values set for network, RPC endpoint and
    /// passphrase, each falling back to the public testnet's when unset.
    pub fn from_settings(
        network: Option<String>,
        rpc_url: Option<String>,
        network_passphrase: Option<String>,
    ) -> (c: TestnetConfig)
        ensures
            c.network@ == or_default(network, default_network()),
            c.rpc_url@ == or_default(rpc_url, default_rpc_url()),
            c.network_passphrase@ == or_default(network_passphrase, default_passphrase()),
    {
        TestnetConfig {
            network: match network {
                Some(s) => s,
                None => String::from_str("testnet"),
            },
            rpc_url: match rpc_url {
                Some(s) => s,
                None => String::from_str("https://soroban-testnet.stellar.org"),
            },
            network_passphrase: match network_passphrase {
                Some(s) => s,
                None => String::from_str("Test SDF Network ; September 2015"),
            },
        }
    }
}

impl TestAccount {
    /// Arguments of `stellar` that generate a new, unfunded keypair.
    pub fn generate_args() -> (args: Vec<String>)
        ensures
            texts(args@) == seq!["keys"@, "generate"@, "--no-fund"@],
    {
        let args = strings_of(&["keys", "generate", "--no-fund"]);
        assert(texts(args@) =~= seq!["keys"@, "generate"@, "--no-fund"@]);
        args
    }

    /// The account described by the output of `stellar keys generate`: the
    /// values after `Public key:` and `Secret key:`.
    pub fn parse_keys(output: &str) -> (r: Result<TestAccount, String>)
        ensures
            match labelled_value(output@, "Public key:"@) {
                None => r matches Err(e) && e@ == "Failed to parse public key"@,
                Some(address) => match labelled_value(output@, "Secret key:"@) {
                    None => r matches Err(e) && e@ == "Failed to parse secret key"@,
                    Some(secret) => r matches Ok(a) && a.address@ == address && a.secret@
                        == secret,
                },
            },
    {
        let all = lines(output);
        let address = match labelled(&all, "Public key:") {
            Some(a) => a,
            None => {
                return Err(String::from_str("Failed to parse public key"));
            },
        };
        let secret = match labelled(&all, "Secret key:") {
            Some(s) => s,
            None => {
                return Err(String::from_str("Failed to parse secret key"));
            },
        };
        Ok(TestAccount { address, secret })
    }

    /// The account that a run of `stellar keys generate` produced, from its
    /// exit status and output.
    pub fn from_generate_output(success: bool, stdout: &[u8], stderr: &[u8]) -> (r: Result<
        TestAccount,
        String,
    >)
        ensures
            !success ==> (r matches Err(e) && e@ == "stellar keys generate failed: "@ + output_text(stderr@)),
            success ==> match labelled_value(output_text(stdout@), "Public key:"@) {
                None => r matches Err(e) && e@ == "Failed to parse public key"@,
                Some(address) => match labelled_value(output_text(stdout@), "Secret key:"@) {
                    None => r matches Err(e) && e@ == "Failed to parse secret key"@,
                    Some(secret) => r matches Ok(a) && a.address@ == address && a.secret@
                        == secret,
                },
            },
    {
        if !success {
            let err = decode_lossy(stderr);
            return Err(joined("stellar keys generate failed: ", err.as_str()));
        }
        let out = decode_lossy(stdout);
        TestAccount::parse_keys(out.as_str())
    }

    /// Arguments of `stellar` that fund this account on `network`.
    pub fn fund_args(&self, network: &str) -> (args: Vec<String>)
        ensures
            texts(args@) == seq!["keys"@, "fund"@, self.address@, "--network"@, network@],
    {
        let args = strings_of(&["keys", "fund", self.address.as_str(), "--network", network]);
        assert(texts(args@) =~= seq!["keys"@, "fund"@, self.address@, "--network"@, network@]);
        args
    }

    /// Whether a run of `stellar keys fund` succeeded, from its exit status and error output.
    pub fn fund_outcome(success: bool, stderr: &[u8]) -> (r: Result<(), String>)
        ensures
            success ==> r is Ok,
            !success ==> (r matches Err(e) && e@ == "Friendbot funding failed: "@ + output_text(stderr@)),
    {
        if !success {
            let err = decode_lossy(stderr);
            return Err(joined("Friendbot funding failed: ", err.as_str()));
        }
        Ok(())
    }
}

/// The trimmed value after the first `:` on the first of `all` that contains `label`.
fn labelled(all: &Vec<&str>, label: &str) -> (r: Option<String>)
    ensures
        match first_line_containing(all@.map_values(|l: &str| l@), label@) {
            None => r is None,
            Some(line) => match second_piece(line, ':') {
                None => r is None,
                Some(piece) => r matches Some(v) && v@ == trimmed(piece),
            },
        },
{
    match find_line_containing(all, label) {
        None => None,
        Some(line) => match second_piece_of(line, ':') {
            None => None,
            Some(piece) => Some(String::from_str(trim(piece))),
        },
    }
}

impl DeployedContract {
    /// Arguments of `stellar` that deploy the contract built at `wasm_path`.
    pub fn deploy_args(wasm_path: &str, network: &str, source_account: &TestAccount) -> (args: Vec<
        String,
    >)
        ensures
            texts(args@) == seq![
                "contract"@,
                "deploy"@,
                "--wasm"@,
                wasm_path@,
                "--network"@,
                network@,
                "--source"@,
                source_account.address@,
            ],
    {
        let args = strings_of(
            &[
                "contract",
                "deploy",
                "--wasm",
                wasm_path,
                "--network",
                network,
                "--source",
                source_account.address.as_str(),
            ],
        );
        assert(texts(args@) =~= seq![
            "contract"@,
            "deploy"@,
            "--wasm"@,
            wasm_path@,
            "--network"@,
            network@,
            "--source"@,
            source_account.address@,
        ]);
        args
    }

    /// The contract that a run of `stellar contract deploy` produced, from its
    /// exit status and output: its id is the trimmed output.
    pub fn from_deploy_output(
        success: bool,
        stdout: &[u8],
        stderr: &[u8],
        wasm_path: &str,
        name: &str,
        network: &str,
    ) -> (r: Result<DeployedContract, String>)
        ensures
            !success ==> (r matches Err(e) && e@ == "Contract deployment failed: "@ + output_text(stderr@)),
            success ==> (r matches Ok(c) && c.contract_id@ == trimmed(output_text(stdout@))
                && c.wasm_path@ == wasm_path@ && c.name@ == name@ && c.network@ == network@),
    {
        if !success {
            let err = decode_lossy(stderr);
            return Err(joined("Contract deployment failed: ", err.as_str()));
        }
        let out = decode_lossy(stdout);
        Ok(
            DeployedContract {
                contract_id: String::from_str(trim(out.as_str())),
                wasm_path: String::from_str(wasm_path),
                name: String::from_str(name),
                network: String::from_str(network),
            },
        )
    }

    /// Arguments of `stellar` that invoke `method` with `args` on this contract.
    pub fn invoke_args(&self, method: &str, args: &Vec<String>, source_account: &TestAccount) -> (v:
        Vec<String>)
        ensures
            texts(v@) == seq![
                "contract"@,
                "invoke"@,
                "--id"@,
                self.contract_id@,
                "--network"@,
                self.network@,
                "--source"@,
                source_account.address@,
                "--"@,
                method@,
            ] + texts(args@),
    {
        let mut v = strings_of(
            &[
                "contract",
                "invoke",
                "--id",
                self.contract_id.as_str(),
                "--network",
                self.network.as_str(),
                "--source",
                source_account.address.as_str(),
                "--",
                method,
            ],
        );
        let ghost head = texts(v@);
        let mut i: usize = 0;
        while i < args.len()
            invariant
                i <= args@.len(),
                texts(v@) == head + texts(args@.take(i as int)),
            decreases args@.len() - i,
        {
            let ghost before = texts(v@);
            let arg = args[i].clone();
            v.push(arg);
            proof {
                assert(texts(v@) =~= before.push(args@[i as int]@));
                assert(args@.take(i + 1) =~= args@.take(i as int).push(args@[i as int]));
                assert(texts(v@) =~= head + texts(args@.take(i + 1)));
            }
            i = i + 1;
        }
        proof {
            assert(args@.take(args@.len() as int) =~= args@);
            assert(head =~= seq![
                "contract"@,
                "invoke"@,
                "--id"@,
                self.contract_id@,
                "--network"@,
                self.network@,
                "--source"@,
                source_account.address@,
                "--"@,
                method@,
            ]);
        }
        v
    }

    /// What an invocation returns, from the run's exit status and output: the
    /// trimmed output, or the error output behind a fixed message.
    pub fn invoke_outcome(success: bool, stdout: &[u8], stderr: &[u8]) -> (r: Result<String, String>)
        ensures
            success ==> (r matches Ok(out) && out@ == trimmed(output_text(stdout@))),
            !success ==> (r matches Err(e) && e@ == "Contract invocation failed: "@ + output_text(stderr@)),
    {
        if !success {
            let err = decode_lossy(stderr);
            return Err(joined("Contract invocation failed: ", err.as_str()));
        }
        let out = decode_lossy(stdout);
        Ok(String::from_str(trim(out.as_str())))
    }

    /// What an invocation expected to fail returns, from the run's exit status
    /// and output: the trimmed output, or the trimmed error output.
    pub fn try_invoke_outcome(success: bool, stdout: &[u8], stderr: &[u8]) -> (r: Result<
        String,
        String,
    >)
        ensures
            success ==> (r matches Ok(out) && out@ == trimmed(output_text(stdout@))),
            !success ==> (r matches Err(e) && e@ == trimmed(output_text(stderr@))),
    {
        let out = decode_lossy(stdout);
        let err = decode_lossy(stderr);
        if !success {
            Err(String::from_str(trim(err.as_str())))
        } else {
            Ok(String::from_str(trim(out.as_str())))
        }
    }
}

impl TestSuite {
    /// The contract in `slot`, if deployed.
    pub open spec fn slot(&self, slot: ContractSlot) -> Option<DeployedContract> {
        match slot {
            ContractSlot::Registry => self.router_registry,
            ContractSlot::Access => self.router_access,
            ContractSlot::Middleware => self.router_middleware,
            ContractSlot::Timelock => self.router_timelock,
            ContractSlot::Multicall => self.router_multicall,
            ContractSlot::Core => self.router_core,
        }
    }

    /// A suite with the given configuration and accounts and no contract deployed yet.
    pub fn with_accounts(
        config: TestnetConfig,
        admin: TestAccount,
        user1: TestAccount,
        user2: TestAccount,
    ) -> (s: TestSuite)
        ensures
            s.config == config,
            s.admin == admin,
            s.user1 == user1,
            s.user2 == user2,
            forall|slot: ContractSlot| s.slot(slot) is None,
    {
        TestSuite {
            config,
            admin,
            user1,
            user2,
            router_core: None,
            router_registry: None,
            router_access: None,
            router_middleware: None,
            router_timelock: None,
            router_multicall: None,
        }
    }

    /// The router-core contract, or an error when it is not deployed.
    pub fn core_contract(&self) -> (r: Result<&DeployedContract, String>)
        ensures
            match self.router_core {
                Some(c) => r == Ok::<&DeployedContract, String>(&c),
                None => r matches Err(e) && e@ == "Core contract not deployed"@,
            },
    {
        match &self.router_core {
            Some(c) => Ok(c),
            None => Err(String::from_str("Core contract not deployed")),
        }
    }

    /// The router-registry contract, or an error when it is not deployed.
    pub fn registry(&self) -> (r: Result<&DeployedContract, String>)
        ensures
            match self.router_registry {
                Some(c) => r == Ok::<&DeployedContract, String>(&c),
                None => r matches Err(e) && e@ == "Registry contract not deployed"@,
            },
    {
        match &self.router_registry {
            Some(c) => Ok(c),
            None => Err(String::from_str("Registry contract not deployed")),
        }
    }

    /// The router-access contract, or an error when it is not deployed.
    pub fn access(&self) -> (r: Result<&DeployedContract, String>)
        ensures
            match self.router_access {
                Some(c) => r == Ok::<&DeployedContract, String>(&c),
                None => r matches Err(e) && e@ == "Access contract not deployed"@,
            },
    {
        match &self.router_access {
            Some(c) => Ok(c),
            None => Err(String::from_str("Access contract not deployed")),
        }
    }

    /// The router-middleware contract, or an error when it is not deployed.
    pub fn middleware(&self) -> (r: Result<&DeployedContract, String>)
        ensures
            match self.router_middleware {
                Some(c) => r == Ok::<&DeployedContract, String>(&c),
                None => r matches Err(e) && e@ == "Middleware contract not deployed"@,
            },
    {
        match &self.router_middleware {
            Some(c) => Ok(c),
            None => Err(String::from_str("Middleware contract not deployed")),
        }
    }

    /// The contract in `slot`, if deployed.
    pub fn contract(&self, slot: ContractSlot) -> (r: Option<&DeployedContract>)
        ensures
            match self.slot(slot) {
                Some(c) => r == Some(&c),
                None => r is None,
            },
    {
        match slot {
            ContractSlot::Registry => self.router_registry.as_ref(),
            ContractSlot::Access => self.router_access.as_ref(),
            ContractSlot::Middleware => self.router_middleware.as_ref(),
            ContractSlot::Timelock => self.router_timelock.as_ref(),
            ContractSlot::Multicall => self.router_multicall.as_ref(),
            ContractSlot::Core => self.router_core.as_ref(),
        }
    }

    /// The order in which the suite deploys its contracts.
    pub fn deployment_order() -> (order: Vec<ContractSlot>)
        ensures
            order@ == deployment_sequence(),
    {
        let order = vec![
            ContractSlot::Registry,
            ContractSlot::Access,
            ContractSlot::Middleware,
            ContractSlot::Timelock,
            ContractSlot::Multicall,
            ContractSlot::Core,
        ];
        assert(order@ =~= deployment_sequence());
        order
    }

    /// Records `contract` as the deployed contract in `slot`.
    pub fn install(&mut self, slot: ContractSlot, contract: DeployedContract)
        ensures
            final(self).slot(slot) == Some(contract),
            forall|other: ContractSlot| other != slot ==> final(self).slot(other) == old(self).slot(
                other,
            ),
            final(self).router_registry == (if slot == ContractSlot::Registry {
                Some(contract)
            } else {
                old(self).router_registry
            }),
            final(self).router_access == (if slot == ContractSlot::Access {
                Some(contract)
            } else {
                old(self).router_access
            }),
            final(self).router_middleware == (if slot == ContractSlot::Middleware {
                Some(contract)
            } else {
                old(self).router_middleware
            }),
            final(self).router_timelock == (if slot == ContractSlot::Timelock {
                Some(contract)
            } else {
                old(self).router_timelock
            }),
            final(self).router_multicall == (if slot == ContractSlot::Multicall {
                Some(contract)
            } else {
                old(self).router_multicall
            }),
            final(self).router_core == (if slot == ContractSlot::Core {
                Some(contract)
            } else {
                old(self).router_core
            }),
            final(self).config == old(self).config,
            final(self).admin == old(self).admin,
            final(self).user1 == old(self).user1,
            final(self).user2 == old(self).user2,
    {
        match slot {
            ContractSlot::Registry => self.router_registry = Some(contract),
            ContractSlot::Access => self.router_access = Some(contract),
            ContractSlot::Middleware => self.router_middleware = Some(contract),
            ContractSlot::Timelock => self.router_timelock = Some(contract),
            ContractSlot::Multicall => self.router_multicall = Some(contract),
            ContractSlot::Core => self.router_core = Some(contract),
        }
    }

    /// The `initialize` calls the suite makes once its contracts are deployed:
    /// one for each deployed contract, in the order registry, access,
    /// middleware, timelock, multicall and router-core last, each made by the admin.
    pub fn initializations(&self) -> (calls: Vec<Initialization>)
        ensures
            calls@.map_values(|c: Initialization| c.view()) == initialization_plan(*self),
            forall|i: int| 0 <= i < calls@.len() ==> #[trigger] calls@[i].method@ == "initialize"@,
    {
        let order = TestSuite::deployment_order();
        let ghost present = |slot: ContractSlot| self.slot(slot) is Some;
        let ghost as_call = |slot: ContractSlot| (slot, init_args_of(slot, self.admin.address@));
        let mut calls: Vec<Initialization> = Vec::new();
        let mut i: usize = 0;
        while i < order.len()
            invariant
                i <= order@.len(),
                order@ == initialization_sequence(),
                present == (|slot: ContractSlot| self.slot(slot) is Some),
                as_call == (|slot: ContractSlot| (slot, init_args_of(slot, self.admin.address@))),
                calls@.map_values(|c: Initialization| c.view()) == order@.take(i as int).filter(
                    present,
                ).map_values(as_call),
                forall|j: int| 0 <= j < calls@.len() ==> #[trigger] calls@[j].method@ == "initialize"@,
            decreases order@.len() - i,
        {
            let slot = order[i];
            let ghost before = calls@.map_values(|c: Initialization| c.view());
            proof {
                reveal(Seq::filter);
                assert(order@.take(i + 1).drop_last() =~= order@.take(i as int));
                assert(order@.take(i + 1).last() == slot);
            }
            if self.contract(slot).is_some() {
                let call = Initialization {
                    slot,
                    method: String::from_str("initialize"),
                    args: slot.init_args(self.admin.address.as_str()),
                };
                calls.push(call);
                proof {
                    assert(order@.take(i + 1).filter(present) =~= order@.take(i as int).filter(
                        present,
                    ).push(slot));
                    assert(calls@.map_values(|c: Initialization| c.view()) =~= before.push(
                        as_call(slot),
                    ));
                    assert(order@.take(i + 1).filter(present).map_values(as_call) =~= order@.take(
                        i as int,
                    ).filter(present).map_values(as_call).push(as_call(slot)));
                }
            } else {
                proof {
                    assert(order@.take(i + 1).filter(present) =~= order@.take(i as int).filter(
                        present,
                    ));
                }
            }
            i = i + 1;
        }
        proof {
            assert(order@.take(order@.len() as int) =~= order@);
        }
        calls
    }
}

/// Each slot names the suite's field for that contract: registry, access,
/// middleware, timelock, multicall and core each read their own field.
pub proof fn law_slot_fields(s: TestSuite)
    ensures
        s.slot(ContractSlot::Registry) == s.router_registry,
        s.slot(ContractSlot::Access) == s.router_access,
        s.slot(ContractSlot::Middleware) == s.router_middleware,
        s.slot(ContractSlot::Timelock) == s.router_timelock,
        s.slot(ContractSlot::Multicall) == s.router_multicall,
        s.slot(ContractSlot::Core) == s.router_core,
{
}

/// `text` with every `-` written as `_`, as cargo names build artifacts.
pub open spec fn underscored(text: Seq<char>) -> Seq<char> {
    text.map_values(|c: char| if c == '-' { '_' } else { c })
}

/// Each contract's artifact is the one cargo builds for its package: the
/// package name with `-` written as `_`, under the release directory of the
/// `wasm32-unknown-unknown` target, with the `.wasm` extension; every package
/// name is `router-` followed by the contract's name.
pub proof fn law_artifact_names(slot: ContractSlot)
    ensures
        wasm_path_of(slot) == "target/wasm32-unknown-unknown/release/"@ + underscored(
            package_name_of(slot),
        ) + ".wasm"@,
        package_name_of(slot).take(7) == "router-"@,
{
    reveal_strlit("target/wasm32-unknown-unknown/release/");
    reveal_strlit(".wasm");
    reveal_strlit("router-");
    reveal_strlit("router-registry");
    reveal_strlit("router-access");
    reveal_strlit("router-middleware");
    reveal_strlit("router-timelock");
    reveal_strlit("router-multicall");
    reveal_strlit("router-core");
    reveal_strlit("target/wasm32-unknown-unknown/release/router_registry.wasm");
    reveal_strlit("target/wasm32-unknown-unknown/release/router_access.wasm");
    reveal_strlit("target/wasm32-unknown-unknown/release/router_middleware.wasm");
    reveal_strlit("target/wasm32-unknown-unknown/release/router_timelock.wasm");
    reveal_strlit("target/wasm32-unknown-unknown/release/router_multicall.wasm");
    reveal_strlit("target/wasm32-unknown-unknown/release/router_core.wasm");
    assert(wasm_path_of(slot) =~= "target/wasm32-unknown-unknown/release/"@ + underscored(
        package_name_of(slot),
    ) + ".wasm"@);
    assert(package_name_of(slot).take(7) =~= "router-"@);
}

} // verus!
