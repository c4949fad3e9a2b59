//! The commands as the tools take them, after their arguments are parsed.

use vstd::prelude::*;

verus! {

/// How a command ended.
#[derive(Clone, Copy, Debug, PartialEq, Eq, Structural)]
pub enum ExitStatus {
    Success,
    Failure,
}

/// A directory that `clean` can remove.
#[derive(Clone, Copy, Debug, PartialEq, Eq, Structural)]
pub enum CleanComponent {
    /// The `coverage` directory.
    Coverage,
    /// The `profile` directory.
    Profile,
    /// The `.snfoundry_cache` directory.
    Cache,
    /// The `snfoundry_trace` directory.
    Trace,
    /// All generated directories.
    All,
}

/// The arguments of `clean`: at least one component.
#[derive(Debug, PartialEq, Eq)]
pub struct CleanArgs {
    pub clean_components: Vec<CleanComponent>,
}

impl CleanArgs {
    /// The arguments of `clean` for these components; none for an empty
    /// list, which the command does not take.
    pub fn new(clean_components: Vec<CleanComponent>) -> (args: Option<CleanArgs>)
        ensures
            args is Some <==> clean_components.len() > 0,
            args matches Some(a) ==> a.clean_components == clean_components,
    {
        if clean_components.len() > 0 {
            Some(CleanArgs { clean_components })
        } else {
            None
        }
    }
}

/// The project that `new` writes.
#[derive(Clone, Copy, Debug, PartialEq, Eq, Structural)]
pub enum Template {
    /// Simple Cairo program with unit tests.
    CairoProgram,
    /// Basic contract with example tests.
    BalanceContract,
    /// ERC20 contract for mock token.
    Erc20Contract,
}

impl Template {
    /// The template's name on the command line.
    pub fn name(&self) -> (name: &'static str)
        ensures
            name@ == match self {
                Template::CairoProgram => "cairo-program"@,
                Template::BalanceContract => "balance-contract"@,
                Template::Erc20Contract => "erc20-contract"@,
            },
    {
        match self {
            Template::CairoProgram => "cairo-program",
            Template::BalanceContract => "balance-contract",
            Template::Erc20Contract => "erc20-contract",
        }
    }
}

/// A network that has a name.
#[derive(Clone, Copy, Debug, PartialEq, Eq, Structural)]
pub enum Network {
    Mainnet,
    Sepolia,
}

/// Where the chain is reached.
#[derive(Debug, PartialEq, Eq)]
pub struct RpcArgs {
    /// The address of the node.
    pub url: Option<String>,
    /// The network, where the node of the tool's choice is to be used.
    pub network: Option<Network>,
}

/// The arguments of `script run`.
#[derive(Debug, PartialEq, Eq)]
pub struct Run {
    /// Module name that contains the `main` function, which will be executed.
    pub script_name: String,
    /// The package to be used.
    pub package: Option<String>,
    /// Do not use the state file.
    pub no_state_file: bool,
    pub rpc: RpcArgs,
}

/// How many threads may block at once while tests run: as many as the
/// machine has cores, and one where that number cannot be had.
pub fn blocking_threads(available_cores: Option<usize>) -> (threads: usize)
    ensures
        threads == match available_cores {
            Some(cores) => cores,
            None => 1,
        },
{
    match available_cores {
        Some(cores) => cores,
        None => 1,
    }
}

} // verus!
