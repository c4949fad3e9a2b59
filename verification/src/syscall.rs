//! The syscall guard: a script runs detached from any chain state, so every
//! live syscall it attempts is refused.

use vstd::prelude::*;

verus! {

/// The chain syscalls that executing bytecode can attempt.
#[derive(Clone, Copy, Debug, PartialEq, Eq, Structural)]
pub enum SyscallSelector {
    CallContract,
    DelegateCall,
    DelegateL1Handler,
    Deploy,
    EmitEvent,
    GetBlockHash,
    GetBlockNumber,
    GetBlockTimestamp,
    GetCallerAddress,
    GetClassHashAt,
    GetContractAddress,
    GetExecutionInfo,
    GetSequencerAddress,
    GetTxInfo,
    GetTxSignature,
    Keccak,
    LibraryCall,
    LibraryCallL1Handler,
    MetaTxV0,
    ReplaceClass,
    Secp256k1Add,
    Secp256k1GetPointFromX,
    Secp256k1GetXy,
    Secp256k1Mul,
    Secp256k1New,
    Secp256r1Add,
    Secp256r1GetPointFromX,
    Secp256r1GetXy,
    Secp256r1Mul,
    Secp256r1New,
    SendMessageToL1,
    Sha256ProcessBlock,
    StorageRead,
    StorageWrite,
}

/// What a syscall override can answer when it does not fail.
#[derive(Clone, Copy, Debug, PartialEq, Eq, Structural)]
pub enum SyscallHandlingResult {
    Forwarded,
    Handled,
}

/// Why a syscall was refused.
#[derive(Clone, Copy, Debug, PartialEq, Eq, Structural)]
pub enum SyscallError {
    /// The syscall was attempted inside a script run.
    UnsupportedInScript,
}

impl SyscallError {
    /// The text shown to the user for this error.
    pub fn message(&self) -> (text: &'static str)
        ensures
            text@ == "Starknet syscalls are not supported"@,
    {
        "Starknet syscalls are not supported"
    }
}

/// Refuses the syscall, whichever it is: it is never handled and never
/// forwarded.
pub fn override_system_call(selector: SyscallSelector) -> (outcome: Result<
    SyscallHandlingResult,
    SyscallError,
>)
    ensures
        outcome == Err::<SyscallHandlingResult, SyscallError>(SyscallError::UnsupportedInScript),
{
    Err(SyscallError::UnsupportedInScript)
}

} // verus!
