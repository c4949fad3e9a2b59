use sncast_script::extension::CastScriptExtension;
use sncast_script::state::StateManager;
use sncast_script::syscall::{override_system_call, SyscallError, SyscallSelector};

#[test]
fn every_syscall_is_refused() {
    let selectors = [
        SyscallSelector::CallContract,
        SyscallSelector::DelegateCall,
        SyscallSelector::DelegateL1Handler,
        SyscallSelector::Deploy,
        SyscallSelector::EmitEvent,
        SyscallSelector::GetBlockHash,
        SyscallSelector::GetBlockNumber,
        SyscallSelector::GetBlockTimestamp,
        SyscallSelector::GetCallerAddress,
        SyscallSelector::GetClassHashAt,
        SyscallSelector::GetContractAddress,
        SyscallSelector::GetExecutionInfo,
        SyscallSelector::GetSequencerAddress,
        SyscallSelector::GetTxInfo,
        SyscallSelector::GetTxSignature,
        SyscallSelector::Keccak,
        SyscallSelector::LibraryCall,
        SyscallSelector::LibraryCallL1Handler,
        SyscallSelector::MetaTxV0,
        SyscallSelector::ReplaceClass,
        SyscallSelector::Secp256k1Add,
        SyscallSelector::Secp256k1GetPointFromX,
        SyscallSelector::Secp256k1GetXy,
        SyscallSelector::Secp256k1Mul,
        SyscallSelector::Secp256k1New,
        SyscallSelector::Secp256r1Add,
        SyscallSelector::Secp256r1GetPointFromX,
        SyscallSelector::Secp256r1GetXy,
        SyscallSelector::Secp256r1Mul,
        SyscallSelector::Secp256r1New,
        SyscallSelector::SendMessageToL1,
        SyscallSelector::Sha256ProcessBlock,
        SyscallSelector::StorageRead,
        SyscallSelector::StorageWrite,
    ];
    for selector in selectors {
        assert_eq!(override_system_call(selector), Err(SyscallError::UnsupportedInScript));
    }
}

#[test]
fn syscall_error_is_labelled() {
    assert_eq!(SyscallError::UnsupportedInScript.message(), "Starknet syscalls are not supported");
}

#[test]
fn extension_refuses_syscalls() {
    let extension = CastScriptExtension { account: None, state: StateManager::from(None) };
    assert_eq!(
        extension.override_system_call(SyscallSelector::StorageWrite),
        Err(SyscallError::UnsupportedInScript)
    );
}
