//! What a script run owns while it runs: the account it acts for and the
//! idempotency store.

use crate::cheatcode::{
    chain_result_view,
    complete_cheatcode,
    complete_spec,
    handle_cheatcode,
    handle_spec,
    request_identity,
    selector_kind,
    ChainRequest,
    ChainResult,
    CheatcodeError,
    CheatcodeHandlingResult,
    CheatcodeStep,
    Completion,
    StepView,
};
use crate::felt::Felt;
use crate::state::{OutcomeView, RecordView, StateManager};
use crate::syscall::{override_system_call, SyscallError, SyscallHandlingResult, SyscallSelector};
use vstd::prelude::*;

verus! {

/// The extension that a script's interpreter calls on each cheatcode and
/// each syscall.
pub struct CastScriptExtension {
    /// The address of the account that the script acts for, if the run was
    /// given one.
    pub account: Option<Felt>,
    /// The idempotency store of the run.
    pub state: StateManager,
}

impl CastScriptExtension {
    /// The account of the run, which a cheatcode that sends a transaction
    /// cannot do without.
    pub fn account(&self) -> (account: Result<Felt, CheatcodeError>)
        ensures
            account == match self.account {
                Some(address) => Ok::<Felt, CheatcodeError>(address),
                None => Err::<Felt, CheatcodeError>(CheatcodeError::AccountNotDefined),
            },
    {
        match self.account {
            Some(address) => Ok(address),
            None => Err(CheatcodeError::AccountNotDefined),
        }
    }

    /// Handles a cheatcode as far as it can be handled without the chain.
    pub fn handle_cheatcode(&self, selector: &str, input: &[Felt]) -> (step: Result<
        CheatcodeStep,
        CheatcodeError,
    >)
        ensures
            match step {
                Ok(s) => handle_spec(selector@, input@, self.state@, self.account is Some) == Ok::<
                    StepView,
                    CheatcodeError,
                >(s@),
                Err(e) => handle_spec(selector@, input@, self.state@, self.account is Some)
                    == Err::<StepView, CheatcodeError>(e),
            },
            selector_kind(selector@) is None <==> step == Ok::<CheatcodeStep, CheatcodeError>(
                CheatcodeStep::Done(CheatcodeHandlingResult::Forwarded),
            ),
    {
        handle_cheatcode(selector, input, &self.state, self.account.is_some())
    }

    /// Takes the chain's answer to a request that `handle_cheatcode` sent to
    /// the chain.
    pub fn complete_cheatcode(
        &mut self,
        selector: &str,
        request: &ChainRequest,
        result: &ChainResult,
    ) -> (completion: Result<Completion, CheatcodeError>)
        ensures
            final(self).account == old(self).account,
            final(self).state.is_persistent() == old(self).state.is_persistent(),
            match completion {
                Ok(done) => {
                    &&& done.outcome matches CheatcodeHandlingResult::Handled(value)
                    &&& complete_spec(
                        request@,
                        request_identity(request@),
                        old(self).state@,
                        old(self).state.is_persistent(),
                        selector@,
                        chain_result_view(*result),
                    ) == Ok::<(Seq<Felt>, Map<Seq<char>, RecordView>), CheatcodeError>(
                        (value@, final(self).state@),
                    )
                    &&& done.flush == (request_identity(request@) is Some && result is Ok && old(
                        self,
                    ).state.is_persistent())
                    &&& final(self).state.added() == if done.flush {
                        old(self).state.added().push(
                            (
                                request_identity(request@)->Some_0,
                                RecordView {
                                    selector: selector@,
                                    outcome: OutcomeView::Success(result->Ok_0@),
                                },
                            ),
                        )
                    } else {
                        old(self).state.added()
                    }
                },
                Err(e) => {
                    &&& complete_spec(
                        request@,
                        request_identity(request@),
                        old(self).state@,
                        old(self).state.is_persistent(),
                        selector@,
                        chain_result_view(*result),
                    ) == Err::<(Seq<Felt>, Map<Seq<char>, RecordView>), CheatcodeError>(e)
                    &&& final(self).state@ == old(self).state@
                    &&& final(self).state.added() == old(self).state.added()
                },
            },
    {
        complete_cheatcode(&mut self.state, selector, request, result)
    }

    /// Refuses a syscall: a script has no chain state behind it.
    pub fn override_system_call(&self, selector: SyscallSelector) -> (outcome: Result<
        SyscallHandlingResult,
        SyscallError,
    >)
        ensures
            outcome == Err::<SyscallHandlingResult, SyscallError>(
                SyscallError::UnsupportedInScript,
            ),
    {
        override_system_call(selector)
    }
}

} // verus!
