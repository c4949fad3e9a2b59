//! What holds of whole script runs: a run is the list of cheatcodes that a
//! script issues, each decided against the store and, where the chain is
//! asked, completed with the chain's answer.
//!
//! Nothing here is executable. The model is built from the same functions
//! that the contracts of [`crate::cheatcode`] are stated over, and the laws
//! below are proved of it.

use crate::cheatcode::{
    complete_spec,
    decide_step,
    handle_spec,
    handled_failure,
    handled_success,
    request_identity,
    selector_kind,
    ChainRequestView,
    CheatcodeError,
    StepView,
};
use crate::felt::Felt;
use crate::buffer::FeeSettings;
use crate::hashing::{
    declare_preimage,
    deploy_preimage,
    digest_collision,
    invoke_preimage,
    law_tx_id_discrimination,
    lemma_declare_preimage_injective,
    lemma_deploy_preimage_injective,
    lemma_invoke_preimage_injective,
};
use crate::state::{success_output, OutcomeView, RecordView};
use vstd::prelude::*;

verus! {

/// One cheatcode of a script, decoded.
pub struct ScriptCall {
    pub selector: Seq<char>,
    pub request: ChainRequestView,
}

/// What became of one cheatcode in a run.
pub struct StepTrace {
    /// The value that the script got.
    pub value: Seq<Felt>,
    /// Whether the chain was asked.
    pub chain_called: bool,
    /// Whether the operation stands as succeeded: the chain said so, or an
    /// earlier run had recorded it.
    pub succeeded: bool,
}

/// What became of a run.
pub struct RunTrace {
    /// The store after the run.
    pub entries: Map<Seq<char>, RecordView>,
    /// The cheatcodes that were handled, in order.
    pub steps: Seq<StepTrace>,
    /// Whether the run ended on an error before the script did.
    pub aborted: bool,
}

/// The run of a script against a persistent store: each cheatcode is
/// decided against the store as the cheatcodes before it left it, and
/// `answers[i]` is what the chain says if cheatcode `i` asks it. The first
/// error ends the run.
pub open spec fn run_script(
    entries: Map<Seq<char>, RecordView>,
    has_account: bool,
    calls: Seq<ScriptCall>,
    answers: Seq<Result<Seq<Felt>, Seq<Felt>>>,
) -> RunTrace
    decreases calls.len(),
{
    if calls.len() == 0 {
        RunTrace { entries, steps: Seq::empty(), aborted: false }
    } else {
        let before = run_script(entries, has_account, calls.drop_last(), answers);
        if before.aborted {
            before
        } else {
            let call = calls.last();
            let answer = answers[calls.len() - 1];
            let tx_id = request_identity(call.request);
            match decide_step(call.request, tx_id, before.entries, has_account) {
                Ok(StepView::Handled(value)) => RunTrace {
                    entries: before.entries,
                    steps: before.steps.push(
                        StepTrace { value, chain_called: false, succeeded: true },
                    ),
                    aborted: false,
                },
                Ok(StepView::Chain { .. }) => match complete_spec(
                    call.request,
                    tx_id,
                    before.entries,
                    true,
                    call.selector,
                    answer,
                ) {
                    Ok((value, after)) => RunTrace {
                        entries: after,
                        steps: before.steps.push(
                            StepTrace { value, chain_called: true, succeeded: answer is Ok },
                        ),
                        aborted: false,
                    },
                    Err(_) => RunTrace {
                        entries: before.entries,
                        steps: before.steps,
                        aborted: true,
                    },
                },
                _ => RunTrace { entries: before.entries, steps: before.steps, aborted: true },
            }
        }
    }
}

/// A run handles no more cheatcodes than the script issues, and all of them
/// unless it ends on an error.
proof fn lemma_run_length(
    entries: Map<Seq<char>, RecordView>,
    has_account: bool,
    calls: Seq<ScriptCall>,
    answers: Seq<Result<Seq<Felt>, Seq<Felt>>>,
)
    ensures
        run_script(entries, has_account, calls, answers).steps.len() <= calls.len(),
        !run_script(entries, has_account, calls, answers).aborted ==> run_script(
            entries,
            has_account,
            calls,
            answers,
        ).steps.len() == calls.len(),
    decreases calls.len(),
{
    if calls.len() > 0 {
        lemma_run_length(entries, has_account, calls.drop_last(), answers);
    }
}

/// A recorded success is immutable: no run takes it away, and no run
/// changes its output.
pub proof fn law_recorded_success_is_kept(
    entries: Map<Seq<char>, RecordView>,
    has_account: bool,
    calls: Seq<ScriptCall>,
    answers: Seq<Result<Seq<Felt>, Seq<Felt>>>,
    tx_id: Seq<char>,
)
    requires
        success_output(entries, tx_id) is Some,
    ensures
        success_output(run_script(entries, has_account, calls, answers).entries, tx_id)
            == success_output(entries, tx_id),
    decreases calls.len(),
{
    if calls.len() > 0 {
        law_recorded_success_is_kept(entries, has_account, calls.drop_last(), answers, tx_id);
    }
}

/// A success that the store holds after the first `k` cheatcodes of a
/// script is still there after all of them.
proof fn lemma_prefix_keeps_successes(
    entries: Map<Seq<char>, RecordView>,
    has_account: bool,
    calls: Seq<ScriptCall>,
    answers: Seq<Result<Seq<Felt>, Seq<Felt>>>,
    k: int,
    tx_id: Seq<char>,
)
    requires
        0 <= k <= calls.len(),
        success_output(run_script(entries, has_account, calls.take(k), answers).entries, tx_id)
            is Some,
    ensures
        success_output(run_script(entries, has_account, calls, answers).entries, tx_id)
            == success_output(
            run_script(entries, has_account, calls.take(k), answers).entries,
            tx_id,
        ),
    decreases calls.len(),
{
    if k == calls.len() {
        assert(calls.take(k) =~= calls);
    } else {
        assert(calls.drop_last().take(k) =~= calls.take(k));
        lemma_prefix_keeps_successes(entries, has_account, calls.drop_last(), answers, k, tx_id);
    }
}

/// The step of cheatcode `i` in a run is the last step of the run of the
/// first `i + 1` cheatcodes, which did not end on an error.
proof fn lemma_step_of_prefix(
    entries: Map<Seq<char>, RecordView>,
    has_account: bool,
    calls: Seq<ScriptCall>,
    answers: Seq<Result<Seq<Felt>, Seq<Felt>>>,
    i: int,
)
    requires
        0 <= i < run_script(entries, has_account, calls, answers).steps.len(),
    ensures
        i < calls.len(),
        !run_script(entries, has_account, calls.take(i + 1), answers).aborted,
        !run_script(entries, has_account, calls.take(i), answers).aborted,
        run_script(entries, has_account, calls.take(i + 1), answers).steps.len() == i + 1,
        run_script(entries, has_account, calls.take(i + 1), answers).steps[i] == run_script(
            entries,
            has_account,
            calls,
            answers,
        ).steps[i],
    decreases calls.len(),
{
    lemma_run_length(entries, has_account, calls, answers);
    let shorter = calls.drop_last();
    lemma_run_length(entries, has_account, shorter, answers);
    let before = run_script(entries, has_account, shorter, answers);
    if i < before.steps.len() {
        lemma_step_of_prefix(entries, has_account, shorter, answers, i);
        assert(shorter.take(i + 1) =~= calls.take(i + 1));
        assert(shorter.take(i) =~= calls.take(i));
    } else {
        assert(i == calls.len() - 1);
        assert(calls.take(i + 1) =~= calls);
        assert(calls.take(i) =~= shorter);
    }
}

/// Idempotency. Run a script, and run it again against the store that the
/// first run left, whatever the chain would say this time. A transaction
/// that stood as succeeded in the first run is not sent to the chain in the
/// second, and the script gets the value that it got before.
pub proof fn law_second_run_replays_successes(
    entries: Map<Seq<char>, RecordView>,
    has_account: bool,
    calls: Seq<ScriptCall>,
    first_answers: Seq<Result<Seq<Felt>, Seq<Felt>>>,
    second_answers: Seq<Result<Seq<Felt>, Seq<Felt>>>,
    i: int,
)
    requires
        0 <= i < run_script(entries, has_account, calls, first_answers).steps.len(),
        request_identity(calls[i].request) is Some,
        run_script(entries, has_account, calls, first_answers).steps[i].succeeded,
    ensures
        ({
            let first = run_script(entries, has_account, calls, first_answers);
            let second = run_script(first.entries, has_account, calls, second_answers);
            i < second.steps.len() ==> !second.steps[i].chain_called && second.steps[i].value
                == first.steps[i].value
        }),
{
    let first = run_script(entries, has_account, calls, first_answers);
    let second = run_script(first.entries, has_account, calls, second_answers);
    let request = calls[i].request;
    let tx_id = request_identity(request)->Some_0;
    lemma_step_of_prefix(entries, has_account, calls, first_answers, i);
    let upto = calls.take(i + 1);
    assert(upto.drop_last() =~= calls.take(i));
    assert(upto.last() == calls[i]);
    let reached = run_script(entries, has_account, upto, first_answers);
    let output = success_output(reached.entries, tx_id);
    assert(output is Some);
    assert(first.steps[i].value == handled_success(output->Some_0));
    lemma_prefix_keeps_successes(entries, has_account, calls, first_answers, i + 1, tx_id);
    if i < second.steps.len() {
        lemma_step_of_prefix(first.entries, has_account, calls, second_answers, i);
        law_recorded_success_is_kept(
            first.entries,
            has_account,
            calls.take(i),
            second_answers,
            tx_id,
        );
    }
}

/// No caching of failures. A transaction that the chain refused leaves the
/// store as it was, so the request that went to the chain goes to it again.
pub proof fn law_failure_is_retried(
    request: ChainRequestView,
    entries: Map<Seq<char>, RecordView>,
    persistent: bool,
    has_account: bool,
    selector: Seq<char>,
    error: Seq<Felt>,
)
    requires
        decide_step(request, request_identity(request), entries, has_account) == Ok::<
            StepView,
            CheatcodeError,
        >(StepView::Chain { request }),
    ensures
        complete_spec(
            request,
            request_identity(request),
            entries,
            persistent,
            selector,
            Err(error),
        ) matches Ok((_, after)) ==> after == entries && decide_step(
            request,
            request_identity(request),
            after,
            has_account,
        ) == Ok::<StepView, CheatcodeError>(StepView::Chain { request }),
{
}

/// A success that was recorded is what the next run answers with, without
/// the chain.
pub proof fn law_recorded_success_is_replayed(
    request: ChainRequestView,
    entries: Map<Seq<char>, RecordView>,
    has_account: bool,
    selector: Seq<char>,
    output: Seq<Felt>,
)
    requires
        request_identity(request) is Some,
    ensures
        complete_spec(request, request_identity(request), entries, true, selector, Ok(output))
            matches Ok((value, after)) ==> decide_step(
            request,
            request_identity(request),
            after,
            has_account,
        ) == Ok::<StepView, CheatcodeError>(StepView::Handled(value)),
{
}

/// Dispatcher completeness. A selector that the dispatcher does not own is
/// forwarded, whatever the buffer holds, and that is no error. A selector
/// that it owns is never forwarded: the cheatcode is answered from the
/// store, sent to the chain, or refused with an error.
pub proof fn law_dispatcher_completeness(
    selector: Seq<char>,
    input: Seq<Felt>,
    entries: Map<Seq<char>, RecordView>,
    has_account: bool,
)
    ensures
        selector_kind(selector) is None ==> handle_spec(selector, input, entries, has_account)
            == Ok::<StepView, CheatcodeError>(StepView::Forwarded),
        selector_kind(selector) is Some ==> handle_spec(selector, input, entries, has_account)
            != Ok::<StepView, CheatcodeError>(StepView::Forwarded),
{
}

/// An owned cheatcode that was sent to the chain ends as a handled value,
/// whatever the chain said: its success, or its failure as a value that
/// carries the error. A failure changes nothing in the store.
pub proof fn law_chain_answers_are_handled(
    request: ChainRequestView,
    entries: Map<Seq<char>, RecordView>,
    persistent: bool,
    has_account: bool,
    selector: Seq<char>,
    answer: Result<Seq<Felt>, Seq<Felt>>,
)
    requires
        decide_step(request, request_identity(request), entries, has_account) == Ok::<
            StepView,
            CheatcodeError,
        >(StepView::Chain { request }),
    ensures
        complete_spec(request, request_identity(request), entries, persistent, selector, answer)
            is Ok,
        answer matches Err(error) ==> complete_spec(
            request,
            request_identity(request),
            entries,
            persistent,
            selector,
            answer,
        ) == Ok::<(Seq<Felt>, Map<Seq<char>, RecordView>), CheatcodeError>(
            (handled_failure(error), entries),
        ),
{
}

/// The encoding of the transaction that a request makes; none for a request
/// that changes nothing on the chain.
pub open spec fn request_preimage(request: ChainRequestView) -> Option<Seq<u8>> {
    match request {
        ChainRequestView::Declare { contract_name, .. } => Some(declare_preimage(contract_name)),
        ChainRequestView::Deploy { class_hash, constructor_calldata, salt, unique, .. } => Some(
            deploy_preimage(class_hash, constructor_calldata, salt, unique),
        ),
        ChainRequestView::Invoke { contract_address, function_selector, calldata, .. } => Some(
            invoke_preimage(contract_address, function_selector, calldata),
        ),
        _ => None,
    }
}

/// Whether two requests make the same transaction: they are of one kind and
/// agree in every argument that the transaction is made of. The fee limits
/// and the nonce are no part of it.
pub open spec fn same_transaction(a: ChainRequestView, b: ChainRequestView) -> bool {
    match (a, b) {
        (
            ChainRequestView::Declare { contract_name: name_a, .. },
            ChainRequestView::Declare { contract_name: name_b, .. },
        ) => name_a == name_b,
        (
            ChainRequestView::Deploy {
                class_hash: class_hash_a,
                constructor_calldata: calldata_a,
                salt: salt_a,
                unique: unique_a,
                ..
            },
            ChainRequestView::Deploy {
                class_hash: class_hash_b,
                constructor_calldata: calldata_b,
                salt: salt_b,
                unique: unique_b,
                ..
            },
        ) => class_hash_a == class_hash_b && calldata_a == calldata_b && salt_a == salt_b
            && unique_a == unique_b,
        (
            ChainRequestView::Invoke {
                contract_address: address_a,
                function_selector: selector_a,
                calldata: calldata_a,
                ..
            },
            ChainRequestView::Invoke {
                contract_address: address_b,
                function_selector: selector_b,
                calldata: calldata_b,
                ..
            },
        ) => address_a == address_b && selector_a == selector_b && calldata_a == calldata_b,
        _ => false,
    }
}

/// Identity discrimination. Two requests share an identifier only where
/// they make the same transaction, or where the digest collides on their
/// encodings: a request of another kind, or one that differs in a single
/// argument, has another identifier.
pub proof fn law_identity_discrimination(a: ChainRequestView, b: ChainRequestView)
    ensures
        request_identity(a) is Some && request_identity(a) == request_identity(b)
            ==> same_transaction(a, b) || digest_collision(
            request_preimage(a)->Some_0,
            request_preimage(b)->Some_0,
        ),
{
    if request_identity(a) is Some && request_identity(a) == request_identity(b) {
        let pa = request_preimage(a)->Some_0;
        let pb = request_preimage(b)->Some_0;
        law_tx_id_discrimination(pa, pb);
        if pa == pb {
            match (a, b) {
                (
                    ChainRequestView::Declare { contract_name: name_a, .. },
                    ChainRequestView::Declare { contract_name: name_b, .. },
                ) => {
                    lemma_declare_preimage_injective(name_a, name_b);
                },
                (
                    ChainRequestView::Deploy {
                        class_hash: class_hash_a,
                        constructor_calldata: calldata_a,
                        salt: salt_a,
                        unique: unique_a,
                        ..
                    },
                    ChainRequestView::Deploy {
                        class_hash: class_hash_b,
                        constructor_calldata: calldata_b,
                        salt: salt_b,
                        unique: unique_b,
                        ..
                    },
                ) => {
                    lemma_deploy_preimage_injective(
                        class_hash_a,
                        calldata_a,
                        salt_a,
                        unique_a,
                        class_hash_b,
                        calldata_b,
                        salt_b,
                        unique_b,
                    );
                },
                (
                    ChainRequestView::Invoke {
                        contract_address: address_a,
                        function_selector: selector_a,
                        calldata: calldata_a,
                        ..
                    },
                    ChainRequestView::Invoke {
                        contract_address: address_b,
                        function_selector: selector_b,
                        calldata: calldata_b,
                        ..
                    },
                ) => {
                    lemma_invoke_preimage_injective(
                        address_a,
                        selector_a,
                        calldata_a,
                        address_b,
                        selector_b,
                        calldata_b,
                    );
                },
                _ => {
                    lemma_mixed_kinds_differ(a, b);
                },
            }
        }
    }
}

/// Requests of different kinds have different encodings.
proof fn lemma_mixed_kinds_differ(a: ChainRequestView, b: ChainRequestView)
    requires
        request_preimage(a) is Some,
        request_preimage(b) is Some,
        !(a is Declare && b is Declare),
        !(a is Deploy && b is Deploy),
        !(a is Invoke && b is Invoke),
    ensures
        request_preimage(a) != request_preimage(b),
{
    let pa = request_preimage(a)->Some_0;
    let pb = request_preimage(b)->Some_0;
    assert(a is Declare ==> pa[0] == 1u8);
    assert(a is Deploy ==> pa[0] == 2u8);
    assert(a is Invoke ==> pa[0] == 3u8);
    assert(b is Declare ==> pb[0] == 1u8);
    assert(b is Deploy ==> pb[0] == 2u8);
    assert(b is Invoke ==> pb[0] == 3u8);
}

/// Whether cheatcode `i` of a run left the record that the store holds for
/// `tx_id` after the run: it made the transaction with this identifier, the
/// chain was asked and said that it succeeded, and the record holds the
/// cheatcode's name and the chain's output.
pub open spec fn records_step(
    calls: Seq<ScriptCall>,
    answers: Seq<Result<Seq<Felt>, Seq<Felt>>>,
    trace: RunTrace,
    i: int,
    tx_id: Seq<char>,
) -> bool {
    &&& 0 <= i < trace.steps.len()
    &&& i < calls.len()
    &&& request_identity(calls[i].request) == Some(tx_id)
    &&& trace.steps[i].chain_called
    &&& answers[i] is Ok
    &&& trace.entries.contains_key(tx_id)
    &&& trace.entries[tx_id] == (RecordView {
        selector: calls[i].selector,
        outcome: OutcomeView::Success(answers[i]->Ok_0),
    })
}

/// A run leaves records of successes only. Whatever the store holds after a
/// run, it held before the run, or it is the record of a cheatcode that the
/// run handled and that the chain answered with a success. So a cheatcode
/// that the chain refused leaves no record, and neither does the step at
/// which a run ends, nor any step after it: where a script panics, the
/// store holds what it held before and one record for each success before
/// the panic.
pub proof fn law_run_records_successes_only(
    entries: Map<Seq<char>, RecordView>,
    has_account: bool,
    calls: Seq<ScriptCall>,
    answers: Seq<Result<Seq<Felt>, Seq<Felt>>>,
    tx_id: Seq<char>,
)
    requires
        run_script(entries, has_account, calls, answers).entries.contains_key(tx_id),
    ensures
        (entries.contains_key(tx_id) && run_script(entries, has_account, calls, answers).entries[tx_id]
            == entries[tx_id]) || exists|i: int|
            records_step(
                calls,
                answers,
                run_script(entries, has_account, calls, answers),
                i,
                tx_id,
            ),
    decreases calls.len(),
{
    if calls.len() > 0 {
        let shorter = calls.drop_last();
        let before = run_script(entries, has_account, shorter, answers);
        let after = run_script(entries, has_account, calls, answers);
        lemma_run_length(entries, has_account, shorter, answers);
        lemma_run_length(entries, has_account, calls, answers);
        let last = calls.len() - 1;
        if before.entries.contains_key(tx_id) && after.entries[tx_id] == before.entries[tx_id] {
            law_run_records_successes_only(entries, has_account, shorter, answers, tx_id);
            if !(entries.contains_key(tx_id) && before.entries[tx_id] == entries[tx_id]) {
                let i = choose|i: int| records_step(shorter, answers, before, i, tx_id);
                assert(shorter[i] == calls[i]);
                assert(after.steps[i] == before.steps[i]);
                assert(records_step(calls, answers, after, i, tx_id));
            }
        } else {
            assert(!before.aborted);
            assert(after.steps.len() == calls.len());
            assert(records_step(calls, answers, after, last, tx_id));
        }
    }
}

/// Every success of a transaction that the chain gave in a run is in the
/// store after the run, with the output that the chain gave.
pub proof fn law_run_records_each_success(
    entries: Map<Seq<char>, RecordView>,
    has_account: bool,
    calls: Seq<ScriptCall>,
    answers: Seq<Result<Seq<Felt>, Seq<Felt>>>,
    i: int,
)
    requires
        0 <= i < run_script(entries, has_account, calls, answers).steps.len(),
        request_identity(calls[i].request) is Some,
        run_script(entries, has_account, calls, answers).steps[i].chain_called,
        answers[i] is Ok,
    ensures
        success_output(
            run_script(entries, has_account, calls, answers).entries,
            request_identity(calls[i].request)->Some_0,
        ) == Some(answers[i]->Ok_0),
{
    let tx_id = request_identity(calls[i].request)->Some_0;
    lemma_step_of_prefix(entries, has_account, calls, answers, i);
    let upto = calls.take(i + 1);
    assert(upto.drop_last() =~= calls.take(i));
    assert(upto.last() == calls[i]);
    lemma_prefix_keeps_successes(entries, has_account, calls, answers, i + 1, tx_id);
}

/// Two deploys that differ in the uniqueness flag alone are two
/// transactions. Unless the digest collides on their encodings, they have
/// two identifiers, and where both succeed the store holds the two records
/// side by side, each with its own output: neither takes the place of the
/// other.
pub proof fn law_unique_and_not_unique_deploys_are_recorded_apart(
    class_hash: Felt,
    constructor_calldata: Seq<Felt>,
    salt: Option<Felt>,
    fee: FeeSettings,
    nonce: Option<Felt>,
    entries: Map<Seq<char>, RecordView>,
    selector: Seq<char>,
    unique_output: Seq<Felt>,
    other_output: Seq<Felt>,
)
    ensures
        ({
            let unique = ChainRequestView::Deploy {
                class_hash,
                constructor_calldata,
                salt,
                unique: true,
                fee,
                nonce,
            };
            let other = ChainRequestView::Deploy {
                class_hash,
                constructor_calldata,
                salt,
                unique: false,
                fee,
                nonce,
            };
            let unique_id = request_identity(unique)->Some_0;
            let other_id = request_identity(other)->Some_0;
            let unique_record = RecordView {
                selector,
                outcome: OutcomeView::Success(unique_output),
            };
            let other_record = RecordView { selector, outcome: OutcomeView::Success(other_output) };
            !digest_collision(request_preimage(unique)->Some_0, request_preimage(other)->Some_0)
                ==> {
                &&& unique_id != other_id
                &&& success_output(entries, unique_id) is None && success_output(
                    entries,
                    other_id,
                ) is None ==> {
                    &&& complete_spec(
                        unique,
                        Some(unique_id),
                        entries,
                        true,
                        selector,
                        Ok(unique_output),
                    ) matches Ok((_, first))
                    &&& first == entries.insert(unique_id, unique_record)
                    &&& complete_spec(
                        other,
                        Some(other_id),
                        first,
                        true,
                        selector,
                        Ok(other_output),
                    ) matches Ok((_, second))
                    &&& second == entries.insert(unique_id, unique_record).insert(
                        other_id,
                        other_record,
                    )
                    &&& success_output(second, unique_id) == Some(unique_output)
                    &&& success_output(second, other_id) == Some(other_output)
                }
            }
        }),
{
    let unique = ChainRequestView::Deploy {
        class_hash,
        constructor_calldata,
        salt,
        unique: true,
        fee,
        nonce,
    };
    let other = ChainRequestView::Deploy {
        class_hash,
        constructor_calldata,
        salt,
        unique: false,
        fee,
        nonce,
    };
    law_identity_discrimination(unique, other);
}

} // verus!
