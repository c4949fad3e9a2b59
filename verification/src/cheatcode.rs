//! Cheatcode dispatch: what a script's cheatcode asks of the chain, and what
//! the script gets back.
//!
//! A cheatcode is handled in two steps, because the chain can only be
//! reached from outside this library. [`handle_cheatcode`] decodes the
//! request and decides: the selector is not one of ours, or an earlier run
//! has recorded the answer, or the chain has to be asked. Where the chain
//! was asked, [`complete_cheatcode`] takes what it said, records a success
//! and frames the answer for the script.

use crate::buffer::{
    parse_bool,
    parse_byte_array,
    parse_fee_settings,
    parse_felt,
    parse_felts,
    parse_option_felt,
    BufferReadError,
    BufferReader,
    FeeSettings,
};
use crate::felt::{as_cairo_short_string, copy_felts, felt_with_value, short_string, Felt};
use crate::hashing::{
    declare_tx_id,
    deploy_tx_id,
    generate_declare_tx_id_from_bytes,
    generate_deploy_tx_id,
    generate_invoke_tx_id,
    invoke_tx_id,
};
use crate::state::{success_output, OutcomeView, RecordView, StateManager};
use crate::text::str_eq;
use vstd::prelude::*;

verus! {

/// The cheatcodes that this library owns.
#[derive(Clone, Copy, Debug, PartialEq, Eq, Structural)]
pub enum CheatcodeKind {
    Call,
    Declare,
    Deploy,
    Invoke,
    GetNonce,
    TxStatus,
}

/// Why a cheatcode could not be handled. Each of these ends the script run.
#[derive(Clone, Copy, Debug, PartialEq, Eq, Structural)]
pub enum CheatcodeError {
    /// The argument buffer does not hold what the cheatcode takes.
    Decode(BufferReadError),
    /// The block identifier is not a short string.
    InvalidShortString,
    /// The cheatcode needs an account and the run has none.
    AccountNotDefined,
    /// A success is reported for a transaction that the store already holds
    /// as succeeded.
    AlreadyRecorded,
}

impl CheatcodeError {
    /// The text shown to the user for this error.
    pub fn message(&self) -> (text: &'static str)
        ensures
            text@ == match self {
                CheatcodeError::Decode(BufferReadError::EndOfBuffer) =>
                    "Failed to read from the input buffer: the buffer ended too soon"@,
                CheatcodeError::Decode(BufferReadError::ParseFailed) =>
                    "Failed to parse the input buffer"@,
                CheatcodeError::InvalidShortString =>
                    "Failed to convert entry point name to short string"@,
                CheatcodeError::AccountNotDefined =>
                    "Account not defined. Please ensure the correct account is passed to `script run` command"@,
                CheatcodeError::AlreadyRecorded =>
                    "The state already holds a successful transaction with this id"@,
            },
    {
        match self {
            CheatcodeError::Decode(BufferReadError::EndOfBuffer) => {
                "Failed to read from the input buffer: the buffer ended too soon"
            },
            CheatcodeError::Decode(BufferReadError::ParseFailed) => {
                "Failed to parse the input buffer"
            },
            CheatcodeError::InvalidShortString => {
                "Failed to convert entry point name to short string"
            },
            CheatcodeError::AccountNotDefined => {
                "Account not defined. Please ensure the correct account is passed to `script run` command"
            },
            CheatcodeError::AlreadyRecorded => {
                "The state already holds a successful transaction with this id"
            },
        }
    }
}

/// What has to be asked of the chain.
#[derive(Debug, PartialEq, Eq)]
pub enum ChainRequest {
    Call { contract_address: Felt, function_selector: Felt, calldata: Vec<Felt> },
    Declare { contract_name: Vec<u8>, fee: FeeSettings, nonce: Option<Felt> },
    Deploy {
        class_hash: Felt,
        constructor_calldata: Vec<Felt>,
        salt: Option<Felt>,
        unique: bool,
        fee: FeeSettings,
        nonce: Option<Felt>,
    },
    Invoke {
        contract_address: Felt,
        function_selector: Felt,
        calldata: Vec<Felt>,
        fee: FeeSettings,
        nonce: Option<Felt>,
    },
    GetNonce { block_id: String },
    TxStatus { transaction_hash: Felt },
}

/// A chain request as a mathematical value.
pub enum ChainRequestView {
    Call { contract_address: Felt, function_selector: Felt, calldata: Seq<Felt> },
    Declare { contract_name: Seq<u8>, fee: FeeSettings, nonce: Option<Felt> },
    Deploy {
        class_hash: Felt,
        constructor_calldata: Seq<Felt>,
        salt: Option<Felt>,
        unique: bool,
        fee: FeeSettings,
        nonce: Option<Felt>,
    },
    Invoke {
        contract_address: Felt,
        function_selector: Felt,
        calldata: Seq<Felt>,
        fee: FeeSettings,
        nonce: Option<Felt>,
    },
    GetNonce { block_id: Seq<char> },
    TxStatus { transaction_hash: Felt },
}

impl View for ChainRequest {
    type V = ChainRequestView;

    open spec fn view(&self) -> ChainRequestView {
        match self {
            ChainRequest::Call {
                contract_address,
                function_selector,
                calldata,
            } => ChainRequestView::Call {
                contract_address: *contract_address,
                function_selector: *function_selector,
                calldata: calldata@,
            },
            ChainRequest::Declare { contract_name, fee, nonce } => ChainRequestView::Declare {
                contract_name: contract_name@,
                fee: *fee,
                nonce: *nonce,
            },
            ChainRequest::Deploy {
                class_hash,
                constructor_calldata,
                salt,
                unique,
                fee,
                nonce,
            } => ChainRequestView::Deploy {
                class_hash: *class_hash,
                constructor_calldata: constructor_calldata@,
                salt: *salt,
                unique: *unique,
                fee: *fee,
                nonce: *nonce,
            },
            ChainRequest::Invoke {
                contract_address,
                function_selector,
                calldata,
                fee,
                nonce,
            } => ChainRequestView::Invoke {
                contract_address: *contract_address,
                function_selector: *function_selector,
                calldata: calldata@,
                fee: *fee,
                nonce: *nonce,
            },
            ChainRequest::GetNonce { block_id } => ChainRequestView::GetNonce {
                block_id: block_id@,
            },
            ChainRequest::TxStatus { transaction_hash } => ChainRequestView::TxStatus {
                transaction_hash: *transaction_hash,
            },
        }
    }
}

/// What the dispatcher answers to the interpreter.
#[derive(Debug, PartialEq, Eq)]
pub enum CheatcodeHandlingResult {
    /// The selector is not one of ours: whoever comes next may handle it.
    Forwarded,
    /// The cheatcode was handled, with this serialised value.
    Handled(Vec<Felt>),
}

/// Where the handling of a cheatcode stands after the request was read.
#[derive(Debug, PartialEq, Eq)]
pub enum CheatcodeStep {
    /// Nothing more to do: this is the answer.
    Done(CheatcodeHandlingResult),
    /// The chain has to be asked.
    Chain(ChainRequest),
}

/// A step as a mathematical value.
pub enum StepView {
    Forwarded,
    Handled(Seq<Felt>),
    Chain { request: ChainRequestView },
}

impl View for CheatcodeStep {
    type V = StepView;

    open spec fn view(&self) -> StepView {
        match self {
            CheatcodeStep::Done(CheatcodeHandlingResult::Forwarded) => StepView::Forwarded,
            CheatcodeStep::Done(CheatcodeHandlingResult::Handled(value)) => StepView::Handled(
                value@,
            ),
            CheatcodeStep::Chain(request) => StepView::Chain { request: request@ },
        }
    }
}

/// What the chain said, as the serialised response or the serialised error.
pub type ChainResult = Result<Vec<Felt>, Vec<Felt>>;

/// A chain result as a mathematical value.
pub open spec fn chain_result_view(result: ChainResult) -> Result<Seq<Felt>, Seq<Felt>> {
    match result {
        Ok(output) => Ok(output@),
        Err(error) => Err(error@),
    }
}

/// The kind of cheatcode that a selector names, if it is one of ours.
pub open spec fn selector_kind(selector: Seq<char>) -> Option<CheatcodeKind> {
    if selector == "call"@ {
        Some(CheatcodeKind::Call)
    } else if selector == "declare"@ {
        Some(CheatcodeKind::Declare)
    } else if selector == "deploy"@ {
        Some(CheatcodeKind::Deploy)
    } else if selector == "invoke"@ {
        Some(CheatcodeKind::Invoke)
    } else if selector == "get_nonce"@ {
        Some(CheatcodeKind::GetNonce)
    } else if selector == "tx_status"@ {
        Some(CheatcodeKind::TxStatus)
    } else {
        None
    }
}

/// The serialised value for a successful chain operation: the felt 0, then
/// the response.
pub open spec fn handled_success(output: Seq<Felt>) -> Seq<Felt> {
    seq![felt_with_value(0)] + output
}

/// The serialised value for a failed chain operation: the felt 1, then the
/// error.
pub open spec fn handled_failure(error: Seq<Felt>) -> Seq<Felt> {
    seq![felt_with_value(1)] + error
}

/// The serialised value for a chain result.
pub open spec fn handled_value(result: Result<Seq<Felt>, Seq<Felt>>) -> Seq<Felt> {
    match result {
        Ok(output) => handled_success(output),
        Err(error) => handled_failure(error),
    }
}

/// The request of `call`: the contract, the entry point and the calldata.
pub open spec fn decode_call(input: Seq<Felt>) -> Result<ChainRequestView, CheatcodeError> {
    match parse_felt(input, 0) {
        Err(e) => Err(CheatcodeError::Decode(e)),
        Ok((contract_address, after_1)) => match parse_felt(input, after_1) {
            Err(e) => Err(CheatcodeError::Decode(e)),
            Ok((function_selector, after_2)) => match parse_felts(input, after_2) {
                Err(e) => Err(CheatcodeError::Decode(e)),
                Ok((calldata, _)) => Ok(
                    ChainRequestView::Call { contract_address, function_selector, calldata },
                ),
            },
        },
    }
}

/// The request of `declare`: the contract's name, the fee settings and the
/// nonce.
pub open spec fn decode_declare(input: Seq<Felt>) -> Result<ChainRequestView, CheatcodeError> {
    match parse_byte_array(input, 0) {
        Err(e) => Err(CheatcodeError::Decode(e)),
        Ok((contract_name, after_1)) => match parse_fee_settings(input, after_1) {
            Err(e) => Err(CheatcodeError::Decode(e)),
            Ok((fee, after_2)) => match parse_option_felt(input, after_2) {
                Err(e) => Err(CheatcodeError::Decode(e)),
                Ok((nonce, _)) => Ok(ChainRequestView::Declare { contract_name, fee, nonce }),
            },
        },
    }
}

/// The request of `deploy`: the class hash, the constructor calldata, the
/// salt, the uniqueness flag, the fee settings and the nonce.
pub open spec fn decode_deploy(input: Seq<Felt>) -> Result<ChainRequestView, CheatcodeError> {
    match parse_felt(input, 0) {
        Err(e) => Err(CheatcodeError::Decode(e)),
        Ok((class_hash, after_1)) => match parse_felts(input, after_1) {
            Err(e) => Err(CheatcodeError::Decode(e)),
            Ok((constructor_calldata, after_2)) => match parse_option_felt(input, after_2) {
                Err(e) => Err(CheatcodeError::Decode(e)),
                Ok((salt, after_3)) => match parse_bool(input, after_3) {
                    Err(e) => Err(CheatcodeError::Decode(e)),
                    Ok((unique, after_4)) => match parse_fee_settings(input, after_4) {
                        Err(e) => Err(CheatcodeError::Decode(e)),
                        Ok((fee, after_5)) => match parse_option_felt(input, after_5) {
                            Err(e) => Err(CheatcodeError::Decode(e)),
                            Ok((nonce, _)) => Ok(
                                ChainRequestView::Deploy {
                                    class_hash,
                                    constructor_calldata,
                                    salt,
                                    unique,
                                    fee,
                                    nonce,
                                },
                            ),
                        },
                    },
                },
            },
        },
    }
}

/// The request of `invoke`: the contract, the entry point, the calldata,
/// the fee settings and the nonce.
pub open spec fn decode_invoke(input: Seq<Felt>) -> Result<ChainRequestView, CheatcodeError> {
    match parse_felt(input, 0) {
        Err(e) => Err(CheatcodeError::Decode(e)),
        Ok((contract_address, after_1)) => match parse_felt(input, after_1) {
            Err(e) => Err(CheatcodeError::Decode(e)),
            Ok((function_selector, after_2)) => match parse_felts(input, after_2) {
                Err(e) => Err(CheatcodeError::Decode(e)),
                Ok((calldata, after_3)) => match parse_fee_settings(input, after_3) {
                    Err(e) => Err(CheatcodeError::Decode(e)),
                    Ok((fee, after_4)) => match parse_option_felt(input, after_4) {
                        Err(e) => Err(CheatcodeError::Decode(e)),
                        Ok((nonce, _)) => Ok(
                            ChainRequestView::Invoke {
                                contract_address,
                                function_selector,
                                calldata,
                                fee,
                                nonce,
                            },
                        ),
                    },
                },
            },
        },
    }
}

/// The request of `get_nonce`: the block, as a short string.
pub open spec fn decode_get_nonce(input: Seq<Felt>) -> Result<ChainRequestView, CheatcodeError> {
    match parse_felt(input, 0) {
        Err(e) => Err(CheatcodeError::Decode(e)),
        Ok((block_id, _)) => match short_string(block_id@) {
            Some(text) => Ok(ChainRequestView::GetNonce { block_id: text }),
            None => Err(CheatcodeError::InvalidShortString),
        },
    }
}

/// The request of `tx_status`: the transaction's hash.
pub open spec fn decode_tx_status(input: Seq<Felt>) -> Result<ChainRequestView, CheatcodeError> {
    match parse_felt(input, 0) {
        Err(e) => Err(CheatcodeError::Decode(e)),
        Ok((transaction_hash, _)) => Ok(ChainRequestView::TxStatus { transaction_hash }),
    }
}

/// The request that the argument buffer of a cheatcode of this kind holds.
/// The fields are read in the order in which the script wrote them.
pub open spec fn decode_request(kind: CheatcodeKind, input: Seq<Felt>) -> Result<
    ChainRequestView,
    CheatcodeError,
> {
    match kind {
        CheatcodeKind::Call => decode_call(input),
        CheatcodeKind::Declare => decode_declare(input),
        CheatcodeKind::Deploy => decode_deploy(input),
        CheatcodeKind::Invoke => decode_invoke(input),
        CheatcodeKind::GetNonce => decode_get_nonce(input),
        CheatcodeKind::TxStatus => decode_tx_status(input),
    }
}

/// The identifier of the transaction that a request makes; none for a
/// request that changes nothing on the chain.
pub open spec fn request_identity(request: ChainRequestView) -> Option<Seq<char>> {
    match request {
        ChainRequestView::Declare { contract_name, .. } => Some(declare_tx_id(contract_name)),
        ChainRequestView::Deploy { class_hash, constructor_calldata, salt, unique, .. } => Some(
            deploy_tx_id(class_hash, constructor_calldata, salt, unique),
        ),
        ChainRequestView::Invoke { contract_address, function_selector, calldata, .. } => Some(
            invoke_tx_id(contract_address, function_selector, calldata),
        ),
        _ => None,
    }
}

/// Whether a request is made in the name of the run's account.
pub open spec fn needs_account(request: ChainRequestView) -> bool {
    !(request is Call || request is TxStatus)
}

/// What is done with a decoded request whose transaction has the identifier
/// `tx_id`: a recorded success is replayed, and anything else goes to the
/// chain, for which some requests need an account.
pub open spec fn decide_step(
    request: ChainRequestView,
    tx_id: Option<Seq<char>>,
    entries: Map<Seq<char>, RecordView>,
    has_account: bool,
) -> Result<StepView, CheatcodeError> {
    if tx_id is Some && success_output(entries, tx_id->Some_0) is Some {
        Ok(StepView::Handled(handled_success(success_output(entries, tx_id->Some_0)->Some_0)))
    } else if needs_account(request) && !has_account {
        Err(CheatcodeError::AccountNotDefined)
    } else {
        Ok(StepView::Chain { request })
    }
}

/// An optional text as a mathematical value.
pub open spec fn option_text(text: Option<String>) -> Option<Seq<char>> {
    match text {
        Some(t) => Some(t@),
        None => None,
    }
}

/// What the dispatcher does with a cheatcode.
pub open spec fn handle_spec(
    selector: Seq<char>,
    input: Seq<Felt>,
    entries: Map<Seq<char>, RecordView>,
    has_account: bool,
) -> Result<StepView, CheatcodeError> {
    match selector_kind(selector) {
        None => Ok(StepView::Forwarded),
        Some(kind) => match decode_request(kind, input) {
            Err(e) => Err(e),
            Ok(request) => decide_step(request, request_identity(request), entries, has_account),
        },
    }
}

/// The kind of cheatcode that a selector names, if it is one of ours.
pub fn cheatcode_kind(selector: &str) -> (kind: Option<CheatcodeKind>)
    ensures
        kind == selector_kind(selector@),
{
    if str_eq(selector, "call") {
        Some(CheatcodeKind::Call)
    } else if str_eq(selector, "declare") {
        Some(CheatcodeKind::Declare)
    } else if str_eq(selector, "deploy") {
        Some(CheatcodeKind::Deploy)
    } else if str_eq(selector, "invoke") {
        Some(CheatcodeKind::Invoke)
    } else if str_eq(selector, "get_nonce") {
        Some(CheatcodeKind::GetNonce)
    } else if str_eq(selector, "tx_status") {
        Some(CheatcodeKind::TxStatus)
    } else {
        None
    }
}

fn read_call(reader: &mut BufferReader) -> (request: Result<ChainRequest, BufferReadError>)
    requires
        old(reader).position() == 0,
    ensures
        match request {
            Ok(r) => decode_call(old(reader).buffer()) == Ok::<ChainRequestView, CheatcodeError>(
                r@,
            ),
            Err(e) => decode_call(old(reader).buffer()) == Err::<
                ChainRequestView,
                CheatcodeError,
            >(CheatcodeError::Decode(e)),
        },
{
    let contract_address = match reader.read_felt() {
        Err(e) => {
            return Err(e);
        },
        Ok(value) => value,
    };
    let function_selector = match reader.read_felt() {
        Err(e) => {
            return Err(e);
        },
        Ok(value) => value,
    };
    let calldata = match reader.read_felts() {
        Err(e) => {
            return Err(e);
        },
        Ok(value) => value,
    };
    Ok(ChainRequest::Call { contract_address, function_selector, calldata })
}

fn read_declare(reader: &mut BufferReader) -> (request: Result<ChainRequest, BufferReadError>)
    requires
        old(reader).position() == 0,
    ensures
        match request {
            Ok(r) => decode_declare(old(reader).buffer()) == Ok::<
                ChainRequestView,
                CheatcodeError,
            >(r@),
            Err(e) => decode_declare(old(reader).buffer()) == Err::<
                ChainRequestView,
                CheatcodeError,
            >(CheatcodeError::Decode(e)),
        },
{
    let contract_name = match reader.read_byte_array() {
        Err(e) => {
            return Err(e);
        },
        Ok(value) => value,
    };
    let fee = match reader.read_fee_settings() {
        Err(e) => {
            return Err(e);
        },
        Ok(value) => value,
    };
    let nonce = match reader.read_option_felt() {
        Err(e) => {
            return Err(e);
        },
        Ok(value) => value,
    };
    Ok(ChainRequest::Declare { contract_name, fee, nonce })
}

fn read_deploy(reader: &mut BufferReader) -> (request: Result<ChainRequest, BufferReadError>)
    requires
        old(reader).position() == 0,
    ensures
        match request {
            Ok(r) => decode_deploy(old(reader).buffer()) == Ok::<ChainRequestView, CheatcodeError>(
                r@,
            ),
            Err(e) => decode_deploy(old(reader).buffer()) == Err::<
                ChainRequestView,
                CheatcodeError,
            >(CheatcodeError::Decode(e)),
        },
{
    let class_hash = match reader.read_felt() {
        Err(e) => {
            return Err(e);
        },
        Ok(value) => value,
    };
    let constructor_calldata = match reader.read_felts() {
        Err(e) => {
            return Err(e);
        },
        Ok(value) => value,
    };
    let salt = match reader.read_option_felt() {
        Err(e) => {
            return Err(e);
        },
        Ok(value) => value,
    };
    let unique = match reader.read_bool() {
        Err(e) => {
            return Err(e);
        },
        Ok(value) => value,
    };
    let fee = match reader.read_fee_settings() {
        Err(e) => {
            return Err(e);
        },
        Ok(value) => value,
    };
    let nonce = match reader.read_option_felt() {
        Err(e) => {
            return Err(e);
        },
        Ok(value) => value,
    };
    Ok(ChainRequest::Deploy { class_hash, constructor_calldata, salt, unique, fee, nonce })
}

fn read_invoke(reader: &mut BufferReader) -> (request: Result<ChainRequest, BufferReadError>)
    requires
        old(reader).position() == 0,
    ensures
        match request {
            Ok(r) => decode_invoke(old(reader).buffer()) == Ok::<ChainRequestView, CheatcodeError>(
                r@,
            ),
            Err(e) => decode_invoke(old(reader).buffer()) == Err::<
                ChainRequestView,
                CheatcodeError,
            >(CheatcodeError::Decode(e)),
        },
{
    let contract_address = match reader.read_felt() {
        Err(e) => {
            return Err(e);
        },
        Ok(value) => value,
    };
    let function_selector = match reader.read_felt() {
        Err(e) => {
            return Err(e);
        },
        Ok(value) => value,
    };
    let calldata = match reader.read_felts() {
        Err(e) => {
            return Err(e);
        },
        Ok(value) => value,
    };
    let fee = match reader.read_fee_settings() {
        Err(e) => {
            return Err(e);
        },
        Ok(value) => value,
    };
    let nonce = match reader.read_option_felt() {
        Err(e) => {
            return Err(e);
        },
        Ok(value) => value,
    };
    Ok(ChainRequest::Invoke { contract_address, function_selector, calldata, fee, nonce })
}

/// Reads the request of a cheatcode of this kind from its argument buffer.
pub fn read_request(kind: CheatcodeKind, input: &[Felt]) -> (request: Result<
    ChainRequest,
    CheatcodeError,
>)
    ensures
        match request {
            Ok(r) => decode_request(kind, input@) == Ok::<ChainRequestView, CheatcodeError>(r@),
            Err(e) => decode_request(kind, input@) == Err::<ChainRequestView, CheatcodeError>(e),
        },
{
    let mut reader = BufferReader::new(input);
    match kind {
        CheatcodeKind::Call => match read_call(&mut reader) {
            Ok(request) => Ok(request),
            Err(e) => Err(CheatcodeError::Decode(e)),
        },
        CheatcodeKind::Declare => match read_declare(&mut reader) {
            Ok(request) => Ok(request),
            Err(e) => Err(CheatcodeError::Decode(e)),
        },
        CheatcodeKind::Deploy => match read_deploy(&mut reader) {
            Ok(request) => Ok(request),
            Err(e) => Err(CheatcodeError::Decode(e)),
        },
        CheatcodeKind::Invoke => match read_invoke(&mut reader) {
            Ok(request) => Ok(request),
            Err(e) => Err(CheatcodeError::Decode(e)),
        },
        CheatcodeKind::GetNonce => match reader.read_felt() {
            Err(e) => Err(CheatcodeError::Decode(e)),
            Ok(felt) => match as_cairo_short_string(&felt) {
                Some(block_id) => Ok(ChainRequest::GetNonce { block_id }),
                None => Err(CheatcodeError::InvalidShortString),
            },
        },
        CheatcodeKind::TxStatus => match reader.read_felt() {
            Err(e) => Err(CheatcodeError::Decode(e)),
            Ok(transaction_hash) => Ok(ChainRequest::TxStatus { transaction_hash }),
        },
    }
}

/// The identifier of the transaction that a request makes; none for a
/// request that changes nothing on the chain.
pub fn transaction_identity(request: &ChainRequest) -> (tx_id: Option<String>)
    ensures
        match tx_id {
            Some(id) => request_identity(request@) == Some(id@),
            None => request_identity(request@) is None,
        },
{
    match request {
        ChainRequest::Declare { contract_name, .. } => Some(
            generate_declare_tx_id_from_bytes(contract_name.as_slice()),
        ),
        ChainRequest::Deploy { class_hash, constructor_calldata, salt, unique, .. } => Some(
            generate_deploy_tx_id(*class_hash, constructor_calldata.as_slice(), *salt, *unique),
        ),
        ChainRequest::Invoke { contract_address, function_selector, calldata, .. } => Some(
            generate_invoke_tx_id(*contract_address, *function_selector, calldata.as_slice()),
        ),
        _ => None,
    }
}

/// The serialised value for a chain result: the felt 0 and the response, or
/// the felt 1 and the error.
pub fn frame_result(result: &ChainResult) -> (value: Vec<Felt>)
    ensures
        value@ == handled_value(chain_result_view(*result)),
{
    let mut value: Vec<Felt> = Vec::new();
    let payload = match result {
        Ok(output) => {
            value.push(Felt::from_u64(0));
            output
        },
        Err(error) => {
            value.push(Felt::from_u64(1));
            error
        },
    };
    let ghost head = value@;
    let mut i: usize = 0;
    while i < payload.len()
        invariant
            i <= payload.len(),
            value@ == head + payload@.take(i as int),
        decreases payload.len() - i,
    {
        value.push(payload[i]);
        assert(payload@.take(i + 1) =~= payload@.take(i as int).push(payload@[i as int]));
        i = i + 1;
    }
    assert(payload@.take(payload.len() as int) =~= payload@);
    value
}

/// Decides what is done with a decoded request whose transaction has the
/// identifier `tx_id`.
pub fn step_for_request(
    request: ChainRequest,
    tx_id: Option<String>,
    state: &StateManager,
    has_account: bool,
) -> (step: Result<CheatcodeStep, CheatcodeError>)
    ensures
        match step {
            Ok(s) => decide_step(request@, option_text(tx_id), state@, has_account) == Ok::<
                StepView,
                CheatcodeError,
            >(s@),
            Err(e) => decide_step(request@, option_text(tx_id), state@, has_account) == Err::<
                StepView,
                CheatcodeError,
            >(e),
        },
{
    if let Some(id) = &tx_id {
        if let Some(output) = state.get_output_if_success(id.as_str()) {
            let recorded: ChainResult = Ok(output);
            return Ok(
                CheatcodeStep::Done(CheatcodeHandlingResult::Handled(frame_result(&recorded))),
            );
        }
    }
    let with_account = match &request {
        ChainRequest::Call { .. } => false,
        ChainRequest::TxStatus { .. } => false,
        _ => true,
    };
    if with_account && !has_account {
        Err(CheatcodeError::AccountNotDefined)
    } else {
        Ok(CheatcodeStep::Chain(request))
    }
}

/// Handles a cheatcode as far as it can be handled without the chain. A
/// selector that is not ours is forwarded; for one of ours the request is
/// decoded, and a transaction that an earlier run has brought onto the chain
/// is answered from the store.
pub fn handle_cheatcode(
    selector: &str,
    input: &[Felt],
    state: &StateManager,
    has_account: bool,
) -> (step: Result<CheatcodeStep, CheatcodeError>)
    ensures
        match step {
            Ok(s) => handle_spec(selector@, input@, state@, has_account) == Ok::<
                StepView,
                CheatcodeError,
            >(s@),
            Err(e) => handle_spec(selector@, input@, state@, has_account) == Err::<
                StepView,
                CheatcodeError,
            >(e),
        },
        selector_kind(selector@) is None <==> step == Ok::<CheatcodeStep, CheatcodeError>(
            CheatcodeStep::Done(CheatcodeHandlingResult::Forwarded),
        ),
{
    match cheatcode_kind(selector) {
        None => Ok(CheatcodeStep::Done(CheatcodeHandlingResult::Forwarded)),
        Some(kind) => match read_request(kind, input) {
            Err(e) => Err(e),
            Ok(request) => {
                let tx_id = transaction_identity(&request);
                step_for_request(request, tx_id, state, has_account)
            },
        },
    }
}

/// What the store holds after the chain has answered an operation: a
/// success of a transaction is recorded where the store is persistent, and
/// nothing else changes it.
pub open spec fn entries_after(
    entries: Map<Seq<char>, RecordView>,
    persistent: bool,
    selector: Seq<char>,
    tx_id: Option<Seq<char>>,
    result: Result<Seq<Felt>, Seq<Felt>>,
) -> Map<Seq<char>, RecordView> {
    if persistent && tx_id is Some && result is Ok {
        entries.insert(
            tx_id->Some_0,
            RecordView { selector, outcome: OutcomeView::Success(result->Ok_0) },
        )
    } else {
        entries
    }
}

/// The value that the script gets for the chain's answer. A nonce that the
/// chain gave is handed over as it is; any other answer is framed as a
/// success or a failure, so that a failure of the chain reaches the script
/// as a value that carries the error.
pub open spec fn completion_value(
    request: ChainRequestView,
    result: Result<Seq<Felt>, Seq<Felt>>,
) -> Seq<Felt> {
    if request is GetNonce && result is Ok {
        result->Ok_0
    } else {
        handled_value(result)
    }
}

/// What completing an operation gives: the value for the script and the
/// store afterwards. A success for a transaction that the store already
/// holds as succeeded is an error, and the only one.
pub open spec fn complete_spec(
    request: ChainRequestView,
    tx_id: Option<Seq<char>>,
    entries: Map<Seq<char>, RecordView>,
    persistent: bool,
    selector: Seq<char>,
    result: Result<Seq<Felt>, Seq<Felt>>,
) -> Result<(Seq<Felt>, Map<Seq<char>, RecordView>), CheatcodeError> {
    if tx_id is Some && result is Ok && success_output(entries, tx_id->Some_0) is Some {
        Err(CheatcodeError::AlreadyRecorded)
    } else {
        Ok(
            (
                completion_value(request, result),
                entries_after(entries, persistent, selector, tx_id, result),
            ),
        )
    }
}

/// The answer for the script once the chain has answered, and whether the
/// store has a new entry that has to reach the state file first.
#[derive(Debug, PartialEq, Eq)]
pub struct Completion {
    pub outcome: CheatcodeHandlingResult,
    pub flush: bool,
}

/// Takes the chain's answer to a request whose transaction has the
/// identifier `tx_id`. A success of a transaction is recorded, a failure is
/// not; either is handed to the script as a value.
pub fn complete_with_identity(
    state: &mut StateManager,
    selector: &str,
    request: &ChainRequest,
    tx_id: Option<String>,
    result: &ChainResult,
) -> (completion: Result<Completion, CheatcodeError>)
    ensures
        final(state).is_persistent() == old(state).is_persistent(),
        match completion {
            Ok(done) => {
                &&& done.outcome matches CheatcodeHandlingResult::Handled(value)
                &&& complete_spec(
                    request@,
                    option_text(tx_id),
                    old(state)@,
                    old(state).is_persistent(),
                    selector@,
                    chain_result_view(*result),
                ) == Ok::<(Seq<Felt>, Map<Seq<char>, RecordView>), CheatcodeError>(
                    (value@, final(state)@),
                )
                &&& done.flush == (tx_id is Some && result is Ok && old(state).is_persistent())
                &&& final(state).added() == if done.flush {
                    old(state).added().push(
                        (
                            tx_id->Some_0@,
                            RecordView {
                                selector: selector@,
                                outcome: OutcomeView::Success(result->Ok_0@),
                            },
                        ),
                    )
                } else {
                    old(state).added()
                }
            },
            Err(e) => {
                &&& complete_spec(
                    request@,
                    option_text(tx_id),
                    old(state)@,
                    old(state).is_persistent(),
                    selector@,
                    chain_result_view(*result),
                ) == Err::<(Seq<Felt>, Map<Seq<char>, RecordView>), CheatcodeError>(e)
                &&& final(state)@ == old(state)@
                &&& final(state).added() == old(state).added()
            },
        },
{
    let value = match (request, result) {
        (ChainRequest::GetNonce { .. }, Ok(nonce)) => copy_felts(nonce.as_slice()),
        _ => frame_result(result),
    };
    let flush = match &tx_id {
        Some(id) => {
            if result.is_ok() && state.get_output_if_success(id.as_str()).is_some() {
                return Err(CheatcodeError::AlreadyRecorded);
            }
            state.maybe_insert_tx_entry(id.as_str(), selector, result)
        },
        None => false,
    };
    Ok(Completion { outcome: CheatcodeHandlingResult::Handled(value), flush })
}

/// Takes the chain's answer to a request that [`handle_cheatcode`] sent to
/// the chain.
pub fn complete_cheatcode(
    state: &mut StateManager,
    selector: &str,
    request: &ChainRequest,
    result: &ChainResult,
) -> (completion: Result<Completion, CheatcodeError>)
    ensures
        final(state).is_persistent() == old(state).is_persistent(),
        match completion {
            Ok(done) => {
                &&& done.outcome matches CheatcodeHandlingResult::Handled(value)
                &&& complete_spec(
                    request@,
                    request_identity(request@),
                    old(state)@,
                    old(state).is_persistent(),
                    selector@,
                    chain_result_view(*result),
                ) == Ok::<(Seq<Felt>, Map<Seq<char>, RecordView>), CheatcodeError>(
                    (value@, final(state)@),
                )
                &&& done.flush == (request_identity(request@) is Some && result is Ok && old(
                    state,
                ).is_persistent())
                &&& final(state).added() == if done.flush {
                    old(state).added().push(
                        (
                            request_identity(request@)->Some_0,
                            RecordView {
                                selector: selector@,
                                outcome: OutcomeView::Success(result->Ok_0@),
                            },
                        ),
                    )
                } else {
                    old(state).added()
                }
            },
            Err(e) => {
                &&& complete_spec(
                    request@,
                    request_identity(request@),
                    old(state)@,
                    old(state).is_persistent(),
                    selector@,
                    chain_result_view(*result),
                ) == Err::<(Seq<Felt>, Map<Seq<char>, RecordView>), CheatcodeError>(e)
                &&& final(state)@ == old(state)@
                &&& final(state).added() == old(state).added()
            },
        },
{
    let tx_id = transaction_identity(request);
    complete_with_identity(state, selector, request, tx_id, result)
}

} // verus!
