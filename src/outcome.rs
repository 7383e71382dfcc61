//! Requests, execution context, outcome classification and the response
//! assembled from what the engine reports.
use vstd::prelude::*;
use crate::numeric::PermissiveUint;
use crate::state::{Address, StateOverride};
use crate::trace::trace_text;

verus! {

/// How execution halted.
#[derive(Debug, Clone, Copy, PartialEq, Eq, Structural)]
pub enum ExitReason {
    Stop,
    Return,
    Revert,
    OutOfGas,
    InvalidOpcode,
    OutOfFunds,
    StackOverflow,
    StackUnderflow,
    CallTooDeep,
    /// Any other halt that the engine defines.
    OtherHalt,
}

/// The kind of one call frame.
#[derive(Debug, Clone, Copy, PartialEq, Eq, Structural)]
pub enum CallKind {
    Call,
    StaticCall,
    CallCode,
    DelegateCall,
    Create,
    Create2,
}

/// One frame of the call tree, recorded when it is entered.
#[derive(Debug, Clone, Copy, PartialEq, Eq, Structural)]
pub struct CallTrace {
    pub call_type: CallKind,
    pub from: Address,
    pub to: Address,
    pub value: PermissiveUint,
}

/// One emitted log.
#[derive(Debug, Clone)]
pub struct Log {
    pub address: Address,
    pub topics: Vec<PermissiveUint>,
    pub data: Vec<u8>,
}

/// An address and the storage slots that a call declares it will touch.
#[derive(Debug, Clone)]
pub struct AccessListItem {
    pub address: Address,
    pub storage_keys: Vec<PermissiveUint>,
}

/// What a caller asks to simulate.
#[derive(Debug, Clone)]
pub struct SimulationRequest {
    pub chain_id: u64,
    pub from: Address,
    pub to: Address,
    pub data: Option<Vec<u8>>,
    pub gas_limit: u64,
    pub value: Option<PermissiveUint>,
    pub access_list: Option<Vec<AccessListItem>>,
    pub block_number: Option<u64>,
    pub block_timestamp: Option<u64>,
    pub state_overrides: Option<Vec<(Address, StateOverride)>>,
    pub format_trace: Option<bool>,
}

/// The chain parameters one call runs under, fixed before it starts.
#[derive(Debug, Clone, Copy, PartialEq, Eq, Structural)]
pub struct ExecutionContext {
    pub chain_id: u64,
    pub block_number: u64,
    pub block_timestamp: u64,
    pub gas_limit: u64,
}

/// The call handed to the engine.
#[derive(Debug, Clone)]
pub struct CallRawRequest {
    pub from: Address,
    pub to: Address,
    pub value: Option<PermissiveUint>,
    pub data: Option<Vec<u8>>,
    pub access_list: Option<Vec<AccessListItem>>,
    pub format_trace: bool,
}

/// A request taken apart: the context, the call, and the overrides to apply first.
#[derive(Debug, Clone)]
pub struct PreparedCall {
    pub context: ExecutionContext,
    pub call: CallRawRequest,
    pub overrides: Vec<(Address, StateOverride)>,
}

/// What the engine reports for one completed call.
#[derive(Debug, Clone)]
pub struct RawResult {
    pub gas_used: u64,
    pub exit_reason: ExitReason,
    pub return_data: Vec<u8>,
    pub logs: Vec<Log>,
    pub trace: Vec<CallTrace>,
}

/// The structured result of one simulation.
#[derive(Debug, Clone)]
pub struct SimulationResponse {
    pub simulation_id: u64,
    pub gas_used: u64,
    pub block_number: u64,
    pub success: bool,
    pub trace: Vec<CallTrace>,
    pub formatted_trace: Option<String>,
    pub logs: Vec<Log>,
    pub exit_reason: ExitReason,
    pub return_data: Vec<u8>,
}

/// Why a simulation produced no response.
#[derive(Debug, Clone, Copy, PartialEq, Eq, Structural)]
pub enum SimulationError {
    /// The remote state source could not be read.
    ProviderError,
    /// A numeric text was malformed or too large.
    NumericParseError,
    /// Two overrides name the same account.
    OverrideError,
    /// The engine failed, or reported an outcome that breaks its own limits.
    EngineError,
}

/// A halt counts as success exactly when it is a plain stop or return.
pub open spec fn is_success_spec(reason: ExitReason) -> bool {
    reason == ExitReason::Stop || reason == ExitReason::Return
}

/// Whether a halt counts as success.
pub fn is_success(reason: ExitReason) -> (r: bool)
    ensures
        r == is_success_spec(reason),
{
    match reason {
        ExitReason::Stop | ExitReason::Return => true,
        _ => false,
    }
}

/// Whether two overrides name the same account.
pub open spec fn has_duplicate_address(s: Seq<(Address, StateOverride)>) -> bool {
    exists|i: int, j: int| 0 <= i < j < s.len() && (#[trigger] s[i]).0 == (#[trigger] s[j]).0
}

/// Checks that no account is named by two overrides.
pub fn overrides_distinct(overrides: &Vec<(Address, StateOverride)>) -> (r: bool)
    ensures
        r == !has_duplicate_address(overrides@),
{
    let n = overrides.len();
    let mut i: usize = 0;
    while i < n
        invariant
            n == overrides@.len(),
            i <= n,
            forall|a: int, b: int| 0 <= a < i && a < b < n ==> (#[trigger] overrides@[a]).0 != (#[trigger] overrides@[b]).0,
        decreases n - i,
    {
        let mut j: usize = i + 1;
        while j < n
            invariant
                n == overrides@.len(),
                i < n,
                i < j <= n,
                forall|a: int, b: int| 0 <= a < i && a < b < n ==> (#[trigger] overrides@[a]).0 != (#[trigger] overrides@[b]).0,
                forall|b: int| i < b < j ==> overrides@[i as int].0 != (#[trigger] overrides@[b]).0,
            decreases n - j,
        {
            if overrides[i].0 == overrides[j].0 {
                return false;
            }
            j += 1;
        }
        i += 1;
    }
    true
}

/// The context a request runs under: the requested block and time, or the
/// latest ones that the state source reported.
pub fn build_context(req: &SimulationRequest, latest_block: u64, latest_timestamp: u64) -> (r: ExecutionContext)
    ensures
        r.chain_id == req.chain_id,
        r.gas_limit == req.gas_limit,
        r.block_number == (match req.block_number { Some(b) => b, None => latest_block }),
        r.block_timestamp == (match req.block_timestamp { Some(t) => t, None => latest_timestamp }),
{
    ExecutionContext {
        chain_id: req.chain_id,
        block_number: match req.block_number {
            Some(b) => b,
            None => latest_block,
        },
        block_timestamp: match req.block_timestamp {
            Some(t) => t,
            None => latest_timestamp,
        },
        gas_limit: req.gas_limit,
    }
}

/// Takes a request apart for the engine. Fails with `OverrideError` exactly
/// when two overrides name the same account, since their order would then
/// decide the outcome.
pub fn prepare(req: SimulationRequest, latest_block: u64, latest_timestamp: u64) -> (r: Result<PreparedCall, SimulationError>)
    ensures
        (match req.state_overrides { Some(o) => has_duplicate_address(o@), None => false })
            ==> r == Err::<PreparedCall, SimulationError>(SimulationError::OverrideError),
        !(match req.state_overrides { Some(o) => has_duplicate_address(o@), None => false }) ==> {
            &&& r is Ok
            &&& r->Ok_0.context.chain_id == req.chain_id
            &&& r->Ok_0.context.gas_limit == req.gas_limit
            &&& r->Ok_0.context.block_number == (match req.block_number { Some(b) => b, None => latest_block })
            &&& r->Ok_0.context.block_timestamp == (match req.block_timestamp { Some(t) => t, None => latest_timestamp })
            &&& r->Ok_0.call.from == req.from
            &&& r->Ok_0.call.to == req.to
            &&& r->Ok_0.call.value == req.value
            &&& r->Ok_0.call.data == req.data
            &&& r->Ok_0.call.access_list == req.access_list
            &&& r->Ok_0.call.format_trace == (req.format_trace == Some(true))
            &&& r->Ok_0.overrides@ == (match req.state_overrides { Some(o) => o@, None => Seq::empty() })
        },
{
    let context = build_context(&req, latest_block, latest_timestamp);
    let SimulationRequest { from, to, data, value, access_list, state_overrides, format_trace, .. } = req;
    let overrides = match state_overrides {
        Some(o) => o,
        None => Vec::new(),
    };
    if !overrides_distinct(&overrides) {
        return Err(SimulationError::OverrideError);
    }
    let format_trace = match format_trace {
        Some(f) => f,
        None => false,
    };
    let call = CallRawRequest { from, to, value, data, access_list, format_trace };
    Ok(PreparedCall { context, call, overrides })
}

/// `r` is the response assembled from `raw`: refused as an engine fault when
/// the reported gas exceeds the limit, otherwise every field taken from the
/// report, with success decided by the exit reason alone.
pub open spec fn assembled(
    raw: RawResult,
    simulation_id: u64,
    context: ExecutionContext,
    format_trace: bool,
    r: Result<SimulationResponse, SimulationError>,
) -> bool {
    &&& (raw.gas_used > context.gas_limit ==> r == Err::<SimulationResponse, SimulationError>(SimulationError::EngineError))
    &&& (raw.gas_used <= context.gas_limit ==> {
        &&& r is Ok
        &&& r->Ok_0.simulation_id == simulation_id
        &&& r->Ok_0.gas_used == raw.gas_used
        &&& r->Ok_0.gas_used <= context.gas_limit
        &&& r->Ok_0.block_number == context.block_number
        &&& r->Ok_0.exit_reason == raw.exit_reason
        &&& r->Ok_0.success == is_success_spec(raw.exit_reason)
        &&& r->Ok_0.trace@ == raw.trace@
        &&& r->Ok_0.logs@ == raw.logs@
        &&& r->Ok_0.return_data@ == raw.return_data@
        &&& format_trace ==> r->Ok_0.formatted_trace is Some
            && r->Ok_0.formatted_trace->Some_0@ == trace_text(raw.trace@)
        &&& !format_trace ==> r->Ok_0.formatted_trace is None
    })
}

/// Packages what the engine reported into a response. Fails with
/// `EngineError` exactly when the engine reports more gas used than the
/// limit allows. A revert or any other halt is a completed simulation. The
/// trace is rendered only when asked for.
pub fn assemble(raw: RawResult, simulation_id: u64, context: &ExecutionContext, format_trace: bool) -> (r: Result<SimulationResponse, SimulationError>)
    ensures
        assembled(raw, simulation_id, *context, format_trace, r),
{
    if raw.gas_used > context.gas_limit {
        return Err(SimulationError::EngineError);
    }
    let success = is_success(raw.exit_reason);
    let RawResult { gas_used, exit_reason, return_data, logs, trace } = raw;
    let formatted_trace = if format_trace {
        Some(crate::trace::format_trace(&trace))
    } else {
        None
    };
    Ok(SimulationResponse {
        simulation_id,
        gas_used,
        block_number: context.block_number,
        success,
        trace,
        formatted_trace,
        logs,
        exit_reason,
        return_data,
    })
}

/// A call that reverts is a completed simulation, not an error: within the
/// gas limit it yields a response that reports failure, the revert exit
/// reason, and the revert data exactly as the engine returned it.
pub proof fn lemma_revert_is_completed(
    raw: RawResult,
    simulation_id: u64,
    context: ExecutionContext,
    format_trace: bool,
    r: Result<SimulationResponse, SimulationError>,
)
    requires
        assembled(raw, simulation_id, context, format_trace, r),
        raw.exit_reason == ExitReason::Revert,
        raw.gas_used <= context.gas_limit,
    ensures
        r is Ok,
        !r->Ok_0.success,
        r->Ok_0.exit_reason == ExitReason::Revert,
        r->Ok_0.return_data@ == raw.return_data@,
        raw.return_data@.len() > 0 ==> r->Ok_0.return_data@.len() > 0,
{
}

/// Every response reports no more gas used than the limit it ran under, and
/// success exactly for a stop or a return.
pub proof fn lemma_response_invariants(
    raw: RawResult,
    simulation_id: u64,
    context: ExecutionContext,
    format_trace: bool,
    r: Result<SimulationResponse, SimulationError>,
)
    requires
        assembled(raw, simulation_id, context, format_trace, r),
        r is Ok,
    ensures
        r->Ok_0.gas_used <= context.gas_limit,
        r->Ok_0.success <==> (r->Ok_0.exit_reason == ExitReason::Stop || r->Ok_0.exit_reason == ExitReason::Return),
{
}

} // verus!
