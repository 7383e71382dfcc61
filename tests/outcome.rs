use txsim::numeric::PermissiveUint;
use txsim::outcome::{
    assemble, build_context, is_success, overrides_distinct, prepare, CallKind, CallTrace,
    ExecutionContext, ExitReason, RawResult, SimulationError, SimulationRequest,
};
use txsim::state::{Address, StateOverride};
use txsim::trace::{address_hex, format_frame, format_trace, hex_padded, kind_name};

fn addr(b: u8) -> Address {
    let byte = b as u64;
    let word = byte * 0x0101_0101_0101_0101;
    Address { hi: (word & 0xffff_ffff) as u32, mid: word, lo: word }
}

fn request() -> SimulationRequest {
    SimulationRequest {
        chain_id: 137,
        from: addr(0xAA),
        to: addr(0xBB),
        data: None,
        gas_limit: 100000,
        value: Some(PermissiveUint::parse("0x64").unwrap()),
        access_list: None,
        block_number: None,
        block_timestamp: None,
        state_overrides: None,
        format_trace: None,
    }
}

fn context(gas_limit: u64) -> ExecutionContext {
    ExecutionContext { chain_id: 137, block_number: 50, block_timestamp: 1_700_000_000, gas_limit }
}

fn raw(gas_used: u64, exit_reason: ExitReason, return_data: Vec<u8>) -> RawResult {
    RawResult { gas_used, exit_reason, return_data, logs: vec![], trace: vec![] }
}

fn no_override() -> StateOverride {
    StateOverride { balance: None, nonce: None, code: None, state: None }
}

#[test]
fn success_only_for_stop_and_return() {
    assert!(is_success(ExitReason::Stop));
    assert!(is_success(ExitReason::Return));
    for r in [
        ExitReason::Revert,
        ExitReason::OutOfGas,
        ExitReason::InvalidOpcode,
        ExitReason::OutOfFunds,
        ExitReason::StackOverflow,
        ExitReason::StackUnderflow,
        ExitReason::CallTooDeep,
        ExitReason::OtherHalt,
    ] {
        assert!(!is_success(r));
    }
}

#[test]
fn context_defaults_to_latest() {
    let c = build_context(&request(), 61_000_000, 1_700_000_123);
    assert_eq!(c, ExecutionContext { chain_id: 137, block_number: 61_000_000, block_timestamp: 1_700_000_123, gas_limit: 100000 });
    let mut req = request();
    req.block_number = Some(42);
    req.block_timestamp = Some(7);
    let c = build_context(&req, 61_000_000, 1_700_000_123);
    assert_eq!((c.block_number, c.block_timestamp), (42, 7));
}

#[test]
fn prepare_takes_request_apart() {
    let mut req = request();
    req.format_trace = Some(true);
    req.state_overrides = Some(vec![(addr(1), no_override()), (addr(2), no_override())]);
    let p = prepare(req, 10, 20).unwrap();
    assert_eq!(p.context.block_number, 10);
    assert_eq!(p.context.block_timestamp, 20);
    assert_eq!(p.call.from, addr(0xAA));
    assert_eq!(p.call.to, addr(0xBB));
    assert_eq!(p.call.value, Some(PermissiveUint::from_u64(100)));
    assert!(p.call.format_trace);
    assert_eq!(p.overrides.len(), 2);
    let p = prepare(request(), 10, 20).unwrap();
    assert!(!p.call.format_trace);
    assert!(p.overrides.is_empty());
}

#[test]
fn prepare_refuses_two_overrides_of_one_account() {
    let mut req = request();
    req.state_overrides = Some(vec![(addr(1), no_override()), (addr(2), no_override()), (addr(1), no_override())]);
    assert!(!overrides_distinct(req.state_overrides.as_ref().unwrap()));
    assert!(matches!(prepare(req, 10, 20), Err(SimulationError::OverrideError)));
}

#[test]
fn plain_transfer_response() {
    let p = prepare(request(), 50, 1_700_000_000).unwrap();
    let r = assemble(raw(21000, ExitReason::Stop, vec![]), 1, &p.context, p.call.format_trace).unwrap();
    assert_eq!(r.exit_reason, ExitReason::Stop);
    assert!(r.success);
    assert_eq!(r.gas_used, 21000);
    assert_eq!(r.block_number, 50);
    assert!(r.trace.is_empty());
    assert!(r.logs.is_empty());
    assert!(r.return_data.is_empty());
}

#[test]
fn revert_is_a_completed_simulation() {
    let reason = vec![0x08, 0xc3, 0x79, 0xa0, 0x01];
    let r = assemble(raw(30000, ExitReason::Revert, reason.clone()), 1, &context(100000), false).unwrap();
    assert!(!r.success);
    assert_eq!(r.exit_reason, ExitReason::Revert);
    assert_eq!(r.return_data, reason);
    assert!(r.gas_used <= 100000);
}

#[test]
fn gas_used_never_exceeds_limit() {
    let r = assemble(raw(100000, ExitReason::OutOfGas, vec![]), 1, &context(100000), false).unwrap();
    assert_eq!(r.gas_used, 100000);
    assert!(!r.success);
    assert!(matches!(
        assemble(raw(100001, ExitReason::Stop, vec![]), 1, &context(100000), false),
        Err(SimulationError::EngineError)
    ));
}

#[test]
fn trace_kept_in_entry_order() {
    let frames = vec![
        CallTrace { call_type: CallKind::Call, from: addr(1), to: addr(9), value: PermissiveUint::from_u64(5) },
        CallTrace { call_type: CallKind::DelegateCall, from: addr(9), to: addr(3), value: PermissiveUint::zero() },
        CallTrace { call_type: CallKind::StaticCall, from: addr(9), to: addr(2), value: PermissiveUint::zero() },
    ];
    let mut rr = raw(50000, ExitReason::Return, vec![1]);
    rr.trace = frames.clone();
    let r = assemble(rr.clone(), 4, &context(100000), true).unwrap();
    assert_eq!(r.trace, frames);
    assert_eq!(r.simulation_id, 4);
    let text = r.formatted_trace.unwrap();
    let lines: Vec<&str> = text.lines().collect();
    assert_eq!(lines.len(), 3);
    assert!(lines[0].starts_with("CALL 0x"));
    assert!(lines[1].starts_with("DELEGATECALL "));
    assert!(lines[2].starts_with("STATICCALL "));
    assert!(lines[0].ends_with(" value 0x5"));
    let r = assemble(rr, 4, &context(100000), false).unwrap();
    assert_eq!(r.formatted_trace, None);
}

#[test]
fn renders_frames() {
    let f = CallTrace {
        call_type: CallKind::Create2,
        from: Address { hi: 0xAAAA_AAAA, mid: 0x0102_0304_0506_0708, lo: 0xff },
        to: Address { hi: 0, mid: 0, lo: 1 },
        value: PermissiveUint::from_u64(255),
    };
    assert_eq!(
        format_frame(&f),
        "CREATE2 0xaaaaaaaa010203040506070800000000000000ff -> 0x0000000000000000000000000000000000000001 value 0xff\n"
    );
    assert_eq!(kind_name(CallKind::StaticCall), "STATICCALL");
    assert_eq!(format_trace(&vec![]), "");
    assert_eq!(format_trace(&vec![f, f]), format!("{}{}", format_frame(&f), format_frame(&f)));
}

#[test]
fn pads_hex_to_width() {
    assert_eq!(hex_padded(0, 4), "0000");
    assert_eq!(hex_padded(0xab, 4), "00ab");
    assert_eq!(hex_padded(0x12345, 4), "12345");
    assert_eq!(hex_padded(u64::MAX, 16), "ffffffffffffffff");
    assert_eq!(hex_padded(7, 0), "7");
    assert_eq!(
        address_hex(Address { hi: 0xdeadbeef, mid: 1, lo: 0x10 }),
        "0xdeadbeef00000000000000010000000000000010"
    );
}
