use txsim::numeric::PermissiveUint;
use txsim::session::{SessionError, SessionManager, StatefulSimulationEndResponse, StatefulSimulationRequest};
use txsim::state::{AccountState, Address, Storage};

fn params() -> StatefulSimulationRequest {
    StatefulSimulationRequest { chain_id: 137, gas_limit: 100000, block_number: Some(10), block_timestamp: None }
}

fn account(balance: u64) -> AccountState {
    AccountState { balance: PermissiveUint::from_u64(balance), nonce: 0, code: vec![], storage: Storage::new() }
}

const A: Address = Address { hi: 1, mid: 2, lo: 3 };

#[test]
fn identical_requests_get_distinct_ids() {
    let mut m = SessionManager::new();
    let a = m.start(params()).unwrap().stateful_simulation_id;
    let b = m.start(params()).unwrap().stateful_simulation_id;
    assert_ne!(a, b);
}

#[test]
fn open_refuses_taken_id() {
    let mut m = SessionManager::new();
    assert_eq!(m.open(params(), 5).unwrap().stateful_simulation_id, 5);
    assert_eq!(m.open(params(), 5), Err(SessionError::IdInUse));
    assert_eq!(m.end(5), Ok(StatefulSimulationEndResponse { success: true }));
    assert_eq!(m.open(params(), 5), Err(SessionError::IdInUse));
}

#[test]
fn ending_twice_is_not_found() {
    let mut m = SessionManager::new();
    let id = m.start(params()).unwrap().stateful_simulation_id;
    assert_eq!(m.end(id), Ok(StatefulSimulationEndResponse { success: true }));
    assert_eq!(m.end(id), Err(SessionError::SessionNotFound));
    assert_eq!(m.begin_call(id), Err(SessionError::SessionNotFound));
}

#[test]
fn unknown_id_is_not_found() {
    let mut m = SessionManager::new();
    assert_eq!(m.end(77), Err(SessionError::SessionNotFound));
    assert_eq!(m.finish_call(77, vec![], true), Err(SessionError::SessionNotFound));
    assert!(matches!(m.committed(77, A), Err(SessionError::SessionNotFound)));
}

#[test]
fn one_call_at_a_time() {
    let mut m = SessionManager::new();
    m.open(params(), 1).unwrap();
    assert_eq!(m.finish_call(1, vec![], false), Err(SessionError::NoCallRunning));
    assert_eq!(m.begin_call(1), Ok(params()));
    assert_eq!(m.begin_call(1), Err(SessionError::SessionBusy));
    assert_eq!(m.end(1), Err(SessionError::SessionBusy));
    assert_eq!(m.finish_call(1, vec![], false), Ok(()));
    assert_eq!(m.end(1), Ok(StatefulSimulationEndResponse { success: true }));
}

#[test]
fn commits_stay_in_their_session() {
    let mut m = SessionManager::new();
    m.open(params(), 1).unwrap();
    m.open(params(), 2).unwrap();
    m.begin_call(1).unwrap();
    m.finish_call(1, vec![(A, account(500))], true).unwrap();
    assert_eq!(m.committed(1, A).unwrap().unwrap().balance, PermissiveUint::from_u64(500));
    assert!(m.committed(2, A).unwrap().is_none());

    m.begin_call(1).unwrap();
    m.finish_call(1, vec![(A, account(600))], true).unwrap();
    assert_eq!(m.committed(1, A).unwrap().unwrap().balance, PermissiveUint::from_u64(600));

    m.begin_call(1).unwrap();
    m.finish_call(1, vec![(A, account(700))], false).unwrap();
    assert_eq!(m.committed(1, A).unwrap().unwrap().balance, PermissiveUint::from_u64(600));
    assert!(m.committed(2, A).unwrap().is_none());
}

#[test]
fn end_right_after_start_succeeds() {
    let mut m = SessionManager::new();
    let id = m.start(params()).unwrap().stateful_simulation_id;
    assert_eq!(m.end(id), Ok(StatefulSimulationEndResponse { success: true }));
}
