//! Long-lived forks identified by an opaque id: start, calls that may commit
//! into the fork one at a time, and end.
use vstd::prelude::*;
use crate::state::{Address, AccountState};

verus! {

/// Chain parameters that a session pins.
#[derive(Debug, Clone, Copy, PartialEq, Eq, Structural)]
pub struct StatefulSimulationRequest {
    pub chain_id: u64,
    pub gas_limit: u64,
    pub block_number: Option<u64>,
    pub block_timestamp: Option<u64>,
}

/// The id of a started session.
#[derive(Debug, Clone, Copy, PartialEq, Eq, Structural)]
pub struct StatefulSimulationResponse {
    pub stateful_simulation_id: u128,
}

/// The answer to ending a session.
#[derive(Debug, Clone, Copy, PartialEq, Eq, Structural)]
pub struct StatefulSimulationEndResponse {
    pub success: bool,
}

#[derive(Debug, Clone, Copy, PartialEq, Eq, Structural)]
pub enum SessionStatus {
    Active,
    Ended,
}

/// Why a session operation was refused.
#[derive(Debug, Clone, Copy, PartialEq, Eq, Structural)]
pub enum SessionError {
    /// No session has that id, or it has ended.
    SessionNotFound,
    /// A call is already running against that session.
    SessionBusy,
    /// No call is running against that session.
    NoCallRunning,
    /// The freshly drawn id is already taken; nothing was started.
    IdInUse,
}

/// One session: its pinned parameters and the accounts its calls committed,
/// later entries shadowing earlier ones.
#[derive(Debug)]
pub struct Session {
    pub id: u128,
    pub params: StatefulSimulationRequest,
    pub status: SessionStatus,
    pub busy: bool,
    pub accounts: Vec<(Address, AccountState)>,
}

/// All sessions ever started, ended ones included, so that no id is reused.
#[derive(Debug)]
pub struct SessionManager {
    sessions: Vec<Session>,
}

/// Whether some session has id `id`.
pub open spec fn has_id(s: Seq<Session>, id: u128) -> bool {
    exists|i: int| 0 <= i < s.len() && (#[trigger] s[i]).id == id
}

/// No two sessions share an id.
pub open spec fn ids_unique(s: Seq<Session>) -> bool {
    forall|i: int, j: int| 0 <= i < j < s.len() ==> (#[trigger] s[i]).id != (#[trigger] s[j]).id
}

/// The committed account at `address` in a list of commits, later ones winning.
pub open spec fn committed_account(s: Seq<(Address, AccountState)>, address: Address) -> Option<AccountState>
    decreases s.len(),
{
    if s.len() == 0 {
        None
    } else if s.last().0 == address {
        Some(s.last().1)
    } else {
        committed_account(s.drop_last(), address)
    }
}

/// `new` is `old` after a call against session `i` finished: that session is
/// free again and, when the call committed, holds the changed accounts on top
/// of what it held; every other session is untouched.
pub open spec fn call_finished(
    old: Seq<Session>,
    new: Seq<Session>,
    i: int,
    changes: Seq<(Address, AccountState)>,
    commit: bool,
) -> bool {
    &&& new.len() == old.len()
    &&& 0 <= i < old.len()
    &&& new[i].id == old[i].id
    &&& new[i].params == old[i].params
    &&& new[i].status == old[i].status
    &&& !new[i].busy
    &&& new[i].accounts@ == (if commit { old[i].accounts@ + changes } else { old[i].accounts@ })
    &&& forall|k: int| 0 <= k < old.len() && k != i ==> new[k] == old[k]
}

/// Relies on uuid's `Uuid::new_v4` and `Uuid::as_u128`: a random version-4 id as
/// a 128-bit integer. Nothing is promised of its value.
#[verifier::external_body]
fn random_session_id() -> (r: u128) {
    uuid::Uuid::new_v4().as_u128()
}

impl View for SessionManager {
    type V = Seq<Session>;

    closed spec fn view(&self) -> Seq<Session> {
        self.sessions@
    }
}

impl SessionManager {
    pub open spec fn wf(&self) -> bool {
        ids_unique(self@)
    }

    pub fn new() -> (r: SessionManager)
        ensures
            r.wf(),
            r@ == Seq::<Session>::empty(),
    {
        SessionManager { sessions: Vec::new() }
    }

    /// The position of the session with id `id`.
    pub fn find(&self, id: u128) -> (r: Option<usize>)
        requires
            self.wf(),
        ensures
            r is None <==> !has_id(self@, id),
            r is Some ==> r->Some_0 < self@.len() && self@[r->Some_0 as int].id == id,
    {
        let mut i: usize = 0;
        while i < self.sessions.len()
            invariant
                i <= self.sessions@.len(),
                forall|k: int| 0 <= k < i ==> (#[trigger] self.sessions@[k]).id != id,
            decreases self.sessions@.len() - i,
        {
            if self.sessions[i].id == id {
                return Some(i);
            }
            i += 1;
        }
        None
    }

    /// Starts a session under a given id; refused, with nothing changed, when
    /// that id is already taken.
    pub fn open(&mut self, req: StatefulSimulationRequest, id: u128) -> (r: Result<StatefulSimulationResponse, SessionError>)
        requires
            old(self).wf(),
        ensures
            final(self).wf(),
            has_id(old(self)@, id) ==> r == Err::<StatefulSimulationResponse, SessionError>(SessionError::IdInUse)
                && final(self)@ == old(self)@,
            !has_id(old(self)@, id) ==> {
                &&& r == Ok::<StatefulSimulationResponse, SessionError>(StatefulSimulationResponse { stateful_simulation_id: id })
                &&& final(self)@.len() == old(self)@.len() + 1
                &&& final(self)@.drop_last() == old(self)@
                &&& final(self)@.last().id == id
                &&& final(self)@.last().params == req
                &&& final(self)@.last().status == SessionStatus::Active
                &&& !final(self)@.last().busy
                &&& final(self)@.last().accounts@.len() == 0
            },
    {
        if self.find(id).is_some() {
            return Err(SessionError::IdInUse);
        }
        let s = Session { id, params: req, status: SessionStatus::Active, busy: false, accounts: Vec::new() };
        self.sessions.push(s);
        assert(self.sessions@.drop_last() =~= old(self).sessions@);
        Ok(StatefulSimulationResponse { stateful_simulation_id: id })
    }

    /// Starts a session under a fresh random id. The id given out differs from
    /// that of every session started before, ended ones included; only a clash
    /// with such an id refuses the start, so a manager with no sessions always
    /// starts one.
    pub fn start(&mut self, req: StatefulSimulationRequest) -> (r: Result<StatefulSimulationResponse, SessionError>)
        requires
            old(self).wf(),
        ensures
            final(self).wf(),
            r is Err ==> r == Err::<StatefulSimulationResponse, SessionError>(SessionError::IdInUse)
                && final(self)@ == old(self)@,
            r is Err ==> old(self)@.len() > 0,
            r is Ok ==> {
                &&& !has_id(old(self)@, r->Ok_0.stateful_simulation_id)
                &&& final(self)@.len() == old(self)@.len() + 1
                &&& final(self)@.drop_last() == old(self)@
                &&& final(self)@.last().id == r->Ok_0.stateful_simulation_id
                &&& final(self)@.last().params == req
                &&& final(self)@.last().status == SessionStatus::Active
                &&& !final(self)@.last().busy
                &&& final(self)@.last().accounts@.len() == 0
            },
    {
        let id = random_session_id();
        self.open(req, id)
    }

    /// Ends an active session that no call is running against.
    pub fn end(&mut self, id: u128) -> (r: Result<StatefulSimulationEndResponse, SessionError>)
        requires
            old(self).wf(),
        ensures
            final(self).wf(),
            final(self)@.len() == old(self)@.len(),
            (forall|i: int| 0 <= i < old(self)@.len() && (#[trigger] old(self)@[i]).id == id
                ==> old(self)@[i].status == SessionStatus::Ended)
                ==> r == Err::<StatefulSimulationEndResponse, SessionError>(SessionError::SessionNotFound)
                    && final(self)@ == old(self)@,
            forall|i: int| 0 <= i < old(self)@.len() && (#[trigger] old(self)@[i]).id == id
                && old(self)@[i].status == SessionStatus::Active ==> {
                if old(self)@[i].busy {
                    &&& r == Err::<StatefulSimulationEndResponse, SessionError>(SessionError::SessionBusy)
                    &&& final(self)@ == old(self)@
                } else {
                    &&& r == Ok::<StatefulSimulationEndResponse, SessionError>(StatefulSimulationEndResponse { success: true })
                    &&& final(self)@[i].status == SessionStatus::Ended
                    &&& final(self)@[i].id == id
                    &&& final(self)@[i].accounts@ == old(self)@[i].accounts@
                    &&& forall|k: int| 0 <= k < old(self)@.len() && k != i ==> final(self)@[k] == old(self)@[k]
                }
            },
    {
        match self.find(id) {
            None => Err(SessionError::SessionNotFound),
            Some(i) => {
                if self.sessions[i].status == SessionStatus::Ended {
                    return Err(SessionError::SessionNotFound);
                }
                if self.sessions[i].busy {
                    return Err(SessionError::SessionBusy);
                }
                let ghost before = self.sessions@;
                self.sessions[i].status = SessionStatus::Ended;
                assert(forall|k: int| 0 <= k < before.len() && k != i ==> self.sessions@[k] == before[k]);
                Ok(StatefulSimulationEndResponse { success: true })
            },
        }
    }

    /// Claims an active, free session for one call and hands back its pinned
    /// parameters.
    pub fn begin_call(&mut self, id: u128) -> (r: Result<StatefulSimulationRequest, SessionError>)
        requires
            old(self).wf(),
        ensures
            final(self).wf(),
            final(self)@.len() == old(self)@.len(),
            (forall|i: int| 0 <= i < old(self)@.len() && (#[trigger] old(self)@[i]).id == id
                ==> old(self)@[i].status == SessionStatus::Ended)
                ==> r == Err::<StatefulSimulationRequest, SessionError>(SessionError::SessionNotFound)
                    && final(self)@ == old(self)@,
            forall|i: int| 0 <= i < old(self)@.len() && (#[trigger] old(self)@[i]).id == id
                && old(self)@[i].status == SessionStatus::Active ==> {
                if old(self)@[i].busy {
                    &&& r == Err::<StatefulSimulationRequest, SessionError>(SessionError::SessionBusy)
                    &&& final(self)@ == old(self)@
                } else {
                    &&& r == Ok::<StatefulSimulationRequest, SessionError>(old(self)@[i].params)
                    &&& final(self)@[i].busy
                    &&& final(self)@[i].id == id
                    &&& final(self)@[i].params == old(self)@[i].params
                    &&& final(self)@[i].status == SessionStatus::Active
                    &&& final(self)@[i].accounts@ == old(self)@[i].accounts@
                    &&& forall|k: int| 0 <= k < old(self)@.len() && k != i ==> final(self)@[k] == old(self)@[k]
                }
            },
    {
        match self.find(id) {
            None => Err(SessionError::SessionNotFound),
            Some(i) => {
                if self.sessions[i].status == SessionStatus::Ended {
                    return Err(SessionError::SessionNotFound);
                }
                if self.sessions[i].busy {
                    return Err(SessionError::SessionBusy);
                }
                let ghost before = self.sessions@;
                self.sessions[i].busy = true;
                assert(forall|k: int| 0 <= k < before.len() && k != i ==> self.sessions@[k] == before[k]);
                Ok(self.sessions[i].params)
            },
        }
    }

    /// Releases a session after a call; when the call committed, the accounts
    /// it changed are kept in that session's fork and in no other.
    pub fn finish_call(
        &mut self,
        id: u128,
        changes: Vec<(Address, AccountState)>,
        commit: bool,
    ) -> (r: Result<(), SessionError>)
        requires
            old(self).wf(),
        ensures
            final(self).wf(),
            (forall|i: int| 0 <= i < old(self)@.len() && (#[trigger] old(self)@[i]).id == id
                ==> old(self)@[i].status == SessionStatus::Ended)
                ==> r == Err::<(), SessionError>(SessionError::SessionNotFound)
                    && final(self)@ == old(self)@,
            forall|i: int| 0 <= i < old(self)@.len() && (#[trigger] old(self)@[i]).id == id
                && old(self)@[i].status == SessionStatus::Active ==> {
                if !old(self)@[i].busy {
                    &&& r == Err::<(), SessionError>(SessionError::NoCallRunning)
                    &&& final(self)@ == old(self)@
                } else {
                    &&& r == Ok::<(), SessionError>(())
                    &&& call_finished(old(self)@, final(self)@, i, changes@, commit)
                }
            },
    {
        match self.find(id) {
            None => Err(SessionError::SessionNotFound),
            Some(i) => {
                if self.sessions[i].status == SessionStatus::Ended {
                    return Err(SessionError::SessionNotFound);
                }
                if !self.sessions[i].busy {
                    return Err(SessionError::NoCallRunning);
                }
                let ghost before = self.sessions@;
                self.sessions[i].busy = false;
                if commit {
                    let mut c = changes;
                    self.sessions[i].accounts.append(&mut c);
                }
                assert(forall|k: int| 0 <= k < before.len() && k != i ==> self.sessions@[k] == before[k]);
                Ok(())
            },
        }
    }

    /// The account that an active session's calls last committed at `address`.
    pub fn committed(&self, id: u128, address: Address) -> (r: Result<Option<&AccountState>, SessionError>)
        requires
            self.wf(),
        ensures
            (forall|i: int| 0 <= i < self@.len() && (#[trigger] self@[i]).id == id
                ==> self@[i].status == SessionStatus::Ended)
                ==> r == Err::<Option<&AccountState>, SessionError>(SessionError::SessionNotFound),
            forall|i: int| 0 <= i < self@.len() && (#[trigger] self@[i]).id == id
                && self@[i].status == SessionStatus::Active ==> {
                &&& r is Ok
                &&& match r->Ok_0 {
                    Some(a) => committed_account(self@[i].accounts@, address) == Some(*a),
                    None => committed_account(self@[i].accounts@, address) is None,
                }
            },
    {
        match self.find(id) {
            None => Err(SessionError::SessionNotFound),
            Some(i) => {
                if self.sessions[i].status == SessionStatus::Ended {
                    return Err(SessionError::SessionNotFound);
                }
                let accounts = &self.sessions[i].accounts;
                let mut j: usize = accounts.len();
                assert(accounts@.subrange(0, j as int) =~= accounts@);
                while j > 0
                    invariant
                        j <= accounts@.len(),
                        self.wf(),
                        i < self@.len(),
                        self@[i as int].id == id,
                        self@[i as int].status == SessionStatus::Active,
                        accounts@ == self@[i as int].accounts@,
                        committed_account(accounts@, address)
                            == committed_account(accounts@.subrange(0, j as int), address),
                    decreases j,
                {
                    let ghost p = accounts@.subrange(0, j as int);
                    assert(p.drop_last() =~= accounts@.subrange(0, j - 1));
                    if accounts[j - 1].0 == address {
                        return Ok(Some(&accounts[j - 1].1));
                    }
                    j -= 1;
                }
                Ok(None)
            },
        }
    }
}

/// A call finishing in one session, committing or not, leaves every other
/// session exactly as it was.
pub proof fn lemma_commit_isolated(
    old: Seq<Session>,
    new: Seq<Session>,
    i: int,
    changes: Seq<(Address, AccountState)>,
    commit: bool,
    k: int,
)
    requires
        call_finished(old, new, i, changes, commit),
        0 <= k < old.len(),
        k != i,
    ensures
        new[k] == old[k],
{
}

/// In a well-formed manager two different sessions never share an id.
pub proof fn lemma_ids_distinct(m: &SessionManager, i: int, j: int)
    requires
        m.wf(),
        0 <= i < m@.len(),
        0 <= j < m@.len(),
        i != j,
    ensures
        m@[i].id != m@[j].id,
{
    if i > j {
        assert(m@[j].id != m@[i].id);
    }
}

} // verus!
