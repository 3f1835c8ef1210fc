use vstd::prelude::*;

verus! {

/// The lifecycle phase of one connection.
pub enum SessionPhase {
    Connecting,
    Handshaking,
    Authenticating,
    Active,
    Closed,
}

/// An event the session runner reacts to. Frames arrive strictly in order on
/// the read side; dispatch completions arrive in whatever order the handlers
/// finish.
pub enum SessionEvent {
    TransportAccepted,
    UpgradeComplete,
    AuthSucceeded,
    AuthFailed,
    FrameArrived,
    FrameUndecodable,
    DispatchCompleted(u32),
    PeerClosed,
}

/// What the runner must do after a step: hand the frame to the dispatch
/// pipeline under a fresh sequence number, register or remove the registry
/// entry, deliver or discard a completed response, reject the connection, or
/// nothing.
pub enum SessionAction {
    Proceed,
    Register,
    Reject,
    DispatchFrame(u32),
    Deliver(u32),
    Discard(u32),
    Remove,
    Ignore,
}

/// The mathematical model of a session: its phase, the next sequence number,
/// the in-flight and delivered sequence numbers, and whether it holds a
/// registry entry.
pub ghost struct SessionModel {
    pub phase: SessionPhase,
    pub next_seq: u32,
    pub pending: Seq<u32>,
    pub delivered: Seq<u32>,
    pub registered: bool,
}

impl SessionModel {
    /// Sequence numbers are assigned below `next_seq`, never twice, a
    /// response is in flight or delivered but not both, and only an active
    /// session holds a registry entry.
    pub open spec fn wf(&self) -> bool {
        &&& forall|i: int| 0 <= i < self.pending.len() ==> #[trigger] self.pending[i]
            < self.next_seq
        &&& forall|i: int| 0 <= i < self.delivered.len() ==> #[trigger] self.delivered[i]
            < self.next_seq
        &&& forall|i: int, j: int|
            #![trigger self.pending[i], self.pending[j]]
            0 <= i < j < self.pending.len() ==> self.pending[i] != self.pending[j]
        &&& forall|i: int, j: int|
            #![trigger self.delivered[i], self.delivered[j]]
            0 <= i < j < self.delivered.len() ==> self.delivered[i] != self.delivered[j]
        &&& forall|i: int|
            0 <= i < self.pending.len() ==> !self.delivered.contains(#[trigger] self.pending[i])
        &&& (self.registered ==> self.phase is Active)
    }
}

/// The state after one step, and the action the runner owes for it. The
/// lifecycle runs handshake, authentication, session loop, teardown:
/// - an accepted transport enters the protocol handshake;
/// - a completed upgrade enters authentication;
/// - authentication success registers the connection and activates the
///   session; failure rejects it, and the connection is never registered;
/// - each frame read while active is dispatched under the next sequence
///   number, without waiting for earlier dispatches to finish; a frame whose
///   text could not be decoded at all is dropped, consuming no sequence
///   number, and the session stays active;
/// - a completed dispatch is delivered if its sequence is still in flight
///   and the session still active, and discarded otherwise — in particular
///   after close, when it must neither fail nor resurrect the session;
/// - a close removes the registry entry unconditionally;
/// - any other pairing of phase and event changes nothing.
pub open spec fn spec_step(m: SessionModel, e: SessionEvent) -> (SessionModel, SessionAction) {
    match (m.phase, e) {
        (SessionPhase::Connecting, SessionEvent::TransportAccepted) => (
            SessionModel { phase: SessionPhase::Handshaking, ..m },
            SessionAction::Proceed,
        ),
        (SessionPhase::Handshaking, SessionEvent::UpgradeComplete) => (
            SessionModel { phase: SessionPhase::Authenticating, ..m },
            SessionAction::Proceed,
        ),
        (SessionPhase::Authenticating, SessionEvent::AuthSucceeded) => (
            SessionModel { phase: SessionPhase::Active, registered: true, ..m },
            SessionAction::Register,
        ),
        (SessionPhase::Authenticating, SessionEvent::AuthFailed) => (
            SessionModel { phase: SessionPhase::Closed, registered: false, ..m },
            SessionAction::Reject,
        ),
        (SessionPhase::Active, SessionEvent::FrameArrived) => (
            SessionModel {
                next_seq: (m.next_seq + 1) as u32,
                pending: m.pending.push(m.next_seq),
                ..m
            },
            SessionAction::DispatchFrame(m.next_seq),
        ),
        (SessionPhase::Active, SessionEvent::FrameUndecodable) => (m, SessionAction::Ignore),
        (SessionPhase::Active, SessionEvent::DispatchCompleted(seq)) => if m.pending.contains(
            seq,
        ) {
            (
                SessionModel {
                    pending: m.pending.remove_value(seq),
                    delivered: m.delivered.push(seq),
                    ..m
                },
                SessionAction::Deliver(seq),
            )
        } else {
            (m, SessionAction::Discard(seq))
        },
        (SessionPhase::Active, SessionEvent::PeerClosed) => (
            SessionModel { phase: SessionPhase::Closed, registered: false, ..m },
            SessionAction::Remove,
        ),
        (SessionPhase::Closed, SessionEvent::DispatchCompleted(seq)) => (
            m,
            SessionAction::Discard(seq),
        ),
        _ => (m, SessionAction::Ignore),
    }
}

/// Per-connection session state as the runner holds it.
pub struct SessionState {
    pub phase: SessionPhase,
    pub next_seq: u32,
    pub pending: Vec<u32>,
    pub delivered: Vec<u32>,
    pub registered: bool,
}

impl View for SessionState {
    type V = SessionModel;

    open spec fn view(&self) -> SessionModel {
        SessionModel {
            phase: self.phase,
            next_seq: self.next_seq,
            pending: self.pending@,
            delivered: self.delivered@,
            registered: self.registered,
        }
    }
}

impl SessionState {
    /// A session about to take its first step.
    pub fn new() -> (r: SessionState)
        ensures
            r@.wf(),
            r@ == (SessionModel {
                phase: SessionPhase::Connecting,
                next_seq: 0,
                pending: Seq::empty(),
                delivered: Seq::empty(),
                registered: false,
            }),
    {
        let r = SessionState {
            phase: SessionPhase::Connecting,
            next_seq: 0,
            pending: Vec::new(),
            delivered: Vec::new(),
            registered: false,
        };
        proof {
            assert(r@.pending =~= Seq::<u32>::empty());
            assert(r@.delivered =~= Seq::<u32>::empty());
        }
        r
    }

    /// Takes one step of the session lifecycle and answers the action the
    /// runner owes. Sequence numbers fit the machine word: a session cannot
    /// accept a frame once it has numbered them all.
    pub fn step(&mut self, e: SessionEvent) -> (action: SessionAction)
        requires
            (old(self)@.phase is Active && e is FrameArrived) ==> old(self).next_seq
                < 0xffff_ffffu32,
        ensures
            (final(self)@, action) == spec_step(old(self)@, e),
    {
        match (&self.phase, &e) {
            (SessionPhase::Connecting, SessionEvent::TransportAccepted) => {
                self.phase = SessionPhase::Handshaking;
                SessionAction::Proceed
            },
            (SessionPhase::Handshaking, SessionEvent::UpgradeComplete) => {
                self.phase = SessionPhase::Authenticating;
                SessionAction::Proceed
            },
            (SessionPhase::Authenticating, SessionEvent::AuthSucceeded) => {
                self.phase = SessionPhase::Active;
                self.registered = true;
                SessionAction::Register
            },
            (SessionPhase::Authenticating, SessionEvent::AuthFailed) => {
                self.phase = SessionPhase::Closed;
                self.registered = false;
                SessionAction::Reject
            },
            (SessionPhase::Active, SessionEvent::FrameArrived) => {
                let seq = self.next_seq;
                self.next_seq = self.next_seq + 1;
                self.pending.push(seq);
                SessionAction::DispatchFrame(seq)
            },
            (SessionPhase::Active, SessionEvent::FrameUndecodable) => SessionAction::Ignore,
            (SessionPhase::Active, SessionEvent::DispatchCompleted(seq)) => {
                let seq = *seq;
                match find_index(&self.pending, seq) {
                    Some(i) => {
                        self.pending.remove(i);
                        self.delivered.push(seq);
                        SessionAction::Deliver(seq)
                    },
                    None => SessionAction::Discard(seq),
                }
            },
            (SessionPhase::Active, SessionEvent::PeerClosed) => {
                self.phase = SessionPhase::Closed;
                self.registered = false;
                SessionAction::Remove
            },
            (SessionPhase::Closed, SessionEvent::DispatchCompleted(seq)) => SessionAction::Discard(
                *seq,
            ),
            _ => SessionAction::Ignore,
        }
    }
}

/// Stepping a well-formed session leaves it well-formed: sequence numbers
/// stay unique and below the counter, no response is both in flight and
/// delivered, and only an active session is registered.
pub proof fn lemma_step_preserves_wf(m: SessionModel, e: SessionEvent)
    requires
        m.wf(),
        (m.phase is Active && e is FrameArrived) ==> m.next_seq < 0xffff_ffffu32,
    ensures
        spec_step(m, e).0.wf(),
{
    broadcast use vstd::seq_lib::group_seq_properties;

    let (m2, _) = spec_step(m, e);
    match (m.phase, e) {
        (SessionPhase::Active, SessionEvent::FrameArrived) => {
            assert forall|i: int| 0 <= i < m2.pending.len() implies !m2.delivered.contains(
                #[trigger] m2.pending[i],
            ) by {
                if i < m.pending.len() as int {
                    assert(m2.pending[i] == m.pending[i]);
                } else {
                    assert(m2.pending[i] == m.next_seq);
                    if m.delivered.contains(m.next_seq) {
                        let k = choose|k: int|
                            0 <= k < m.delivered.len() && m.delivered[k] == m.next_seq;
                        assert(m.delivered[k] < m.next_seq);
                    }
                }
            }
        },
        (SessionPhase::Active, SessionEvent::DispatchCompleted(seq)) => {
            if m.pending.contains(seq) {
                m.pending.index_of_first_ensures(seq);
                let idx = m.pending.index_of_first(seq).unwrap();
                m.pending.remove_ensures(idx);
                assert(!m.delivered.contains(seq)) by {
                    assert(m.pending[idx] == seq);
                }
                assert forall|i: int| 0 <= i < m2.pending.len() implies #[trigger] m2.pending[i]
                    < m2.next_seq by {
                    if i < idx {
                        assert(m2.pending[i] == m.pending[i]);
                    } else {
                        assert(m2.pending[i] == m.pending[i + 1]);
                    }
                }
                assert forall|i: int, j: int|
                    #![trigger m2.pending[i], m2.pending[j]]
                    0 <= i < j < m2.pending.len() implies m2.pending[i] != m2.pending[j] by {
                    let i0 = if i < idx { i } else { i + 1 };
                    let j0 = if j < idx { j } else { j + 1 };
                    assert(m2.pending[i] == m.pending[i0] && m2.pending[j] == m.pending[j0]);
                }
                assert forall|i: int| 0 <= i < m2.pending.len() implies !m2.delivered.contains(
                    #[trigger] m2.pending[i],
                ) by {
                    let i0 = if i < idx { i } else { i + 1 };
                    assert(m2.pending[i] == m.pending[i0]);
                    assert(m.pending[i0] != seq) by {
                        if i0 != idx {
                            assert(m.pending[idx] == seq);
                        }
                    }
                    if m2.delivered.contains(m.pending[i0]) {
                        let k = choose|k: int|
                            0 <= k < m2.delivered.len() && m2.delivered[k] == m.pending[i0];
                        if k < m.delivered.len() as int {
                            assert(m.delivered[k] == m.pending[i0]);
                        } else {
                            assert(m2.delivered[k] == seq);
                        }
                    }
                }
                assert forall|i: int, j: int|
                    #![trigger m2.delivered[i], m2.delivered[j]]
                    0 <= i < j < m2.delivered.len() implies m2.delivered[i] != m2.delivered[j] by {
                    if j == m.delivered.len() as int {
                        assert(m2.delivered[j] == seq);
                        assert(m2.delivered[i] == m.delivered[i]);
                        if m.delivered[i] == seq {
                            assert(m.delivered.contains(seq)) by {
                                assert(m.delivered[i] == seq);
                            }
                        }
                    } else {
                        assert(m2.delivered[i] == m.delivered[i]);
                        assert(m2.delivered[j] == m.delivered[j]);
                    }
                }
            }
        },
        _ => {},
    }
}

/// A session that has reached the closed phase never changes again and never
/// re-registers: a dispatch that completes after close is discarded, not
/// delivered, and no event inserts a stale registry entry back.
pub proof fn lemma_closed_session_stays_silent(m: SessionModel, e: SessionEvent)
    requires
        m.wf(),
        m.phase is Closed,
    ensures
        spec_step(m, e).0 == m,
        !spec_step(m, e).0.registered,
        !(spec_step(m, e).1 is Register),
        !(spec_step(m, e).1 is Deliver),
        e matches SessionEvent::DispatchCompleted(seq) ==> spec_step(m, e).1
            == SessionAction::Discard(seq),
{
}

/// An authentication failure rejects the connection without it ever holding
/// a registry entry.
pub proof fn lemma_auth_failure_never_registers(m: SessionModel)
    requires
        m.wf(),
        m.phase is Authenticating,
    ensures
        spec_step(m, SessionEvent::AuthFailed).0.phase is Closed,
        !spec_step(m, SessionEvent::AuthFailed).0.registered,
        spec_step(m, SessionEvent::AuthFailed).1 is Reject,
{
}

/// Two requests read on one connection are dispatched under distinct
/// sequence numbers, and both are answered whichever dispatch finishes
/// first: the session loop never withholds the response of one request until
/// the other completes. `second_finishes_first` picks the completion order.
pub proof fn lemma_two_inflight_requests_both_answered(
    m: SessionModel,
    second_finishes_first: bool,
)
    requires
        m.wf(),
        m.phase is Active,
        m.next_seq < 0xffff_fffeu32,
    ensures
        ({
            let sa = m.next_seq;
            let sb = (m.next_seq + 1) as u32;
            let (m1, a1) = spec_step(m, SessionEvent::FrameArrived);
            let (m2, a2) = spec_step(m1, SessionEvent::FrameArrived);
            let x = if second_finishes_first { sb } else { sa };
            let y = if second_finishes_first { sa } else { sb };
            let (m3, a3) = spec_step(m2, SessionEvent::DispatchCompleted(x));
            let (m4, a4) = spec_step(m3, SessionEvent::DispatchCompleted(y));
            &&& sa != sb
            &&& a1 == SessionAction::DispatchFrame(sa)
            &&& a2 == SessionAction::DispatchFrame(sb)
            &&& a3 == SessionAction::Deliver(x)
            &&& a4 == SessionAction::Deliver(y)
            &&& m4.delivered.contains(sa)
            &&& m4.delivered.contains(sb)
        }),
{
    broadcast use vstd::seq_lib::group_seq_properties;

    let sa = m.next_seq;
    let sb = (m.next_seq + 1) as u32;
    let (m1, a1) = spec_step(m, SessionEvent::FrameArrived);
    let (m2, a2) = spec_step(m1, SessionEvent::FrameArrived);
    let x = if second_finishes_first { sb } else { sa };
    let y = if second_finishes_first { sa } else { sb };
    assert(m2.pending == m.pending.push(sa).push(sb));
    assert(m2.pending.contains(x)) by {
        if second_finishes_first {
            assert(m2.pending.last() == sb);
        } else {
            assert(m2.pending[m.pending.len() as int] == sa);
        }
    }
    let (m3, a3) = spec_step(m2, SessionEvent::DispatchCompleted(x));
    m2.pending.index_of_first_ensures(x);
    let idx = m2.pending.index_of_first(x).unwrap();
    m2.pending.remove_ensures(idx);
    assert(m3.pending.contains(y)) by {
        let ky = choose|k: int| 0 <= k < m2.pending.len() && m2.pending[k] == y;
        assert(m2.pending.contains(y)) by {
            if second_finishes_first {
                assert(m2.pending[m.pending.len() as int] == sa);
            } else {
                assert(m2.pending.last() == sb);
            }
        }
        let k = choose|k: int| 0 <= k < m2.pending.len() && m2.pending[k] == y;
        assert(k != idx) by {
            assert(m2.pending[idx] == x);
        }
        if k < idx {
            assert(m3.pending[k] == m2.pending[k]);
        } else {
            assert(m3.pending[k - 1] == m2.pending[k]);
        }
    }
    let (m4, a4) = spec_step(m3, SessionEvent::DispatchCompleted(y));
    assert(m4.delivered == m2.delivered.push(x).push(y));
    assert(m4.delivered.contains(x)) by {
        assert(m4.delivered[m2.delivered.len() as int] == x);
    }
    assert(m4.delivered.contains(y)) by {
        assert(m4.delivered.last() == y);
    }
}

/// The index of the first occurrence of `x`, exactly when `x` occurs.
fn find_index(v: &Vec<u32>, x: u32) -> (r: Option<usize>)
    ensures
        match r {
            Some(i) => i < v@.len() && v@[i as int] == x && v@.index_of_first(x) == Some(i as int)
                && v@.contains(x),
            None => !v@.contains(x),
        },
{
    let mut i: usize = 0;
    while i < v.len()
        invariant
            i <= v.len(),
            forall|j: int| 0 <= j < i ==> v@[j] != x,
        decreases v.len() - i,
    {
        if v[i] == x {
            proof {
                v@.index_of_first_ensures(x);
                assert(v@.contains(x)) by {
                    assert(v@[i as int] == x);
                }
                let k = v@.index_of_first(x).unwrap();
                assert(v@[k] == x);
                if k < i as int {
                    assert(false);
                } else if k > i as int {
                    assert(v@[i as int] != x);
                }
            }
            return Some(i);
        }
        i += 1;
    }
    proof {
        if v@.contains(x) {
            let k = choose|k: int| 0 <= k < v@.len() && v@[k] == x;
            assert(v@[k] != x);
        }
    }
    None
}

} // verus!
