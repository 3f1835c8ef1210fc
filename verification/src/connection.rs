use vstd::prelude::*;

verus! {

/// Per-client connection state, created when the transport handshake
/// completes: a process-unique id, the identity assigned at authentication
/// (at most once), a mutable role, the remote address and a correlation id
/// for operator logs.
#[derive(Clone)]
pub struct WsConnection {
    pub connection_id: u32,
    pub user_id: Option<u64>,
    pub role: u32,
    pub address: String,
    pub log_id: u64,
}

impl WsConnection {
    /// A fresh connection: no identity yet, the guest role.
    pub fn new(connection_id: u32, address: String, log_id: u64) -> (r: WsConnection)
        ensures
            r.connection_id == connection_id,
            r.user_id is None,
            r.role == 0,
            r.address == address,
            r.log_id == log_id,
    {
        WsConnection { connection_id, user_id: None, role: 0, address, log_id }
    }

    /// Assigns the user id; the identity of a connection is set at most
    /// once, at authentication.
    pub fn set_user_id(&mut self, user_id: u64)
        requires
            old(self).user_id is None,
        ensures
            *final(self) == (WsConnection { user_id: Some(user_id), ..*old(self) }),
    {
        self.user_id = Some(user_id);
    }

    /// The assigned user id, or zero while the connection is anonymous.
    pub fn get_user_id(&self) -> (r: u64)
        ensures
            r == match self.user_id {
                Some(u) => u,
                None => 0u64,
            },
    {
        match self.user_id {
            Some(u) => u,
            None => 0,
        }
    }

    /// Promotes the connection's role.
    pub fn set_role(&mut self, role: u32)
        ensures
            *final(self) == (WsConnection { role, ..*old(self) }),
    {
        self.role = role;
    }
}

/// One registry entry: the connection id, the outbound message sink the
/// session registered, and the connection handle.
pub struct ConnEntry<S> {
    pub id: u32,
    pub sink: S,
    pub conn: WsConnection,
}

/// Some entry carries `id`.
pub open spec fn has_conn<S>(s: Seq<ConnEntry<S>>, id: u32) -> bool {
    exists|i: int| 0 <= i < s.len() && s[i].id == id
}

/// The first entry carrying `id`; in a well-formed registry, the only one.
pub open spec fn session_for<S>(s: Seq<ConnEntry<S>>, id: u32) -> Option<ConnEntry<S>>
    decreases s.len(),
{
    if s.len() == 0 {
        None
    } else if s[0].id == id {
        Some(s[0])
    } else {
        session_for(s.skip(1), id)
    }
}

/// The registry of open sessions: connection id to outbound sink and
/// connection handle. An entry exists exactly while a session is open; push
/// and send resolve the sink through it.
pub struct ConnectionRegistry<S> {
    entries: Vec<ConnEntry<S>>,
}

impl<S> ConnectionRegistry<S> {
    /// The open sessions' entries, in insertion order.
    pub closed spec fn sessions(&self) -> Seq<ConnEntry<S>> {
        self.entries@
    }

    /// No two entries share a connection id.
    pub closed spec fn wf(&self) -> bool {
        forall|i: int, j: int|
            #![trigger self.sessions()[i], self.sessions()[j]]
            0 <= i < j < self.sessions().len() ==> self.sessions()[i].id != self.sessions()[j].id
    }

    pub fn new() -> (r: Self)
        ensures
            r.wf(),
            r.sessions().len() == 0,
    {
        ConnectionRegistry { entries: Vec::new() }
    }

    /// Inserts a session's entry. A connection id already present is
    /// refused and the registry is unchanged.
    pub fn insert(&mut self, id: u32, sink: S, conn: WsConnection) -> (fresh: bool)
        requires
            old(self).wf(),
        ensures
            final(self).wf(),
            fresh == !has_conn(old(self).sessions(), id),
            fresh ==> final(self).sessions() == old(self).sessions().push(
                ConnEntry { id, sink, conn },
            ),
            !fresh ==> *final(self) == *old(self),
    {
        let mut i: usize = 0;
        while i < self.entries.len()
            invariant
                i <= self.entries.len(),
                forall|j: int| 0 <= j < i ==> (#[trigger] self.sessions()[j]).id != id,
                *self == *old(self),
                old(self).wf(),
            decreases self.entries.len() - i,
        {
            if self.entries[i].id == id {
                return false;
            }
            i += 1;
        }
        let ghost before = self.sessions();
        self.entries.push(ConnEntry { id, sink, conn });
        proof {
            let after = self.sessions();
            assert forall|a: int, b: int| 0 <= a < b < after.len() implies after[a].id
                != after[b].id by {
                if b < before.len() as int {
                    assert(before[a] == after[a] && before[b] == after[b]);
                } else {
                    assert(before[a] == after[a]);
                }
            }
        }
        true
    }

    /// Removes the entry for `id`, if any; every other session's entry is
    /// kept. Removal is unconditional at session end: close, error or
    /// authentication rejection.
    pub fn remove(&mut self, id: u32) -> (was_present: bool)
        requires
            old(self).wf(),
        ensures
            final(self).wf(),
            was_present == has_conn(old(self).sessions(), id),
            !has_conn(final(self).sessions(), id),
            forall|j: int|
                0 <= j < final(self).sessions().len() ==> old(self).sessions().contains(
                    #[trigger] final(self).sessions()[j],
                ) && final(self).sessions()[j].id != id,
            forall|j: int|
                0 <= j < old(self).sessions().len() && (#[trigger] old(self).sessions()[j]).id != id
                    ==> final(self).sessions().contains(old(self).sessions()[j]),
            !was_present ==> *final(self) == *old(self),
    {
        let mut i: usize = 0;
        while i < self.entries.len()
            invariant
                i <= self.entries.len(),
                forall|j: int| 0 <= j < i ==> (#[trigger] self.sessions()[j]).id != id,
                *self == *old(self),
                old(self).wf(),
            decreases self.entries.len() - i,
        {
            if self.entries[i].id == id {
                let ghost before = self.sessions();
                self.entries.remove(i);
                proof {
                    let after = self.sessions();
                    assert(after =~= before.subrange(0, i as int) + before.subrange(
                        i + 1,
                        before.len() as int,
                    ));
                    assert forall|a: int, b: int| 0 <= a < b < after.len() implies after[a].id
                        != after[b].id by {
                        let a0 = if a < i as int { a } else { a + 1 };
                        let b0 = if b < i as int { b } else { b + 1 };
                        assert(after[a] == before[a0] && after[b] == before[b0]);
                    }
                    assert forall|j: int| 0 <= j < after.len() implies before.contains(after[j])
                        && after[j].id != id by {
                        let j0 = if j < i as int { j } else { j + 1 };
                        assert(after[j] == before[j0]);
                        if j0 != i as int {
                            assert(before[j0].id != id) by {
                                if j0 < i as int {
                                } else {
                                    assert(before[i as int].id == id);
                                }
                            }
                        }
                    }
                    assert forall|j: int|
                        0 <= j < before.len() && before[j].id != id implies after.contains(
                        before[j],
                    ) by {
                        if j < i as int {
                            assert(after[j] == before[j]);
                        } else {
                            assert(j != i as int);
                            assert(after[j - 1] == before[j]);
                        }
                    }
                    assert forall|j: int| 0 <= j < after.len() implies after[j].id != id by {}
                }
                return true;
            }
            i += 1;
        }
        false
    }

    /// The entry registered for `id`, exactly when one is: a push to an id
    /// that is not registered resolves to nothing and is a silent no-op for
    /// the caller.
    pub fn get<'a>(&'a self, id: u32) -> (r: Option<&'a ConnEntry<S>>)
        ensures
            match r {
                Some(e) => e.id == id && has_conn(self.sessions(), id) && session_for(
                    self.sessions(),
                    id,
                ) == Some(*e),
                None => !has_conn(self.sessions(), id) && session_for(self.sessions(), id) is None,
            },
    {
        let mut i: usize = 0;
        proof {
            assert(self.sessions().skip(0) =~= self.sessions());
        }
        while i < self.entries.len()
            invariant
                i <= self.entries.len(),
                forall|j: int| 0 <= j < i ==> (#[trigger] self.sessions()[j]).id != id,
                session_for(self.sessions(), id) == session_for(
                    self.sessions().skip(i as int),
                    id,
                ),
            decreases self.entries.len() - i,
        {
            proof {
                assert(self.sessions().skip(i as int)[0] == self.sessions()[i as int]);
                assert(self.sessions().skip(i as int).skip(1) =~= self.sessions().skip(i + 1));
            }
            if self.entries[i].id == id {
                proof {
                    assert(has_conn(self.sessions(), id)) by {
                        assert(self.sessions()[i as int].id == id);
                    }
                }
                return Some(&self.entries[i]);
            }
            i += 1;
        }
        proof {
            assert(self.sessions().skip(i as int) =~= Seq::<ConnEntry<S>>::empty());
        }
        None
    }

    /// How many sessions are open.
    pub fn len(&self) -> (r: usize)
        ensures
            r == self.sessions().len(),
    {
        self.entries.len()
    }
}

/// The single outbound abstraction handler code uses, independent of the
/// transport: it resolves a connection id to the sink registered for it.
pub struct Toolbox<S> {
    pub states: ConnectionRegistry<S>,
}

impl<S> Toolbox<S> {
    pub open spec fn wf(&self) -> bool {
        self.states.wf()
    }

    pub fn new() -> (r: Self)
        ensures
            r.wf(),
            r.states.sessions().len() == 0,
    {
        Toolbox { states: ConnectionRegistry::new() }
    }

    /// The sink a response for `connection_id` is handed to — the very sink
    /// that connection's session registered; `None` exactly when the
    /// connection is no longer registered, in which case the response is
    /// discarded and the send is a silent no-op.
    pub fn send<'a>(&'a self, connection_id: u32) -> (r: Option<&'a S>)
        ensures
            r is Some <==> has_conn(self.states.sessions(), connection_id),
            r matches Some(sink) ==> (session_for(self.states.sessions(), connection_id) matches
                Some(e) && e.sink == *sink),
    {
        match self.states.get(connection_id) {
            Some(e) => Some(&e.sink),
            None => None,
        }
    }

    /// The sink a server-initiated push for `connection_id` is handed to —
    /// the sink registered for that connection; `None` exactly when the
    /// connection is not registered — a no-op the caller must not treat as an
    /// error.
    pub fn push<'a>(&'a self, connection_id: u32) -> (r: Option<&'a S>)
        ensures
            r is Some <==> has_conn(self.states.sessions(), connection_id),
            r matches Some(sink) ==> (session_for(self.states.sessions(), connection_id) matches
                Some(e) && e.sink == *sink),
    {
        self.send(connection_id)
    }
}

/// A connection that has been removed stays silent: once its id is out of
/// the registry, a later push resolves to no sink at all, and delivery is
/// skipped rather than failed.
pub proof fn lemma_removed_connection_push_is_noop<S>(reg: ConnectionRegistry<S>, id: u32)
    requires
        !has_conn(reg.sessions(), id),
    ensures
        forall|i: int| 0 <= i < reg.sessions().len() ==> (#[trigger] reg.sessions()[i]).id != id,
{
}

} // verus!
