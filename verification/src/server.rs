//! The server's session bookkeeping: open TCP sessions by id, and the names a
//! script gives to the sessions it opens.
use vstd::prelude::*;

use crate::gateway::{establish_tcp_session, TcpGatewaySession};
use crate::keyed::{
    keyed_map, lemma_keyed_map_contains, lemma_keyed_map_index, lemma_keyed_map_push,
    lemma_keyed_map_remove, lemma_keyed_map_update, unique_keys,
};
use crate::wire::{negotiation_outcome, ProtocolRange, ProtocolVersion, SessionHello, SessionWelcome, WireError};

verus! {

#[derive(Debug, Clone, Copy, PartialEq, Eq, Structural, Hash)]
pub struct TcpSessionId(pub u64);

#[derive(Debug, Clone, Copy, PartialEq, Eq, Structural)]
pub struct ServerConfig {
    pub supported_protocol: ProtocolRange,
}

impl Default for ServerConfig {
    /// Protocol 1.0 only.
    fn default() -> (r: Self)
        ensures
            r.supported_protocol.min == (ProtocolVersion { major: 1, minor: 0 }),
            r.supported_protocol.max == (ProtocolVersion { major: 1, minor: 0 }),
    {
        ServerConfig {
            supported_protocol: ProtocolRange {
                min: ProtocolVersion::new(1, 0),
                max: ProtocolVersion::new(1, 0),
            },
        }
    }
}

#[derive(Debug, Clone, Copy, PartialEq, Eq, Structural)]
pub struct OpenTcpSessionResponse {
    pub session_id: TcpSessionId,
    pub welcome: SessionWelcome,
}

spec fn session_key_fn() -> spec_fn((TcpSessionId, TcpGatewaySession)) -> u64 {
    |e: (TcpSessionId, TcpGatewaySession)| e.0.0
}

spec fn session_value_fn() -> spec_fn((TcpSessionId, TcpGatewaySession)) -> TcpGatewaySession {
    |e: (TcpSessionId, TcpGatewaySession)| e.1
}

/// The open TCP sessions; ids are handed out in increasing order from one.
#[derive(Debug)]
pub struct TcpSessionTable {
    next_tcp_session_id: u64,
    sessions: Vec<(TcpSessionId, TcpGatewaySession)>,
}

impl TcpSessionTable {
    /// The open sessions by id.
    pub closed spec fn sessions(&self) -> Map<u64, TcpGatewaySession> {
        keyed_map(self.sessions@, session_key_fn(), session_value_fn())
    }

    /// The last id handed out (zero before the first).
    pub closed spec fn last_id(&self) -> u64 {
        self.next_tcp_session_id
    }

    /// The last id handed out (zero before the first).
    pub fn last_session_id(&self) -> (r: u64)
        ensures
            r == self.last_id(),
    {
        self.next_tcp_session_id
    }

    pub closed spec fn wf(&self) -> bool {
        &&& unique_keys(self.sessions@, session_key_fn())
        &&& forall|i: int|
            0 <= i < self.sessions@.len() ==> (#[trigger] self.sessions@[i]).0.0
                <= self.next_tcp_session_id
    }

    pub fn new() -> (r: Self)
        ensures
            r.wf(),
            r.sessions() == Map::<u64, TcpGatewaySession>::empty(),
            r.last_id() == 0,
    {
        TcpSessionTable { next_tcp_session_id: 0, sessions: Vec::new() }
    }

    /// Negotiates the protocol with the client and, on success, opens a
    /// session under the next id.
    pub fn open(&mut self, hello: &SessionHello, supported: ProtocolRange) -> (r: Result<
        OpenTcpSessionResponse,
        WireError,
    >)
        requires
            old(self).wf(),
            old(self).last_id() < u64::MAX,
        ensures
            final(self).wf(),
            match r {
                Ok(opened) => {
                    &&& negotiation_outcome(
                        ProtocolRange { min: hello.min_version, max: hello.max_version },
                        supported,
                    ) == Ok::<ProtocolVersion, WireError>(opened.welcome.negotiated_version)
                    &&& opened.session_id.0 == old(self).last_id() + 1
                    &&& !old(self).sessions().contains_key(opened.session_id.0)
                    &&& final(self).last_id() == opened.session_id.0
                    &&& final(self).sessions() == old(self).sessions().insert(
                        opened.session_id.0,
                        TcpGatewaySession { negotiated_version: opened.welcome.negotiated_version },
                    )
                },
                Err(e) => {
                    &&& negotiation_outcome(
                        ProtocolRange { min: hello.min_version, max: hello.max_version },
                        supported,
                    ) == Err::<ProtocolVersion, WireError>(e)
                    &&& final(self).sessions() == old(self).sessions()
                    &&& final(self).last_id() == old(self).last_id()
                },
            },
    {
        let (session, welcome) = match establish_tcp_session(hello, supported) {
            Ok(pair) => pair,
            Err(e) => {
                return Err(e);
            },
        };
        self.next_tcp_session_id = self.next_tcp_session_id + 1;
        let session_id = TcpSessionId(self.next_tcp_session_id);
        proof {
            lemma_keyed_map_contains(
                self.sessions@,
                session_key_fn(),
                session_value_fn(),
                session_id.0,
            );
            if exists|i: int|
                0 <= i < self.sessions@.len() && (session_key_fn())(self.sessions@[i]) == session_id.0 {
                let i = choose|i: int|
                    0 <= i < self.sessions@.len() && (session_key_fn())(self.sessions@[i])
                        == session_id.0;
                assert(self.sessions@[i].0.0 <= old(self).next_tcp_session_id);
            }
            lemma_keyed_map_push(
                self.sessions@,
                session_key_fn(),
                session_value_fn(),
                (session_id, session),
            );
        }
        self.sessions.push((session_id, session));
        proof {
            assert forall|i: int| 0 <= i < self.sessions@.len() implies (
            #[trigger] self.sessions@[i]).0.0 <= self.next_tcp_session_id by {
                if i < old(self).sessions@.len() {
                    assert(self.sessions@[i] == old(self).sessions@[i]);
                }
            }
        }
        Ok(OpenTcpSessionResponse { session_id, welcome })
    }

    fn find(&self, session_id: TcpSessionId) -> (r: Option<usize>)
        requires
            self.wf(),
        ensures
            match r {
                Some(i) => i < self.sessions@.len() && self.sessions@[i as int].0.0 == session_id.0
                    && self.sessions().contains_key(session_id.0) && self.sessions()[session_id.0]
                    == self.sessions@[i as int].1,
                None => !self.sessions().contains_key(session_id.0),
            },
    {
        let mut i: usize = 0;
        while i < self.sessions.len()
            invariant
                self.wf(),
                i <= self.sessions@.len(),
                forall|j: int| 0 <= j < i ==> (#[trigger] self.sessions@[j]).0.0 != session_id.0,
            decreases self.sessions@.len() - i,
        {
            if self.sessions[i].0.0 == session_id.0 {
                proof {
                    lemma_keyed_map_index(self.sessions@, session_key_fn(), session_value_fn(), i as int);
                }
                return Some(i);
            }
            i = i + 1;
        }
        proof {
            lemma_keyed_map_contains(
                self.sessions@,
                session_key_fn(),
                session_value_fn(),
                session_id.0,
            );
        }
        None
    }

    /// The session with this id, if it is open.
    pub fn get(&self, session_id: TcpSessionId) -> (r: Option<TcpGatewaySession>)
        requires
            self.wf(),
        ensures
            match r {
                Some(s) => self.sessions().contains_key(session_id.0) && self.sessions()[session_id.0]
                    == s,
                None => !self.sessions().contains_key(session_id.0),
            },
    {
        match self.find(session_id) {
            Some(i) => Some(self.sessions[i].1),
            None => None,
        }
    }

    /// Closes a session; tells whether it was open.
    pub fn close(&mut self, session_id: TcpSessionId) -> (r: bool)
        requires
            old(self).wf(),
        ensures
            final(self).wf(),
            r == old(self).sessions().contains_key(session_id.0),
            final(self).sessions() == old(self).sessions().remove(session_id.0),
            final(self).last_id() == old(self).last_id(),
    {
        match self.find(session_id) {
            Some(i) => {
                proof {
                    lemma_keyed_map_remove(self.sessions@, session_key_fn(), session_value_fn(), i as int);
                }
                let _closed = self.sessions.remove(i);
                proof {
                    assert forall|j: int| 0 <= j < self.sessions@.len() implies (
                    #[trigger] self.sessions@[j]).0.0 <= self.next_tcp_session_id by {
                        if j < i {
                            assert(self.sessions@[j] == old(self).sessions@[j]);
                        } else {
                            assert(self.sessions@[j] == old(self).sessions@[j + 1]);
                        }
                    }
                }
                true
            },
            None => {
                assert(old(self).sessions().remove(session_id.0) =~= old(self).sessions());
                false
            },
        }
    }
}

spec fn script_key_fn() -> spec_fn((String, TcpSessionId)) -> Seq<char> {
    |e: (String, TcpSessionId)| e.0@
}

spec fn script_value_fn() -> spec_fn((String, TcpSessionId)) -> TcpSessionId {
    |e: (String, TcpSessionId)| e.1
}

/// The sessions a script has opened, by the names it gave them.
#[derive(Debug)]
pub struct ScriptSessions {
    entries: Vec<(String, TcpSessionId)>,
}

impl ScriptSessions {
    pub closed spec fn names(&self) -> Map<Seq<char>, TcpSessionId> {
        keyed_map(self.entries@, script_key_fn(), script_value_fn())
    }

    pub closed spec fn wf(&self) -> bool {
        unique_keys(self.entries@, script_key_fn())
    }

    pub fn new() -> (r: Self)
        ensures
            r.wf(),
            r.names() == Map::<Seq<char>, TcpSessionId>::empty(),
    {
        ScriptSessions { entries: Vec::new() }
    }

    fn find(&self, key: &str) -> (r: Option<usize>)
        requires
            self.wf(),
        ensures
            match r {
                Some(i) => i < self.entries@.len() && self.entries@[i as int].0@ == key@
                    && self.names().contains_key(key@) && self.names()[key@]
                    == self.entries@[i as int].1,
                None => !self.names().contains_key(key@),
            },
    {
        let mut i: usize = 0;
        while i < self.entries.len()
            invariant
                self.wf(),
                i <= self.entries@.len(),
                forall|j: int| 0 <= j < i ==> (#[trigger] self.entries@[j]).0@ != key@,
            decreases self.entries@.len() - i,
        {
            if crate::gateway::same_text(self.entries[i].0.as_str(), key) {
                proof {
                    lemma_keyed_map_index(self.entries@, script_key_fn(), script_value_fn(), i as int);
                }
                return Some(i);
            }
            i = i + 1;
        }
        proof {
            lemma_keyed_map_contains(self.entries@, script_key_fn(), script_value_fn(), key@);
        }
        None
    }

    /// Names a session, replacing an earlier one of the same name.
    pub fn insert(&mut self, key: &str, session_id: TcpSessionId)
        requires
            old(self).wf(),
        ensures
            final(self).wf(),
            final(self).names() == old(self).names().insert(key@, session_id),
    {
        let entry = (String::from_str(key), session_id);
        match self.find(key) {
            Some(i) => {
                let _old_entry = self.entries.remove(i);
                proof {
                    assert(self.entries@.insert(i as int, entry) =~= old(self).entries@.update(
                        i as int,
                        entry,
                    ));
                    lemma_keyed_map_update(
                        old(self).entries@,
                        script_key_fn(),
                        script_value_fn(),
                        i as int,
                        entry,
                    );
                }
                self.entries.insert(i, entry);
            },
            None => {
                proof {
                    lemma_keyed_map_push(self.entries@, script_key_fn(), script_value_fn(), entry);
                }
                self.entries.push(entry);
            },
        }
    }

    /// The session a name stands for.
    pub fn get(&self, key: &str) -> (r: Option<TcpSessionId>)
        requires
            self.wf(),
        ensures
            match r {
                Some(id) => self.names().contains_key(key@) && self.names()[key@] == id,
                None => !self.names().contains_key(key@),
            },
    {
        match self.find(key) {
            Some(i) => Some(self.entries[i].1),
            None => None,
        }
    }

    /// Forgets a name, giving the session it stood for.
    pub fn remove(&mut self, key: &str) -> (r: Option<TcpSessionId>)
        requires
            old(self).wf(),
        ensures
            final(self).wf(),
            final(self).names() == old(self).names().remove(key@),
            match r {
                Some(id) => old(self).names().contains_key(key@) && old(self).names()[key@] == id,
                None => !old(self).names().contains_key(key@),
            },
    {
        match self.find(key) {
            Some(i) => {
                proof {
                    lemma_keyed_map_remove(self.entries@, script_key_fn(), script_value_fn(), i as int);
                }
                let (_name, id) = self.entries.remove(i);
                Some(id)
            },
            None => {
                assert(old(self).names().remove(key@) =~= old(self).names());
                None
            },
        }
    }
}

} // verus!
