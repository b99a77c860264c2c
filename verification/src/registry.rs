//! The session registry: a keyed store of live remote-shell sessions. At
//! most one record exists per session id, and every mutating operation
//! follows the remove-before-use, reinsert-after-success protocol: `take`
//! removes the record or fails with "no session", and only a successful
//! operation puts it back, so a failed operation leaves the session evicted
//! and a concurrent second caller is rejected instead of interleaved.
//!
//! The registry holds plain connection metadata and a numeric handle that
//! stands for the connection, write half and background reader task, which
//! live with the caller that performs the I/O.

use vstd::prelude::*;

use crate::strutil::str_eq;

verus! {

/// One live session: its target, when it connected, and the handle under
/// which the caller keeps the connection, write half and reader task.
#[derive(Debug, Clone)]
pub struct SessionRecord {
    pub host: String,
    pub port: u16,
    pub username: String,
    pub connected_at: String,
    pub handle: u64,
}

/// The mathematical image of a session record.
pub struct SessionView {
    pub host: Seq<char>,
    pub port: u16,
    pub username: Seq<char>,
    pub connected_at: Seq<char>,
    pub handle: u64,
}

impl View for SessionRecord {
    type V = SessionView;

    open spec fn view(&self) -> SessionView {
        SessionView {
            host: self.host@,
            port: self.port,
            username: self.username@,
            connected_at: self.connected_at@,
            handle: self.handle,
        }
    }
}

/// The registry itself: session id to record, with unique ids.
pub struct SessionRegistry {
    entries: Vec<(String, SessionRecord)>,
}

/// The map that a sequence of keyed entries denotes; later entries win,
/// though under [`SessionRegistry::wf`] keys never repeat.
pub closed spec fn as_map(s: Seq<(String, SessionRecord)>) -> Map<Seq<char>, SessionView>
    decreases s.len(),
{
    if s.len() == 0 {
        Map::empty()
    } else {
        as_map(s.drop_last()).insert(s.last().0@, s.last().1@)
    }
}

proof fn lemma_as_map_contains(s: Seq<(String, SessionRecord)>, k: Seq<char>)
    ensures
        as_map(s).contains_key(k) <==> exists|i: int| 0 <= i < s.len() && (#[trigger] s[i]).0@ == k,
    decreases s.len(),
{
    if s.len() > 0 {
        lemma_as_map_contains(s.drop_last(), k);
        if as_map(s).contains_key(k) {
            if s.last().0@ == k {
                assert(s[s.len() - 1].0@ == k);
            } else {
                let i = choose|i: int| 0 <= i < s.drop_last().len() && (#[trigger] s.drop_last()[i]).0@ == k;
                assert(s[i].0@ == k);
            }
        }
        if exists|i: int| 0 <= i < s.len() && (#[trigger] s[i]).0@ == k {
            let i = choose|i: int| 0 <= i < s.len() && (#[trigger] s[i]).0@ == k;
            if i < s.len() - 1 {
                assert(s.drop_last()[i].0@ == k);
            }
        }
    }
}

proof fn lemma_as_map_index(s: Seq<(String, SessionRecord)>, i: int)
    requires
        0 <= i < s.len(),
        forall|a: int, b: int| 0 <= a < b < s.len() ==> (#[trigger] s[a]).0@ != (#[trigger] s[b]).0@,
    ensures
        as_map(s).contains_key(s[i].0@),
        as_map(s)[s[i].0@] == s[i].1@,
    decreases s.len(),
{
    if i == s.len() - 1 {
        assert(s.last() == s[i]);
    } else {
        assert(forall|a: int, b: int|
            0 <= a < b < s.drop_last().len() ==> (#[trigger] s.drop_last()[a]).0@ != (
            #[trigger] s.drop_last()[b]).0@);
        lemma_as_map_index(s.drop_last(), i);
        assert(s.drop_last()[i] == s[i]);
        assert(s.last().0@ != s[i].0@);
    }
}

proof fn lemma_as_map_remove(s: Seq<(String, SessionRecord)>, i: int)
    requires
        0 <= i < s.len(),
        forall|a: int, b: int| 0 <= a < b < s.len() ==> (#[trigger] s[a]).0@ != (#[trigger] s[b]).0@,
    ensures
        as_map(s.remove(i)) == as_map(s).remove(s[i].0@),
    decreases s.len(),
{
    let k = s[i].0@;
    if i == s.len() - 1 {
        assert(s.remove(i) =~= s.drop_last());
        lemma_as_map_contains(s.drop_last(), k);
        assert(!as_map(s.drop_last()).contains_key(k)) by {
            if as_map(s.drop_last()).contains_key(k) {
                let j = choose|j: int|
                    0 <= j < s.drop_last().len() && (#[trigger] s.drop_last()[j]).0@ == k;
                assert(s[j].0@ == k);
            }
        }
        assert(as_map(s).remove(k) =~= as_map(s.drop_last()));
    } else {
        assert(forall|a: int, b: int|
            0 <= a < b < s.drop_last().len() ==> (#[trigger] s.drop_last()[a]).0@ != (
            #[trigger] s.drop_last()[b]).0@);
        assert(s.drop_last()[i] == s[i]);
        lemma_as_map_remove(s.drop_last(), i);
        assert(s.remove(i).drop_last() =~= s.drop_last().remove(i));
        assert(s.remove(i).last() == s.last());
        assert(s.last().0@ != k);
        assert(as_map(s.remove(i)) =~= as_map(s.drop_last()).remove(k).insert(
            s.last().0@,
            s.last().1@,
        ));
        assert(as_map(s.drop_last()).remove(k).insert(s.last().0@, s.last().1@) =~= as_map(
            s,
        ).remove(k));
    }
}

impl View for SessionRegistry {
    type V = Map<Seq<char>, SessionView>;

    closed spec fn view(&self) -> Map<Seq<char>, SessionView> {
        as_map(self.entries@)
    }
}

/// The error a mutating operation reports for an unknown session id.
pub open spec fn spec_no_session_error(session_id: Seq<char>) -> Seq<char> {
    "No SSH connection found for session "@ + session_id + "."@
}

impl SessionRegistry {
    /// Session ids never repeat among the entries.
    pub closed spec fn wf(&self) -> bool {
        forall|a: int, b: int|
            0 <= a < b < self.entries@.len() ==> (#[trigger] self.entries@[a]).0@ != (
            #[trigger] self.entries@[b]).0@
    }

    /// An empty registry.
    pub fn new() -> (r: Self)
        ensures
            r.wf(),
            r@ == Map::<Seq<char>, SessionView>::empty(),
    {
        let r = SessionRegistry { entries: Vec::new() };
        proof {
            assert(r@ =~= Map::<Seq<char>, SessionView>::empty());
        }
        r
    }

    fn find_index(&self, session_id: &str) -> (r: Option<usize>)
        ensures
            r matches Some(i) ==> i < self.entries@.len() && self.entries@[i as int].0@
                == session_id@,
            r is None ==> forall|i: int|
                0 <= i < self.entries@.len() ==> (#[trigger] self.entries@[i]).0@ != session_id@,
    {
        let n = self.entries.len();
        let mut i: usize = 0;
        while i < n
            invariant
                0 <= i <= n,
                n == self.entries@.len(),
                forall|k: int| 0 <= k < i ==> (#[trigger] self.entries@[k]).0@ != session_id@,
            decreases n - i,
        {
            if str_eq(self.entries[i].0.as_str(), session_id) {
                return Some(i);
            }
            i = i + 1;
        }
        None
    }

    /// Whether a session id is live.
    pub fn contains(&self, session_id: &str) -> (r: bool)
        ensures
            r == self@.contains_key(session_id@),
    {
        proof {
            lemma_as_map_contains(self.entries@, session_id@);
        }
        self.find_index(session_id).is_some()
    }

    /// Removes a session id's record, if one is live, and hands it out — the
    /// caller owns its teardown. The registry no longer maps the id either
    /// way.
    pub fn evict(&mut self, session_id: &str) -> (prev: Option<SessionRecord>)
        requires
            old(self).wf(),
        ensures
            final(self).wf(),
            final(self)@ == old(self)@.remove(session_id@),
            old(self)@.contains_key(session_id@) ==> (prev matches Some(p) && p@ == old(
                self,
            )@[session_id@]),
            !old(self)@.contains_key(session_id@) ==> prev is None && final(self)@ == old(
                self,
            )@,
    {
        proof {
            lemma_as_map_contains(self.entries@, session_id@);
        }
        match self.find_index(session_id) {
            None => {
                proof {
                    assert(self@.remove(session_id@) =~= self@);
                }
                None
            },
            Some(i) => {
                proof {
                    lemma_as_map_index(self.entries@, i as int);
                    lemma_as_map_remove(self.entries@, i as int);
                }
                let entry = self.entries.remove(i);
                proof {
                    assert forall|a: int, b: int|
                        0 <= a < b < self.entries@.len() implies (#[trigger] self.entries@[a]).0@
                        != (#[trigger] self.entries@[b]).0@ by {
                        let s = old(self).entries@;
                        if a < i as int {
                            assert(self.entries@[a] == s[a]);
                        } else {
                            assert(self.entries@[a] == s[a + 1]);
                        }
                        if b < i as int {
                            assert(self.entries@[b] == s[b]);
                        } else {
                            assert(self.entries@[b] == s[b + 1]);
                        }
                    }
                }
                Some(entry.1)
            },
        }
    }

    /// Registers a record under a session id. A stale record under the same
    /// id is evicted first and handed back so its reader task can be aborted:
    /// registering is idempotent with respect to stale state, and the id maps
    /// to exactly the new record afterwards.
    pub fn insert(&mut self, session_id: String, record: SessionRecord) -> (evicted: Option<
        SessionRecord,
    >)
        requires
            old(self).wf(),
        ensures
            final(self).wf(),
            final(self)@ == old(self)@.insert(session_id@, record@),
            old(self)@.contains_key(session_id@) ==> (evicted matches Some(p) && p@ == old(
                self,
            )@[session_id@]),
            !old(self)@.contains_key(session_id@) ==> evicted is None,
    {
        let evicted = self.evict(session_id.as_str());
        proof {
            lemma_as_map_contains(self.entries@, session_id@);
        }
        let ghost before = self.entries@;
        let ghost mid_map = self@;
        self.entries.push((session_id, record));
        proof {
            assert(self.entries@.drop_last() =~= before);
            assert forall|a: int, b: int|
                0 <= a < b < self.entries@.len() implies (#[trigger] self.entries@[a]).0@ != (
            #[trigger] self.entries@[b]).0@ by {
                if b < self.entries@.len() - 1 {
                    assert(self.entries@[a] == before[a]);
                    assert(self.entries@[b] == before[b]);
                } else {
                    assert(self.entries@[a] == before[a]);
                }
            }
            assert(self@ =~= old(self)@.insert(self.entries@.last().0@, self.entries@.last().1@));
        }
        evicted
    }

    /// Removes and returns the record for one mutating operation; an unknown
    /// id is a "no session" error, and the registry is then unchanged: a
    /// caller racing against an operation in flight is rejected, never
    /// interleaved.
    pub fn take(&mut self, session_id: &str) -> (r: Result<SessionRecord, String>)
        requires
            old(self).wf(),
        ensures
            final(self).wf(),
            old(self)@.contains_key(session_id@) ==> (r matches Ok(rec) && rec@ == old(
                self,
            )@[session_id@] && final(self)@ == old(self)@.remove(session_id@)),
            !old(self)@.contains_key(session_id@) ==> (r matches Err(e) && e@
                == spec_no_session_error(session_id@) && final(self)@ == old(self)@),
    {
        match self.evict(session_id) {
            Some(rec) => Ok(rec),
            None => {
                let mut msg = String::new();
                msg.append("No SSH connection found for session ");
                msg.append(session_id);
                msg.append(".");
                proof {
                    assert(msg@ =~= spec_no_session_error(session_id@));
                }
                Err(msg)
            },
        }
    }

    /// Ends one mutating operation: a record taken with [`Self::take`] is
    /// reinserted only when the operation succeeded; on failure the registry
    /// stays without it — the session is destroyed rather than left in an
    /// unknown state — and the record is handed back for teardown.
    pub fn finish_operation(
        &mut self,
        session_id: String,
        record: SessionRecord,
        succeeded: bool,
    ) -> (r: Option<SessionRecord>)
        requires
            old(self).wf(),
        ensures
            final(self).wf(),
            succeeded ==> final(self)@ == old(self)@.insert(session_id@, record@) && r is None,
            !succeeded ==> final(self)@ == old(self)@ && (r matches Some(rec) && rec == record),
    {
        if succeeded {
            let evicted = self.insert(session_id, record);
            proof {
                assert(evicted is Some ==> old(self)@.contains_key(session_id@));
            }
            None
        } else {
            Some(record)
        }
    }
}

/// Connecting twice under one session id fully replaces the first session:
/// whatever was registered before, after the second connect the id maps to
/// exactly the new record, and the first record was handed out for teardown,
/// so two live reader tasks never coexist for one id.
pub proof fn lemma_reconnect_replaces(
    m: Map<Seq<char>, SessionView>,
    session_id: Seq<char>,
    stale: SessionView,
    fresh: SessionView,
)
    ensures
        m.insert(session_id, stale).remove(session_id).insert(session_id, fresh) == m.insert(
            session_id,
            fresh,
        ),
        m.insert(session_id, stale).insert(session_id, fresh) == m.insert(session_id, fresh),
{
    assert(m.insert(session_id, stale).remove(session_id).insert(session_id, fresh) =~= m.insert(
        session_id,
        fresh,
    ));
    assert(m.insert(session_id, stale).insert(session_id, fresh) =~= m.insert(session_id, fresh));
}

/// A failing operation evicts: after a record is taken and not reinserted,
/// the session id resolves to no session, so every subsequent operation on
/// it fails as "no session" until a new connect registers it again.
pub proof fn lemma_failed_operation_evicts(m: Map<Seq<char>, SessionView>, session_id: Seq<char>)
    ensures
        !m.remove(session_id).contains_key(session_id),
{
}

} // verus!
