//! The terminal manager: the single source of truth for which sessions
//! exist. It issues identifiers, registers sessions, gates every write,
//! resize and close on a registry lookup, and removes sessions when they are
//! closed or when their reader observes termination.
//!
//! The process- and handle-level work around a session (allocating the PTY,
//! spawning the shell, moving bytes) happens outside this library; the
//! manager decides, for every operation, whether it may proceed and how the
//! registry changes.

use vstd::prelude::*;

use crate::ident::dec_digits;
use crate::ident::id_shape;
use crate::ident::lemma_id_shape_injective;
use crate::ident::make_session_id;
use crate::options::CreateTerminalOptions;
use crate::options::CreateTerminalResponse;
use crate::options::TerminalError;
use crate::options::TerminalSize;
use crate::text::str_eq;

verus! {

/// One live session as the registry sees it: its identifier and current
/// size, plus ghost state recording the serial it was issued under and the
/// byte chunks its write handle has accepted, each chunk one `write` call.
pub struct SessionRecord {
    pub id: String,
    pub rows: u16,
    pub cols: u16,
    pub serial: Ghost<nat>,
    pub writes: Ghost<Seq<Seq<u8>>>,
}

/// Terminal manager handling multiple terminal sessions.
pub struct TerminalManager {
    pub sessions: Vec<SessionRecord>,
    pub next_serial: u64,
    pub issued: Ghost<Seq<Seq<char>>>,
}

/// The size a new session starts with: the requested one, or 24x80.
pub open spec fn initial_size(options: &CreateTerminalOptions) -> TerminalSize {
    match options.size {
        Some(s) => s,
        None => (TerminalSize { rows: 24, cols: 80 }),
    }
}

/// There is a record for `id` among `s`.
pub open spec fn sessions_contain(s: Seq<SessionRecord>, id: Seq<char>) -> bool {
    exists|i: int| 0 <= i < s.len() && (#[trigger] s[i]).id@ == id
}

/// The position of the record for `id` (unique when ids are distinct).
pub open spec fn index_of_session(s: Seq<SessionRecord>, id: Seq<char>) -> int {
    choose|i: int| 0 <= i < s.len() && (#[trigger] s[i]).id@ == id
}

/// No two records share an identifier.
pub open spec fn session_ids_distinct(s: Seq<SessionRecord>) -> bool {
    forall|i: int, j: int|
        0 <= i < j < s.len() ==> (#[trigger] s[i]).id@ != (#[trigger] s[j]).id@
}

/// What closing `id` leaves of the registry: the same records, minus the
/// one for `id` when it exists.
pub open spec fn close_sessions(s: Seq<SessionRecord>, id: Seq<char>) -> Seq<SessionRecord> {
    if sessions_contain(s, id) {
        s.remove(index_of_session(s, id))
    } else {
        s
    }
}

/// What closing `id` reports: `Ok` exactly when a session for `id` existed.
pub open spec fn close_result(s: Seq<SessionRecord>, id: Seq<char>) -> Result<
    (),
    TerminalError,
> {
    if sessions_contain(s, id) {
        Ok(())
    } else {
        Err(TerminalError::NotFound)
    }
}

impl TerminalManager {
    /// The registry contains a session with this identifier.
    pub open spec fn has_session(&self, id: Seq<char>) -> bool {
        sessions_contain(self.sessions@, id)
    }

    /// Well-formedness: one identifier per serial ever issued, every live
    /// session carries the identifier it was issued under, and no serial is
    /// shared, which makes live identifiers pairwise distinct.
    pub open spec fn wf(&self) -> bool {
        &&& self.issued@.len() == self.next_serial
        &&& forall|k: int|
            0 <= k < self.issued@.len() ==> id_shape(#[trigger] self.issued@[k], k as nat)
        &&& forall|i: int|
            0 <= i < self.sessions@.len() ==> (#[trigger] self.sessions@[i]).serial@
                < self.next_serial
        &&& forall|i: int|
            0 <= i < self.sessions@.len() ==> id_shape(
                (#[trigger] self.sessions@[i]).id@,
                self.sessions@[i].serial@,
            )
        &&& forall|i: int, j: int|
            0 <= i < j < self.sessions@.len() ==> (#[trigger] self.sessions@[i]).serial@ != (
            #[trigger] self.sessions@[j]).serial@
    }

    /// Identifiers of live sessions never collide.
    pub proof fn lemma_live_ids_distinct(&self)
        requires
            self.wf(),
        ensures
            session_ids_distinct(self.sessions@),
    {
        assert forall|i: int, j: int| 0 <= i < j < self.sessions@.len() implies (
        #[trigger] self.sessions@[i]).id@ != (#[trigger] self.sessions@[j]).id@ by {
            if self.sessions@[i].id@ == self.sessions@[j].id@ {
                lemma_id_shape_injective(
                    self.sessions@[i].id@,
                    self.sessions@[i].serial@,
                    self.sessions@[j].id@,
                    self.sessions@[j].serial@,
                );
            }
        }
    }

    /// Identifiers handed out by `create_terminal` are pairwise distinct:
    /// no identifier is ever returned twice, whether its session is still
    /// live, closed, or self-terminated.
    pub proof fn lemma_issued_ids_distinct(&self)
        requires
            self.wf(),
        ensures
            forall|k1: int, k2: int|
                0 <= k1 < k2 < self.issued@.len() ==> self.issued@[k1] != self.issued@[k2],
    {
        assert forall|k1: int, k2: int|
            0 <= k1 < k2 < self.issued@.len() implies self.issued@[k1] != self.issued@[k2] by {
            if self.issued@[k1] == self.issued@[k2] {
                lemma_id_shape_injective(
                    self.issued@[k1],
                    k1 as nat,
                    self.issued@[k2],
                    k2 as nat,
                );
            }
        }
    }

    /// Creates a new terminal manager instance with no sessions.
    pub fn new() -> (r: Self)
        ensures
            r.wf(),
            r.sessions@.len() == 0,
            r.issued@.len() == 0,
    {
        TerminalManager { sessions: Vec::new(), next_serial: 0, issued: Ghost(Seq::empty()) }
    }

    /// The position of the live session for `terminal_id`, if any.
    fn find_session(&self, terminal_id: &str) -> (r: Option<usize>)
        ensures
            match r {
                Some(i) => i < self.sessions@.len() && self.sessions@[i as int].id@
                    == terminal_id@,
                None => !self.has_session(terminal_id@),
            },
    {
        let n = self.sessions.len();
        let mut i: usize = 0;
        while i < n
            invariant
                n == self.sessions@.len(),
                i <= n,
                forall|j: int| 0 <= j < i ==> (#[trigger] self.sessions@[j]).id@ != terminal_id@,
            decreases n - i,
        {
            if str_eq(self.sessions[i].id.as_str(), terminal_id) {
                return Some(i);
            }
            i += 1;
        }
        None
    }

    /// Registers a new session and returns its freshly issued identifier.
    ///
    /// The identifier is non-empty and distinct from every identifier this
    /// manager has ever returned. The caller allocates the PTY and spawns
    /// the shell before registering, so a setup failure leaves no session
    /// behind.
    pub fn create_terminal(&mut self, options: &CreateTerminalOptions) -> (r:
        CreateTerminalResponse)
        requires
            old(self).wf(),
            old(self).next_serial < u64::MAX,
        ensures
            final(self).wf(),
            r.terminal_id@.len() > 0,
            forall|k: int|
                0 <= k < old(self).issued@.len() ==> old(self).issued@[k] != r.terminal_id@,
            final(self).issued@ == old(self).issued@.push(r.terminal_id@),
            final(self).next_serial == old(self).next_serial + 1,
            final(self).sessions@.len() == old(self).sessions@.len() + 1,
            final(self).sessions@.drop_last() == old(self).sessions@,
            final(self).sessions@.last().id@ == r.terminal_id@,
            final(self).sessions@.last().rows == initial_size(options).rows,
            final(self).sessions@.last().cols == initial_size(options).cols,
            final(self).sessions@.last().writes@ == Seq::<Seq<u8>>::empty(),
            final(self).has_session(r.terminal_id@),
    {
        let ghost serial: nat = self.next_serial as nat;
        let id = make_session_id(self.next_serial);
        let id_copy = id.clone();
        let (rows, cols) = match &options.size {
            Some(s) => (s.rows, s.cols),
            None => (24u16, 80u16),
        };
        let record = SessionRecord {
            id,
            rows,
            cols,
            serial: Ghost(serial),
            writes: Ghost(Seq::empty()),
        };
        self.sessions.push(record);
        self.issued = Ghost(self.issued@.push(id_copy@));
        self.next_serial = self.next_serial + 1;
        proof {
            assert forall|k: int| 0 <= k < old(self).issued@.len() implies old(self).issued@[k]
                != id_copy@ by {
                if old(self).issued@[k] == id_copy@ {
                    lemma_id_shape_injective(old(self).issued@[k], k as nat, id_copy@, serial);
                }
            }
            assert(self.sessions@.last().id@ == id_copy@);
            assert(self.sessions@.drop_last() =~= old(self).sessions@);
            assert(self.has_session(id_copy@)) by {
                assert((self.sessions@[self.sessions@.len() - 1]).id@ == id_copy@);
            }
        }
        CreateTerminalResponse { terminal_id: id_copy }
    }

    /// Records one write against the session for `terminal_id`.
    ///
    /// `Ok` exactly when the session exists; otherwise `NotFound` and the
    /// registry is unchanged. On success the whole chunk is appended to the
    /// session's write log as a single unit — one call, one contiguous
    /// chunk — and nothing else changes. The caller moves the bytes into
    /// the PTY's write handle after this gate, under the session's lock.
    pub fn write_to_terminal(&mut self, terminal_id: &str, data: &[u8]) -> (r: Result<
        (),
        TerminalError,
    >)
        requires
            old(self).wf(),
        ensures
            final(self).wf(),
            r is Ok <==> old(self).has_session(terminal_id@),
            r matches Err(e) ==> e is NotFound && *final(self) == *old(self),
            r is Ok ==> ({
                let i = index_of_session(old(self).sessions@, terminal_id@);
                &&& final(self).sessions@ == old(self).sessions@.update(
                    i,
                    (SessionRecord {
                        writes: Ghost(old(self).sessions@[i].writes@.push(data@)),
                        ..old(self).sessions@[i]
                    }),
                )
                &&& final(self).issued@ == old(self).issued@
                &&& final(self).next_serial == old(self).next_serial
            }),
    {
        match self.find_session(terminal_id) {
            Some(i) => {
                proof {
                    old(self).lemma_live_ids_distinct();
                    let j = index_of_session(old(self).sessions@, terminal_id@);
                    assert(0 <= j < old(self).sessions@.len() && old(self).sessions@[j].id@
                        == terminal_id@);
                    assert(j == i as int);
                }
                let mut rec = self.sessions.remove(i);
                rec.writes = Ghost(rec.writes@.push(data@));
                self.sessions.insert(i, rec);
                proof {
                    assert(self.sessions@ =~= old(self).sessions@.update(
                        i as int,
                        (SessionRecord {
                            writes: Ghost(old(self).sessions@[i as int].writes@.push(data@)),
                            ..old(self).sessions@[i as int]
                        }),
                    ));
                }
                Ok(())
            },
            None => Err(TerminalError::NotFound),
        }
    }

    /// Changes the recorded size of the session for `terminal_id`.
    ///
    /// `Ok` exactly when the session exists; otherwise `NotFound` and the
    /// registry is unchanged. On success only that session's size changes;
    /// its identifier and write log stay as they were, and no event of any
    /// kind is produced by a resize. The caller forwards the new size to
    /// the PTY's control handle after this gate.
    pub fn resize_terminal(&mut self, terminal_id: &str, size: &TerminalSize) -> (r: Result<
        (),
        TerminalError,
    >)
        requires
            old(self).wf(),
        ensures
            final(self).wf(),
            r is Ok <==> old(self).has_session(terminal_id@),
            r matches Err(e) ==> e is NotFound && *final(self) == *old(self),
            r is Ok ==> ({
                let i = index_of_session(old(self).sessions@, terminal_id@);
                &&& final(self).sessions@ == old(self).sessions@.update(
                    i,
                    (SessionRecord {
                        rows: size.rows,
                        cols: size.cols,
                        ..old(self).sessions@[i]
                    }),
                )
                &&& final(self).issued@ == old(self).issued@
                &&& final(self).next_serial == old(self).next_serial
            }),
    {
        match self.find_session(terminal_id) {
            Some(i) => {
                proof {
                    old(self).lemma_live_ids_distinct();
                    let j = index_of_session(old(self).sessions@, terminal_id@);
                    assert(0 <= j < old(self).sessions@.len() && old(self).sessions@[j].id@
                        == terminal_id@);
                    assert(j == i as int);
                }
                let mut rec = self.sessions.remove(i);
                rec.rows = size.rows;
                rec.cols = size.cols;
                self.sessions.insert(i, rec);
                proof {
                    assert(self.sessions@ =~= old(self).sessions@.update(
                        i as int,
                        (SessionRecord {
                            rows: size.rows,
                            cols: size.cols,
                            ..old(self).sessions@[i as int]
                        }),
                    ));
                }
                Ok(())
            },
            None => Err(TerminalError::NotFound),
        }
    }

    /// Removes the session for `terminal_id` from the registry.
    ///
    /// `Ok` exactly when the session existed; a second close of the same
    /// identifier reports `NotFound`. Removal happens first, so no new
    /// operation can target the session; the caller then signals the
    /// reader's shutdown channel and kills and reaps the child process.
    pub fn close_terminal(&mut self, terminal_id: &str) -> (r: Result<(), TerminalError>)
        requires
            old(self).wf(),
        ensures
            final(self).wf(),
            r == close_result(old(self).sessions@, terminal_id@),
            final(self).sessions@ == close_sessions(old(self).sessions@, terminal_id@),
            !final(self).has_session(terminal_id@),
            final(self).issued@ == old(self).issued@,
            final(self).next_serial == old(self).next_serial,
    {
        match self.find_session(terminal_id) {
            Some(i) => {
                proof {
                    old(self).lemma_live_ids_distinct();
                    let j = index_of_session(old(self).sessions@, terminal_id@);
                    assert(0 <= j < old(self).sessions@.len() && old(self).sessions@[j].id@
                        == terminal_id@);
                    assert(j == i as int);
                }
                self.sessions.remove(i);
                proof {
                    assert(!self.has_session(terminal_id@)) by {
                        old(self).lemma_live_ids_distinct();
                        assert forall|k: int|
                            0 <= k < self.sessions@.len() implies (
                        #[trigger] self.sessions@[k]).id@ != terminal_id@ by {
                            if k < i as int {
                                assert(self.sessions@[k] == old(self).sessions@[k]);
                            } else {
                                assert(self.sessions@[k] == old(self).sessions@[k + 1]);
                            }
                        }
                    }
                }
                Ok(())
            },
            None => Err(TerminalError::NotFound),
        }
    }

    /// The reader engine's own cleanup when it stops: remove the session if
    /// it is still present. Racing with an explicit close is harmless —
    /// removing an identifier that is already gone changes nothing.
    pub fn deregister_terminal(&mut self, terminal_id: &str)
        requires
            old(self).wf(),
        ensures
            final(self).wf(),
            final(self).sessions@ == close_sessions(old(self).sessions@, terminal_id@),
            !final(self).has_session(terminal_id@),
            final(self).issued@ == old(self).issued@,
            final(self).next_serial == old(self).next_serial,
    {
        let _ = self.close_terminal(terminal_id);
    }

    /// Reading is handled by the background reader engine; this method is
    /// kept for API compatibility and always returns an empty buffer.
    pub fn read_from_terminal(&self, terminal_id: &str) -> (r: Result<Vec<u8>, TerminalError>)
        ensures
            r is Ok,
            r matches Ok(v) ==> v@ == Seq::<u8>::empty(),
    {
        let _ = terminal_id;
        Ok(Vec::new())
    }

    /// Whether a session for `terminal_id` is currently registered (and so
    /// still counts as running).
    pub fn has_terminal(&self, terminal_id: &str) -> (r: bool)
        ensures
            r == self.has_session(terminal_id@),
    {
        match self.find_session(terminal_id) {
            Some(_) => true,
            None => false,
        }
    }

    /// The number of live sessions.
    pub fn terminal_count(&self) -> (r: usize)
        ensures
            r == self.sessions@.len(),
    {
        self.sessions.len()
    }

    /// The current size of the session for `terminal_id`, if it exists.
    pub fn terminal_size(&self, terminal_id: &str) -> (r: Option<TerminalSize>)
        requires
            self.wf(),
        ensures
            r is Some <==> self.has_session(terminal_id@),
            r matches Some(s) ==> ({
                let i = index_of_session(self.sessions@, terminal_id@);
                s.rows == self.sessions@[i].rows && s.cols == self.sessions@[i].cols
            }),
    {
        match self.find_session(terminal_id) {
            Some(i) => {
                proof {
                    self.lemma_live_ids_distinct();
                    let j = index_of_session(self.sessions@, terminal_id@);
                    assert(0 <= j < self.sessions@.len() && self.sessions@[j].id@ == terminal_id@);
                    assert(j == i as int);
                }
                Some(TerminalSize { rows: self.sessions[i].rows, cols: self.sessions[i].cols })
            },
            None => None,
        }
    }
}

/// After a successful close of an identifier, a second close of the same
/// identifier reports `NotFound`: sessions, once removed, stay removed
/// until (and unless) a fresh identifier is issued.
pub proof fn lemma_close_is_not_repeatable(s: Seq<SessionRecord>, id: Seq<char>)
    requires
        session_ids_distinct(s),
        close_result(s, id) is Ok,
    ensures
        close_result(close_sessions(s, id), id) == Err::<(), TerminalError>(
            TerminalError::NotFound,
        ),
{
    let i = index_of_session(s, id);
    assert(0 <= i < s.len() && s[i].id@ == id);
    let t = close_sessions(s, id);
    assert forall|k: int| 0 <= k < t.len() implies (#[trigger] t[k]).id@ != id by {
        if k < i {
            assert(t[k] == s[k]);
        } else {
            assert(t[k] == s[k + 1]);
        }
    }
}

} // verus!
