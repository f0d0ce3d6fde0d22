//! The table of sessions: by its identifier, an upload finds the session that a
//! download stream has opened. A newer stream may take over an identifier; what
//! the older one then does leaves the newer session in place.
use vstd::hash_map::StringHashMap;
use vstd::prelude::*;

verus! {

/// How many messages may wait in each direction of a session.
pub const CHANNEL_CAPACITY: usize = 8192;

/// A session in the table.
struct Entry<H> {
    /// The token that its registration got.
    token: u64,
    /// What data is handed to.
    session: H,
}

/// The sessions that are open. `H` is what data is handed to.
#[verifier::reject_recursive_types(H)]
pub struct SessionTable<H> {
    entries: StringHashMap<Entry<H>>,
    next: u64,
}

/// What a table holds: the sessions, the tokens that they were registered under,
/// and the token of the next registration.
#[verifier::ext_equal]
pub struct TableState<H> {
    pub sessions: Map<Seq<char>, H>,
    pub tokens: Map<Seq<char>, u64>,
    pub next: u64,
}

/// The token that follows `token`. After the largest comes zero again.
pub open spec fn token_after(token: u64) -> u64 {
    if token == u64::MAX {
        0
    } else {
        (token + 1) as u64
    }
}

impl<H> View for SessionTable<H> {
    type V = Map<Seq<char>, H>;

    closed spec fn view(&self) -> Map<Seq<char>, H> {
        self.entries@.map_values(|e: Entry<H>| e.session)
    }
}

impl<H> SessionTable<H> {
    /// The tokens of the sessions in the table.
    pub closed spec fn tokens(&self) -> Map<Seq<char>, u64> {
        self.entries@.map_values(|e: Entry<H>| e.token)
    }

    /// The token of a session in the table.
    pub open spec fn token(&self, sid: Seq<char>) -> u64 {
        self.tokens()[sid]
    }

    /// The token of the next registration.
    pub closed spec fn next_token(&self) -> u64 {
        self.next
    }

    /// What the table holds.
    pub open spec fn state(&self) -> TableState<H> {
        TableState { sessions: self@, tokens: self.tokens(), next: self.next_token() }
    }

    /// A table without sessions.
    pub fn new() -> (r: SessionTable<H>)
        ensures
            r@ == Map::<Seq<char>, H>::empty(),
            r.tokens() == Map::<Seq<char>, u64>::empty(),
            r.next_token() == 0,
    {
        let r: SessionTable<H> = SessionTable { entries: StringHashMap::new(), next: 0 };
        assert(r@ =~= Map::<Seq<char>, H>::empty());
        assert(r.tokens() =~= Map::<Seq<char>, u64>::empty());
        r
    }

    /// The session with this identifier.
    pub fn find(&self, sid: &str) -> (r: Option<&H>)
        ensures
            match r {
                Some(h) => self@.contains_key(sid@) && *h == self@[sid@],
                None => !self@.contains_key(sid@),
            },
    {
        match self.entries.get(sid) {
            Some(entry) => Some(&entry.session),
            None => None,
        }
    }

    /// Registers a session, and hands out the token by which it can be taken out
    /// again. It takes the place of one with the same identifier.
    pub fn register(&mut self, sid: String, session: H) -> (token: u64)
        ensures
            token == old(self).next_token(),
            final(self)@ == old(self)@.insert(sid@, session),
            final(self).tokens() == old(self).tokens().insert(sid@, token),
            final(self).next_token() == token_after(token),
            final(self).state() == changed(old(self).state(), Change::Register(sid@, session)),
    {
        let token: u64 = self.next;
        self.entries.insert(sid, Entry { token, session });
        self.next = if token == u64::MAX {
            0
        } else {
            token + 1
        };
        assert(self@ =~= old(self)@.insert(sid@, session));
        assert(self.tokens() =~= old(self).tokens().insert(sid@, token));
        token
    }

    /// Takes the session with this identifier out of the table, if it is the one
    /// whose registration got `token`. A session that has taken its place stays.
    pub fn unregister(&mut self, sid: &str, token: u64)
        ensures
            final(self)@ == (if old(self)@.contains_key(sid@) && old(self).token(sid@) == token {
                old(self)@.remove(sid@)
            } else {
                old(self)@
            }),
            final(self).state() == changed(old(self).state(), Change::Unregister(sid@, token)),
    {
        let is_own: bool = match self.entries.get(sid) {
            Some(entry) => entry.token == token,
            None => false,
        };
        if is_own {
            self.entries.remove(sid);
            assert(self@ =~= old(self)@.remove(sid@));
            assert(self.tokens() =~= old(self).tokens().remove(sid@));
        }
    }
}

// ---------------------------------------------------------------------------
// Laws
// ---------------------------------------------------------------------------
/// A change of the table. To take a session out, its token is needed.
pub enum Change<H> {
    Register(Seq<char>, H),
    Unregister(Seq<char>, u64),
}

/// What the table holds after a change.
pub open spec fn changed<H>(table: TableState<H>, change: Change<H>) -> TableState<H> {
    match change {
        Change::Register(sid, h) => TableState {
            sessions: table.sessions.insert(sid, h),
            tokens: table.tokens.insert(sid, table.next),
            next: token_after(table.next),
        },
        Change::Unregister(sid, token) => if table.sessions.contains_key(sid) && table.tokens[sid]
            == token {
            TableState {
                sessions: table.sessions.remove(sid),
                tokens: table.tokens.remove(sid),
                next: table.next,
            }
        } else {
            table
        },
    }
}

/// What the table holds after several changes.
pub open spec fn after_changes<H>(table: TableState<H>, changes: Seq<Change<H>>) -> TableState<H>
    decreases changes.len(),
{
    if changes.len() == 0 {
        table
    } else {
        changed(after_changes(table, changes.drop_last()), changes.last())
    }
}

/// No change registers `sid` anew, or takes out the session that has `token`.
pub open spec fn leaves_alone<H>(changes: Seq<Change<H>>, sid: Seq<char>, token: u64) -> bool {
    forall|k: int|
        0 <= k < changes.len() ==> match #[trigger] changes[k] {
            Change::Register(other, _) => other != sid,
            Change::Unregister(other, t) => other != sid || t != token,
        }
}

/// How many of the changes register a session.
pub open spec fn registrations<H>(changes: Seq<Change<H>>) -> nat
    decreases changes.len(),
{
    if changes.len() == 0 {
        0
    } else {
        registrations(changes.drop_last()) + (if changes.last() is Register {
            1nat
        } else {
            0nat
        })
    }
}

/// A session stays as it is, under its token, until its identifier is registered
/// anew or it is taken out by that token: changes to other sessions do not touch
/// it, and neither does a stream that holds another token.
pub proof fn law_session_stays<H>(
    table: TableState<H>,
    changes: Seq<Change<H>>,
    sid: Seq<char>,
)
    requires
        table.sessions.contains_key(sid),
        leaves_alone(changes, sid, table.tokens[sid]),
    ensures
        after_changes(table, changes).sessions.contains_key(sid),
        after_changes(table, changes).sessions[sid] == table.sessions[sid],
        after_changes(table, changes).tokens[sid] == table.tokens[sid],
    decreases changes.len(),
{
    if changes.len() > 0 {
        let init = changes.drop_last();
        assert(leaves_alone(init, sid, table.tokens[sid])) by {
            assert forall|k: int| 0 <= k < init.len() implies match #[trigger] init[k] {
                Change::Register(other, _) => other != sid,
                Change::Unregister(other, t) => other != sid || t != table.tokens[sid],
            } by {
                assert(init[k] == changes[k]);
            }
        }
        let last = changes[changes.len() - 1];
        assert(changes.last() == last);
        law_session_stays(table, init, sid);
    }
}

/// A session that was registered is found, and it is the one registered last,
/// whatever is done to other sessions afterwards, and whatever is done to this
/// one by those who do not hold its token.
pub proof fn law_session_is_found<H>(
    table: TableState<H>,
    sid: Seq<char>,
    session: H,
    later: Seq<Change<H>>,
)
    requires
        leaves_alone(later, sid, table.next),
    ensures
        ({
            let t = after_changes(changed(table, Change::Register(sid, session)), later);
            t.sessions.contains_key(sid) && t.sessions[sid] == session
        }),
{
    law_session_stays(changed(table, Change::Register(sid, session)), later, sid);
}

/// The next token, after some changes, is as far from the first as there were
/// registrations.
proof fn lemma_next_token<H>(table: TableState<H>, changes: Seq<Change<H>>)
    ensures
        registrations(changes) <= changes.len(),
        after_changes(table, changes).next == (table.next + registrations(changes)) % (u64::MAX
            + 1),
    decreases changes.len(),
{
    if changes.len() > 0 {
        lemma_next_token(table, changes.drop_last());
        let n = table.next + registrations(changes.drop_last());
        let m = u64::MAX + 1;
        if changes.last() is Register {
            if n % m == m - 1 {
                assert((n + 1) % m == 0);
            } else {
                assert((n + 1) % m == n % m + 1);
            }
        }
    }
}

/// The end of a stream that was replaced leaves the newer session in place: an
/// older session of `sid` is registered, then others come and go, then the newer
/// one is registered under the same identifier, and more comes and goes. When the
/// older stream then takes its session out by its own token, the newer session is
/// still there, and is found. Tokens repeat after 2^64 registrations, so fewer
/// must lie between the two.
pub proof fn law_replaced_stream_leaves_newer<H>(
    table: TableState<H>,
    sid: Seq<char>,
    older: H,
    between: Seq<Change<H>>,
    newer: H,
    later: Seq<Change<H>>,
)
    requires
        registrations(between) < u64::MAX,
        ({
            let t = after_changes(changed(table, Change::Register(sid, older)), between);
            leaves_alone(later, sid, t.next)
        }),
    ensures
        ({
            let t = after_changes(changed(table, Change::Register(sid, older)), between);
            let u = after_changes(changed(t, Change::Register(sid, newer)), later);
            let end = changed(u, Change::Unregister(sid, table.next));
            &&& t.next != table.next
            &&& end == u
            &&& end.sessions.contains_key(sid)
            &&& end.sessions[sid] == newer
        }),
{
    let first = changed(table, Change::Register(sid, older));
    let t = after_changes(first, between);
    lemma_next_token(first, between);
    let k = registrations(between) as int;
    let m = u64::MAX + 1;
    if table.next as int + 1 + k < m {
        assert(t.next == table.next + 1 + k);
    } else if table.next == u64::MAX {
        assert(t.next == k);
    } else {
        assert((table.next + 1 + k) % m == table.next + 1 + k - m);
    }
    law_session_stays(changed(t, Change::Register(sid, newer)), later, sid);
}

/// A session that was taken out of the table by its token is not found again,
/// until it is registered again.
pub proof fn law_session_is_gone<H>(
    table: TableState<H>,
    sid: Seq<char>,
    later: Seq<Change<H>>,
)
    requires
        forall|k: int|
            0 <= k < later.len() ==> !((#[trigger] later[k]) matches Change::Register(other, _)
                && other == sid),
    ensures
        !after_changes(
            changed(table, Change::Unregister(sid, table.tokens[sid])),
            later,
        ).sessions.contains_key(sid),
    decreases later.len(),
{
    if later.len() > 0 {
        let init = later.drop_last();
        assert forall|k: int| 0 <= k < init.len() implies !((#[trigger] init[k]) matches Change::Register(
            other,
            _,
        ) && other == sid) by {
            assert(init[k] == later[k]);
        }
        assert(later.last() == later[later.len() - 1]);
        law_session_is_gone(table, sid, init);
    }
}

} // verus!
