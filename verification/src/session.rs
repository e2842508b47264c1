//! The session lifecycle: a player's record moves between the active and the
//! logged-out partition and keeps its player identifier and its name.

use crate::database::{find_row, holds, rows_unique, Database};
use crate::error::Error;
use crate::model::{Player, PlayerData};
use spacetimedb::Identity;
use vstd::prelude::*;

verus! {

/// The two partitions as maps from identity to record, and the last player
/// identifier that was handed out.
#[verifier::ext_equal]
pub struct Sessions {
    pub active: Map<Identity, PlayerData>,
    pub logged_out: Map<Identity, PlayerData>,
    pub player_seq: u32,
}

/// One call of the session lifecycle, with the identity of the caller.
pub enum SessionCall {
    Connect(Identity),
    Disconnect(Identity),
}

impl Sessions {
    /// The identity has a record, in either partition.
    pub open spec fn knows(self, identity: Identity) -> bool {
        self.active.contains_key(identity) || self.logged_out.contains_key(identity)
    }

    /// The active partition is empty: nobody is connected.
    pub open spec fn nobody_active(self) -> bool {
        forall|a: Identity| !#[trigger] self.active.contains_key(a)
    }

    /// The record of an identity that is known.
    pub open spec fn record(self, identity: Identity) -> PlayerData {
        if self.active.contains_key(identity) {
            self.active[identity]
        } else {
            self.logged_out[identity]
        }
    }

    /// No identity is in both partitions, every player identifier was handed
    /// out, and no two identities share one.
    pub open spec fn wf(self) -> bool {
        &&& forall|a: Identity|
            !(#[trigger] self.active.contains_key(a) && self.logged_out.contains_key(a))
        &&& forall|a: Identity| #[trigger]
            self.knows(a) ==> 1 <= self.record(a).player_id <= self.player_seq
        &&& forall|a: Identity, b: Identity|
            #![trigger self.record(a), self.record(b)]
            self.knows(a) && self.knows(b) && a != b ==> self.record(a).player_id
                != self.record(b).player_id
    }

    /// How a connect of `identity` ends. A logged-out player comes back; an
    /// identity seen for the first time gets a new record; an identity that is
    /// active already is refused, and so is a new one when no player identifier
    /// is left.
    pub open spec fn connect_outcome(self, identity: Identity) -> Result<(), Error> {
        if self.logged_out.contains_key(identity) {
            Ok(())
        } else if self.active.contains_key(identity) {
            Err(Error::DuplicateIdentity)
        } else if self.player_seq == u32::MAX {
            Err(Error::InsertConflict)
        } else {
            Ok(())
        }
    }

    /// The sessions after a connect of `identity`.
    pub open spec fn after_connect(self, identity: Identity) -> Sessions {
        if self.logged_out.contains_key(identity) {
            Sessions {
                active: self.active.insert(identity, self.logged_out[identity]),
                logged_out: self.logged_out.remove(identity),
                player_seq: self.player_seq,
            }
        } else if self.active.contains_key(identity) || self.player_seq == u32::MAX {
            self
        } else {
            let player_id = (self.player_seq + 1) as u32;
            Sessions {
                active: self.active.insert(identity, PlayerData { player_id, name: Seq::empty() }),
                logged_out: self.logged_out,
                player_seq: player_id,
            }
        }
    }

    /// How a disconnect of `identity` ends: refused unless the identity is
    /// active.
    pub open spec fn disconnect_outcome(self, identity: Identity) -> Result<(), Error> {
        if self.active.contains_key(identity) {
            Ok(())
        } else {
            Err(Error::PlayerNotFound)
        }
    }

    /// The sessions after a disconnect of `identity`.
    pub open spec fn after_disconnect(self, identity: Identity) -> Sessions {
        if self.active.contains_key(identity) {
            Sessions {
                active: self.active.remove(identity),
                logged_out: self.logged_out.insert(identity, self.active[identity]),
                player_seq: self.player_seq,
            }
        } else {
            self
        }
    }

    /// The sessions after one call, whatever its outcome.
    pub open spec fn after_call(self, call: SessionCall) -> Sessions {
        match call {
            SessionCall::Connect(identity) => self.after_connect(identity),
            SessionCall::Disconnect(identity) => self.after_disconnect(identity),
        }
    }

    /// The sessions after a series of calls, whatever the outcome of each.
    pub open spec fn after_calls(self, calls: Seq<SessionCall>) -> Sessions
        decreases calls.len(),
    {
        if calls.len() == 0 {
            self
        } else {
            self.after_calls(calls.drop_last()).after_call(calls.last())
        }
    }
}

/// The place of the row that is filed under `identity`.
pub open spec fn row_of(rows: Seq<Player>, identity: Identity) -> int {
    choose|i: int| 0 <= i < rows.len() && (#[trigger] rows[i]).identity == identity
}

/// A partition as a map from identity to record.
pub open spec fn partition(rows: Seq<Player>) -> Map<Identity, PlayerData> {
    Map::new(
        |identity: Identity| holds(rows, identity),
        |identity: Identity| rows[row_of(rows, identity)].data(),
    )
}

impl Database {
    /// The sessions that the two partitions stand for.
    pub open spec fn sessions(self) -> Sessions {
        Sessions {
            active: partition(self.player@),
            logged_out: partition(self.logged_out_player@),
            player_seq: self.player_seq,
        }
    }

    /// The record of `identity` in the active partition, if it has one.
    pub fn find_player(&self, identity: &Identity) -> (found: Option<&Player>)
        requires
            self.wf(),
        ensures
            found is Some <==> self.sessions().active.contains_key(*identity),
            found matches Some(row) ==> row.identity == *identity && row.data()
                == self.sessions().active[*identity],
    {
        match find_row(&self.player, identity) {
            Some(at) => Some(&self.player[at]),
            None => None,
        }
    }

    /// The record of `identity` in the logged-out partition, if it has one.
    pub fn find_logged_out_player(&self, identity: &Identity) -> (found: Option<&Player>)
        requires
            self.wf(),
        ensures
            found is Some <==> self.sessions().logged_out.contains_key(*identity),
            found matches Some(row) ==> row.identity == *identity && row.data()
                == self.sessions().logged_out[*identity],
    {
        match find_row(&self.logged_out_player, identity) {
            Some(at) => Some(&self.logged_out_player[at]),
            None => None,
        }
    }
}

/// A client has connected. A player that was logged out moves back to the
/// active partition with its record as it was; a new identity gets a record
/// with the next player identifier and an empty name. Refused with
/// `DuplicateIdentity` where the identity is active already, and with
/// `InsertConflict` where it is new and no player identifier is left.
pub fn connect(db: &mut Database, sender: Identity) -> (result: Result<(), Error>)
    requires
        old(db).wf(),
    ensures
        final(db).wf(),
        old(db).same_setup(*final(db)),
        old(db).same_population(*final(db)),
        result == old(db).sessions().connect_outcome(sender),
        final(db).sessions() == old(db).sessions().after_connect(sender),
        final(db).sessions().wf(),
        result is Err ==> *final(db) == *old(db),
{
    proof {
        lemma_sessions_wf(*db);
    }
    match find_row(&db.logged_out_player, &sender) {
        Some(at) => {
            proof {
                lemma_partition_remove(db.logged_out_player@, at as int);
                lemma_partition_push(db.player@, db.logged_out_player@[at as int]);
            }
            let row = db.logged_out_player.remove(at);
            db.player.push(row);
            proof {
                lemma_sessions_wf(*db);
            }
            Ok(())
        },
        None => {
            if find_row(&db.player, &sender).is_some() {
                return Err(Error::DuplicateIdentity);
            }
            if db.player_seq == u32::MAX {
                return Err(Error::InsertConflict);
            }
            let player_id: u32 = db.player_seq + 1;
            let row = Player { identity: sender, player_id, name: String::new() };
            proof {
                lemma_partition_push(db.player@, row);
            }
            db.player_seq = player_id;
            db.player.push(row);
            proof {
                lemma_sessions_wf(*db);
            }
            Ok(())
        },
    }
}

/// A client has disconnected. Its record moves to the logged-out partition as
/// it is. Refused with `PlayerNotFound` where the identity is not active.
pub fn disconnect(db: &mut Database, sender: Identity) -> (result: Result<(), Error>)
    requires
        old(db).wf(),
    ensures
        final(db).wf(),
        old(db).same_setup(*final(db)),
        old(db).same_population(*final(db)),
        result == old(db).sessions().disconnect_outcome(sender),
        final(db).sessions() == old(db).sessions().after_disconnect(sender),
        final(db).sessions().wf(),
        result is Err ==> *final(db) == *old(db),
{
    proof {
        lemma_sessions_wf(*db);
    }
    match find_row(&db.player, &sender) {
        Some(at) => {
            proof {
                lemma_partition_remove(db.player@, at as int);
                lemma_partition_push(db.logged_out_player@, db.player@[at as int]);
            }
            let row = db.player.remove(at);
            db.logged_out_player.push(row);
            proof {
                lemma_sessions_wf(*db);
            }
            Ok(())
        },
        None => Err(Error::PlayerNotFound),
    }
}

/// Session exclusivity. Take well-formed sessions and any series of connects
/// and disconnects, for any identities and whatever the outcome of each. At
/// every point of the series no identity is in both partitions, and no two
/// identities share a player identifier. And an identity that has a record at
/// one point has that very record, player identifier and name, at every later
/// point.
pub proof fn law_session_exclusivity(s: Sessions, calls: Seq<SessionCall>)
    requires
        s.wf(),
    ensures
        forall|n: int|
            0 <= n <= calls.len() ==> (#[trigger] s.after_calls(calls.take(n))).wf(),
        forall|n: int, identity: Identity|
            0 <= n <= calls.len() ==> !((#[trigger] s.after_calls(
                calls.take(n),
            )).active.contains_key(identity) && #[trigger] s.after_calls(
                calls.take(n),
            ).logged_out.contains_key(identity)),
        forall|n: int, m: int, identity: Identity|
            #![trigger s.after_calls(calls.take(n)).record(identity), s.after_calls(calls.take(m))]
            0 <= n <= m <= calls.len() && s.after_calls(calls.take(n)).knows(identity) ==> {
                &&& s.after_calls(calls.take(m)).knows(identity)
                &&& s.after_calls(calls.take(m)).record(identity) == s.after_calls(
                    calls.take(n),
                ).record(identity)
            },
{
    assert forall|n: int| 0 <= n <= calls.len() implies (#[trigger] s.after_calls(
        calls.take(n),
    )).wf() by {
        lemma_calls_keep_wf(s, calls, n);
    }
    assert forall|n: int, m: int, identity: Identity|
        #![trigger s.after_calls(calls.take(n)).record(identity), s.after_calls(calls.take(m))]
        0 <= n <= m <= calls.len() && s.after_calls(calls.take(n)).knows(identity) implies {
        &&& s.after_calls(calls.take(m)).knows(identity)
        &&& s.after_calls(calls.take(m)).record(identity) == s.after_calls(calls.take(n)).record(
            identity,
        )
    } by {
        lemma_calls_keep_records(s, calls, n, m, identity);
    }
}

/// Identifier stability. A player that disconnects and connects again is back
/// in the active partition with the player identifier and the name it had, and
/// so are all the sessions: both calls succeed and the second undoes the first.
pub proof fn law_reconnect_keeps_record(s: Sessions, identity: Identity)
    requires
        s.wf(),
        s.active.contains_key(identity),
    ensures
        s.disconnect_outcome(identity) is Ok,
        s.after_disconnect(identity).logged_out.contains_key(identity),
        s.after_disconnect(identity).logged_out[identity] == s.active[identity],
        s.after_disconnect(identity).connect_outcome(identity) is Ok,
        s.after_disconnect(identity).after_connect(identity).active[identity]
            == s.active[identity],
        s.after_disconnect(identity).after_connect(identity) == s,
{
}

/// A connect of a new identity hands out the next player identifier with an
/// empty name, and a second connect right after it is refused and changes
/// nothing.
pub proof fn law_first_connect(s: Sessions, identity: Identity)
    requires
        s.wf(),
        !s.knows(identity),
        s.player_seq < u32::MAX,
    ensures
        s.connect_outcome(identity) is Ok,
        s.after_connect(identity).active[identity] == (PlayerData {
            player_id: (s.player_seq + 1) as u32,
            name: Seq::empty(),
        }),
        s.after_connect(identity).connect_outcome(identity) == Err::<(), Error>(
            Error::DuplicateIdentity,
        ),
        s.after_connect(identity).after_connect(identity) == s.after_connect(identity),
{
}

/// A row filed under a new identity becomes a new entry of the map.
pub proof fn lemma_partition_push(rows: Seq<Player>, row: Player)
    requires
        rows_unique(rows),
        !holds(rows, row.identity),
    ensures
        partition(rows.push(row)) == partition(rows).insert(row.identity, row.data()),
{
    let grown = rows.push(row);
    let expected = partition(rows).insert(row.identity, row.data());
    assert(grown[rows.len() as int] == row);
    assert forall|identity: Identity| holds(grown, identity) == (holds(rows, identity) || identity
        == row.identity) by {
        if holds(rows, identity) {
            let i = row_of(rows, identity);
            assert(grown[i] == rows[i]);
        }
        if holds(grown, identity) && identity != row.identity {
            let i = row_of(grown, identity);
            assert(rows[i] == grown[i]);
        }
    }
    assert(partition(grown) =~= expected);
}

/// Taking a row out takes its entry out of the map.
pub proof fn lemma_partition_remove(rows: Seq<Player>, at: int)
    requires
        rows_unique(rows),
        0 <= at < rows.len(),
    ensures
        partition(rows.remove(at)) == partition(rows).remove(rows[at].identity),
{
    let rest = rows.remove(at);
    let gone = rows[at].identity;
    let expected = partition(rows).remove(gone);
    assert forall|identity: Identity| holds(rest, identity) == (holds(rows, identity) && identity
        != gone) by {
        if holds(rest, identity) {
            let i = row_of(rest, identity);
            if i < at {
                assert(rows[i] == rest[i]);
            } else {
                assert(rows[i + 1] == rest[i]);
            }
        }
        if holds(rows, identity) && identity != gone {
            let i = row_of(rows, identity);
            if i < at {
                assert(rest[i] == rows[i]);
            } else {
                assert(rest[i - 1] == rows[i]);
            }
        }
    }
    assert(partition(rest) =~= expected);
}

/// Nobody is connected exactly when the active partition has no row.
pub proof fn lemma_nobody_active(db: Database)
    ensures
        db.sessions().nobody_active() <==> db.player@.len() == 0,
{
    if db.player@.len() > 0 {
        let first = db.player@[0];
        assert(db.sessions().active.contains_key(first.identity));
    }
}

/// A well-formed world stands for well-formed sessions.
pub proof fn lemma_sessions_wf(db: Database)
    requires
        db.wf(),
    ensures
        db.sessions().wf(),
{
    let s = db.sessions();
    let active = db.player@;
    let parked = db.logged_out_player@;
    assert forall|a: Identity| s.knows(a) implies {
        let at = if holds(active, a) {
            active[row_of(active, a)]
        } else {
            parked[row_of(parked, a)]
        };
        at.identity == a && #[trigger] s.record(a) == at.data()
    } by {}
}

/// A connect leaves well-formed sessions well formed.
pub proof fn lemma_connect_keeps_wf(s: Sessions, identity: Identity)
    requires
        s.wf(),
    ensures
        s.after_connect(identity).wf(),
{
    let t = s.after_connect(identity);
    assert forall|a: Identity| #[trigger] t.knows(a) implies 1 <= t.record(a).player_id
        <= t.player_seq by {
        if a != identity {
            assert(s.knows(a));
        } else if s.logged_out.contains_key(identity) {
            assert(s.knows(identity));
        }
    }
    assert forall|a: Identity, b: Identity|
        #![trigger t.record(a), t.record(b)]
        t.knows(a) && t.knows(b) && a != b implies t.record(a).player_id != t.record(
            b,
        ).player_id by {
        if s.knows(identity) {
            assert(s.knows(a) && s.knows(b));
            assert(t.record(a) == s.record(a));
            assert(t.record(b) == s.record(b));
        } else if a == identity {
            assert(s.knows(b));
            assert(t.record(b) == s.record(b));
        } else if b == identity {
            assert(s.knows(a));
            assert(t.record(a) == s.record(a));
        } else {
            assert(s.knows(a) && s.knows(b));
            assert(t.record(a) == s.record(a));
            assert(t.record(b) == s.record(b));
        }
    }
}

/// A disconnect leaves well-formed sessions well formed.
pub proof fn lemma_disconnect_keeps_wf(s: Sessions, identity: Identity)
    requires
        s.wf(),
    ensures
        s.after_disconnect(identity).wf(),
{
    let t = s.after_disconnect(identity);
    assert forall|a: Identity| t.knows(a) == s.knows(a) by {}
    assert forall|a: Identity| #[trigger] t.knows(a) implies t.record(a) == s.record(a) by {}
    assert forall|a: Identity| #[trigger] t.knows(a) implies 1 <= t.record(a).player_id
        <= t.player_seq by {
        assert(s.knows(a));
    }
    assert forall|a: Identity, b: Identity|
        #![trigger t.record(a), t.record(b)]
        t.knows(a) && t.knows(b) && a != b implies t.record(a).player_id != t.record(
            b,
        ).player_id by {
        assert(s.knows(a) && s.knows(b));
        assert(t.record(a) == s.record(a));
        assert(t.record(b) == s.record(b));
    }
}

/// A call leaves well-formed sessions well formed, and leaves every record
/// that exists as it is: the call moves records and adds one, and never
/// changes or drops one.
pub proof fn lemma_call_keeps_records(s: Sessions, call: SessionCall)
    requires
        s.wf(),
    ensures
        s.after_call(call).wf(),
        forall|a: Identity| #[trigger]
            s.knows(a) ==> s.after_call(call).knows(a) && s.after_call(call).record(a)
                == s.record(a),
{
    match call {
        SessionCall::Connect(identity) => lemma_connect_keeps_wf(s, identity),
        SessionCall::Disconnect(identity) => lemma_disconnect_keeps_wf(s, identity),
    }
}

/// The sessions after the first `n + 1` calls of a series are those after the
/// first `n`, followed by the call at place `n`.
pub proof fn lemma_after_calls_step(s: Sessions, calls: Seq<SessionCall>, n: int)
    requires
        0 <= n < calls.len(),
    ensures
        s.after_calls(calls.take(n + 1)) == s.after_calls(calls.take(n)).after_call(calls[n]),
{
    assert(calls.take(n + 1).drop_last() =~= calls.take(n));
}

/// At every point of a series of calls the sessions are well formed.
pub proof fn lemma_calls_keep_wf(s: Sessions, calls: Seq<SessionCall>, n: int)
    requires
        s.wf(),
        0 <= n <= calls.len(),
    ensures
        s.after_calls(calls.take(n)).wf(),
    decreases n,
{
    if n > 0 {
        lemma_calls_keep_wf(s, calls, n - 1);
        lemma_after_calls_step(s, calls, n - 1);
        lemma_call_keeps_records(s.after_calls(calls.take(n - 1)), calls[n - 1]);
    }
}

/// A record that exists at one point of a series of calls is the same at
/// every later point.
pub proof fn lemma_calls_keep_records(
    s: Sessions,
    calls: Seq<SessionCall>,
    n: int,
    m: int,
    identity: Identity,
)
    requires
        s.wf(),
        0 <= n <= m <= calls.len(),
        s.after_calls(calls.take(n)).knows(identity),
    ensures
        s.after_calls(calls.take(m)).knows(identity),
        s.after_calls(calls.take(m)).record(identity) == s.after_calls(calls.take(n)).record(
            identity,
        ),
    decreases m - n,
{
    if n < m {
        lemma_calls_keep_records(s, calls, n, m - 1, identity);
        lemma_calls_keep_wf(s, calls, m - 1);
        lemma_after_calls_step(s, calls, m - 1);
        lemma_call_keeps_records(s.after_calls(calls.take(m - 1)), calls[m - 1]);
    }
}

} // verus!
