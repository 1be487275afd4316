use vstd::prelude::*;

use crate::queue::{QueueItem, QueueStore, Queueable};
use crate::snapshot::CallData;

verus! {

/// One active voice session.
pub struct Session {
    pub room: u64,
    pub channel: u64,
    pub queue: QueueStore,
}

/// Why a join or a leave was refused.
#[derive(Clone, Copy, Debug, PartialEq, Eq)]
pub enum SessionError {
    /// A fresh join was asked for a room that already has a session.
    AlreadyJoined,
    /// The user asking is in no voice channel.
    NotInChannel,
    /// The room has no session.
    NotJoined,
}

/// What a successful join did.
#[derive(Clone, Copy, Debug, PartialEq, Eq)]
pub enum JoinOutcome {
    /// The room already had a session; it is kept as it was.
    Existing,
    /// A session was created, connected to this channel; the caller connects
    /// the voice transport.
    Created { channel: u64 },
}

/// The sources of the items that can still be played, in queue order.
pub open spec fn kept_sources(items: Seq<QueueItem>) -> Seq<Queueable>
    decreases items.len(),
{
    if items.len() == 0 {
        Seq::empty()
    } else {
        let prev = kept_sources(items.drop_last());
        if items.last().errored {
            prev
        } else {
            prev.push(items.last().source)
        }
    }
}

/// Whether `d` is the replay record of session `s`.
pub open spec fn is_record_of(d: CallData, s: Session) -> bool {
    &&& d.guild == s.room
    &&& d.channel == s.channel
    &&& d.queue@ == kept_sources(s.queue@)
}

/// The sessions of the process, in the order they were joined; at most one per
/// room.
pub struct SessionRegistry {
    sessions: Vec<Session>,
}

impl View for SessionRegistry {
    type V = Seq<Session>;

    closed spec fn view(&self) -> Seq<Session> {
        self.sessions@
    }
}

/// Whether some session of `s` belongs to `room`.
pub open spec fn has_room(s: Seq<Session>, room: u64) -> bool {
    exists|i: int| 0 <= i < s.len() && s[i].room == room
}

impl SessionRegistry {
    /// No two sessions share a room.
    pub open spec fn wf(&self) -> bool {
        forall|i: int, j: int|
            0 <= i < self@.len() && 0 <= j < self@.len() && i != j ==> self@[i].room
                != self@[j].room
    }

    pub fn new() -> (r: SessionRegistry)
        ensures
            r.wf(),
            r@ == Seq::<Session>::empty(),
    {
        SessionRegistry { sessions: Vec::new() }
    }

    pub fn len(&self) -> (r: usize)
        ensures
            r == self@.len(),
    {
        self.sessions.len()
    }

    /// The position of the session of `room`, if there is one.
    pub fn find(&self, room: u64) -> (r: Option<usize>)
        ensures
            r is None <==> !has_room(self@, room),
            r is Some ==> r->0 < self@.len() && self@[r->0 as int].room == room,
    {
        let mut i: usize = 0;
        while i < self.sessions.len()
            invariant
                i <= self@.len(),
                forall|k: int| 0 <= k < i ==> self@[k].room != room,
            decreases self@.len() - i,
        {
            if self.sessions[i].room == room {
                return Some(i);
            }
            i = i + 1;
        }
        None
    }

    /// The session at position `i`.
    pub fn session(&self, i: usize) -> (r: &Session)
        requires
            i < self@.len(),
        ensures
            *r == self@[i as int],
    {
        &self.sessions[i]
    }

    /// The queue of the session at position `i`, to work on; the rest of the
    /// registry is left as it is.
    pub fn queue_at(&mut self, i: usize) -> (r: &mut QueueStore)
        requires
            i < old(self)@.len(),
        ensures
            *r == old(self)@[i as int].queue,
            final(self)@.len() == old(self)@.len(),
            final(self)@[i as int].room == old(self)@[i as int].room,
            final(self)@[i as int].channel == old(self)@[i as int].channel,
            final(self)@[i as int].queue == *final(r),
            forall|k: int| 0 <= k < old(self)@.len() && k != i ==> final(self)@[k] == old(self)@[k],
            old(self).wf() ==> final(self).wf(),
    {
        &mut self.sessions[i].queue
    }

    /// Joins `room`. With `must_join` an existing session is an error;
    /// without, it is returned as it is. A new session needs the voice channel
    /// of the user asking.
    pub fn try_join(&mut self, room: u64, user_channel: Option<u64>, must_join: bool) -> (r: Result<
        JoinOutcome,
        SessionError,
    >)
        requires
            old(self).wf(),
        ensures
            final(self).wf(),
            has_room(old(self)@, room) && must_join ==> r == Err::<JoinOutcome, SessionError>(
                SessionError::AlreadyJoined,
            ),
            has_room(old(self)@, room) && !must_join ==> r == Ok::<JoinOutcome, SessionError>(
                JoinOutcome::Existing,
            ),
            !has_room(old(self)@, room) && user_channel is None ==> r == Err::<
                JoinOutcome,
                SessionError,
            >(SessionError::NotInChannel),
            !has_room(old(self)@, room) && user_channel is Some ==> r == Ok::<
                JoinOutcome,
                SessionError,
            >(JoinOutcome::Created { channel: user_channel->0 }),
            r matches Ok(JoinOutcome::Created { channel }) ==> final(self)@.len() == old(self)@.len() + 1
                && final(self)@.drop_last() == old(self)@ && final(self)@.last().room == room
                && final(self)@.last().channel == channel && final(self)@.last().queue@.len() == 0,
            !(r matches Ok(JoinOutcome::Created { .. })) ==> final(self)@ == old(self)@,
    {
        match self.find(room) {
            Some(_) => {
                if must_join {
                    Err(SessionError::AlreadyJoined)
                } else {
                    Ok(JoinOutcome::Existing)
                }
            },
            None => match user_channel {
                None => Err(SessionError::NotInChannel),
                Some(channel) => {
                    self.insert_new(room, channel);
                    Ok(JoinOutcome::Created { channel })
                },
            },
        }
    }

    /// Joins `room` on `channel` unless it already has a session; never fails.
    pub fn autojoin(&mut self, room: u64, channel: u64) -> (r: JoinOutcome)
        requires
            old(self).wf(),
        ensures
            final(self).wf(),
            has_room(old(self)@, room) ==> r == JoinOutcome::Existing,
            has_room(old(self)@, room) ==> final(self)@ == old(self)@,
            !has_room(old(self)@, room) ==> r == (JoinOutcome::Created { channel }),
            !has_room(old(self)@, room) ==> final(self)@.len() == old(self)@.len() + 1,
            !has_room(old(self)@, room) ==> final(self)@.drop_last() == old(self)@,
            !has_room(old(self)@, room) ==> final(self)@.last().room == room,
            !has_room(old(self)@, room) ==> final(self)@.last().channel == channel,
            !has_room(old(self)@, room) ==> final(self)@.last().queue@.len() == 0,
    {
        match self.try_join(room, Some(channel), false) {
            Ok(outcome) => outcome,
            Err(_) => JoinOutcome::Existing,
        }
    }

    /// Finds the session a command works on. With `autojoin` a missing one is
    /// created in the user's channel, as `try_join` without `must_join` does;
    /// without, a missing one is an error. Gives the session's position.
    pub fn enter_vc(&mut self, room: u64, user_channel: Option<u64>, autojoin: bool) -> (r: Result<
        usize,
        SessionError,
    >)
        requires
            old(self).wf(),
        ensures
            final(self).wf(),
            has_room(old(self)@, room) ==> final(self)@ == old(self)@,
            has_room(old(self)@, room) ==> r is Ok,
            !has_room(old(self)@, room) && !autojoin ==> r == Err::<usize, SessionError>(
                SessionError::NotJoined,
            ) && final(self)@ == old(self)@,
            !has_room(old(self)@, room) && autojoin && user_channel is None ==> r == Err::<
                usize,
                SessionError,
            >(SessionError::NotInChannel) && final(self)@ == old(self)@,
            !has_room(old(self)@, room) && autojoin && user_channel is Some ==> r is Ok
                && final(self)@.len() == old(self)@.len() + 1 && final(self)@.drop_last() == old(
                self,
            )@ && final(self)@.last().channel == user_channel->0 && final(self)@.last().queue@.len()
                == 0,
            r matches Ok(i) ==> i < final(self)@.len() && final(self)@[i as int].room == room,
    {
        match self.find(room) {
            Some(i) => Ok(i),
            None => {
                if !autojoin {
                    return Err(SessionError::NotJoined);
                }
                match self.try_join(room, user_channel, false) {
                    Ok(_) => Ok(self.sessions.len() - 1),
                    Err(e) => Err(e),
                }
            },
        }
    }

    fn insert_new(&mut self, room: u64, channel: u64)
        requires
            old(self).wf(),
            !has_room(old(self)@, room),
        ensures
            final(self).wf(),
            final(self)@.len() == old(self)@.len() + 1,
            final(self)@.drop_last() == old(self)@,
            final(self)@.last().room == room,
            final(self)@.last().channel == channel,
            final(self)@.last().queue@.len() == 0,
    {
        let queue = QueueStore::new();
        self.sessions.push(Session { room, channel, queue });
        assert(self@.drop_last() =~= old(self)@);
    }

    /// Leaves `room`: its session is taken out and handed back, so that the
    /// caller can tear its connection down.
    pub fn leave(&mut self, room: u64) -> (r: Result<Session, SessionError>)
        requires
            old(self).wf(),
        ensures
            final(self).wf(),
            r is Err <==> !has_room(old(self)@, room),
            r is Err ==> r == Err::<Session, SessionError>(SessionError::NotJoined),
            r is Err ==> final(self)@ == old(self)@,
            r is Ok ==> r->Ok_0.room == room,
            r is Ok ==> !has_room(final(self)@, room),
            r is Ok ==> exists|i: int|
                0 <= i < old(self)@.len() && old(self)@[i] == r->Ok_0 && final(self)@
                    == old(self)@.remove(i),
    {
        match self.find(room) {
            None => Err(SessionError::NotJoined),
            Some(i) => {
                let s = self.sessions.remove(i);
                assert(old(self)@[i as int] == s);
                assert forall|k: int| 0 <= k < self@.len() implies self@[k].room != room by {
                    if k < i {
                        assert(self@[k] == old(self)@[k]);
                    } else {
                        assert(self@[k] == old(self)@[k + 1]);
                    }
                }
                Ok(s)
            },
        }
    }

    /// Takes every session out, in order, and hands back what each needs to
    /// be replayed: its room, its channel and the sources of its items that
    /// did not fail.
    pub fn drain_all(&mut self) -> (r: Vec<CallData>)
        requires
            old(self).wf(),
        ensures
            final(self).wf(),
            final(self)@ == Seq::<Session>::empty(),
            r@.len() == old(self)@.len(),
            forall|i: int| 0 <= i < r@.len() ==> is_record_of(#[trigger] r@[i], old(self)@[i]),
    {
        let mut records: Vec<CallData> = Vec::new();
        let mut i: usize = 0;
        while i < self.sessions.len()
            invariant
                self@ == old(self)@,
                i <= self@.len(),
                records@.len() == i,
                forall|k: int| 0 <= k < i ==> is_record_of(#[trigger] records@[k], old(self)@[k]),
            decreases self@.len() - i,
        {
            let s = &self.sessions[i];
            let queue = sources_of(&s.queue);
            records.push(CallData { guild: s.room, channel: s.channel, queue });
            i = i + 1;
        }
        self.sessions.clear();
        records
    }
}

/// The sources of the items of `q` that did not fail, in order.
pub fn sources_of(q: &QueueStore) -> (r: Vec<Queueable>)
    ensures
        r@ == kept_sources(q@),
{
    let mut out: Vec<Queueable> = Vec::new();
    let mut i: usize = 0;
    let n = q.len();
    while i < n
        invariant
            n == q@.len(),
            i <= n,
            out@ == kept_sources(q@.take(i as int)),
        decreases n - i,
    {
        let item = q.get(i);
        assert(q@.take(i + 1).drop_last() =~= q@.take(i as int));
        if !item.errored {
            let src = match &item.source {
                Queueable::Ytdl { arg } => Queueable::Ytdl { arg: arg.clone() },
            };
            out.push(src);
        }
        i = i + 1;
    }
    assert(q@.take(n as int) =~= q@);
    out
}

} // verus!
