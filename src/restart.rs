use vstd::prelude::*;

use crate::queue::Queueable;
use crate::session::{is_record_of, kept_sources, Session, SessionRegistry};
use crate::snapshot::{
    arg_of, decode, decode_spec, encode, encode_spec, record_view, records_view, CallData,
    FormatError, RecordView,
};

verus! {

/// Why a restart request was turned down.
#[derive(Clone, Copy, Debug, PartialEq, Eq)]
pub enum RestartError {
    /// Only the owner may restart the worker.
    NotOwner,
    /// Without a supervisor nobody would start the worker again.
    NotSupervised,
}

/// Whether a restart asked for by someone may go ahead.
pub fn authorize_restart(is_owner: bool, supervised: bool) -> (r: Result<(), RestartError>)
    ensures
        !is_owner ==> r == Err::<(), RestartError>(RestartError::NotOwner),
        is_owner && !supervised ==> r == Err::<(), RestartError>(RestartError::NotSupervised),
        r is Ok <==> is_owner && supervised,
{
    if !is_owner {
        Err(RestartError::NotOwner)
    } else if !supervised {
        Err(RestartError::NotSupervised)
    } else {
        Ok(())
    }
}

/// One call to make while replaying a transfer file.
#[derive(Clone, Debug, PartialEq, Eq)]
pub enum ReplayStep {
    /// Join the voice channel of a room.
    Join { room: u64, channel: u64 },
    /// Queue a source in a room joined before.
    Enqueue { room: u64, source: Queueable },
}

pub open spec fn steps_of(d: CallData) -> Seq<ReplayStep> {
    seq![ReplayStep::Join { room: d.guild, channel: d.channel }] + d.queue@.map_values(
        |q: Queueable| ReplayStep::Enqueue { room: d.guild, source: q },
    )
}

/// The calls that replay `records`: for each record, in order, a join and
/// then one enqueue per source, in order.
pub open spec fn plan_of(records: Seq<CallData>) -> Seq<ReplayStep>
    decreases records.len(),
{
    if records.len() == 0 {
        Seq::empty()
    } else {
        plan_of(records.drop_last()) + steps_of(records.last())
    }
}

pub open spec fn is_join(s: ReplayStep) -> bool {
    s is Join
}

/// The calls that replay `records`.
pub fn replay_plan(records: &Vec<CallData>) -> (r: Vec<ReplayStep>)
    ensures
        r@ == plan_of(records@),
{
    let mut out: Vec<ReplayStep> = Vec::new();
    let mut k: usize = 0;
    while k < records.len()
        invariant
            k <= records@.len(),
            out@ == plan_of(records@.take(k as int)),
        decreases records@.len() - k,
    {
        let d = &records[k];
        let ghost before = out@;
        out.push(ReplayStep::Join { room: d.guild, channel: d.channel });
        let mut j: usize = 0;
        while j < d.queue.len()
            invariant
                j <= d.queue@.len(),
                out@ == before + steps_of(*d).take(j as int + 1),
            decreases d.queue@.len() - j,
        {
            let source = match &d.queue[j] {
                Queueable::Ytdl { arg } => Queueable::Ytdl { arg: arg.clone() },
            };
            out.push(ReplayStep::Enqueue { room: d.guild, source });
            j = j + 1;
            assert(out@ =~= before + steps_of(*d).take(j as int + 1));
        }
        assert(steps_of(*d).take(j as int + 1) =~= steps_of(*d));
        assert(records@.take(k + 1).drop_last() =~= records@.take(k as int));
        k = k + 1;
    }
    assert(records@.take(k as int) =~= records@);
    out
}

/// Where to go on after the join at `i` failed: the next join, past the
/// enqueues that depended on it, or the end.
pub fn after_failed_join(steps: &Vec<ReplayStep>, i: usize) -> (r: usize)
    requires
        i < steps@.len(),
    ensures
        i < r <= steps@.len(),
        r < steps@.len() ==> is_join(steps@[r as int]),
        forall|k: int| i < k < r ==> !is_join(#[trigger] steps@[k]),
{
    let _ = steps.len();
    let mut k: usize = i + 1;
    while k < steps.len()
        invariant
            i < k <= steps@.len(),
            forall|m: int| i < m < k ==> !is_join(#[trigger] steps@[m]),
        decreases steps@.len() - k,
    {
        if let ReplayStep::Join { .. } = &steps[k] {
            return k;
        }
        k = k + 1;
    }
    k
}

/// What a drain of `sessions` keeps of each: room, channel, and the
/// arguments of the items that did not fail.
pub open spec fn snapshot_of(sessions: Seq<Session>) -> Seq<RecordView> {
    sessions.map_values(
        |s: Session| (s.room, s.channel, kept_sources(s.queue@).map_values(|q: Queueable| arg_of(q))),
    )
}

/// Handles a restart request: when the owner asks and a supervisor is there,
/// every session is drained and the transfer text of what they held is
/// returned; otherwise nothing changes.
pub fn restart(registry: &mut SessionRegistry, is_owner: bool, supervised: bool) -> (r: Result<
    String,
    RestartError,
>)
    requires
        old(registry).wf(),
    ensures
        final(registry).wf(),
        !is_owner ==> r == Err::<String, RestartError>(RestartError::NotOwner),
        is_owner && !supervised ==> r == Err::<String, RestartError>(RestartError::NotSupervised),
        r is Ok <==> is_owner && supervised,
        r is Err ==> final(registry)@ == old(registry)@,
        r is Ok ==> final(registry)@.len() == 0,
        r matches Ok(text) ==> text@ == encode_spec(snapshot_of(old(registry)@)),
{
    authorize_restart(is_owner, supervised)?;
    let records = registry.drain_all();
    proof {
        assert(records_view(records@) =~= snapshot_of(old(registry)@)) by {
            assert forall|i: int| 0 <= i < records@.len() implies #[trigger] records_view(
                records@,
            )[i] == snapshot_of(old(registry)@)[i] by {
                assert(is_record_of(records@[i], old(registry)@[i]));
                assert(record_view(records@[i]).2 =~= kept_sources(
                    old(registry)@[i].queue@,
                ).map_values(|q: Queueable| arg_of(q)));
            }
        }
    }
    Ok(encode(&records))
}

/// The calls that replay a transfer text, or the reason it cannot be read.
pub fn recovery_plan(text: &str) -> (r: Result<Vec<ReplayStep>, FormatError>)
    ensures
        r is Ok <==> decode_spec(text@) is Some,
        r matches Ok(steps) ==> exists|records: Seq<CallData>|
            records_view(records) == decode_spec(text@)->0 && steps@ == plan_of(records),
{
    let records = decode(text)?;
    let steps = replay_plan(&records);
    assert(records_view(records@) == decode_spec(text@)->0 && steps@ == plan_of(records@));
    Ok(steps)
}

} // verus!
