use vstd::prelude::*;

use crate::queue::{QueueError, QueueStore};

verus! {

/// A message sent to the server to control playback.
#[derive(Clone, Copy, Debug, PartialEq, Eq)]
pub enum ClientMessage {
    /// Stops the current song and clears the queue.
    ClearAll,
    /// Pause current playback.
    Pause,
    /// Resume current playback.
    Resume,
    /// Skip the current song.
    Skip,
    /// Seek to a position, in milliseconds, in the current song.
    Seek(u64),
}

/// Applies a control message to a queue. Seeking itself is left to the
/// player; here it only needs a current song.
pub fn handle(q: &mut QueueStore, message: ClientMessage) -> (r: Result<(), QueueError>)
    ensures
        message == ClientMessage::ClearAll ==> r is Ok && final(q)@.len() == 0 && !final(q).is_paused(),
        message == ClientMessage::Pause ==> (r is Ok <==> !old(q).is_paused()) && final(q).is_paused()
            && final(q)@ == old(q)@,
        message == ClientMessage::Resume ==> (r is Ok <==> old(q).is_paused()) && !final(q).is_paused()
            && final(q)@ == old(q)@,
        message == ClientMessage::Skip ==> (r is Ok <==> old(q)@.len() > 0) && (r is Ok ==> final(q)@
            == old(q)@.drop_first()) && (r is Err ==> final(q)@ == old(q)@),
        message matches ClientMessage::Seek(_) ==> (r is Ok <==> old(q)@.len() > 0) && final(q)@ == old(
            q,
        )@ && final(q).is_paused() == old(q).is_paused(),
        r is Err ==> r == Err::<(), QueueError>(QueueError::EmptyQueue) || r == Err::<(), QueueError>(
            QueueError::AlreadyPaused,
        ) || r == Err::<(), QueueError>(QueueError::NotPaused),
{
    match message {
        ClientMessage::ClearAll => {
            q.clear();
            Ok(())
        },
        ClientMessage::Pause => q.pause(),
        ClientMessage::Resume => q.resume(),
        ClientMessage::Skip => match q.skip() {
            Ok(_) => Ok(()),
            Err(e) => Err(e),
        },
        ClientMessage::Seek(_) => if q.is_empty() {
            Err(QueueError::EmptyQueue)
        } else {
            Ok(())
        },
    }
}

} // verus!
