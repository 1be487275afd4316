use rand::seq::SliceRandom;
use vstd::prelude::*;

verus! {

/// Where a queued item comes from: enough for the streaming side to resolve it
/// again.
#[derive(Clone, Debug, PartialEq, Eq)]
pub enum Queueable {
    /// Resolved through yt-dlp from a URL or a search term.
    Ytdl { arg: String },
}

/// What resolution found out about an item.
#[derive(Clone, Debug, PartialEq, Eq)]
pub struct Metadata {
    pub title: Option<String>,
    pub artist: Option<String>,
    /// Length in whole seconds.
    pub duration: Option<u64>,
}

/// One playable entry of a queue.
#[derive(Clone, Debug, PartialEq, Eq)]
pub struct QueueItem {
    pub source: Queueable,
    /// Filled in once the source has been resolved.
    pub metadata: Option<Metadata>,
    /// Set when the streaming side reported that the item failed.
    pub errored: bool,
}

/// Why a queue operation was refused.
#[derive(Clone, Copy, Debug, PartialEq, Eq)]
pub enum QueueError {
    /// The operation would relocate or remove the item now playing.
    CurrentTrack,
    /// The index does not name an item.
    OutOfBounds { index: usize },
    /// There is nothing in the queue.
    EmptyQueue,
    /// Pause was asked while already paused.
    AlreadyPaused,
    /// Resume was asked while not paused.
    NotPaused,
}

/// `s` with the element at `from` taken out and put back at `to`, or at the
/// end when `to` lies past the shortened sequence.
pub open spec fn moved<T>(s: Seq<T>, from: int, to: int) -> Seq<T> {
    let rest = s.remove(from);
    if to > rest.len() {
        rest.push(s[from])
    } else {
        rest.insert(to, s[from])
    }
}

/// `s` with the elements at `a` and `b` exchanged.
pub open spec fn swapped<T>(s: Seq<T>, a: int, b: int) -> Seq<T> {
    s.update(a, s[b]).update(b, s[a])
}

/// Moving an item other than the one now playing keeps the same items, the
/// same length, and the item now playing in front.
pub proof fn lemma_move_keeps_items<T>(s: Seq<T>, from: int, to: int)
    requires
        0 < from < s.len(),
        0 < to,
    ensures
        moved(s, from, to).len() == s.len(),
        moved(s, from, to)[0] == s[0],
        moved(s, from, to).to_multiset() == s.to_multiset(),
{
    broadcast use vstd::seq_lib::group_to_multiset_ensures;
    broadcast use vstd::multiset::group_multiset_axioms;

    let rest = s.remove(from);
    assert(rest.to_multiset() == s.to_multiset().remove(s[from]));
    assert(s.to_multiset().count(s[from]) > 0) by {
        assert(s.contains(s[from]));
    }
    assert(rest.to_multiset().insert(s[from]) =~= s.to_multiset());
}

/// The ordered items of one session; position 0 is the item now playing.
pub struct QueueStore {
    items: Vec<QueueItem>,
    paused: bool,
}

impl View for QueueStore {
    type V = Seq<QueueItem>;

    closed spec fn view(&self) -> Seq<QueueItem> {
        self.items@
    }
}

impl QueueItem {
    /// A fresh, unresolved item for `source`.
    pub fn new(source: Queueable) -> (r: QueueItem)
        ensures
            r.source == source,
            r.metadata is None,
            !r.errored,
    {
        QueueItem { source, metadata: None, errored: false }
    }

    /// A copy equal to `self`.
    pub fn duplicate(&self) -> (r: QueueItem)
        ensures
            r == *self,
    {
        let source = match &self.source {
            Queueable::Ytdl { arg } => Queueable::Ytdl { arg: arg.clone() },
        };
        let metadata = match &self.metadata {
            None => None,
            Some(m) => Some(
                Metadata {
                    title: copy_text(&m.title),
                    artist: copy_text(&m.artist),
                    duration: m.duration,
                },
            ),
        };
        QueueItem { source, metadata, errored: self.errored }
    }
}

fn copy_text(s: &Option<String>) -> (r: Option<String>)
    ensures
        r == *s,
{
    match s {
        None => None,
        Some(t) => Some(t.clone()),
    }
}

impl QueueStore {
    pub closed spec fn is_paused(&self) -> bool {
        self.paused
    }

    /// An empty, unpaused queue.
    pub fn new() -> (r: QueueStore)
        ensures
            r@ == Seq::<QueueItem>::empty(),
            !r.is_paused(),
    {
        QueueStore { items: Vec::new(), paused: false }
    }

    pub fn len(&self) -> (r: usize)
        ensures
            r == self@.len(),
    {
        self.items.len()
    }

    pub fn is_empty(&self) -> (r: bool)
        ensures
            r == (self@.len() == 0),
    {
        self.items.len() == 0
    }

    pub fn paused(&self) -> (r: bool)
        ensures
            r == self.is_paused(),
    {
        self.paused
    }

    /// The item at `i`.
    pub fn get(&self, i: usize) -> (r: &QueueItem)
        requires
            i < self@.len(),
        ensures
            *r == self@[i as int],
    {
        &self.items[i]
    }

    /// Appends an item at the end of the queue.
    pub fn enqueue(&mut self, item: QueueItem)
        ensures
            final(self)@ == old(self)@.push(item),
            final(self).is_paused() == old(self).is_paused(),
    {
        self.items.push(item);
    }

    /// Attaches what resolution found to the item at `i`, unless the item
    /// already has metadata; says whether it was attached.
    pub fn set_metadata(&mut self, i: usize, m: Metadata) -> (r: bool)
        requires
            i < old(self)@.len(),
        ensures
            r == (old(self)@[i as int].metadata is None),
            r ==> final(self)@ == old(self)@.update(
                i as int,
                QueueItem { metadata: Some(m), ..old(self)@[i as int] },
            ),
            !r ==> final(self)@ == old(self)@,
            final(self).is_paused() == old(self).is_paused(),
    {
        if self.items[i].metadata.is_some() {
            return false;
        }
        let mut item = self.items.remove(i);
        item.metadata = Some(m);
        self.items.insert(i, item);
        assert(self.items@ =~= old(self)@.update(
            i as int,
            QueueItem { metadata: Some(m), ..old(self)@[i as int] },
        ));
        true
    }

    /// Records that the item at `i` failed to play.
    pub fn mark_errored(&mut self, i: usize)
        requires
            i < old(self)@.len(),
        ensures
            final(self)@ == old(self)@.update(
                i as int,
                QueueItem { errored: true, ..old(self)@[i as int] },
            ),
            final(self).is_paused() == old(self).is_paused(),
    {
        let mut item = self.items.remove(i);
        item.errored = true;
        self.items.insert(i, item);
        assert(self.items@ =~= old(self)@.update(
            i as int,
            QueueItem { errored: true, ..old(self)@[i as int] },
        ));
    }

    /// Copies of the items in `[start, end)`, both bounds clamped to the
    /// length.
    pub fn current_queue_slice(&self, start: usize, end: usize) -> (r: Vec<QueueItem>)
        ensures
            ({
                let hi = if end < self@.len() { end as int } else { self@.len() as int };
                let lo = if start < hi { start as int } else { hi };
                r@ == self@.subrange(lo, hi)
            }),
    {
        let hi = if end < self.items.len() { end } else { self.items.len() };
        let lo = if start < hi { start } else { hi };
        let mut out: Vec<QueueItem> = Vec::new();
        let mut i: usize = lo;
        while i < hi
            invariant
                lo <= i <= hi <= self@.len(),
                out@ == self@.subrange(lo as int, i as int),
            decreases hi - i,
        {
            out.push(self.items[i].duplicate());
            i = i + 1;
            assert(out@ =~= self@.subrange(lo as int, i as int));
        }
        out
    }

    /// Moves the item at `from` to `to`; past the end means to the end.
    pub fn move_item(&mut self, from: usize, to: usize) -> (r: Result<(), QueueError>)
        ensures
            from == 0 || to == 0 ==> r == Err::<(), QueueError>(QueueError::CurrentTrack),
            from != 0 && to != 0 && from >= old(self)@.len() ==> r == Err::<(), QueueError>(
                QueueError::OutOfBounds { index: from },
            ),
            r is Ok <==> (from != 0 && to != 0 && from < old(self)@.len()),
            r is Ok ==> final(self)@ == moved(old(self)@, from as int, to as int),
            r is Ok ==> final(self)@.to_multiset() == old(self)@.to_multiset(),
            r is Ok ==> final(self)@[0] == old(self)@[0],
            r is Err ==> final(self)@ == old(self)@,
            final(self).is_paused() == old(self).is_paused(),
    {
        if from == 0 || to == 0 {
            return Err(QueueError::CurrentTrack);
        }
        if from >= self.items.len() {
            return Err(QueueError::OutOfBounds { index: from });
        }
        proof {
            lemma_move_keeps_items(self.items@, from as int, to as int);
        }
        let item = self.items.remove(from);
        if to > self.items.len() {
            self.items.push(item);
        } else {
            self.items.insert(to, item);
        }
        Ok(())
    }

    /// Exchanges the items at `a` and `b`.
    pub fn swap(&mut self, a: usize, b: usize) -> (r: Result<(), QueueError>)
        ensures
            a == 0 || b == 0 ==> r == Err::<(), QueueError>(QueueError::CurrentTrack),
            a != 0 && b != 0 && a >= old(self)@.len() ==> r == Err::<(), QueueError>(
                QueueError::OutOfBounds { index: a },
            ),
            a != 0 && b != 0 && a < old(self)@.len() && b >= old(self)@.len() ==> r == Err::<
                (),
                QueueError,
            >(QueueError::OutOfBounds { index: b }),
            r is Ok <==> (a != 0 && b != 0 && a < old(self)@.len() && b < old(self)@.len()),
            r is Ok ==> final(self)@ == swapped(old(self)@, a as int, b as int),
            r is Err ==> final(self)@ == old(self)@,
            final(self).is_paused() == old(self).is_paused(),
    {
        if a == 0 || b == 0 {
            return Err(QueueError::CurrentTrack);
        }
        if a >= self.items.len() {
            return Err(QueueError::OutOfBounds { index: a });
        }
        if b >= self.items.len() {
            return Err(QueueError::OutOfBounds { index: b });
        }
        if a != b {
            let ghost s = self.items@;
            let lo = if a < b { a } else { b };
            let hi = if a < b { b } else { a };
            let x = self.items.remove(hi);
            let y = self.items.remove(lo);
            self.items.insert(lo, x);
            self.items.insert(hi, y);
            assert(self.items@ =~= swapped(s, a as int, b as int));
        }
        Ok(())
    }

    /// Takes the item at `index` out of the queue and returns it.
    pub fn remove(&mut self, index: usize) -> (r: Result<QueueItem, QueueError>)
        ensures
            index == 0 ==> r == Err::<QueueItem, QueueError>(QueueError::CurrentTrack),
            index != 0 && index >= old(self)@.len() ==> r == Err::<QueueItem, QueueError>(
                QueueError::OutOfBounds { index },
            ),
            r is Ok <==> (index != 0 && index < old(self)@.len()),
            r is Ok ==> r->Ok_0 == old(self)@[index as int],
            r is Ok ==> final(self)@ == old(self)@.remove(index as int),
            r is Ok ==> final(self)@.len() == old(self)@.len() - 1,
            r is Err ==> final(self)@ == old(self)@,
            final(self).is_paused() == old(self).is_paused(),
    {
        if index == 0 {
            return Err(QueueError::CurrentTrack);
        }
        if index >= self.items.len() {
            return Err(QueueError::OutOfBounds { index });
        }
        Ok(self.items.remove(index))
    }

    /// Puts the items after the one now playing in a random order.
    pub fn shuffle(&mut self)
        ensures
            final(self)@.len() == old(self)@.len(),
            old(self)@.len() > 0 ==> final(self)@[0] == old(self)@[0],
            final(self)@.skip(1).to_multiset() == old(self)@.skip(1).to_multiset(),
            final(self).is_paused() == old(self).is_paused(),
    {
        if self.items.len() <= 1 {
            return;
        }
        let ghost s = self.items@;
        let head = self.items.remove(0);
        assert(self.items@ =~= s.skip(1));
        shuffle_all(&mut self.items);
        let ghost mid = self.items@;
        broadcast use vstd::seq_lib::to_multiset_len;
        assert(mid.len() == s.len() - 1) by {
            assert(mid.to_multiset().len() == s.skip(1).to_multiset().len());
        }
        self.items.insert(0, head);
        assert(self.items@.skip(1) =~= mid);
    }

    /// Empties the queue, the item now playing included.
    pub fn clear(&mut self)
        ensures
            final(self)@ == Seq::<QueueItem>::empty(),
            !final(self).is_paused(),
    {
        self.items.clear();
        self.paused = false;
    }

    /// Ends the item now playing; the next one moves up.
    pub fn skip(&mut self) -> (r: Result<QueueItem, QueueError>)
        ensures
            r is Err <==> old(self)@.len() == 0,
            r is Err ==> r == Err::<QueueItem, QueueError>(QueueError::EmptyQueue),
            r is Err ==> final(self)@ == old(self)@,
            r is Ok ==> r->Ok_0 == old(self)@[0] && final(self)@ == old(self)@.drop_first(),
            final(self).is_paused() == old(self).is_paused(),
    {
        if self.items.len() == 0 {
            return Err(QueueError::EmptyQueue);
        }
        let item = self.items.remove(0);
        assert(self.items@ =~= old(self)@.drop_first());
        Ok(item)
    }

    /// Pauses playback.
    pub fn pause(&mut self) -> (r: Result<(), QueueError>)
        ensures
            r is Err <==> old(self).is_paused(),
            r is Err ==> r == Err::<(), QueueError>(QueueError::AlreadyPaused),
            final(self).is_paused(),
            final(self)@ == old(self)@,
    {
        if self.paused {
            return Err(QueueError::AlreadyPaused);
        }
        self.paused = true;
        Ok(())
    }

    /// Resumes playback.
    pub fn resume(&mut self) -> (r: Result<(), QueueError>)
        ensures
            r is Err <==> !old(self).is_paused(),
            r is Err ==> r == Err::<(), QueueError>(QueueError::NotPaused),
            !final(self).is_paused(),
            final(self)@ == old(self)@,
    {
        if !self.paused {
            return Err(QueueError::NotPaused);
        }
        self.paused = false;
        Ok(())
    }
}

/// Relies on rand's `SliceRandom::shuffle`, which only swaps elements of the
/// slice, so the result is a permutation of the input.
#[verifier::external_body]
fn shuffle_all<T>(v: &mut Vec<T>)
    ensures
        final(v)@.to_multiset() == old(v)@.to_multiset(),
{
    v.shuffle(&mut rand::thread_rng());
}

} // verus!
