use vstd::prelude::*;

use crate::queue::Queueable;
use crate::snapshot::arg_of;
use crate::text::push_str;

verus! {

/// One entry of yt-dlp's flat listing of a playlist or a search.
#[derive(Clone, Debug, PartialEq, Eq)]
pub struct Output {
    pub url: String,
    pub ie_key: String,
    pub title: Option<String>,
    pub channel: Option<String>,
    pub _type: String,
}

impl Output {
    pub open spec fn is_playlist_spec(&self) -> bool {
        self.ie_key@ == "YoutubePlaylist"@ || self.ie_key@ == "YoutubeTab"@
    }

    pub open spec fn is_playable_spec(&self) -> bool {
        self._type@ == "url"@ && !self.is_playlist_spec()
    }

    /// A single playable entry, not a nested playlist.
    pub fn is_playable(&self) -> (r: bool)
        ensures
            r == self.is_playable_spec(),
    {
        self._type == String::from_str("url") && !self.is_playlist()
    }

    /// An entry that is itself a playlist.
    pub fn is_playlist(&self) -> (r: bool)
        ensures
            r == self.is_playlist_spec(),
    {
        self.ie_key == String::from_str("YoutubePlaylist") || self.ie_key == String::from_str(
            "YoutubeTab",
        )
    }
}

pub open spec fn source_of(o: Output) -> Queueable {
    Queueable::Ytdl { arg: o.url }
}

/// The URLs of the entries that pass `keep`, in order.
pub open spec fn kept_urls(outputs: Seq<Output>, playable_only: bool) -> Seq<Seq<char>>
    decreases outputs.len(),
{
    if outputs.len() == 0 {
        Seq::empty()
    } else {
        let prev = kept_urls(outputs.drop_last(), playable_only);
        let o = outputs.last();
        let keep = if playable_only {
            o.is_playable_spec()
        } else {
            !o.is_playlist_spec()
        };
        if keep {
            prev.push(o.url@)
        } else {
            prev
        }
    }
}

pub open spec fn args_are(v: Seq<Queueable>, args: Seq<Seq<char>>) -> bool {
    v.len() == args.len() && forall|i: int| 0 <= i < v.len() ==> arg_of(#[trigger] v[i]) == args[i]
}

/// Sources for the entries of a listing, in order: with `playable_only`, only
/// the single playable ones; without, all but nested playlists.
pub fn sources_from(outputs: &Vec<Output>, playable_only: bool) -> (r: Vec<Queueable>)
    ensures
        args_are(r@, kept_urls(outputs@, playable_only)),
{
    let mut out: Vec<Queueable> = Vec::new();
    let mut k: usize = 0;
    while k < outputs.len()
        invariant
            k <= outputs@.len(),
            args_are(out@, kept_urls(outputs@.take(k as int), playable_only)),
        decreases outputs@.len() - k,
    {
        let o = &outputs[k];
        assert(outputs@.take(k + 1).drop_last() =~= outputs@.take(k as int));
        let keep = if playable_only {
            o.is_playable()
        } else {
            !o.is_playlist()
        };
        if keep {
            out.push(Queueable::Ytdl { arg: o.url.clone() });
        }
        k = k + 1;
    }
    assert(outputs@.take(k as int) =~= outputs@);
    out
}

/// Relies on rand's `seq::index::sample`: `amount` distinct indices below
/// `length`; it panics when `amount > length`.
#[verifier::external_body]
fn sample_indices(length: usize, amount: usize) -> (r: Vec<usize>)
    requires
        amount <= length,
    ensures
        r@.len() == amount,
        forall|i: int| 0 <= i < r@.len() ==> r@[i] < length,
        forall|i: int, j: int| 0 <= i < j < r@.len() ==> r@[i] != r@[j],
{
    rand::seq::index::sample(&mut rand::thread_rng(), length, amount).into_vec()
}

/// The sources at the chosen positions of `sources`, in the order chosen.
pub fn pick_sources(sources: &Vec<Queueable>, picks: &Vec<usize>) -> (r: Option<Vec<Queueable>>)
    ensures
        r is Some <==> forall|i: int| 0 <= i < picks@.len() ==> #[trigger] picks@[i] < sources@.len(),
        r matches Some(v) ==> v@.len() == picks@.len() && forall|i: int|
            0 <= i < picks@.len() ==> #[trigger] v@[i] == sources@[picks@[i] as int],
{
    let mut out: Vec<Queueable> = Vec::new();
    let mut k: usize = 0;
    while k < picks.len()
        invariant
            k <= picks@.len(),
            forall|i: int| 0 <= i < k ==> #[trigger] picks@[i] < sources@.len(),
            out@.len() == k,
            forall|i: int| 0 <= i < k ==> #[trigger] out@[i] == sources@[picks@[i] as int],
        decreases picks@.len() - k,
    {
        let p = picks[k];
        if p >= sources.len() {
            return None;
        }
        let source = match &sources[p] {
            Queueable::Ytdl { arg } => Queueable::Ytdl { arg: arg.clone() },
        };
        out.push(source);
        k = k + 1;
    }
    Some(out)
}

/// Up to `num` sources drawn at random, without repetition, from the entries
/// that are not nested playlists.
pub fn random_sources(outputs: &Vec<Output>, num: usize) -> (r: Vec<Queueable>)
    ensures
        r@.len() == (if num < kept_urls(outputs@, false).len() {
            num as int
        } else {
            kept_urls(outputs@, false).len() as int
        }),
        forall|i: int|
            0 <= i < r@.len() ==> kept_urls(outputs@, false).contains(arg_of(#[trigger] r@[i])),
{
    let candidates = sources_from(outputs, false);
    let amount = if num < candidates.len() {
        num
    } else {
        candidates.len()
    };
    let picks = sample_indices(candidates.len(), amount);
    match pick_sources(&candidates, &picks) {
        Some(v) => {
            assert forall|i: int| 0 <= i < v@.len() implies kept_urls(outputs@, false).contains(
                arg_of(#[trigger] v@[i]),
            ) by {
                let j = picks@[i] as int;
                assert(arg_of(candidates@[j]) == kept_urls(outputs@, false)[j]);
            }
            v
        },
        None => {
            assert(false);
            Vec::new()
        },
    }
}

/// The source for a search term: the first hit of a YouTube search.
pub fn search_source(term: &str) -> (r: Queueable)
    ensures
        arg_of(r) == "ytsearch1:"@ + term@,
{
    let mut arg = String::from_str("ytsearch1:");
    push_str(&mut arg, term);
    Queueable::Ytdl { arg }
}

/// The source for a URL.
pub fn url_source(url: &str) -> (r: Queueable)
    ensures
        arg_of(r) == url@,
{
    Queueable::Ytdl { arg: String::from_str(url) }
}

} // verus!
