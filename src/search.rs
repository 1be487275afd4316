use vstd::prelude::*;

use crate::play::Output;
use crate::queue::Queueable;
use crate::snapshot::{arg_of, parse_num, parse_num_exec};
use crate::text::{chars_of, digits, push_char, push_decimal, push_str};

verus! {

/// Most results a search may ask for.
pub const MAX_RESULTS: usize = 25;

/// Results a search asks for when none is given.
pub const DEFAULT_RESULTS: usize = 5;

/// One hit of a search.
#[derive(Clone, Debug, PartialEq, Eq)]
pub struct SearchResult {
    pub artist: Option<String>,
    pub title: Option<String>,
    pub url: String,
}

/// Why a search or a choice among its results was refused.
#[derive(Clone, Copy, Debug, PartialEq, Eq)]
pub enum SearchError {
    /// More results were asked for than a search may give.
    TooManyResults,
    /// A chosen value is not the number of a result.
    BadChoice,
}

impl SearchResult {
    pub open spec fn title_or_url_spec(&self) -> Seq<char> {
        match self.title {
            Some(t) => t@,
            None => self.url@,
        }
    }

    /// The hit that a listing entry stands for.
    pub fn from_output(o: &Output) -> (r: SearchResult)
        ensures
            r.artist == o.channel,
            r.title == o.title,
            r.url == o.url,
    {
        SearchResult { artist: o.channel.clone(), title: o.title.clone(), url: o.url.clone() }
    }

    /// The title, or the URL where the title is not known.
    pub fn title_or_url(&self) -> (r: &str)
        ensures
            r@ == self.title_or_url_spec(),
    {
        match &self.title {
            Some(t) => t.as_str(),
            None => self.url.as_str(),
        }
    }
}

/// The yt-dlp argument of a search for `keyword`, asking for `num` results
/// (five when none is given, at most twenty-five).
pub fn search_query(keyword: &str, num: Option<usize>) -> (r: Result<String, SearchError>)
    ensures
        num matches Some(n) && n > MAX_RESULTS ==> r == Err::<String, SearchError>(
            SearchError::TooManyResults,
        ),
        r is Ok <==> !(num matches Some(n) && n > MAX_RESULTS),
        r matches Ok(s) ==> s@ == "ytsearch"@ + digits(
            (match num {
                Some(n) => n,
                None => DEFAULT_RESULTS,
            }) as nat,
        ) + ":"@ + keyword@,
{
    let n = match num {
        Some(n) => n,
        None => DEFAULT_RESULTS,
    };
    if n > MAX_RESULTS {
        return Err(SearchError::TooManyResults);
    }
    let mut out = String::from_str("ytsearch");
    push_decimal(&mut out, n as u64);
    push_char(&mut out, ':');
    push_str(&mut out, keyword);
    assert(":"@ =~= seq![':']) by {
        reveal_strlit(":");
    }
    assert(out@ =~= "ytsearch"@ + digits(n as nat) + ":"@ + keyword@);
    Ok(out)
}

pub open spec fn result_of(o: Output) -> SearchResult {
    SearchResult { artist: o.channel, title: o.title, url: o.url }
}

/// The hits among the entries of a search listing: the single playable ones,
/// in order.
pub open spec fn hits(outputs: Seq<Output>) -> Seq<SearchResult>
    decreases outputs.len(),
{
    if outputs.len() == 0 {
        Seq::empty()
    } else if outputs.last().is_playable_spec() {
        hits(outputs.drop_last()).push(result_of(outputs.last()))
    } else {
        hits(outputs.drop_last())
    }
}

/// The hits among the entries of a search listing.
pub fn search_results(outputs: &Vec<Output>) -> (r: Vec<SearchResult>)
    ensures
        r@ == hits(outputs@),
{
    let mut out: Vec<SearchResult> = Vec::new();
    let mut k: usize = 0;
    while k < outputs.len()
        invariant
            k <= outputs@.len(),
            out@ == hits(outputs@.take(k as int)),
        decreases outputs@.len() - k,
    {
        assert(outputs@.take(k + 1).drop_last() =~= outputs@.take(k as int));
        if outputs[k].is_playable() {
            out.push(SearchResult::from_output(&outputs[k]));
        }
        k = k + 1;
    }
    assert(outputs@.take(k as int) =~= outputs@);
    out
}

/// The value of a choice: a nonempty run of decimal digits and nothing else.
pub open spec fn choice_value(s: Seq<char>) -> Option<nat> {
    match parse_num(s, 0) {
        Some((v, j)) => if j == s.len() && v <= usize::MAX {
            Some(v as nat)
        } else {
            None
        },
        None => None,
    }
}

/// The sources of the chosen results, in the order chosen; each choice is
/// the position of a result, written in decimal.
pub fn select_sources(results: &Vec<SearchResult>, values: &Vec<String>) -> (r: Result<
    Vec<Queueable>,
    SearchError,
>)
    ensures
        r is Ok <==> forall|i: int|
            0 <= i < values@.len() ==> (choice_value(#[trigger] values@[i]@) matches Some(p) && p
                < results@.len()),
        r is Err ==> r == Err::<Vec<Queueable>, SearchError>(SearchError::BadChoice),
        r matches Ok(v) ==> v@.len() == values@.len() && forall|i: int|
            0 <= i < v@.len() ==> arg_of(#[trigger] v@[i]) == results@[choice_value(
                values@[i]@,
            )->0 as int].url@,
{
    let mut out: Vec<Queueable> = Vec::new();
    let mut k: usize = 0;
    while k < values.len()
        invariant
            k <= values@.len(),
            out@.len() == k,
            forall|i: int|
                0 <= i < k ==> (choice_value(#[trigger] values@[i]@) matches Some(p) && p
                    < results@.len()),
            forall|i: int|
                0 <= i < k ==> arg_of(#[trigger] out@[i]) == results@[choice_value(
                    values@[i]@,
                )->0 as int].url@,
        decreases values@.len() - k,
    {
        let cs = chars_of(values[k].as_str());
        let p = match parse_num_exec(&cs, 0) {
            None => return Err(SearchError::BadChoice),
            Some((v, j)) => {
                if j != cs.len() || v >= results.len() as u64 {
                    return Err(SearchError::BadChoice);
                }
                v as usize
            },
        };
        out.push(Queueable::Ytdl { arg: results[p].url.clone() });
        k = k + 1;
    }
    Ok(out)
}

} // verus!
