use vstd::prelude::*;

use crate::queue::Metadata;
use crate::text::{digits, push_decimal, push_str, push_two_digits, two_digits};

verus! {

/// A length of `secs` seconds as `h:mm:ss`, `m:ss`, or `s` followed by `s`.
pub open spec fn duration_text(secs: nat) -> Seq<char> {
    let h = secs / 3600;
    let m = (secs / 60) % 60;
    let s = secs % 60;
    if h > 0 {
        digits(h) + ":"@ + two_digits(m) + ":"@ + two_digits(s)
    } else if m > 0 {
        digits(m) + ":"@ + two_digits(s)
    } else {
        digits(s) + "s"@
    }
}

pub open spec fn text_or(o: Option<String>, default: Seq<char>) -> Seq<char> {
    match o {
        Some(t) => t@,
        None => default,
    }
}

/// `artist - title`, with a stand-in for whatever is not known.
pub open spec fn metadata_text(m: Metadata) -> Seq<char> {
    text_or(m.artist, "unknown artist"@) + " - "@ + text_or(m.title, "unknown title"@)
}

/// Writes a duration of `secs` seconds for people to read.
pub fn format_duration(secs: u64) -> (r: String)
    ensures
        r@ == duration_text(secs as nat),
{
    let mins = secs / 60;
    let hours = mins / 60;
    let mins = mins % 60;
    let s = secs % 60;
    let mut out = String::new();
    assert(hours == secs / 3600) by {
        assert(secs / 60 / 60 == secs / 3600) by (nonlinear_arith);
    }
    if hours > 0 {
        push_decimal(&mut out, hours);
        push_str(&mut out, ":");
        push_two_digits(&mut out, mins);
        push_str(&mut out, ":");
        push_two_digits(&mut out, s);
    } else if mins > 0 {
        push_decimal(&mut out, mins);
        push_str(&mut out, ":");
        push_two_digits(&mut out, s);
    } else {
        push_decimal(&mut out, s);
        push_str(&mut out, "s");
    }
    assert(out@ =~= duration_text(secs as nat));
    out
}

fn push_text_or(out: &mut String, o: &Option<String>, default: &str)
    ensures
        final(out)@ == old(out)@ + text_or(*o, default@),
{
    match o {
        Some(t) => push_str(out, t.as_str()),
        None => push_str(out, default),
    }
}

/// Writes `m` at the end of `out`.
pub fn push_metadata(out: &mut String, m: &Metadata)
    ensures
        final(out)@ == old(out)@ + metadata_text(*m),
{
    push_text_or(out, &m.artist, "unknown artist");
    push_str(out, " - ");
    push_text_or(out, &m.title, "unknown title");
    assert(out@ =~= old(out)@ + metadata_text(*m));
}

/// `artist - title` of an item.
pub fn format_metadata(m: &Metadata) -> (r: String)
    ensures
        r@ == metadata_text(*m),
{
    let mut out = String::new();
    push_metadata(&mut out, m);
    assert(out@ =~= metadata_text(*m));
    out
}

} // verus!
