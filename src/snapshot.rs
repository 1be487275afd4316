use vstd::prelude::*;

use crate::queue::Queueable;
use crate::text::{
    chars_of, digit_value_of, digits, digits_value, is_digit, lemma_digits,
    lemma_digits_value_prefix, push_char, push_decimal, push_str,
};

verus! {

/// What a session needs to be taken up again after a restart.
#[derive(Clone, Debug, PartialEq, Eq)]
pub struct CallData {
    /// The room (guild) the session belongs to.
    pub guild: u64,
    /// The voice channel it was connected to.
    pub channel: u64,
    /// The sources of its queue, in order.
    pub queue: Vec<Queueable>,
}

/// The transfer text could not be read back as a list of records.
#[derive(Clone, Copy, Debug, PartialEq, Eq)]
pub struct FormatError;

/// A record as the codec sees it: room, channel, and the argument of each source.
pub type RecordView = (u64, u64, Seq<Seq<char>>);

pub open spec fn arg_of(q: Queueable) -> Seq<char> {
    match q {
        Queueable::Ytdl { arg } => arg@,
    }
}

pub open spec fn record_view(d: CallData) -> RecordView {
    (d.guild, d.channel, d.queue@.map_values(|q: Queueable| arg_of(q)))
}

pub open spec fn records_view(v: Seq<CallData>) -> Seq<RecordView> {
    v.map_values(|d: CallData| record_view(d))
}

// ---------------------------------------------------------------- the format
/// How one character of a string argument is written.
pub open spec fn esc_char(c: char) -> Seq<char> {
    if c == '"' {
        seq!['\\', '"']
    } else if c == '\\' {
        seq!['\\', '\\']
    } else if c == '\n' {
        seq!['\\', 'n']
    } else if c == '\r' {
        seq!['\\', 'r']
    } else if c == '\t' {
        seq!['\\', 't']
    } else {
        seq![c]
    }
}

/// The character that the escape `\e` stands for.
pub open spec fn unesc(e: char) -> Option<char> {
    if e == '"' {
        Some('"')
    } else if e == '\\' {
        Some('\\')
    } else if e == 'n' {
        Some('\n')
    } else if e == 'r' {
        Some('\r')
    } else if e == 't' {
        Some('\t')
    } else {
        None
    }
}

/// A string argument, escaped.
pub open spec fn esc(s: Seq<char>) -> Seq<char>
    decreases s.len(),
{
    if s.len() == 0 {
        Seq::empty()
    } else {
        esc(s.drop_last()) + esc_char(s.last())
    }
}

/// The parts, separated by commas.
pub open spec fn join(ps: Seq<Seq<char>>) -> Seq<char>
    decreases ps.len(),
{
    if ps.len() == 0 {
        Seq::empty()
    } else if ps.len() == 1 {
        ps[0]
    } else {
        ps[0] + seq![','] + join(ps.drop_first())
    }
}

pub open spec fn enc_item(a: Seq<char>) -> Seq<char> {
    "{\"Ytdl\":{\"arg\":\""@ + esc(a) + "\"}}"@
}

pub open spec fn enc_items(q: Seq<Seq<char>>) -> Seq<char> {
    join(q.map_values(|a: Seq<char>| enc_item(a)))
}

pub open spec fn enc_record(r: RecordView) -> Seq<char> {
    "{\"guild\":"@ + digits(r.0 as nat) + ",\"channel\":"@ + digits(r.1 as nat) + ",\"queue\":["@
        + enc_items(r.2) + "]}"@
}

pub open spec fn enc_records(rs: Seq<RecordView>) -> Seq<char> {
    join(rs.map_values(|r: RecordView| enc_record(r)))
}

/// The transfer text of a list of records: an array of objects, each with the
/// room, the channel and the queue, each source tagged with its kind.
pub open spec fn encode_spec(rs: Seq<RecordView>) -> Seq<char> {
    "["@ + enc_records(rs) + "]"@
}

// ----------------------------------------------------------- reading it back
/// `w` stands in `s` at position `i`.
pub open spec fn lit_at(s: Seq<char>, i: int, w: Seq<char>) -> bool {
    0 <= i && i + w.len() <= s.len() && s.subrange(i, i + w.len()) == w
}

/// How many digits stand in a row from `i` on.
pub open spec fn digit_run(s: Seq<char>, i: int) -> nat
    decreases s.len() - i,
{
    if 0 <= i < s.len() && is_digit(s[i]) {
        1 + digit_run(s, i + 1)
    } else {
        0
    }
}

pub open spec fn parse_num(s: Seq<char>, i: int) -> Option<(u64, int)> {
    let k = digit_run(s, i);
    let v = digits_value(s.subrange(i, i + k));
    if k == 0 || v > u64::MAX {
        None
    } else {
        Some((v as u64, i + k))
    }
}

/// The rest of a string argument from `i` on, up to and past its closing
/// quote; `acc` holds what was read before `i`.
pub open spec fn parse_str(s: Seq<char>, i: int, acc: Seq<char>) -> Option<(Seq<char>, int)>
    decreases s.len() - i,
{
    if i < 0 || i >= s.len() {
        None
    } else if s[i] == '"' {
        Some((acc, i + 1))
    } else if s[i] == '\\' {
        if i + 1 < s.len() && unesc(s[i + 1]) is Some {
            parse_str(s, i + 2, acc.push(unesc(s[i + 1])->0))
        } else {
            None
        }
    } else {
        parse_str(s, i + 1, acc.push(s[i]))
    }
}

pub open spec fn parse_item(s: Seq<char>, i: int) -> Option<(Seq<char>, int)> {
    let open = "{\"Ytdl\":{\"arg\":\""@;
    if lit_at(s, i, open) {
        match parse_str(s, i + open.len(), Seq::empty()) {
            Some((a, j)) => if lit_at(s, j, "}}"@) {
                Some((a, j + 2))
            } else {
                None
            },
            None => None,
        }
    } else {
        None
    }
}

/// Items from `i` on, each followed by a comma or by the closing bracket.
pub open spec fn parse_items(s: Seq<char>, i: int, acc: Seq<Seq<char>>) -> Option<
    (Seq<Seq<char>>, int),
>
    decreases s.len() - i,
{
    match parse_item(s, i) {
        None => None,
        Some((a, j)) => if i < j && j < s.len() && s[j] == ',' {
            parse_items(s, j + 1, acc.push(a))
        } else if 0 <= j < s.len() && s[j] == ']' {
            Some((acc.push(a), j + 1))
        } else {
            None
        },
    }
}

/// A list of items whose opening bracket stands just before `i`.
pub open spec fn parse_item_list(s: Seq<char>, i: int) -> Option<(Seq<Seq<char>>, int)> {
    if 0 <= i < s.len() && s[i] == ']' {
        Some((Seq::empty(), i + 1))
    } else {
        parse_items(s, i, Seq::empty())
    }
}

pub open spec fn parse_record(s: Seq<char>, i: int) -> Option<(RecordView, int)> {
    let guild_key = "{\"guild\":"@;
    let channel_key = ",\"channel\":"@;
    let queue_key = ",\"queue\":["@;
    if !lit_at(s, i, guild_key) {
        None
    } else {
        match parse_num(s, i + guild_key.len()) {
            None => None,
            Some((g, j1)) => if !lit_at(s, j1, channel_key) {
                None
            } else {
                match parse_num(s, j1 + channel_key.len()) {
                    None => None,
                    Some((c, j2)) => if !lit_at(s, j2, queue_key) {
                        None
                    } else {
                        match parse_item_list(s, j2 + queue_key.len()) {
                            None => None,
                            Some((q, j3)) => if 0 <= j3 < s.len() && s[j3] == '}' {
                                Some(((g, c, q), j3 + 1))
                            } else {
                                None
                            },
                        }
                    },
                }
            },
        }
    }
}

pub open spec fn parse_records(s: Seq<char>, i: int, acc: Seq<RecordView>) -> Option<
    (Seq<RecordView>, int),
>
    decreases s.len() - i,
{
    match parse_record(s, i) {
        None => None,
        Some((r, j)) => if i < j && j < s.len() && s[j] == ',' {
            parse_records(s, j + 1, acc.push(r))
        } else if 0 <= j < s.len() && s[j] == ']' {
            Some((acc.push(r), j + 1))
        } else {
            None
        },
    }
}

pub open spec fn parse_record_list(s: Seq<char>, i: int) -> Option<(Seq<RecordView>, int)> {
    if 0 <= i < s.len() && s[i] == ']' {
        Some((Seq::empty(), i + 1))
    } else {
        parse_records(s, i, Seq::empty())
    }
}

/// The records that a transfer text holds, if it is well formed.
pub open spec fn decode_spec(s: Seq<char>) -> Option<Seq<RecordView>> {
    if s.len() >= 1 && s[0] == '[' {
        match parse_record_list(s, 1) {
            Some((rs, j)) => if j == s.len() {
                Some(rs)
            } else {
                None
            },
            None => None,
        }
    } else {
        None
    }
}

// ------------------------------------------------------------------- lemmas
proof fn lemma_lit_split(s: Seq<char>, i: int, a: Seq<char>, b: Seq<char>)
    requires
        lit_at(s, i, a + b),
    ensures
        lit_at(s, i, a),
        lit_at(s, i + a.len(), b),
{
    let w = a + b;
    assert forall|k: int| 0 <= k < a.len() implies s.subrange(i, i + a.len())[k] == a[k] by {
        assert(s.subrange(i, i + w.len())[k] == w[k]);
    }
    assert(s.subrange(i, i + a.len()) =~= a);
    assert forall|k: int| 0 <= k < b.len() implies s.subrange(i + a.len(), i + a.len() + b.len())[k]
        == b[k] by {
        assert(s.subrange(i, i + w.len())[a.len() + k] == w[a.len() + k]);
    }
    assert(s.subrange(i + a.len(), i + a.len() + b.len()) =~= b);
}

proof fn lemma_digit_run_bound(s: Seq<char>, i: int)
    requires
        0 <= i <= s.len(),
    ensures
        i + digit_run(s, i) <= s.len(),
    decreases s.len() - i,
{
    if i < s.len() {
        lemma_digit_run_bound(s, i + 1);
    }
}

proof fn lemma_str_bound(s: Seq<char>, i: int, acc: Seq<char>)
    ensures
        parse_str(s, i, acc) matches Some((_, j)) ==> i < j <= s.len(),
    decreases s.len() - i,
{
    if 0 <= i < s.len() && s[i] != '"' {
        if s[i] == '\\' {
            if i + 1 < s.len() && unesc(s[i + 1]) is Some {
                lemma_str_bound(s, i + 2, acc.push(unesc(s[i + 1])->0));
            }
        } else {
            lemma_str_bound(s, i + 1, acc.push(s[i]));
        }
    }
}

proof fn lemma_lit_char(s: Seq<char>, i: int, w: Seq<char>, k: int)
    requires
        lit_at(s, i, w),
        0 <= k < w.len(),
    ensures
        s[i + k] == w[k],
{
    assert(s.subrange(i, i + w.len())[k] == s[i + k]);
}

proof fn lemma_esc_cons(s: Seq<char>)
    requires
        s.len() > 0,
    ensures
        esc(s) == esc_char(s[0]) + esc(s.drop_first()),
    decreases s.len(),
{
    if s.len() == 1 {
        assert(s.drop_last() =~= Seq::<char>::empty());
        assert(s.drop_first() =~= Seq::<char>::empty());
        assert(esc(Seq::<char>::empty()) =~= Seq::<char>::empty());
        assert(esc(s) == esc(s.drop_last()) + esc_char(s.last()));
        assert(esc(s) =~= esc_char(s[0]));
        assert(esc(s.drop_first()) =~= Seq::<char>::empty());
    } else {
        lemma_esc_cons(s.drop_last());
        assert(s.drop_first().drop_last() =~= s.drop_last().drop_first());
        assert(esc(s) =~= esc_char(s[0]) + esc(s.drop_first()));
    }
}

proof fn lemma_join_push(ps: Seq<Seq<char>>, p: Seq<char>)
    ensures
        join(ps.push(p)) == (if ps.len() == 0 {
            p
        } else {
            join(ps) + seq![','] + p
        }),
    decreases ps.len(),
{
    if ps.len() == 0 {
    } else if ps.len() == 1 {
        assert(ps.push(p).drop_first() =~= seq![p]);
        assert(join(seq![p]) == p);
    } else {
        lemma_join_push(ps.drop_first(), p);
        assert(ps.push(p).drop_first() =~= ps.drop_first().push(p));
        assert(join(ps.push(p)) =~= join(ps) + seq![','] + p);
    }
}

proof fn lemma_digit_run(s: Seq<char>, i: int, k: int)
    requires
        0 <= i,
        0 <= k,
        i + k <= s.len(),
        forall|m: int| i <= m < i + k ==> is_digit(#[trigger] s[m]),
        i + k == s.len() || !is_digit(s[i + k]),
    ensures
        digit_run(s, i) == k,
    decreases k,
{
    if k > 0 {
        lemma_digit_run(s, i + 1, k - 1);
    }
}

proof fn lemma_num_round_trip(s: Seq<char>, i: int, n: u64)
    requires
        lit_at(s, i, digits(n as nat)),
        i + digits(n as nat).len() == s.len() || !is_digit(s[i + digits(n as nat).len()]),
    ensures
        parse_num(s, i) == Some((n, i + digits(n as nat).len())),
{
    let d = digits(n as nat);
    lemma_digits(n as nat);
    assert forall|m: int| i <= m < i + d.len() implies is_digit(#[trigger] s[m]) by {
        lemma_lit_char(s, i, d, m - i);
    }
    lemma_digit_run(s, i, d.len() as int);
}

proof fn lemma_str_round_trip(s: Seq<char>, i: int, acc: Seq<char>, a: Seq<char>)
    requires
        lit_at(s, i, esc(a) + seq!['"']),
    ensures
        parse_str(s, i, acc) == Some((acc + a, i + esc(a).len() + 1)),
    decreases a.len(),
{
    if a.len() == 0 {
        assert(esc(a) + seq!['"'] =~= seq!['"']);
        lemma_lit_char(s, i, seq!['"'], 0);
        assert(acc + a =~= acc);
    } else {
        lemma_esc_cons(a);
        let e = esc_char(a[0]);
        let rest = a.drop_first();
        assert(esc(a) + seq!['"'] =~= e + (esc(rest) + seq!['"']));
        lemma_lit_split(s, i, e, esc(rest) + seq!['"']);
        lemma_lit_char(s, i, e, 0);
        if e.len() == 2 {
            lemma_lit_char(s, i, e, 1);
            lemma_str_round_trip(s, i + 2, acc.push(a[0]), rest);
        } else {
            lemma_str_round_trip(s, i + 1, acc.push(a[0]), rest);
        }
        assert(acc.push(a[0]) + rest =~= acc + a);
    }
}

proof fn lemma_item_round_trip(s: Seq<char>, i: int, a: Seq<char>)
    requires
        lit_at(s, i, enc_item(a)),
    ensures
        parse_item(s, i) == Some((a, i + enc_item(a).len())),
{
    let open = "{\"Ytdl\":{\"arg\":\""@;
    let close = "\"}}"@;
    reveal_strlit("\"}}");
    reveal_strlit("}}");
    assert(close =~= seq!['"'] + "}}"@);
    assert(enc_item(a) =~= open + ((esc(a) + seq!['"']) + "}}"@));
    lemma_lit_split(s, i, open, (esc(a) + seq!['"']) + "}}"@);
    lemma_lit_split(s, i + open.len(), esc(a) + seq!['"'], "}}"@);
    lemma_str_round_trip(s, i + open.len(), Seq::empty(), a);
    assert(Seq::<char>::empty() + a =~= a);
}

proof fn lemma_items_round_trip(s: Seq<char>, i: int, acc: Seq<Seq<char>>, q: Seq<Seq<char>>)
    requires
        q.len() >= 1,
        lit_at(s, i, enc_items(q) + seq![']']),
    ensures
        parse_items(s, i, acc) == Some((acc + q, i + enc_items(q).len() + 1)),
    decreases q.len(),
{
    let parts = q.map_values(|a: Seq<char>| enc_item(a));
    let first = enc_item(q[0]);
    reveal_strlit("{\"Ytdl\":{\"arg\":\"");
    assert(first.len() > 0);
    if q.len() == 1 {
        assert(enc_items(q) == first);
        lemma_lit_split(s, i, first, seq![']']);
        lemma_item_round_trip(s, i, q[0]);
        lemma_lit_char(s, i + first.len(), seq![']'], 0);
        assert(acc + q =~= acc.push(q[0]));
    } else {
        let rest = q.drop_first();
        assert(parts.drop_first() =~= rest.map_values(|a: Seq<char>| enc_item(a)));
        assert(enc_items(q) == first + seq![','] + enc_items(rest));
        assert(enc_items(q) + seq![']'] =~= first + (seq![','] + (enc_items(rest) + seq![']'])));
        lemma_lit_split(s, i, first, seq![','] + (enc_items(rest) + seq![']']));
        lemma_lit_split(s, i + first.len(), seq![','], enc_items(rest) + seq![']']);
        lemma_item_round_trip(s, i, q[0]);
        lemma_lit_char(s, i + first.len(), seq![','], 0);
        lemma_items_round_trip(s, i + first.len() + 1, acc.push(q[0]), rest);
        assert(acc.push(q[0]) + rest =~= acc + q);
    }
}

proof fn lemma_item_list_round_trip(s: Seq<char>, i: int, q: Seq<Seq<char>>)
    requires
        lit_at(s, i, enc_items(q) + seq![']']),
    ensures
        parse_item_list(s, i) == Some((q, i + enc_items(q).len() + 1)),
{
    if q.len() == 0 {
        assert(enc_items(q) == Seq::<char>::empty());
        assert(enc_items(q) + seq![']'] =~= seq![']']);
        lemma_lit_char(s, i, seq![']'], 0);
        assert(q =~= Seq::<Seq<char>>::empty());
    } else {
        let parts = q.map_values(|a: Seq<char>| enc_item(a));
        reveal_strlit("{\"Ytdl\":{\"arg\":\"");
        if q.len() == 1 {
            assert(enc_items(q) == enc_item(q[0]));
        } else {
            assert(enc_items(q) == enc_item(q[0]) + seq![','] + join(parts.drop_first()));
        }
        assert(enc_items(q)[0] == '{');
        lemma_lit_char(s, i, enc_items(q) + seq![']'], 0);
        lemma_items_round_trip(s, i, Seq::empty(), q);
        assert(Seq::<Seq<char>>::empty() + q =~= q);
    }
}

proof fn lemma_record_round_trip(s: Seq<char>, i: int, r: RecordView)
    requires
        lit_at(s, i, enc_record(r)),
    ensures
        parse_record(s, i) == Some((r, i + enc_record(r).len())),
{
    let guild_key = "{\"guild\":"@;
    let channel_key = ",\"channel\":"@;
    let queue_key = ",\"queue\":["@;
    let record_end = "]}"@;
    reveal_strlit(",\"channel\":");
    reveal_strlit(",\"queue\":[");
    reveal_strlit("]}");
    let dg = digits(r.0 as nat);
    let dc = digits(r.1 as nat);
    let qs = enc_items(r.2);
    assert(record_end =~= seq![']'] + seq!['}']);
    assert(enc_record(r) =~= guild_key + (dg + (channel_key + (dc + (queue_key + ((qs + seq![']']) + seq!['}']))))));
    lemma_lit_split(s, i, guild_key, dg + (channel_key + (dc + (queue_key + ((qs + seq![']']) + seq!['}'])))));
    let j0 = i + guild_key.len();
    lemma_lit_split(s, j0, dg, channel_key + (dc + (queue_key + ((qs + seq![']']) + seq!['}']))));
    let j1 = j0 + dg.len();
    lemma_lit_split(s, j1, channel_key, dc + (queue_key + ((qs + seq![']']) + seq!['}'])));
    lemma_lit_char(s, j1, channel_key, 0);
    lemma_num_round_trip(s, j0, r.0);
    let j2 = j1 + channel_key.len();
    lemma_lit_split(s, j2, dc, queue_key + ((qs + seq![']']) + seq!['}']));
    let j3 = j2 + dc.len();
    lemma_lit_split(s, j3, queue_key, (qs + seq![']']) + seq!['}']);
    lemma_lit_char(s, j3, queue_key, 0);
    lemma_num_round_trip(s, j2, r.1);
    let j4 = j3 + queue_key.len();
    lemma_lit_split(s, j4, qs + seq![']'], seq!['}']);
    lemma_item_list_round_trip(s, j4, r.2);
    lemma_lit_char(s, j4 + qs.len() + 1, seq!['}'], 0);
}

proof fn lemma_records_round_trip(s: Seq<char>, i: int, acc: Seq<RecordView>, rs: Seq<RecordView>)
    requires
        rs.len() >= 1,
        lit_at(s, i, enc_records(rs) + seq![']']),
    ensures
        parse_records(s, i, acc) == Some((acc + rs, i + enc_records(rs).len() + 1)),
    decreases rs.len(),
{
    let parts = rs.map_values(|r: RecordView| enc_record(r));
    let first = enc_record(rs[0]);
    reveal_strlit("{\"guild\":");
    assert(first.len() > 0);
    if rs.len() == 1 {
        assert(enc_records(rs) == first);
        lemma_lit_split(s, i, first, seq![']']);
        lemma_record_round_trip(s, i, rs[0]);
        lemma_lit_char(s, i + first.len(), seq![']'], 0);
        assert(acc + rs =~= acc.push(rs[0]));
    } else {
        let rest = rs.drop_first();
        assert(parts.drop_first() =~= rest.map_values(|r: RecordView| enc_record(r)));
        assert(enc_records(rs) == first + seq![','] + enc_records(rest));
        assert(enc_records(rs) + seq![']'] =~= first + (seq![','] + (enc_records(rest) + seq![
            ']',
        ])));
        lemma_lit_split(s, i, first, seq![','] + (enc_records(rest) + seq![']']));
        lemma_lit_split(s, i + first.len(), seq![','], enc_records(rest) + seq![']']);
        lemma_record_round_trip(s, i, rs[0]);
        lemma_lit_char(s, i + first.len(), seq![','], 0);
        lemma_records_round_trip(s, i + first.len() + 1, acc.push(rs[0]), rest);
        assert(acc.push(rs[0]) + rest =~= acc + rs);
    }
}

/// Reading back the transfer text of any list of records gives that list.
pub proof fn lemma_decode_encode(rs: Seq<RecordView>)
    ensures
        decode_spec(encode_spec(rs)) == Some(rs),
{
    let s = encode_spec(rs);
    let body = enc_records(rs);
    reveal_strlit("[");
    reveal_strlit("]");
    assert(s =~= seq!['['] + (body + seq![']']));
    assert(s[0] == '[');
    assert(s.subrange(0, s.len() as int) =~= s);
    lemma_lit_split(s, 0, seq!['['], body + seq![']']);
    if rs.len() == 0 {
        assert(body == Seq::<char>::empty());
        assert(s[1] == ']');
        assert(rs =~= Seq::<RecordView>::empty());
    } else {
        reveal_strlit("{\"guild\":");
        let parts = rs.map_values(|r: RecordView| enc_record(r));
        if rs.len() == 1 {
            assert(body == enc_record(rs[0]));
        } else {
            assert(body == enc_record(rs[0]) + seq![','] + join(parts.drop_first()));
        }
        assert(body[0] == '{');
        assert(s[1] == '{');
        lemma_records_round_trip(s, 1, Seq::empty(), rs);
        assert(Seq::<RecordView>::empty() + rs =~= rs);
    }
}

// --------------------------------------------------------------- executable
fn push_escaped(out: &mut String, a: &String)
    ensures
        final(out)@ == old(out)@ + esc(a@),
{
    let cs = chars_of(a.as_str());
    let mut k: usize = 0;
    while k < cs.len()
        invariant
            cs@ == a@,
            k <= cs@.len(),
            out@ == old(out)@ + esc(cs@.take(k as int)),
        decreases cs@.len() - k,
    {
        let c = cs[k];
        let ghost before = out@;
        if c == '"' {
            push_char(out, '\\');
            push_char(out, '"');
        } else if c == '\\' {
            push_char(out, '\\');
            push_char(out, '\\');
        } else if c == '\n' {
            push_char(out, '\\');
            push_char(out, 'n');
        } else if c == '\r' {
            push_char(out, '\\');
            push_char(out, 'r');
        } else if c == '\t' {
            push_char(out, '\\');
            push_char(out, 't');
        } else {
            push_char(out, c);
        }
        assert(out@ =~= before + esc_char(c));
        assert(cs@.take(k + 1).drop_last() =~= cs@.take(k as int));
        k = k + 1;
        assert(out@ =~= old(out)@ + esc(cs@.take(k as int)));
    }
    assert(cs@.take(k as int) =~= a@);
}

fn push_item(out: &mut String, q: &Queueable)
    ensures
        final(out)@ == old(out)@ + enc_item(arg_of(*q)),
{
    match q {
        Queueable::Ytdl { arg } => {
            push_str(out, "{\"Ytdl\":{\"arg\":\"");
            push_escaped(out, arg);
            push_str(out, "\"}}");
        },
    }
    assert(out@ =~= old(out)@ + enc_item(arg_of(*q)));
}

fn push_items(out: &mut String, q: &Vec<Queueable>)
    ensures
        final(out)@ == old(out)@ + enc_items(q@.map_values(|x: Queueable| arg_of(x))),
{
    let ghost parts = q@.map_values(|x: Queueable| enc_item(arg_of(x)));
    let mut k: usize = 0;
    while k < q.len()
        invariant
            k <= q@.len(),
            parts == q@.map_values(|x: Queueable| enc_item(arg_of(x))),
            out@ == old(out)@ + join(parts.take(k as int)),
        decreases q@.len() - k,
    {
        let ghost before = out@;
        if k > 0 {
            push_char(out, ',');
        }
        push_item(out, &q[k]);
        proof {
            lemma_join_push(parts.take(k as int), parts[k as int]);
            assert(parts.take(k + 1) =~= parts.take(k as int).push(parts[k as int]));
        }
        k = k + 1;
        assert(out@ =~= old(out)@ + join(parts.take(k as int)));
    }
    assert(parts.take(k as int) =~= q@.map_values(|x: Queueable| arg_of(x)).map_values(
        |a: Seq<char>| enc_item(a),
    ));
}

fn push_record(out: &mut String, d: &CallData)
    ensures
        final(out)@ == old(out)@ + enc_record(record_view(*d)),
{
    push_str(out, "{\"guild\":");
    push_decimal(out, d.guild);
    push_str(out, ",\"channel\":");
    push_decimal(out, d.channel);
    push_str(out, ",\"queue\":[");
    push_items(out, &d.queue);
    push_str(out, "]}");
    assert(out@ =~= old(out)@ + enc_record(record_view(*d)));
}

/// Writes the records as transfer text.
pub fn encode(records: &Vec<CallData>) -> (r: String)
    ensures
        r@ == encode_spec(records_view(records@)),
{
    let ghost parts = records@.map_values(|d: CallData| enc_record(record_view(d)));
    let mut out = String::new();
    push_str(&mut out, "[");
    let mut k: usize = 0;
    while k < records.len()
        invariant
            k <= records@.len(),
            parts == records@.map_values(|d: CallData| enc_record(record_view(d))),
            out@ == "["@ + join(parts.take(k as int)),
        decreases records@.len() - k,
    {
        if k > 0 {
            push_char(&mut out, ',');
        }
        push_record(&mut out, &records[k]);
        proof {
            lemma_join_push(parts.take(k as int), parts[k as int]);
            assert(parts.take(k + 1) =~= parts.take(k as int).push(parts[k as int]));
        }
        k = k + 1;
        assert(out@ =~= "["@ + join(parts.take(k as int)));
    }
    push_str(&mut out, "]");
    assert(parts.take(k as int) =~= records_view(records@).map_values(
        |r: RecordView| enc_record(r),
    ));
    out
}

fn expect_lit(s: &Vec<char>, i: usize, w: &str) -> (r: bool)
    ensures
        r == lit_at(s@, i as int, w@),
{
    let _ = s.len();
    let wc = chars_of(w);
    if wc.len() > s.len() || i > s.len() - wc.len() {
        return false;
    }
    let mut k: usize = 0;
    while k < wc.len()
        invariant
            wc@ == w@,
            k <= wc@.len(),
            i + wc@.len() <= s@.len() <= usize::MAX,
            forall|m: int| 0 <= m < k ==> s@[i + m] == wc@[m],
        decreases wc@.len() - k,
    {
        assert(i + k < s@.len());
        if s[i + k] != wc[k] {
            assert(s@.subrange(i as int, i + wc@.len())[k as int] != w@[k as int]);
            return false;
        }
        k = k + 1;
    }
    assert(s@.subrange(i as int, i + wc@.len()) =~= w@);
    true
}

pub(crate) fn parse_num_exec(s: &Vec<char>, start: usize) -> (r: Option<(u64, usize)>)
    ensures
        r is None ==> parse_num(s@, start as int) is None,
        r matches Some((v, j)) ==> parse_num(s@, start as int) == Some((v, j as int)),
{
    let mut i: usize = start;
    let mut acc: u64 = 0;
    if start > s.len() {
        return None;
    }
    loop
        invariant
            start <= i <= s@.len(),
            acc == digits_value(s@.subrange(start as int, i as int)),
            digit_run(s@, start as int) == (i - start) + digit_run(s@, i as int),
        ensures
            start <= i <= s@.len(),
            acc == digits_value(s@.subrange(start as int, i as int)),
            digit_run(s@, start as int) == (i - start) + digit_run(s@, i as int),
            i == s@.len() || !is_digit(s@[i as int]),
        decreases s@.len() - i,
    {
        if i >= s.len() {
            break;
        }
        let d = match digit_value_of(s[i]) {
            None => break,
            Some(d) => d,
        };
        assert(s@.subrange(start as int, i + 1).drop_last() =~= s@.subrange(
            start as int,
            i as int,
        ));
        if acc > (u64::MAX - d) / 10 {
            proof {
                assert(acc * 10 + d > u64::MAX) by (nonlinear_arith)
                    requires
                        acc > (u64::MAX - d) / 10,
                        d < 10,
                ;
                lemma_digit_run_bound(s@, start as int);
                let k = digit_run(s@, start as int);
                let w = s@.subrange(start as int, start + k);
                assert(digit_run(s@, i as int) >= 1);
                assert(w.take(i + 1 - start) =~= s@.subrange(start as int, i + 1));
                lemma_digits_value_prefix(w, i + 1 - start);
            }
            return None;
        }
        assert(acc * 10 + d <= u64::MAX) by (nonlinear_arith)
            requires
                acc <= (u64::MAX - d) / 10,
                d < 10,
        ;
        acc = acc * 10 + d;
        i = i + 1;
    }
    assert(digit_run(s@, i as int) == 0);
    proof {
        lemma_digit_run_bound(s@, start as int);
    }
    if i == start {
        return None;
    }
    Some((acc, i))
}

fn unescape_of(e: char) -> (r: Option<char>)
    ensures
        r == unesc(e),
{
    if e == '"' {
        Some('"')
    } else if e == '\\' {
        Some('\\')
    } else if e == 'n' {
        Some('\n')
    } else if e == 'r' {
        Some('\r')
    } else if e == 't' {
        Some('\t')
    } else {
        None
    }
}

fn parse_str_exec(s: &Vec<char>, start: usize) -> (r: Option<(String, usize)>)
    ensures
        r is None ==> parse_str(s@, start as int, Seq::empty()) is None,
        r matches Some((a, j)) ==> parse_str(s@, start as int, Seq::empty()) == Some(
            (a@, j as int),
        ),
{
    let mut acc = String::new();
    let mut i: usize = start;
    loop
        invariant
            parse_str(s@, i as int, acc@) == parse_str(s@, start as int, Seq::empty()),
        decreases s@.len() - i,
    {
        if i >= s.len() {
            return None;
        }
        let c = s[i];
        if c == '"' {
            return Some((acc, i + 1));
        } else if c == '\\' {
            if i + 1 >= s.len() {
                return None;
            }
            match unescape_of(s[i + 1]) {
                None => return None,
                Some(x) => {
                    push_char(&mut acc, x);
                    i = i + 2;
                },
            }
        } else {
            push_char(&mut acc, c);
            i = i + 1;
        }
    }
}

fn parse_item_exec(s: &Vec<char>, i: usize) -> (r: Option<(Queueable, usize)>)
    ensures
        r is None ==> parse_item(s@, i as int) is None,
        r matches Some((q, j)) ==> parse_item(s@, i as int) == Some((arg_of(q), j as int)),
{
    let _ = s.len();
    let open = "{\"Ytdl\":{\"arg\":\"";
    if !expect_lit(s, i, open) {
        return None;
    }
    let n = chars_of(open).len();
    assert(i + n <= s@.len());
    match parse_str_exec(s, i + n) {
        None => None,
        Some((arg, j)) => {
            proof {
                lemma_str_bound(s@, (i + n) as int, Seq::empty());
            }
            if expect_lit(s, j, "}}") {
                proof {
                    reveal_strlit("}}");
                }
                Some((Queueable::Ytdl { arg }, j + 2))
            } else {
                None
            }
        },
    }
}

fn parse_item_list_exec(s: &Vec<char>, start: usize) -> (r: Option<(Vec<Queueable>, usize)>)
    ensures
        r is None ==> parse_item_list(s@, start as int) is None,
        r matches Some((v, j)) ==> parse_item_list(s@, start as int) == Some(
            (v@.map_values(|x: Queueable| arg_of(x)), j as int),
        ),
{
    let mut acc: Vec<Queueable> = Vec::new();
    if start < s.len() && s[start] == ']' {
        assert(acc@.map_values(|x: Queueable| arg_of(x)) =~= Seq::<Seq<char>>::empty());
        return Some((acc, start + 1));
    }
    let mut i: usize = start;
    assert(acc@.map_values(|x: Queueable| arg_of(x)) =~= Seq::<Seq<char>>::empty());
    loop
        invariant
            i <= s@.len() || i == start,
            parse_items(s@, i as int, acc@.map_values(|x: Queueable| arg_of(x))) == parse_item_list(
                s@,
                start as int,
            ),
        decreases s@.len() + 1 - i,
    {
        match parse_item_exec(s, i) {
            None => return None,
            Some((q, j)) => {
                let ghost before = acc@;
                acc.push(q);
                assert(acc@.map_values(|x: Queueable| arg_of(x)) =~= before.map_values(
                    |x: Queueable| arg_of(x),
                ).push(arg_of(q)));
                if i < j && j < s.len() && s[j] == ',' {
                    i = j + 1;
                } else if j < s.len() && s[j] == ']' {
                    return Some((acc, j + 1));
                } else {
                    return None;
                }
            },
        }
    }
}

fn parse_record_exec(s: &Vec<char>, i: usize) -> (r: Option<(CallData, usize)>)
    ensures
        r is None ==> parse_record(s@, i as int) is None,
        r matches Some((d, j)) ==> parse_record(s@, i as int) == Some((record_view(d), j as int)),
{
    let _ = s.len();
    let guild_key = "{\"guild\":";
    let channel_key = ",\"channel\":";
    let queue_key = ",\"queue\":[";
    if !expect_lit(s, i, guild_key) {
        return None;
    }
    let (guild, j1) = match parse_num_exec(s, i + chars_of(guild_key).len()) {
        None => return None,
        Some(x) => x,
    };
    if !expect_lit(s, j1, channel_key) {
        return None;
    }
    let (channel, j2) = match parse_num_exec(s, j1 + chars_of(channel_key).len()) {
        None => return None,
        Some(x) => x,
    };
    if !expect_lit(s, j2, queue_key) {
        return None;
    }
    let (queue, j3) = match parse_item_list_exec(s, j2 + chars_of(queue_key).len()) {
        None => return None,
        Some(x) => x,
    };
    if j3 < s.len() && s[j3] == '}' {
        Some((CallData { guild, channel, queue }, j3 + 1))
    } else {
        None
    }
}

fn parse_record_list_exec(s: &Vec<char>, start: usize) -> (r: Option<(Vec<CallData>, usize)>)
    ensures
        r is None ==> parse_record_list(s@, start as int) is None,
        r matches Some((v, j)) ==> parse_record_list(s@, start as int) == Some(
            (records_view(v@), j as int),
        ),
{
    let mut acc: Vec<CallData> = Vec::new();
    if start < s.len() && s[start] == ']' {
        assert(records_view(acc@) =~= Seq::<RecordView>::empty());
        return Some((acc, start + 1));
    }
    let mut i: usize = start;
    assert(records_view(acc@) =~= Seq::<RecordView>::empty());
    loop
        invariant
            i <= s@.len() || i == start,
            parse_records(s@, i as int, records_view(acc@)) == parse_record_list(s@, start as int),
        decreases s@.len() + 1 - i,
    {
        match parse_record_exec(s, i) {
            None => return None,
            Some((d, j)) => {
                let ghost before = acc@;
                acc.push(d);
                assert(records_view(acc@) =~= records_view(before).push(record_view(d)));
                if i < j && j < s.len() && s[j] == ',' {
                    i = j + 1;
                } else if j < s.len() && s[j] == ']' {
                    return Some((acc, j + 1));
                } else {
                    return None;
                }
            },
        }
    }
}

/// Reads transfer text back into records; fails exactly when the text is not
/// the transfer text of some list of records.
pub fn decode(text: &str) -> (r: Result<Vec<CallData>, FormatError>)
    ensures
        r is Ok <==> decode_spec(text@) is Some,
        r matches Ok(v) ==> records_view(v@) == decode_spec(text@)->0,
{
    let s = chars_of(text);
    if s.len() == 0 || s[0] != '[' {
        return Err(FormatError);
    }
    match parse_record_list_exec(&s, 1) {
        None => Err(FormatError),
        Some((v, j)) => {
            if j == s.len() {
                Ok(v)
            } else {
                Err(FormatError)
            }
        },
    }
}

/// Writing records and reading them back gives the same records.
pub proof fn lemma_round_trip(records: Seq<CallData>)
    ensures
        decode_spec(encode_spec(records_view(records))) == Some(records_view(records)),
{
    lemma_decode_encode(records_view(records));
}

} // verus!
