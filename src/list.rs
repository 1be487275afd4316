use vstd::prelude::*;

use crate::metadata::{duration_text, format_duration, metadata_text, push_metadata};
use crate::queue::{Metadata, QueueItem, QueueStore};
use crate::text::{digits, push_decimal, push_str};

verus! {

/// Entries shown on one page of a queue listing.
pub const PAGE_SIZE: usize = 10;

/// Seconds a listing stays interactive after its last navigation.
pub const NAV_WINDOW_SECS: u64 = 120;

/// Number of pages needed to show `n` entries, `page_len` to a page; an empty
/// list still has one page.
pub fn calc_pages(n: usize, page_len: usize) -> (r: usize)
    requires
        page_len > 0,
    ensures
        r == (if n == 0 { 1 } else { (n - 1) / page_len as int + 1 }),
{
    n.saturating_sub(1) / page_len + 1
}

/// The last page of a listing of `len` entries, counting from 0.
pub open spec fn last_page(len: nat) -> nat {
    if len == 0 {
        0
    } else {
        ((len - 1) / (PAGE_SIZE as int)) as nat
    }
}

pub open spec fn clamp_page(page: int, len: nat) -> nat {
    if page <= 0 {
        0
    } else if page > last_page(len) {
        last_page(len)
    } else {
        page as nat
    }
}

/// The page shown after "previous".
pub open spec fn prev_page(page: nat, len: nat) -> nat {
    clamp_page(page - 1, len)
}

/// The page shown after "next".
pub open spec fn next_page(page: nat, len: nat) -> nat {
    clamp_page(page + 1int, len)
}

/// The page shown after "refresh".
pub open spec fn refreshed_page(page: nat, len: nat) -> nat {
    clamp_page(page as int, len)
}

/// Navigation never leaves the listing's pages; "next" on the last page and
/// "previous" on the first change nothing.
pub proof fn lemma_page_in_range(page: nat, len: nat)
    ensures
        prev_page(page, len) <= last_page(len),
        next_page(page, len) <= last_page(len),
        refreshed_page(page, len) <= last_page(len),
        next_page(last_page(len), len) == last_page(len),
        prev_page(0, len) == 0,
        page <= last_page(len) ==> refreshed_page(page, len) == page,
{
}

/// The text of the entry at position `n`: the one now playing shows how far
/// it has got (`position`, when known) out of its length.
pub open spec fn total_text(m: Option<Metadata>) -> Seq<char> {
    match m {
        Some(md) => match md.duration {
            Some(d) => duration_text(d as nat),
            None => "unknown"@,
        },
        None => "unknown"@,
    }
}

pub open spec fn item_text(m: Option<Metadata>) -> Seq<char> {
    match m {
        Some(md) => metadata_text(md),
        None => "unknown artist"@ + " - "@ + "unknown title"@,
    }
}

pub open spec fn line_text(items: Seq<QueueItem>, n: int, position: Option<u64>) -> Seq<char> {
    if n == 0 {
        "**Now Playing**"@ + ": "@ + item_text(items[0].metadata) + match position {
            Some(p) => " - "@ + duration_text(p as nat) + " / "@ + total_text(items[0].metadata),
            None => "- Error getting time"@,
        }
    } else {
        digits(n as nat) + ": "@ + item_text(items[n].metadata)
    }
}

/// The lines of entries `start` up to `end`, one per line.
pub open spec fn lines_text(
    items: Seq<QueueItem>,
    start: int,
    end: int,
    position: Option<u64>,
) -> Seq<char>
    decreases end - start,
{
    if end <= start {
        Seq::empty()
    } else if end == start + 1 {
        line_text(items, start, position)
    } else {
        lines_text(items, start, end - 1, position) + "\n"@ + line_text(items, end - 1, position)
    }
}

/// The listing of page `page` of `items`.
pub open spec fn render_page(items: Seq<QueueItem>, page: nat, position: Option<u64>) -> Seq<
    char,
> {
    let len = items.len();
    let start = page * PAGE_SIZE as nat;
    let end = if start + PAGE_SIZE < len {
        start + PAGE_SIZE
    } else {
        len as int
    };
    if len == 0 {
        "queue is empty"@
    } else if page > last_page(len) {
        "Index out of bounds."@
    } else {
        lines_text(items, start as int, end, position) + "\n\nDisplaying page "@ + digits(page + 1)
            + " of "@ + digits(last_page(len) + 1) + " (10 per page)"@
    }
}

fn push_item_text(out: &mut String, m: &Option<Metadata>)
    ensures
        final(out)@ == old(out)@ + item_text(*m),
{
    match m {
        Some(md) => push_metadata(out, md),
        None => {
            push_str(out, "unknown artist");
            push_str(out, " - ");
            push_str(out, "unknown title");
        },
    }
    assert(out@ =~= old(out)@ + item_text(*m));
}

fn push_line(out: &mut String, q: &QueueStore, n: usize, position: Option<u64>)
    requires
        n < q@.len(),
    ensures
        final(out)@ == old(out)@ + line_text(q@, n as int, position),
{
    let item = q.get(n);
    if n == 0 {
        push_str(out, "**Now Playing**");
        push_str(out, ": ");
        push_item_text(out, &item.metadata);
        match position {
            Some(p) => {
                push_str(out, " - ");
                let elapsed = format_duration(p);
                push_str(out, elapsed.as_str());
                push_str(out, " / ");
                let total = match &item.metadata {
                    Some(md) => match md.duration {
                        Some(d) => format_duration(d),
                        None => String::from_str("unknown"),
                    },
                    None => String::from_str("unknown"),
                };
                push_str(out, total.as_str());
            },
            None => push_str(out, "- Error getting time"),
        }
    } else {
        push_decimal(out, n as u64);
        push_str(out, ": ");
        push_item_text(out, &item.metadata);
    }
    assert(out@ =~= old(out)@ + line_text(q@, n as int, position));
}

/// The text that lists page `page` (from 0) of `q`, ten entries to a page;
/// `position` is how far the item now playing has got, when that is known.
pub fn retrieve_queue(q: &QueueStore, page: usize, position: Option<u64>) -> (r: String)
    ensures
        r@ == render_page(q@, page as nat, position),
{
    let len = q.len();
    if len == 0 {
        return String::from_str("queue is empty");
    }
    let last = (len - 1) / PAGE_SIZE;
    if page > last {
        return String::from_str("Index out of bounds.");
    }
    assert(page * 10 <= len - 1) by (nonlinear_arith)
        requires
            page <= (len - 1) / 10,
            len >= 1,
    ;
    let start = page * PAGE_SIZE;
    let end = if len - start > PAGE_SIZE {
        start + PAGE_SIZE
    } else {
        len
    };
    let mut out = String::new();
    let mut k: usize = start;
    while k < end
        invariant
            start <= k <= end <= q@.len(),
            start < end,
            out@ == lines_text(q@, start as int, k as int, position),
        decreases end - k,
    {
        if k > start {
            push_str(&mut out, "\n");
        }
        push_line(&mut out, q, k, position);
        k = k + 1;
        assert(out@ =~= lines_text(q@, start as int, k as int, position));
    }
    push_str(&mut out, "\n\nDisplaying page ");
    push_decimal(&mut out, (page + 1) as u64);
    push_str(&mut out, " of ");
    push_decimal(&mut out, (last + 1) as u64);
    push_str(&mut out, " (10 per page)");
    out
}

/// Which navigation buttons of a listing are switched off.
#[derive(Clone, Copy, Debug, PartialEq, Eq)]
pub struct ButtonState {
    pub prev_disabled: bool,
    pub next_disabled: bool,
}

/// The buttons under page `page` of a listing of `len` entries: no "previous"
/// on the first page, no "next" on the last.
pub fn make_buttons(page: usize, len: usize) -> (r: ButtonState)
    ensures
        r.prev_disabled == (page == 0),
        r.next_disabled == (page + 1 >= last_page(len as nat) + 1),
{
    let pages = calc_pages(len, PAGE_SIZE);
    ButtonState { prev_disabled: page == 0, next_disabled: page >= pages - 1 }
}

/// The page (from 0) for a page number given by a user (from 1); none means
/// the first.
pub fn requested_page(page: Option<usize>) -> (r: usize)
    ensures
        r == match page {
            Some(p) => if p == 0 {
                0
            } else {
                p - 1
            },
            None => 0,
        },
{
    match page {
        Some(p) => if p == 0 {
            0
        } else {
            p - 1
        },
        None => 0,
    }
}

/// A navigation request on an interactive listing, decoded from the
/// identifier of the button that was pressed.
#[derive(Clone, Debug, PartialEq, Eq)]
pub enum NavEvent {
    Previous,
    Next,
    Refresh,
    /// A button this listing does not know; it is ignored.
    Unknown { id: String },
}

impl NavEvent {
    /// Decodes a button identifier.
    pub fn from_id(id: &str) -> (r: NavEvent)
        ensures
            id@ == "prev_page"@ ==> r == NavEvent::Previous,
            id@ == "next_page"@ ==> r == NavEvent::Next,
            id@ == "refresh"@ ==> r == NavEvent::Refresh,
            id@ != "prev_page"@ && id@ != "next_page"@ && id@ != "refresh"@ ==> (r matches NavEvent::Unknown { id: u } && u@ == id@),
    {
        proof {
            reveal_strlit("prev_page");
            reveal_strlit("next_page");
            reveal_strlit("refresh");
            assert("prev_page"@[0] != "next_page"@[0]);
            assert("prev_page"@.len() != "refresh"@.len());
            assert("next_page"@.len() != "refresh"@.len());
        }
        let s = String::from_str(id);
        if s == String::from_str("prev_page") {
            NavEvent::Previous
        } else if s == String::from_str("next_page") {
            NavEvent::Next
        } else if s == String::from_str("refresh") {
            NavEvent::Refresh
        } else {
            NavEvent::Unknown { id: s }
        }
    }
}

/// Where a listing's cursor stands.
#[derive(Clone, Copy, Debug, PartialEq, Eq, Structural)]
pub enum CursorState {
    Active,
    /// No navigation came before the deadline.
    Expired,
    /// The listing was closed.
    Closed,
}

/// What the caller has to do after the cursor took an event.
#[derive(Clone, Copy, Debug, PartialEq, Eq)]
pub enum NavAction {
    /// Show this page again, from the queue as it is now.
    Render { page: usize },
    /// Nothing.
    Ignore,
    /// Switch the buttons off and stop listening.
    Detach,
}

/// The cursor of one interactive listing.
#[derive(Clone, Copy, Debug, PartialEq, Eq)]
pub struct PaginationCursor {
    pub page: usize,
    /// The second from which the listing no longer takes navigation.
    pub deadline: u64,
    pub state: CursorState,
}

pub open spec fn deadline_after(now: u64) -> u64 {
    if now > u64::MAX - NAV_WINDOW_SECS {
        u64::MAX
    } else {
        (now + NAV_WINDOW_SECS) as u64
    }
}

fn deadline_from(now: u64) -> (r: u64)
    ensures
        r == deadline_after(now),
{
    if now > u64::MAX - NAV_WINDOW_SECS {
        u64::MAX
    } else {
        now + NAV_WINDOW_SECS
    }
}

fn clamp(page: usize, len: usize) -> (r: usize)
    ensures
        r == clamp_page(page as int, len as nat),
{
    let last = if len == 0 {
        0
    } else {
        (len - 1) / PAGE_SIZE
    };
    if page > last {
        last
    } else {
        page
    }
}

impl PaginationCursor {
    /// A cursor on `page` of a listing of `len` entries, opened at `now`.
    pub fn new(page: usize, len: usize, now: u64) -> (r: PaginationCursor)
        ensures
            r.page == clamp_page(page as int, len as nat),
            r.deadline == deadline_after(now),
            r.state == CursorState::Active,
    {
        PaginationCursor { page: clamp(page, len), deadline: deadline_from(now), state: CursorState::Active }
    }

    /// Takes a navigation event that came at `now`, the queue then holding
    /// `len` entries.
    pub fn on_event(&mut self, ev: &NavEvent, len: usize, now: u64) -> (r: NavAction)
        ensures
            old(self).state != CursorState::Active ==> r == NavAction::Ignore && *final(self) == *old(self),
            old(self).state == CursorState::Active && now >= old(self).deadline ==> r == NavAction::Detach
                && final(self).state == CursorState::Expired && final(self).page == old(self).page,
            old(self).state == CursorState::Active && now < old(self).deadline ==> match *ev {
                NavEvent::Previous => final(self).page == prev_page(old(self).page as nat, len as nat)
                    && final(self).deadline == deadline_after(now) && final(self).state == CursorState::Active
                    && r == (NavAction::Render { page: final(self).page }),
                NavEvent::Next => final(self).page == next_page(old(self).page as nat, len as nat)
                    && final(self).deadline == deadline_after(now) && final(self).state == CursorState::Active
                    && r == (NavAction::Render { page: final(self).page }),
                NavEvent::Refresh => final(self).page == refreshed_page(old(self).page as nat, len as nat)
                    && final(self).deadline == deadline_after(now) && final(self).state == CursorState::Active
                    && r == (NavAction::Render { page: final(self).page }),
                NavEvent::Unknown { .. } => r == NavAction::Ignore && *final(self) == *old(self),
            },
    {
        if self.state != CursorState::Active {
            return NavAction::Ignore;
        }
        if now >= self.deadline {
            self.state = CursorState::Expired;
            return NavAction::Detach;
        }
        let page = match ev {
            NavEvent::Previous => if self.page == 0 {
                0
            } else {
                clamp(self.page - 1, len)
            },
            NavEvent::Next => if self.page == usize::MAX {
                clamp(self.page, len)
            } else {
                clamp(self.page + 1, len)
            },
            NavEvent::Refresh => clamp(self.page, len),
            NavEvent::Unknown { .. } => return NavAction::Ignore,
        };
        self.page = page;
        self.deadline = deadline_from(now);
        NavAction::Render { page }
    }

    /// Tells the cursor the time is `now` with no event: past the deadline it
    /// expires.
    pub fn on_timeout(&mut self, now: u64) -> (r: NavAction)
        ensures
            old(self).state == CursorState::Active && now >= old(self).deadline ==> r == NavAction::Detach
                && final(self).state == CursorState::Expired && final(self).page == old(self).page
                && final(self).deadline == old(self).deadline,
            !(old(self).state == CursorState::Active && now >= old(self).deadline) ==> r == NavAction::Ignore
                && *final(self) == *old(self),
    {
        if self.state == CursorState::Active && now >= self.deadline {
            self.state = CursorState::Expired;
            NavAction::Detach
        } else {
            NavAction::Ignore
        }
    }

    /// Closes the listing.
    pub fn close(&mut self) -> (r: NavAction)
        ensures
            old(self).state == CursorState::Active ==> r == NavAction::Detach && final(self).state
                == CursorState::Closed && final(self).page == old(self).page,
            old(self).state != CursorState::Active ==> r == NavAction::Ignore && *final(self) == *old(self),
    {
        if self.state == CursorState::Active {
            self.state = CursorState::Closed;
            NavAction::Detach
        } else {
            NavAction::Ignore
        }
    }
}

} // verus!
