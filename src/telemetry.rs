//! Decisions of the live telemetry loop: when to stop, in which order fans
//! are shown, what each frame holds, and what the operator's answer means.
//! The loop itself (its thread, sleep and shared flag) runs outside.

use vstd::prelude::*;
use crate::fans::{rpm_text, Fan};
use crate::pairing::abs_diff;
use crate::text::{decimal, int_to_text, parse_usize, spec_int_or_zero, spec_parse_usize};

verus! {

/// Milliseconds between two frames.
pub const POLL_INTERVAL_MS: u64 = 100;

/// Change from the cached speed, in RPM, above which a fan is highlighted.
pub const ALERT_DELTA: i32 = 200;

/// What one iteration of the loop does.
#[derive(PartialEq, Eq, Structural, Clone, Copy, Debug)]
pub enum PollAction {
    Render,
    Stop,
}

/// The loop's own state: whether it has seen the cancellation flag.
pub struct LivePoll {
    pub stopped: bool,
}

/// Renders decided by a loop that starts in state `stopped` and sees the
/// cancellation flag as `flags[k]` at the start of its iteration `k`.
pub open spec fn spec_renders(stopped: bool, flags: Seq<bool>) -> Seq<bool>
    decreases flags.len(),
{
    if flags.len() == 0 {
        Seq::empty()
    } else {
        let s = stopped || flags[0];
        seq![!s] + spec_renders(s, flags.drop_first())
    }
}

impl LivePoll {
    pub fn new() -> (r: LivePoll)
        ensures
            !r.stopped,
    {
        LivePoll { stopped: false }
    }

    /// The test of the flag at the start of each iteration: a loop that has seen the
    /// flag set, now or before, stops and renders nothing more.
    pub fn tick(&mut self, cancelled: bool) -> (r: PollAction)
        ensures
            final(self).stopped == (old(self).stopped || cancelled),
            (r == PollAction::Render) == !final(self).stopped,
    {
        if cancelled {
            self.stopped = true;
        }
        if self.stopped {
            PollAction::Stop
        } else {
            PollAction::Render
        }
    }
}

/// Once the loop has seen the flag, at iteration `k`, no iteration from
/// `k` on renders.
pub proof fn lemma_no_render_after_cancel(stopped: bool, flags: Seq<bool>, k: int, j: int)
    requires
        0 <= k <= j < flags.len(),
        flags[k],
    ensures
        !spec_renders(stopped, flags)[j],
    decreases flags.len(),
{
    let s = stopped || flags[0];
    lemma_renders_len(s, flags.drop_first());
    assert(spec_renders(stopped, flags) =~= seq![!s] + spec_renders(s, flags.drop_first()));
    if j > 0 {
        if k > 0 {
            lemma_no_render_after_cancel(s, flags.drop_first(), k - 1, j - 1);
        } else {
            lemma_stopped_never_renders(flags.drop_first(), j - 1);
        }
    }
}

proof fn lemma_renders_len(stopped: bool, flags: Seq<bool>)
    ensures
        spec_renders(stopped, flags).len() == flags.len(),
    decreases flags.len(),
{
    if flags.len() > 0 {
        lemma_renders_len(stopped || flags[0], flags.drop_first());
    }
}

proof fn lemma_stopped_never_renders(flags: Seq<bool>, j: int)
    requires
        0 <= j < flags.len(),
    ensures
        !spec_renders(true, flags)[j],
    decreases flags.len(),
{
    lemma_renders_len(true, flags.drop_first());
    assert(spec_renders(true, flags) =~= seq![false] + spec_renders(true, flags.drop_first()));
    if j > 0 {
        lemma_stopped_never_renders(flags.drop_first(), j - 1);
    }
}

/// `order` lists fan positions by channel index, ties in their listing
/// order.
pub open spec fn sorted_by_channel(fans: Seq<Fan>, order: Seq<usize>) -> bool {
    forall|a: int, b: int|
        0 <= a < b < order.len() ==> fans[order[a] as int].index < fans[order[b] as int].index || (
        fans[order[a] as int].index == fans[order[b] as int].index && order[a] < order[b])
}

/// `order` holds each position of `fans` once, sorted by channel index.
pub open spec fn display_order_of(fans: Seq<Fan>, order: Seq<usize>) -> bool {
    &&& order.len() == fans.len()
    &&& forall|a: int| 0 <= a < order.len() ==> order[a] < fans.len()
    &&& forall|k: usize| k < fans.len() ==> #[trigger] order.contains(k)
    &&& sorted_by_channel(fans, order)
}

/// The order in which the loop shows the fans: by channel index, a stable
/// sort of their positions.
pub fn display_order(fans: &Vec<Fan>) -> (r: Vec<usize>)
    ensures
        display_order_of(fans@, r@),
{
    let n = fans.len();
    let mut r: Vec<usize> = Vec::new();
    let mut i: usize = 0;
    while i < n
        invariant
            n == fans@.len(),
            i <= n,
            r@.len() == i,
            forall|a: int| 0 <= a < r@.len() ==> r@[a] < i,
            forall|k: usize| k < i ==> #[trigger] r@.contains(k),
            sorted_by_channel(fans@, r@),
        decreases n - i,
    {
        let key = fans[i].index;
        let mut p: usize = 0;
        while p < r.len() && fans[r[p]].index <= key
            invariant
                n == fans@.len(),
                i < n,
                r@.len() == i,
                p <= r@.len(),
                forall|a: int| 0 <= a < r@.len() ==> r@[a] < i,
                forall|a: int| 0 <= a < p ==> fans@[r@[a] as int].index <= key,
            decreases r@.len() - p,
        {
            p = p + 1;
        }
        let ghost old_r = r@;
        r.insert(p, i);
        proof {
            assert forall|a: int| 0 <= a < r@.len() implies r@[a] < i + 1 by {
                if a < p {
                    assert(r@[a] == old_r[a]);
                } else if a > p {
                    assert(r@[a] == old_r[a - 1]);
                }
            }
            assert forall|k: usize| k < i + 1 implies #[trigger] r@.contains(k) by {
                if k == i {
                    assert(r@[p as int] == k);
                } else {
                    assert(old_r.contains(k));
                    let a0 = choose|a: int| 0 <= a < old_r.len() && old_r[a] == k;
                    if a0 < p {
                        assert(r@[a0] == k);
                    } else {
                        assert(r@[a0 + 1] == k);
                    }
                }
            }
            assert forall|a: int, b: int| 0 <= a < b < r@.len() implies fans@[r@[a] as int].index
                < fans@[r@[b] as int].index || (fans@[r@[a] as int].index
                == fans@[r@[b] as int].index && r@[a] < r@[b]) by {
                if b < p {
                    assert(r@[a] == old_r[a] && r@[b] == old_r[b]);
                } else if b == p {
                    assert(r@[a] == old_r[a]);
                } else if a > p {
                    assert(r@[a] == old_r[a - 1] && r@[b] == old_r[b - 1]);
                } else if a == p {
                    assert(r@[b] == old_r[b - 1]);
                    assert(fans@[old_r[p as int] as int].index > key);
                    if b - 1 > p {
                        assert(fans@[old_r[p as int] as int].index <= fans@[old_r[b - 1] as int].index);
                    }
                } else {
                    assert(r@[a] == old_r[a] && r@[b] == old_r[b - 1]);
                }
            }
        }
        i = i + 1;
    }
    r
}

/// Escape sequences that turn a highlighted line green and back.
pub open spec fn green() -> Seq<char> {
    "\x1b[32m"@
}

pub open spec fn reset() -> Seq<char> {
    "\x1b[0m"@
}

/// The line under a frame of the variant with selection.
pub open spec fn selection_prompt() -> Seq<char> {
    "\nSelect fan that has changed speed, or {enter} if none\n"@
}

/// A fan's line in the display-only variant: its label and live speed.
pub open spec fn display_line(f: Fan, reading: Seq<char>) -> Seq<char> {
    f.label@ + ": "@ + rpm_text(spec_int_or_zero(reading) as int) + " \n"@
}

/// The live speed differs from the cached one by more than the alert delta.
pub open spec fn highlighted(f: Fan, reading: Seq<char>) -> bool {
    abs_diff(spec_int_or_zero(reading) as int, f.current_speed as int) > ALERT_DELTA
}

/// A fan's line in the variant with selection: channel index and label,
/// green when highlighted, then live and cached speed.
pub open spec fn selection_line(f: Fan, reading: Seq<char>) -> Seq<char> {
    let head = decimal(f.index as int) + ": "@ + f.label@;
    (if highlighted(f, reading) {
        green() + head + reset()
    } else {
        head
    }) + " - "@ + rpm_text(spec_int_or_zero(reading) as int) + " (was "@ + rpm_text(
        f.current_speed as int,
    ) + ") \n"@
}

pub open spec fn fan_line(f: Fan, reading: Seq<char>, with_selection: bool) -> Seq<char> {
    if with_selection {
        selection_line(f, reading)
    } else {
        display_line(f, reading)
    }
}

/// The lines of the fans at positions `order`, `readings[i]` being a
/// reading of fan `i`'s speed input.
pub open spec fn frame_lines(
    fans: Seq<Fan>,
    readings: Seq<String>,
    order: Seq<usize>,
    with_selection: bool,
) -> Seq<char>
    decreases order.len(),
{
    if order.len() == 0 {
        Seq::empty()
    } else {
        frame_lines(fans, readings, order.drop_last(), with_selection) + fan_line(
            fans[order.last() as int],
            readings[order.last() as int]@,
            with_selection,
        )
    }
}

pub open spec fn frame_text(
    header: Seq<char>,
    fans: Seq<Fan>,
    readings: Seq<String>,
    order: Seq<usize>,
    with_selection: bool,
) -> Seq<char> {
    if with_selection {
        header + " \n"@ + frame_lines(fans, readings, order, true) + selection_prompt()
    } else {
        header + frame_lines(fans, readings, order, false)
    }
}

fn fan_line_text(f: &Fan, reading: &str, with_selection: bool) -> (r: String)
    ensures
        r@ == fan_line(*f, reading@, with_selection),
{
    let live = crate::fans::get_speed(reading);
    if with_selection {
        let mut r = String::new();
        let a = live as i64;
        let c = f.current_speed as i64;
        let delta: i64 = if a >= c {
            a - c
        } else {
            c - a
        };
        let hl = delta > ALERT_DELTA as i64;
        if hl {
            r.append("\x1b[32m");
        }
        let index = int_to_text(f.index as i64);
        r.append(index.as_str());
        r.append(": ");
        r.append(f.label.as_str());
        if hl {
            r.append("\x1b[0m");
        }
        r.append(" - ");
        let now = Fan::get_formatted_speed(reading);
        r.append(now.as_str());
        r.append(" (was ");
        let was = f.get_formatted_cached_speed();
        r.append(was.as_str());
        r.append(") \n");
        assert(r@ =~= fan_line(*f, reading@, with_selection));
        r
    } else {
        let mut r = f.label.clone();
        r.append(": ");
        let now = Fan::get_formatted_speed(reading);
        r.append(now.as_str());
        r.append(" \n");
        assert(r@ =~= fan_line(*f, reading@, with_selection));
        r
    }
}

/// One frame of the loop: the header, then a line for each fan in `order`.
pub fn render_frame(
    header: &str,
    fans: &Vec<Fan>,
    readings: &Vec<String>,
    order: &Vec<usize>,
    with_selection: bool,
) -> (r: String)
    requires
        readings@.len() == fans@.len(),
        forall|a: int| 0 <= a < order@.len() ==> order@[a] < fans@.len(),
    ensures
        r@ == frame_text(header@, fans@, readings@, order@, with_selection),
{
    let mut r = String::from_str(header);
    if with_selection {
        r.append(" \n");
    }
    let ghost start = r@;
    let n = order.len();
    let mut i: usize = 0;
    while i < n
        invariant
            n == order@.len(),
            i <= n,
            readings@.len() == fans@.len(),
            forall|a: int| 0 <= a < order@.len() ==> order@[a] < fans@.len(),
            r@ == start + frame_lines(fans@, readings@, order@.subrange(0, i as int), with_selection),
        decreases n - i,
    {
        let k = order[i];
        let line = fan_line_text(&fans[k], readings[k].as_str(), with_selection);
        r.append(line.as_str());
        let ghost sub = order@.subrange(0, i + 1);
        assert(sub.drop_last() =~= order@.subrange(0, i as int));
        i = i + 1;
    }
    assert(order@.subrange(0, n as int) =~= order@);
    if with_selection {
        r.append("\nSelect fan that has changed speed, or {enter} if none\n");
    }
    r
}

/// What a line typed during the variant with selection means.
#[derive(PartialEq, Eq, Structural, Clone, Copy, Debug)]
pub enum Selection {
    /// An empty line: no fan changed.
    NoChange,
    /// The channel index of the fan that changed.
    Index(usize),
    /// Anything else; it cancels the loop as well.
    Invalid,
}

pub open spec fn spec_selection(line: Seq<char>) -> Selection {
    if line.len() == 0 {
        Selection::NoChange
    } else {
        match spec_parse_usize(line) {
            Some(i) => Selection::Index(i),
            None => Selection::Invalid,
        }
    }
}

/// Reads the operator's line, already trimmed of surrounding whitespace.
/// Any line at all also stops the loop.
pub fn parse_selection(line: &str) -> (r: Selection)
    ensures
        r == spec_selection(line@),
{
    if line.unicode_len() == 0 {
        return Selection::NoChange;
    }
    match parse_usize(line) {
        Some(i) => Selection::Index(i),
        None => Selection::Invalid,
    }
}

} // verus!
