//! Channel state: one output line's schedule table and cursor, and the
//! advance operation that consumes one entry per countdown expiry.

use vstd::prelude::*;
use vstd::arithmetic::div_mod::{lemma_add_mod_noop, lemma_mod_add_multiples_vanish, lemma_mod_self_0, lemma_small_mod};
use crate::schedule::{entry_high, entry_ticks, sched_wf, entry_is_high, entry_duration};

verus! {

/// The mathematical content of a channel: its immutable schedule table and
/// the cursor of the next entry to consume.
pub ghost struct ChannelView {
    pub schedule: Seq<i16>,
    pub cursor: int,
}

impl ChannelView {
    /// Well-formed channel: a well-formed schedule and a cursor inside it.
    pub open spec fn wf(self) -> bool {
        &&& sched_wf(self.schedule)
        &&& 0 <= self.cursor < self.schedule.len()
    }

    /// The entry the next advance will consume.
    pub open spec fn current_entry(self) -> i16 {
        self.schedule[self.cursor]
    }

    /// The state after one advance: the cursor moves one entry forward,
    /// wrapping at the end of the table.
    pub open spec fn advanced(self) -> ChannelView {
        ChannelView {
            schedule: self.schedule,
            cursor: (self.cursor + 1) % (self.schedule.len() as int),
        }
    }
}

/// One output channel's schedule table and cursor. The owned output line
/// itself lives outside this crate; `advance` reports the level the caller
/// must drive on it.
pub struct Channel {
    schedule: Vec<i16>,
    cursor: usize,
}

impl View for Channel {
    type V = ChannelView;

    closed spec fn view(&self) -> ChannelView {
        ChannelView { schedule: self.schedule@, cursor: self.cursor as int }
    }
}

impl Channel {
    pub open spec fn wf(self) -> bool {
        self@.wf()
    }

    /// A channel starts with its cursor at the head of the table. The
    /// schedule's well-formedness is the integrator's construction-time
    /// obligation; it is not re-checked at runtime.
    pub fn new(schedule: Vec<i16>) -> (c: Channel)
        requires
            sched_wf(schedule@),
        ensures
            c.wf(),
            c@ == (ChannelView { schedule: schedule@, cursor: 0 }),
    {
        Channel { schedule, cursor: 0 }
    }

    /// How many entries the schedule table holds.
    pub fn schedule_len(&self) -> (n: usize)
        ensures
            n == self@.schedule.len(),
    {
        self.schedule.len()
    }

    /// The cursor of the next entry to consume.
    pub fn cursor(&self) -> (c: usize)
        ensures
            c == self@.cursor,
    {
        self.cursor
    }

    /// Consume the entry under the cursor: report the level to drive
    /// (`true` is high) and the new interval in ticks, and move the cursor
    /// one entry forward, wrapping at the end of the table.
    pub fn advance(&mut self) -> (r: (bool, u16))
        requires
            old(self).wf(),
        ensures
            final(self).wf(),
            final(self)@ == old(self)@.advanced(),
            r.0 == entry_high(old(self)@.current_entry()),
            r.1 == entry_ticks(old(self)@.current_entry()),
    {
        let e = self.schedule[self.cursor];
        let n = self.schedule.len();
        self.cursor = (self.cursor + 1) % n;
        (entry_is_high(e), entry_duration(e))
    }
}

/// The cursor of a channel after `k` advances from the head of the table.
pub open spec fn cursor_after(s: Seq<i16>, k: nat) -> int
    decreases k,
{
    if k == 0 {
        0
    } else {
        (cursor_after(s, (k - 1) as nat) + 1) % (s.len() as int)
    }
}

/// The entry consumed by advance number `k` (counting from zero), which
/// determines the level driven and the interval loaded by that advance.
pub open spec fn entry_of_advance(s: Seq<i16>, k: nat) -> i16 {
    s[cursor_after(s, k)]
}

/// The cursor walks the table in order: after `k` advances it stands at
/// `k` modulo the schedule length.
pub proof fn lemma_cursor_after_is_mod(s: Seq<i16>, k: nat)
    requires
        s.len() > 0,
    ensures
        cursor_after(s, k) == (k as int) % (s.len() as int),
    decreases k,
{
    let n = s.len() as int;
    if k == 0 {
        lemma_small_mod(0, n as nat);
    } else {
        lemma_cursor_after_is_mod(s, (k - 1) as nat);
        lemma_add_mod_noop(k - 1, 1, n);
        if n == 1 {
            lemma_mod_self_0(n);
        } else {
            lemma_small_mod(1, n as nat);
        }
    }
}

/// Wraparound: the cursor sequence is periodic with period N, the schedule
/// length. After N further advances the cursor stands where it stood.
pub proof fn lemma_cursor_periodic(s: Seq<i16>, k: nat)
    requires
        s.len() > 0,
    ensures
        cursor_after(s, k + s.len()) == cursor_after(s, k),
{
    let n = s.len() as int;
    lemma_cursor_after_is_mod(s, k);
    lemma_cursor_after_is_mod(s, k + s.len());
    lemma_mod_add_multiples_vanish(k as int, n);
}

/// After N advances the level sequence repeats exactly: advance k + N
/// consumes the same entry as advance k, so it drives the same level and
/// loads the same interval.
pub proof fn lemma_advance_periodic(s: Seq<i16>, k: nat)
    requires
        s.len() > 0,
    ensures
        entry_of_advance(s, k + s.len()) == entry_of_advance(s, k),
        entry_high(entry_of_advance(s, k + s.len())) == entry_high(entry_of_advance(s, k)),
        entry_ticks(entry_of_advance(s, k + s.len())) == entry_ticks(entry_of_advance(s, k)),
{
    lemma_cursor_periodic(s, k);
}

} // verus!
