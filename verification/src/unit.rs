//! One channel together with its countdown register and last driven level,
//! and the per-tick step that counts the register down and advances the
//! schedule when it expires.

use vstd::prelude::*;
use crate::schedule::{entry_high, entry_ticks, sched_wf};
use crate::channel::{Channel, ChannelView};

verus! {

/// The mathematical content of a running channel: schedule and cursor,
/// the countdown register, and the level last driven on the output line.
pub ghost struct UnitView {
    pub chan: ChannelView,
    pub countdown: int,
    pub level: bool,
}

impl UnitView {
    /// Well-formed running channel. The countdown register always holds at
    /// least one: it starts at one, every reload stores a non-zero interval,
    /// and the tick that sees it at one reloads it instead of decrementing.
    pub open spec fn wf(self) -> bool {
        &&& self.chan.wf()
        &&& 1 <= self.countdown <= u16::MAX
    }
}

/// The state a channel starts in: cursor at the head of the table, the
/// countdown register at one — so the very first tick already advances the
/// schedule, driving the initial level and loading the first real interval —
/// and the output line low, as the lines are initialized.
pub open spec fn unit_init(s: Seq<i16>) -> UnitView {
    UnitView {
        chan: ChannelView { schedule: s, cursor: 0 },
        countdown: 1,
        level: false,
    }
}

/// One timer tick for one channel: the countdown register counts down, and
/// the tick that sees it at one consumes the schedule entry under the
/// cursor — driving the level it encodes and reloading the register with
/// the interval it encodes.
pub open spec fn unit_tick(u: UnitView) -> UnitView {
    if u.countdown == 1 {
        let e = u.chan.current_entry();
        UnitView {
            chan: u.chan.advanced(),
            countdown: entry_ticks(e),
            level: entry_high(e),
        }
    } else {
        UnitView {
            chan: u.chan,
            countdown: u.countdown - 1,
            level: u.level,
        }
    }
}

/// The state reached after `t` ticks from state `u`.
pub open spec fn unit_ticks(u: UnitView, t: nat) -> UnitView
    decreases t,
{
    if t == 0 {
        u
    } else {
        unit_tick(unit_ticks(u, (t - 1) as nat))
    }
}

/// The state of a channel with schedule `s` after `t` ticks from startup.
pub open spec fn unit_after(s: Seq<i16>, t: nat) -> UnitView {
    unit_ticks(unit_init(s), t)
}

/// The output level of a channel with schedule `s` at tick `t`: a pure
/// function of the schedule and the tick count alone.
pub open spec fn level_at(s: Seq<i16>, t: nat) -> bool {
    unit_after(s, t).level
}

/// One output channel at run time: its schedule and cursor, its countdown
/// register, and a record of the level last driven on its output line.
pub struct ChannelUnit {
    chan: Channel,
    countdown: u16,
    level: bool,
}

impl View for ChannelUnit {
    type V = UnitView;

    closed spec fn view(&self) -> UnitView {
        UnitView {
            chan: self.chan@,
            countdown: self.countdown as int,
            level: self.level,
        }
    }
}

impl ChannelUnit {
    pub open spec fn wf(self) -> bool {
        self@.wf()
    }

    /// A fresh channel: cursor at the head, countdown register at one,
    /// output line low.
    pub fn new(schedule: Vec<i16>) -> (u: ChannelUnit)
        requires
            sched_wf(schedule@),
        ensures
            u.wf(),
            u@ == unit_init(schedule@),
    {
        ChannelUnit {
            chan: Channel::new(schedule),
            countdown: 1,
            level: false,
        }
    }

    /// The level last driven on this channel's output line (`true` is high).
    pub fn level(&self) -> (high: bool)
        ensures
            high == self@.level,
    {
        self.level
    }

    /// What the countdown register currently holds.
    pub fn countdown(&self) -> (c: u16)
        ensures
            c == self@.countdown,
    {
        self.countdown
    }

    /// The cursor of the next schedule entry this channel will consume.
    pub fn cursor(&self) -> (c: usize)
        ensures
            c == self@.chan.cursor,
    {
        self.chan.cursor()
    }

    /// Service one timer tick: count the countdown register down; when it
    /// expires, advance the schedule, record the newly driven level, and
    /// reload the register with the new interval. Returns the level newly
    /// driven, if this tick advanced the schedule, so the caller can carry
    /// it out on the physical line.
    pub fn tick(&mut self) -> (driven: Option<bool>)
        requires
            old(self).wf(),
        ensures
            final(self).wf(),
            final(self)@ == unit_tick(old(self)@),
            driven == (if old(self)@.countdown == 1 {
                Some(final(self)@.level)
            } else {
                None::<bool>
            }),
    {
        if self.countdown == 1 {
            let (high, ticks) = self.chan.advance();
            self.level = high;
            self.countdown = ticks;
            Some(high)
        } else {
            self.countdown = self.countdown - 1;
            None
        }
    }
}

/// Replay `ticks` timer ticks against a fresh channel with the given
/// schedule. The state reached — in particular the output level — is
/// exactly the model's, and so is a deterministic, pure function of the
/// schedule and the tick count alone.
pub fn run_ticks(schedule: Vec<i16>, ticks: u64) -> (u: ChannelUnit)
    requires
        sched_wf(schedule@),
    ensures
        u.wf(),
        u@ == unit_after(schedule@, ticks as nat),
{
    let ghost s = schedule@;
    let mut unit = ChannelUnit::new(schedule);
    let mut i: u64 = 0;
    while i < ticks
        invariant
            i <= ticks,
            unit.wf(),
            unit@ == unit_after(s, i as nat),
        decreases ticks - i,
    {
        unit.tick();
        i = i + 1;
    }
    unit
}

/// A single-entry schedule produces a constant output level forever: from
/// the first tick on, the level is the one its only entry encodes, the
/// cursor never leaves the head of the table, and every expiry re-triggers
/// the entry's own duration.
pub proof fn lemma_single_entry_constant(s: Seq<i16>, t: nat)
    requires
        sched_wf(s),
        s.len() == 1,
        t >= 1,
    ensures
        level_at(s, t) == entry_high(s[0]),
        unit_after(s, t).chan.schedule == s,
        unit_after(s, t).chan.cursor == 0,
        1 <= unit_after(s, t).countdown <= entry_ticks(s[0]),
    decreases t,
{
    assert(s[0] != 0);
    assert((0int + 1) % (s.len() as int) == 0);
    if t == 1 {
        assert(unit_after(s, 1) == unit_tick(unit_ticks(unit_init(s), 0)));
    } else {
        lemma_single_entry_constant(s, (t - 1) as nat);
        assert(unit_after(s, t) == unit_tick(unit_after(s, (t - 1) as nat)));
    }
}

} // verus!
