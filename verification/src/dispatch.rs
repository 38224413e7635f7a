//! The tick dispatcher: the routine run once per hardware timer tick. It
//! acknowledges the timer event first, then counts every channel's
//! countdown register down, advancing the channels whose register expires.
//!
//! The dispatcher owns no hardware. Each serviced tick returns the list of
//! effects the surrounding hardware layer must carry out: exactly one timer
//! acknowledgment, then one level write per expired channel.

use vstd::prelude::*;
use crate::unit::{ChannelUnit, UnitView, unit_tick, unit_ticks};

verus! {

/// One externally visible effect of servicing a tick.
#[derive(Clone, Copy, PartialEq, Eq, Structural, Debug)]
pub enum Action {
    /// Clear the timer peripheral's pending tick event, so the interrupt
    /// does not immediately re-fire.
    AckTimer,
    /// Drive the output line of channel `channel` high or low.
    SetLevel { channel: usize, high: bool },
}

/// The level writes one tick asks for among channels `0 .. n`: one per
/// channel whose countdown register expires on this tick, in channel order,
/// each carrying the level that channel's schedule entry encodes.
pub open spec fn level_actions(units: Seq<UnitView>, n: int) -> Seq<Action>
    decreases n,
{
    if n <= 0 {
        Seq::<Action>::empty()
    } else {
        level_actions(units, n - 1) + (if units[n - 1].countdown == 1 {
            seq![Action::SetLevel { channel: (n - 1) as usize, high: unit_tick(units[n - 1]).level }]
        } else {
            Seq::<Action>::empty()
        })
    }
}

/// One tick of the whole channel set: every channel steps independently.
pub open spec fn dispatch_tick(units: Seq<UnitView>) -> Seq<UnitView> {
    units.map(|i: int, u: UnitView| unit_tick(u))
}

/// The channel set after `t` ticks.
pub open spec fn dispatch_ticks(units: Seq<UnitView>, t: nat) -> Seq<UnitView>
    decreases t,
{
    if t == 0 {
        units
    } else {
        dispatch_tick(dispatch_ticks(units, (t - 1) as nat))
    }
}

/// The fixed set of channels serviced by the tick dispatcher.
pub struct Dispatcher {
    units: Vec<ChannelUnit>,
}

impl View for Dispatcher {
    type V = Seq<UnitView>;

    closed spec fn view(&self) -> Seq<UnitView> {
        self.units@.map(|i: int, u: ChannelUnit| u@)
    }
}

impl Dispatcher {
    pub open spec fn wf(self) -> bool {
        forall|i: int| 0 <= i < self@.len() ==> self@[i].wf()
    }

    /// Take ownership of the channel set. The set is fixed from here on:
    /// channels are neither added nor removed at run time.
    pub fn new(units: Vec<ChannelUnit>) -> (d: Dispatcher)
        requires
            forall|i: int| 0 <= i < units@.len() ==> units@[i].wf(),
        ensures
            d.wf(),
            d@ == units@.map(|i: int, u: ChannelUnit| u@),
    {
        Dispatcher { units }
    }

    /// How many channels the dispatcher services.
    pub fn channel_count(&self) -> (n: usize)
        ensures
            n == self@.len(),
    {
        self.units.len()
    }

    /// The level last driven on channel `i`'s output line.
    pub fn channel_level(&self, i: usize) -> (high: bool)
        requires
            i < self@.len(),
        ensures
            high == self@[i as int].level,
    {
        self.units[i].level()
    }

    /// What channel `i`'s countdown register currently holds.
    pub fn channel_countdown(&self, i: usize) -> (c: u16)
        requires
            i < self@.len(),
        ensures
            c == self@[i as int].countdown,
    {
        self.units[i].countdown()
    }

    /// The cursor of the next schedule entry channel `i` will consume.
    pub fn channel_cursor(&self, i: usize) -> (c: usize)
        requires
            i < self@.len(),
        ensures
            c == self@[i as int].chan.cursor,
    {
        self.units[i].cursor()
    }

    /// Service one timer tick. Each channel steps exactly as it would step
    /// alone; the returned actions open with the one timer acknowledgment
    /// and then list one level write per expired channel, in channel order.
    pub fn on_tick(&mut self) -> (actions: Vec<Action>)
        requires
            old(self).wf(),
        ensures
            final(self).wf(),
            final(self)@ == dispatch_tick(old(self)@),
            final(self)@.len() == old(self)@.len(),
            forall|i: int| 0 <= i < old(self)@.len()
                ==> final(self)@[i] == unit_tick(old(self)@[i]),
            actions@ == seq![Action::AckTimer] + level_actions(old(self)@, old(self)@.len() as int),
            actions@[0] == Action::AckTimer,
            forall|j: int| 1 <= j < actions@.len() ==> actions@[j] is SetLevel,
    {
        let ghost orig = self@;
        let mut actions: Vec<Action> = Vec::new();
        actions.push(Action::AckTimer);
        let n = self.units.len();
        let mut k: usize = 0;
        while k < n
            invariant
                n == orig.len(),
                k <= n,
                self.units@.len() == n,
                forall|i: int| 0 <= i < k ==> self.units@[i]@ == unit_tick(orig[i]),
                forall|i: int| k <= i < n ==> self.units@[i]@ == orig[i],
                forall|i: int| 0 <= i < n ==> orig[i].wf(),
                forall|i: int| 0 <= i < k ==> self.units@[i]@.wf(),
                actions@ == seq![Action::AckTimer] + level_actions(orig, k as int),
                forall|j: int| 1 <= j < actions@.len() ==> actions@[j] is SetLevel,
            decreases n - k,
        {
            proof {
                assert(self.units@[k as int]@ == orig[k as int]);
                assert(orig[k as int].wf());
            }
            let driven = self.units[k].tick();
            if let Some(high) = driven {
                actions.push(Action::SetLevel { channel: k, high });
            }
            k = k + 1;
            proof {
                assert(level_actions(orig, k as int) == level_actions(orig, k as int - 1)
                    + (if orig[k as int - 1].countdown == 1 {
                        seq![Action::SetLevel {
                            channel: (k - 1) as usize,
                            high: unit_tick(orig[k as int - 1]).level,
                        }]
                    } else {
                        Seq::<Action>::empty()
                    }));
                assert(actions@ == seq![Action::AckTimer] + level_actions(orig, k as int));
            }
        }
        proof {
            assert(self@ =~= dispatch_tick(orig));
        }
        actions
    }
}

/// How many timer acknowledgments a list of actions asks for.
pub open spec fn ack_count(actions: Seq<Action>) -> int
    decreases actions.len(),
{
    if actions.len() == 0 {
        0
    } else {
        (if actions[0] is AckTimer { 1int } else { 0int }) + ack_count(actions.drop_first())
    }
}

proof fn lemma_ack_count_zero(actions: Seq<Action>)
    requires
        forall|j: int| 0 <= j < actions.len() ==> !(actions[j] is AckTimer),
    ensures
        ack_count(actions) == 0,
    decreases actions.len(),
{
    if actions.len() > 0 {
        lemma_ack_count_zero(actions.drop_first());
    }
}

/// No level write is ever an acknowledgment: the level actions of one tick
/// contain no `AckTimer`.
pub proof fn lemma_level_actions_set_only(units: Seq<UnitView>, n: int)
    ensures
        forall|j: int| 0 <= j < level_actions(units, n).len()
            ==> level_actions(units, n)[j] is SetLevel,
    decreases n,
{
    if n > 0 {
        lemma_level_actions_set_only(units, n - 1);
    }
}

/// The timer's pending event is acknowledged exactly once per serviced
/// tick — never duplicated, never skipped: among the actions `on_tick`
/// returns, the count of `AckTimer` is exactly one.
pub proof fn lemma_ack_exactly_once(units: Seq<UnitView>)
    ensures
        ack_count(seq![Action::AckTimer] + level_actions(units, units.len() as int)) == 1,
{
    let lv = level_actions(units, units.len() as int);
    let all = seq![Action::AckTimer] + lv;
    lemma_level_actions_set_only(units, units.len() as int);
    assert(all.drop_first() =~= lv);
    lemma_ack_count_zero(lv);
    assert(ack_count(all) == 1 + ack_count(lv));
}

/// Channels do not interfere: after any number of ticks, channel `i`'s
/// state is exactly the state it reaches ticking alone — it depends on
/// nothing but channel `i`'s own starting state.
pub proof fn lemma_channel_self_contained(units: Seq<UnitView>, i: int, t: nat)
    requires
        0 <= i < units.len(),
    ensures
        dispatch_ticks(units, t).len() == units.len(),
        dispatch_ticks(units, t)[i] == unit_ticks(units[i], t),
    decreases t,
{
    if t > 0 {
        lemma_channel_self_contained(units, i, (t - 1) as nat);
    }
}

/// Mutating one channel's state never alters another's observed sequence:
/// two channel sets that agree on channel `i` — whatever their other
/// channels hold — leave channel `i` in the same state after any number
/// of ticks.
pub proof fn lemma_channels_independent(a: Seq<UnitView>, b: Seq<UnitView>, i: int, t: nat)
    requires
        0 <= i < a.len(),
        0 <= i < b.len(),
        a[i] == b[i],
    ensures
        dispatch_ticks(a, t)[i] == dispatch_ticks(b, t)[i],
{
    lemma_channel_self_contained(a, i, t);
    lemma_channel_self_contained(b, i, t);
}

} // verus!
