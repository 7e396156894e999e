use crate::dice::Dice;
use crate::plan::{
    lemma_occurrences_concat, lemma_routine_concat, lemma_slept_concat, occurrences, routine,
    slept,
};
use crate::protocol::{Action, ScrollMetrics};
use vstd::prelude::*;

verus! {

/// Longest stretch of a pause without a call on the control channel.
pub const KEEPALIVE_SLICE_MS: u64 = 400;

/// Shortest and longest wait after a typed character.
pub const TYPING_DELAY_MIN_MS: u64 = 75;

pub const TYPING_DELAY_MAX_MS: u64 = 300;

/// Distance from the end of the content, in pixels, within which the bottom
/// counts as reached.
pub const BOTTOM_TOLERANCE: i64 = 10;

/// Height assumed for a viewport whose height could not be read.
pub const FALLBACK_VIEWPORT: i64 = 800;

/// Steps for which a scroll keeps its mode: at least and at most.
pub const HOLD_MIN: u64 = 8;

pub const HOLD_MAX: u64 = 25;

/// A longer pause after a step of a scroll: in how many of a hundred steps,
/// and how long at least and at most, in milliseconds.
pub const SHORT_PAUSE_PERCENT: u64 = 30;

pub const SHORT_PAUSE_MIN_MS: u64 = 240;

pub const SHORT_PAUSE_MAX_MS: u64 = 720;

/// A pause as of someone reading, likewise.
pub const LONG_PAUSE_PERCENT: u64 = 20;

pub const LONG_PAUSE_MIN_MS: u64 = 1200;

pub const LONG_PAUSE_MAX_MS: u64 = 2400;

/// A scroll back up, likewise: its amount in pixels, and the pause after it
/// in milliseconds.
pub const BACKTRACK_PERCENT: u64 = 10;

pub const BACKTRACK_MIN: u64 = 38;

pub const BACKTRACK_MAX: u64 = 112;

pub const BACKTRACK_PAUSE_MIN_MS: u64 = 360;

pub const BACKTRACK_PAUSE_MAX_MS: u64 = 960;

/// Number of slices that a pause of `total` milliseconds is cut into.
pub open spec fn slice_count(total: nat) -> nat {
    (total + KEEPALIVE_SLICE_MS - 1) as nat / KEEPALIVE_SLICE_MS as nat
}

/// A pause of `total` milliseconds: waits of at most one slice each, every
/// one followed by a keep-alive call.
pub open spec fn pause_plan(total: u64) -> Seq<Action>
    decreases total,
{
    if total == 0 {
        Seq::empty()
    } else {
        let slice: u64 = if total < KEEPALIVE_SLICE_MS { total } else { KEEPALIVE_SLICE_MS };
        seq![Action::Sleep(slice), Action::Ping] + pause_plan((total - slice) as u64)
    }
}

/// A pause sleeps for exactly the time asked for, however many slices that
/// takes, and makes one keep-alive call per slice.
pub proof fn lemma_pause_measures(total: u64)
    ensures
        slept(pause_plan(total)) == total,
        occurrences(pause_plan(total), Action::Ping) == slice_count(total as nat),
        pause_plan(total).len() == 2 * slice_count(total as nat),
    decreases total,
{
    if total != 0 {
        let slice: u64 = if total < KEEPALIVE_SLICE_MS { total } else { KEEPALIVE_SLICE_MS };
        let head = seq![Action::Sleep(slice), Action::Ping];
        let rest = pause_plan((total - slice) as u64);
        lemma_pause_measures((total - slice) as u64);
        lemma_slept_concat(head, rest);
        lemma_occurrences_concat(head, rest, Action::Ping);
        assert(head.drop_first() =~= seq![Action::Ping]);
        assert(head.drop_first().drop_first() =~= Seq::<Action>::empty());
        assert(slept(head) == slice) by {
            reveal_with_fuel(slept, 3);
        }
        assert(occurrences(head, Action::Ping) == 1) by {
            reveal_with_fuel(occurrences, 3);
        }
    }
}

/// In a pause, waits and keep-alive calls alternate, and no wait is empty or
/// longer than a slice.
pub proof fn lemma_pause_shape(total: u64, i: int)
    requires
        0 <= i < pause_plan(total).len(),
    ensures
        i % 2 == 1 ==> pause_plan(total)[i] == Action::Ping,
        i % 2 == 0 ==> (pause_plan(total)[i] matches Action::Sleep(ms) && 0 < ms
            <= KEEPALIVE_SLICE_MS),
    decreases total,
{
    if total != 0 {
        let slice: u64 = if total < KEEPALIVE_SLICE_MS { total } else { KEEPALIVE_SLICE_MS };
        if i >= 2 {
            lemma_pause_shape((total - slice) as u64, i - 2);
        }
    }
}

/// A pause holds no delicate action.
pub proof fn lemma_pause_routine(total: u64)
    ensures
        routine(pause_plan(total)),
{
    assert forall|i: int| 0 <= i < pause_plan(total).len() implies !(#[trigger] pause_plan(
        total,
    )[i]).delicate() by {
        lemma_pause_shape(total, i);
    }
}

/// Plans a pause of `total_ms` milliseconds that keeps the control channel
/// from going idle: the waits add up to the pause, and each is followed by a
/// keep-alive call.
pub fn human_pause_with_keepalive(total_ms: u64) -> (plan: Vec<Action>)
    ensures
        plan@ == pause_plan(total_ms),
        slept(plan@) == total_ms,
        occurrences(plan@, Action::Ping) == slice_count(total_ms as nat),
{
    let mut plan: Vec<Action> = Vec::new();
    let mut elapsed: u64 = 0;
    while elapsed < total_ms
        invariant
            elapsed <= total_ms,
            plan@ + pause_plan((total_ms - elapsed) as u64) == pause_plan(total_ms),
        decreases total_ms - elapsed,
    {
        let left: u64 = total_ms - elapsed;
        let slice: u64 = if left < KEEPALIVE_SLICE_MS { left } else { KEEPALIVE_SLICE_MS };
        proof {
            let rest = pause_plan((left - slice) as u64);
            assert(plan@.push(Action::Sleep(slice)).push(Action::Ping) + rest =~= plan@ + (seq![
                Action::Sleep(slice),
                Action::Ping,
            ] + rest));
        }
        plan.push(Action::Sleep(slice));
        plan.push(Action::Ping);
        elapsed = elapsed + slice;
    }
    assert(plan@ + Seq::<Action>::empty() =~= plan@);
    proof {
        lemma_pause_measures(total_ms);
    }
    plan
}

/// The action at position `i` of a typing: characters stand at the even
/// positions, the wait after each at the odd position behind it.
pub open spec fn typing_action(text: Seq<char>, delays: Seq<u64>, i: int) -> Action {
    if i % 2 == 0 {
        Action::SendChar(text[i / 2])
    } else {
        Action::Sleep(delays[i / 2])
    }
}

/// Typing `text` with the wait `delays[k]` after its `k`-th character.
pub open spec fn typing_plan(text: Seq<char>, delays: Seq<u64>) -> Seq<Action>
    recommends
        delays.len() == text.len(),
{
    Seq::new(2 * text.len(), |i: int| typing_action(text, delays, i))
}

/// Typing holds no delicate action.
pub proof fn lemma_typing_routine(text: Seq<char>, delays: Seq<u64>)
    ensures
        routine(typing_plan(text, delays)),
{
}

/// Whether `delays` holds one wait for each of `count` characters, each
/// within the bounds for typing.
pub open spec fn typing_delays_fit(delays: Seq<u64>, count: nat) -> bool {
    &&& delays.len() == count
    &&& forall|k: int|
        0 <= k < delays.len() ==> TYPING_DELAY_MIN_MS <= #[trigger] delays[k]
            <= TYPING_DELAY_MAX_MS
}

/// Plans the typing of `text`, one input event per character, with the given
/// wait after each.
pub fn type_with_delays(text: &str, delays: &Vec<u64>) -> (plan: Vec<Action>)
    requires
        delays@.len() == text@.len(),
    ensures
        plan@ == typing_plan(text@, delays@),
{
    let count: usize = delays.len();
    let mut plan: Vec<Action> = Vec::new();
    let mut k: usize = 0;
    while k < count
        invariant
            count == text@.len(),
            count == delays@.len(),
            k <= count,
            plan@.len() == 2 * k,
            forall|j: int|
                0 <= j < k ==> plan@[2 * j] == Action::SendChar(text@[j]) && plan@[2 * j + 1]
                    == Action::Sleep(delays@[j]),
        decreases count - k,
    {
        let c: char = text.get_char(k);
        plan.push(Action::SendChar(c));
        plan.push(Action::Sleep(delays[k]));
        k = k + 1;
    }
    assert forall|i: int| 0 <= i < plan@.len() implies plan@[i] == typing_plan(
        text@,
        delays@,
    )[i] by {
        let j = i / 2;
        assert(i == 2 * j || i == 2 * j + 1);
        assert(plan@[2 * j] == Action::SendChar(text@[j]));
        assert(plan@[2 * j + 1] == Action::Sleep(delays@[j]));
    }
    assert(plan@ =~= typing_plan(text@, delays@));
    plan
}

/// Draws one typing wait for each of `count` characters. The draws are
/// independent of one another.
pub fn roll_typing_delays(count: usize, dice: &mut Dice) -> (delays: Vec<u64>)
    ensures
        typing_delays_fit(delays@, count as nat),
{
    let mut delays: Vec<u64> = Vec::new();
    let mut k: usize = 0;
    while k < count
        invariant
            k <= count,
            typing_delays_fit(delays@, k as nat),
        decreases count - k,
    {
        let delay: u64 = dice.between(TYPING_DELAY_MIN_MS, TYPING_DELAY_MAX_MS);
        delays.push(delay);
        k = k + 1;
    }
    delays
}

/// Plans the typing of `text` at a human pace: every character is followed by
/// a wait drawn for it alone.
pub fn human_type_medium(text: &str, dice: &mut Dice) -> (plan: Vec<Action>)
    ensures
        exists|delays: Seq<u64>| #[trigger]
            typing_delays_fit(delays, text@.len()) && plan@ == typing_plan(text@, delays),
{
    let count: usize = text.unicode_len();
    let delays: Vec<u64> = roll_typing_delays(count, dice);
    let plan = type_with_delays(text, &delays);
    assert(typing_delays_fit(delays@, text@.len()));
    plan
}

/// The pace of a scroll to the bottom: one of three modes, kept for a number
/// of steps before another is drawn.
#[derive(Clone, Copy, PartialEq, Eq, Debug, Structural)]
pub struct Gait {
    /// Mode of the steps that remain: 0, 1 or 2.
    pub mode: u8,
    /// Steps left before a mode is drawn anew.
    pub steps_remaining: u32,
}

/// What was drawn for one step of a scroll.
#[derive(Clone, Copy, Debug)]
pub struct StrideRoll {
    /// The mode for the coming steps and their number, where the gait had no
    /// step left.
    pub reroll: Option<(u8, u32)>,
    /// Pixels to scroll down by.
    pub amount: i32,
    /// Wait after the scroll, in milliseconds.
    pub delay: u64,
    /// A longer pause after the step, where one was drawn.
    pub short_pause: Option<u64>,
    /// A pause as of someone reading, where one was drawn.
    pub long_pause: Option<u64>,
    /// A small scroll back up and the pause after it, where one was drawn.
    pub backtrack: Option<(i32, u64)>,
}

/// Least and greatest scroll amount of a mode, in pixels. The modes differ in
/// pace: the higher the mode, the longer the step and the shorter the wait.
pub open spec fn amount_bounds(mode: u8) -> (u64, u64) {
    if mode == 0 {
        (175, 200)
    } else if mode == 1 {
        (200, 225)
    } else {
        (225, 250)
    }
}

/// Least and greatest wait after a scroll of a mode, in milliseconds.
pub open spec fn delay_bounds(mode: u8) -> (u64, u64) {
    if mode == 0 {
        (20, 25)
    } else if mode == 1 {
        (15, 20)
    } else {
        (10, 15)
    }
}

/// Gives the least and greatest scroll amount of a mode.
#[verifier::when_used_as_spec(amount_bounds)]
pub fn amount_range(mode: u8) -> (bounds: (u64, u64))
    ensures
        bounds == amount_bounds(mode),
{
    if mode == 0 {
        (175, 200)
    } else if mode == 1 {
        (200, 225)
    } else {
        (225, 250)
    }
}

/// Gives the least and greatest wait after a scroll of a mode.
#[verifier::when_used_as_spec(delay_bounds)]
pub fn delay_range(mode: u8) -> (bounds: (u64, u64))
    ensures
        bounds == delay_bounds(mode),
{
    if mode == 0 {
        (20, 25)
    } else if mode == 1 {
        (15, 20)
    } else {
        (10, 15)
    }
}

/// The pause, or nothing where none was drawn.
pub open spec fn optional_pause(pause: Option<u64>) -> Seq<Action> {
    match pause {
        Some(total) => pause_plan(total),
        None => Seq::empty(),
    }
}

impl StrideRoll {
    /// Whether the roll is one that can be drawn for a step from `gait`.
    pub open spec fn fits(self, gait: Gait) -> bool {
        let mode = gait.after(self).mode;
        &&& self.reroll is Some <==> gait.steps_remaining == 0
        &&& self.reroll matches Some((mode, hold)) ==> mode <= 2 && HOLD_MIN <= hold <= HOLD_MAX
        &&& amount_bounds(mode).0 <= self.amount <= amount_bounds(mode).1
        &&& delay_bounds(mode).0 <= self.delay <= delay_bounds(mode).1
        &&& self.short_pause matches Some(total) ==> SHORT_PAUSE_MIN_MS <= total
            <= SHORT_PAUSE_MAX_MS
        &&& self.long_pause matches Some(total) ==> LONG_PAUSE_MIN_MS <= total <= LONG_PAUSE_MAX_MS
        &&& self.backtrack matches Some((back, total)) ==> BACKTRACK_MIN <= back <= BACKTRACK_MAX
            && BACKTRACK_PAUSE_MIN_MS <= total <= BACKTRACK_PAUSE_MAX_MS
    }

    /// The least roll that fits `gait`: the lowest amounts, and nothing of
    /// what is drawn only by chance.
    pub open spec fn floor(gait: Gait) -> StrideRoll {
        let reroll: Option<(u8, u32)> = if gait.steps_remaining == 0 {
            Some((0u8, HOLD_MIN as u32))
        } else {
            None
        };
        let mode: u8 = if gait.steps_remaining == 0 {
            0
        } else {
            gait.mode
        };
        StrideRoll {
            reroll,
            amount: amount_bounds(mode).0 as i32,
            delay: delay_bounds(mode).0 as u64,
            short_pause: None,
            long_pause: None,
            backtrack: None,
        }
    }

    /// The actions of the step: the scroll and its wait, then whichever of
    /// the pauses and the scroll back were drawn.
    pub open spec fn plan(self) -> Seq<Action> {
        seq![Action::ScrollBy(self.amount), Action::Sleep(self.delay)] + optional_pause(
            self.short_pause,
        ) + optional_pause(self.long_pause) + (match self.backtrack {
            Some((back, total)) => seq![Action::ScrollBy((-back) as i32)] + pause_plan(total),
            None => Seq::empty(),
        })
    }
}

/// A step of a scroll holds no delicate action, nor does the reading of the
/// position after it.
pub proof fn lemma_stride_routine(roll: StrideRoll)
    ensures
        routine(roll.plan()),
        routine(roll.plan().push(Action::ReadScroll)),
{
    let head = seq![Action::ScrollBy(roll.amount), Action::Sleep(roll.delay)];
    assert(routine(head));
    assert(routine(optional_pause(roll.short_pause))) by {
        if let Some(total) = roll.short_pause {
            lemma_pause_routine(total);
        }
    }
    assert(routine(optional_pause(roll.long_pause))) by {
        if let Some(total) = roll.long_pause {
            lemma_pause_routine(total);
        }
    }
    let tail = match roll.backtrack {
        Some((back, total)) => seq![Action::ScrollBy((-back) as i32)] + pause_plan(total),
        None => Seq::empty(),
    };
    assert(routine(tail)) by {
        if let Some((back, total)) = roll.backtrack {
            lemma_pause_routine(total);
            assert(routine(seq![Action::ScrollBy((-back) as i32)]));
            lemma_routine_concat(seq![Action::ScrollBy((-back) as i32)], pause_plan(total));
        }
    }
    lemma_routine_concat(head, optional_pause(roll.short_pause));
    lemma_routine_concat(
        head + optional_pause(roll.short_pause),
        optional_pause(roll.long_pause),
    );
    lemma_routine_concat(
        head + optional_pause(roll.short_pause) + optional_pause(roll.long_pause),
        tail,
    );
    assert(routine(seq![Action::ReadScroll]));
    lemma_routine_concat(roll.plan(), seq![Action::ReadScroll]);
    assert(roll.plan().push(Action::ReadScroll) =~= roll.plan() + seq![Action::ReadScroll]);
}

/// For every gait there is a roll that fits it.
pub proof fn lemma_floor_fits(gait: Gait)
    ensures
        StrideRoll::floor(gait).fits(gait),
{
}

impl Gait {
    /// The gait at the start of a scroll: no step left, so the first step
    /// draws a mode.
    pub open spec fn fresh() -> Gait {
        Gait { mode: 0, steps_remaining: 0 }
    }

    /// The gait after a step for which `roll` was drawn.
    pub open spec fn after(self, roll: StrideRoll) -> Gait {
        match roll.reroll {
            Some((mode, hold)) if self.steps_remaining == 0 => Gait {
                mode,
                steps_remaining: (hold - 1) as u32,
            },
            _ => Gait { mode: self.mode, steps_remaining: (self.steps_remaining - 1) as u32 },
        }
    }

    /// Gives the gait at the start of a scroll.
    #[verifier::when_used_as_spec(fresh)]
    pub fn start() -> (gait: Gait)
        ensures
            gait == Gait::fresh(),
    {
        Gait { mode: 0, steps_remaining: 0 }
    }

    /// Takes one step: gives the gait after it and the step's actions.
    pub fn stride(self, roll: &StrideRoll) -> (next: (Gait, Vec<Action>))
        requires
            roll.fits(self),
        ensures
            next.0 == self.after(*roll),
            next.1@ == roll.plan(),
    {
        let gait = match roll.reroll {
            Some((mode, hold)) => Gait { mode, steps_remaining: hold - 1 },
            None => Gait { mode: self.mode, steps_remaining: self.steps_remaining - 1 },
        };
        let mut plan: Vec<Action> = Vec::new();
        plan.push(Action::ScrollBy(roll.amount));
        plan.push(Action::Sleep(roll.delay));
        assert(plan@ =~= seq![Action::ScrollBy(roll.amount), Action::Sleep(roll.delay)]);
        if let Some(total) = roll.short_pause {
            let mut pause = human_pause_with_keepalive(total);
            plan.append(&mut pause);
        }
        assert(plan@ =~= seq![Action::ScrollBy(roll.amount), Action::Sleep(roll.delay)]
            + optional_pause(roll.short_pause));
        if let Some(total) = roll.long_pause {
            let mut pause = human_pause_with_keepalive(total);
            plan.append(&mut pause);
        }
        assert(plan@ =~= seq![Action::ScrollBy(roll.amount), Action::Sleep(roll.delay)]
            + optional_pause(roll.short_pause) + optional_pause(roll.long_pause));
        if let Some((back, total)) = roll.backtrack {
            let ghost before = plan@;
            plan.push(Action::ScrollBy(-back));
            let mut pause = human_pause_with_keepalive(total);
            plan.append(&mut pause);
            assert(plan@ =~= before + (seq![Action::ScrollBy((-back) as i32)] + pause_plan(total)));
        }
        assert(plan@ =~= roll.plan());
        (gait, plan)
    }

    /// Draws what the next step from this gait needs: a mode where none is
    /// left, the scroll and its wait, and each with its own fixed chance a
    /// longer pause, a reading pause and a scroll back.
    pub fn roll_stride(self, dice: &mut Dice) -> (roll: StrideRoll)
        ensures
            roll.fits(self),
    {
        let mut reroll: Option<(u8, u32)> = None;
        let mut mode: u8 = self.mode;
        if self.steps_remaining == 0 {
            let drawn_mode: u64 = dice.between(0, 2);
            let drawn_hold: u64 = dice.between(HOLD_MIN, HOLD_MAX);
            mode = drawn_mode as u8;
            reroll = Some((mode, drawn_hold as u32));
        }
        let (least, most) = amount_range(mode);
        let amount: u64 = dice.between(least, most);
        let (least, most) = delay_range(mode);
        let delay: u64 = dice.between(least, most);
        let mut short_pause: Option<u64> = None;
        if dice.chance(SHORT_PAUSE_PERCENT) {
            short_pause = Some(dice.between(SHORT_PAUSE_MIN_MS, SHORT_PAUSE_MAX_MS));
        }
        let mut long_pause: Option<u64> = None;
        if dice.chance(LONG_PAUSE_PERCENT) {
            long_pause = Some(dice.between(LONG_PAUSE_MIN_MS, LONG_PAUSE_MAX_MS));
        }
        let mut backtrack: Option<(i32, u64)> = None;
        if dice.chance(BACKTRACK_PERCENT) {
            let back: u64 = dice.between(BACKTRACK_MIN, BACKTRACK_MAX);
            let total: u64 = dice.between(BACKTRACK_PAUSE_MIN_MS, BACKTRACK_PAUSE_MAX_MS);
            backtrack = Some((back as i32, total));
        }
        StrideRoll { reroll, amount: amount as i32, delay, short_pause, long_pause, backtrack }
    }
}

impl ScrollMetrics {
    /// Whether the viewport's lower edge is within the tolerance of the end
    /// of the content.
    pub open spec fn at_bottom(self) -> bool {
        self.offset + self.viewport >= self.content - BOTTOM_TOLERANCE
    }

    /// The metrics from what could be read, with the value assumed for each
    /// reading that is missing: no offset, the fallback viewport, no content.
    pub open spec fn assumed(
        offset: Option<i64>,
        viewport: Option<i64>,
        content: Option<i64>,
    ) -> ScrollMetrics {
        ScrollMetrics {
            offset: match offset {
                Some(v) => v,
                None => 0,
            },
            viewport: match viewport {
                Some(v) => v,
                None => FALLBACK_VIEWPORT,
            },
            content: match content {
                Some(v) => v,
                None => 0,
            },
        }
    }

    /// Gives the metrics from what could be read.
    #[verifier::when_used_as_spec(assumed)]
    pub fn from_readings(
        offset: Option<i64>,
        viewport: Option<i64>,
        content: Option<i64>,
    ) -> (metrics: ScrollMetrics)
        ensures
            metrics == ScrollMetrics::assumed(offset, viewport, content),
    {
        ScrollMetrics {
            offset: match offset {
                Some(v) => v,
                None => 0,
            },
            viewport: match viewport {
                Some(v) => v,
                None => FALLBACK_VIEWPORT,
            },
            content: match content {
                Some(v) => v,
                None => 0,
            },
        }
    }

    /// Tells whether the bottom is reached.
    #[verifier::when_used_as_spec(at_bottom)]
    pub fn reached_bottom(self) -> (yes: bool)
        ensures
            yes == self.at_bottom(),
    {
        self.offset as i128 + self.viewport as i128 >= self.content as i128
            - BOTTOM_TOLERANCE as i128
    }
}

/// Plans the next leg of a scroll to the bottom, from the position just read:
/// nothing where the bottom is reached, else one step at the gait's pace and
/// a new reading of the position.
pub fn human_scroll_to_bottom_medium(gait: Gait, metrics: ScrollMetrics, dice: &mut Dice) -> (leg: (
    Gait,
    Vec<Action>,
))
    ensures
        metrics.at_bottom() ==> leg.0 == gait && leg.1@.len() == 0,
        !metrics.at_bottom() ==> exists|roll: StrideRoll| #[trigger]
            roll.fits(gait) && leg.0 == gait.after(roll) && leg.1@ == roll.plan().push(
                Action::ReadScroll,
            ),
{
    if metrics.reached_bottom() {
        (gait, Vec::new())
    } else {
        let roll = gait.roll_stride(dice);
        let (next, mut plan) = gait.stride(&roll);
        plan.push(Action::ReadScroll);
        (next, plan)
    }
}

} // verus!
