//! The pomodoro cycle: a fixed phase sequence built from the
//! configuration, and a countdown clock driven by elapsed milliseconds.
//!
//! The wall clock lives outside this module: each tick hands in the
//! milliseconds elapsed since the previous one, and a completed focus
//! phase stamps its session with one timestamp read through
//! [`crate::clock`].

use crate::clock::now_timestamp;
use crate::color::{Color, NamedColor};
use crate::entities::Tomato;
use vstd::prelude::*;

verus! {

/// Durations are in seconds; `long_break_interval` counts focus phases
/// per long break.
#[derive(Clone, Copy, PartialEq, Eq, Structural, Debug)]
pub struct TomatoConfig {
    pub task_duration: u64,
    pub short_break_duration: u64,
    pub long_break_duration: u64,
    pub long_break_interval: usize,
}

impl TomatoConfig {
    /// Machine limits: durations must survive the conversion to
    /// milliseconds, and the phase sequence must fit in a vector.
    pub open spec fn wf(self) -> bool {
        &&& self.task_duration * 1000 <= u64::MAX
        &&& self.short_break_duration * 1000 <= u64::MAX
        &&& self.long_break_duration * 1000 <= u64::MAX
        &&& 2 * self.long_break_interval + 2 <= usize::MAX
    }
}

/// The configuration the model starts from when none is supplied.
pub open spec fn default_config() -> TomatoConfig {
    TomatoConfig {
        task_duration: 5u64,
        short_break_duration: 3u64,
        long_break_duration: 10u64,
        long_break_interval: 3usize,
    }
}

impl Default for TomatoConfig {
    fn default() -> (r: Self)
        ensures
            r == default_config(),
            r.wf(),
    {
        TomatoConfig {
            task_duration: 5,
            short_break_duration: 3,
            long_break_duration: 10,
            long_break_interval: 3,
        }
    }
}

#[derive(Clone, Copy, PartialEq, Eq, Structural, Debug)]
pub enum CountdownType {
    Focus,
    ShortBreak,
    LongBreak,
}

/// `n` repetitions of (Focus, ShortBreak).
pub open spec fn phase_pairs(n: int) -> Seq<CountdownType>
    decreases n,
{
    if n <= 0 {
        Seq::empty()
    } else {
        phase_pairs(n - 1) + seq![CountdownType::Focus, CountdownType::ShortBreak]
    }
}

/// The full cycle for a configuration: (Focus, ShortBreak) repeated
/// `interval - 1` times, then (Focus, LongBreak).
pub open spec fn phase_seq(interval: int) -> Seq<CountdownType> {
    phase_pairs(interval - 1) + seq![CountdownType::Focus, CountdownType::LongBreak]
}

pub proof fn lemma_phase_pairs_len(n: int)
    ensures
        phase_pairs(n).len() == if n <= 0 {
            0int
        } else {
            2 * n
        },
    decreases n,
{
    if n > 0 {
        lemma_phase_pairs_len(n - 1);
    }
}

/// The cyclic phase position: the built sequence plus an index that
/// wraps modulo its length.
pub struct State {
    pub states: Vec<CountdownType>,
    pub idx: usize,
}

impl State {
    pub open spec fn wf(self) -> bool {
        &&& self.states@.len() >= 2
        &&& self.idx < self.states@.len()
    }

    pub fn new(long_break_interval: usize) -> (r: State)
        requires
            2 * long_break_interval + 2 <= usize::MAX,
        ensures
            r.wf(),
            r.idx == 0,
            r.states@ == phase_seq(long_break_interval as int),
    {
        let pairs: usize = if long_break_interval > 0 {
            long_break_interval - 1
        } else {
            0
        };
        let mut states: Vec<CountdownType> = Vec::new();
        let mut k: usize = 0;
        while k < pairs
            invariant
                k <= pairs,
                2 * pairs + 2 <= usize::MAX,
                states@ == phase_pairs(k as int),
            decreases pairs - k,
        {
            states.push(CountdownType::Focus);
            states.push(CountdownType::ShortBreak);
            k += 1;
            assert(states@ =~= phase_pairs(k as int));
        }
        states.push(CountdownType::Focus);
        states.push(CountdownType::LongBreak);
        proof {
            lemma_phase_pairs_len(pairs as int);
            assert(states@ =~= phase_seq(long_break_interval as int));
        }
        State { states, idx: 0 }
    }

    /// Advance to the next phase, wrapping past the end of the cycle.
    pub fn next(&mut self) -> (r: CountdownType)
        requires
            old(self).wf(),
        ensures
            final(self).wf(),
            final(self).states == old(self).states,
            final(self).idx == (old(self).idx + 1) % (old(self).states@.len() as int),
            r == final(self).states@[final(self).idx as int],
    {
        let n = self.states.len();
        self.idx = (self.idx + 1) % n;
        self.states[self.idx]
    }

    pub fn current(&self) -> (r: CountdownType)
        requires
            self.wf(),
        ensures
            r == self.states@[self.idx as int],
    {
        self.states[self.idx]
    }
}

/// The remaining-time clock of the active phase.  `left` is in
/// milliseconds and clamps at zero, so remaining time is never
/// negative; a fresh countdown starts paused.
#[derive(Clone, Copy, PartialEq, Eq, Structural, Debug)]
pub struct Countdown {
    pub left: u64,
    pub color: Color,
    pub paused: bool,
}

impl Default for Countdown {
    fn default() -> (r: Self)
        ensures
            r == (Countdown { left: 0u64, color: Color::Named(NamedColor::Reset), paused: true }),
    {
        Countdown { left: 0, color: Color::Named(NamedColor::Reset), paused: true }
    }
}

impl Countdown {
    pub fn new(left: u64) -> (r: Self)
        ensures
            r == (Countdown { left, color: Color::Named(NamedColor::Reset), paused: true }),
    {
        Countdown { left, color: Color::Named(NamedColor::Reset), paused: true }
    }

    pub fn color(self, color: Color) -> (r: Self)
        ensures
            r == (Countdown { left: self.left, color, paused: self.paused }),
    {
        Countdown { left: self.left, color, paused: self.paused }
    }

    /// One tick: if running and not yet exhausted, consume the elapsed
    /// time, clamped at zero.
    pub fn on_tick(&mut self, elapsed_ms: u64)
        ensures
            final(self).color == old(self).color,
            final(self).paused == old(self).paused,
            final(self).left == if old(self).left == 0 || old(self).paused {
                old(self).left
            } else if old(self).left >= elapsed_ms {
                (old(self).left - elapsed_ms) as u64
            } else {
                0u64
            },
    {
        if self.is_exhausted() {
            return ;
        }
        if !self.paused {
            self.left = if self.left >= elapsed_ms {
                self.left - elapsed_ms
            } else {
                0
            };
        }
    }

    pub fn is_exhausted(&self) -> (r: bool)
        ensures
            r == (self.left == 0),
    {
        self.left == 0
    }

    pub fn flip(&mut self)
        ensures
            *final(self) == (Countdown {
                left: old(self).left,
                color: old(self).color,
                paused: !old(self).paused,
            }),
    {
        self.paused = !self.paused;
    }

    /// Whole minutes and leftover seconds of the remaining time.
    pub fn min_and_sec(&self) -> (r: (u64, u64))
        ensures
            r.0 == (self.left as int / 1000) / 60,
            r.1 == (self.left as int / 1000) % 60,
    {
        let secs = self.left / 1000;
        (secs / 60, secs % 60)
    }
}

/// The duration, in milliseconds, a phase starts from.
pub open spec fn phase_duration_ms(config: TomatoConfig, p: CountdownType) -> int {
    match p {
        CountdownType::Focus => config.task_duration * 1000,
        CountdownType::ShortBreak => config.short_break_duration * 1000,
        CountdownType::LongBreak => config.long_break_duration * 1000,
    }
}

/// The display color tag of a phase.
pub open spec fn phase_color(p: CountdownType) -> Color {
    match p {
        CountdownType::Focus => Color::Named(NamedColor::Blue),
        CountdownType::ShortBreak => Color::Named(NamedColor::LightGreen),
        CountdownType::LongBreak => Color::Named(NamedColor::Green),
    }
}

/// The fresh countdown a phase is entered with: its full duration,
/// its color tag, paused.
pub open spec fn fresh_countdown(config: TomatoConfig, p: CountdownType) -> Countdown {
    Countdown { left: phase_duration_ms(config, p) as u64, color: phase_color(p), paused: true }
}

/// The shape every synthesized session has: placeholder ids (filled in
/// once the chosen task location is known), and a span ending at the
/// stamped time of exactly the configured focus duration — the one
/// exception being a stamp so close to the representable minimum that
/// the start clamps there instead of underflowing.
pub open spec fn session_shape(t: Tomato, config: TomatoConfig) -> bool {
    &&& t.inventory_id == 0
    &&& t.task_id == 0
    &&& t@.start_time <= t@.end_time
    &&& t@.end_time - t@.start_time <= config.task_duration
    &&& (t@.end_time - t@.start_time == config.task_duration || t@.start_time == i64::MIN)
}

/// The pomodoro component: configuration, the chosen task location,
/// the cyclic phase state and the countdown of the active phase.
pub struct TomatoModel {
    pub config: TomatoConfig,
    pub where_idx: Option<(usize, usize)>,
    pub state: State,
    pub countdown: Countdown,
}

impl TomatoModel {
    pub open spec fn wf(self) -> bool {
        &&& self.config.wf()
        &&& self.state.wf()
        &&& self.state.states@ == phase_seq(self.config.long_break_interval as int)
    }

    pub open spec fn current_phase(self) -> CountdownType {
        self.state.states@[self.state.idx as int]
    }

    pub fn new() -> (r: TomatoModel)
        ensures
            r.wf(),
            r.config == default_config(),
            r.where_idx is None,
            r.state.idx == 0,
            r.countdown == fresh_countdown(r.config, CountdownType::Focus),
    {
        TomatoModel::with_config(TomatoConfig::default())
    }

    pub fn with_config(config: TomatoConfig) -> (r: TomatoModel)
        requires
            config.wf(),
        ensures
            r.wf(),
            r.config == config,
            r.where_idx is None,
            r.state.idx == 0,
            r.countdown == fresh_countdown(config, CountdownType::Focus),
    {
        let state = State::new(config.long_break_interval);
        let mut tomato = TomatoModel {
            config,
            where_idx: None,
            state,
            countdown: Countdown::new(0),
        };
        tomato.set_focus();
        tomato
    }

    fn set_focus(&mut self)
        requires
            old(self).config.wf(),
        ensures
            *final(self) == (TomatoModel {
                countdown: fresh_countdown(old(self).config, CountdownType::Focus),
                ..*old(self)
            }),
    {
        let left = self.config.task_duration * 1000;
        self.countdown = Countdown::new(left).color(Color::Named(NamedColor::Blue));
    }

    fn set_short_break(&mut self)
        requires
            old(self).config.wf(),
        ensures
            *final(self) == (TomatoModel {
                countdown: fresh_countdown(old(self).config, CountdownType::ShortBreak),
                ..*old(self)
            }),
    {
        let left = self.config.short_break_duration * 1000;
        self.countdown = Countdown::new(left).color(Color::Named(NamedColor::LightGreen));
    }

    fn set_long_break(&mut self)
        requires
            old(self).config.wf(),
        ensures
            *final(self) == (TomatoModel {
                countdown: fresh_countdown(old(self).config, CountdownType::LongBreak),
                ..*old(self)
            }),
    {
        let left = self.config.long_break_duration * 1000;
        self.countdown = Countdown::new(left).color(Color::Named(NamedColor::Green));
    }

    /// Advance to the next phase of the cycle and hand it a fresh
    /// countdown.
    fn switch_countdown(&mut self)
        requires
            old(self).wf(),
        ensures
            final(self).wf(),
            final(self).config == old(self).config,
            final(self).where_idx == old(self).where_idx,
            final(self).state.states == old(self).state.states,
            final(self).state.idx == (old(self).state.idx + 1) % (
            old(self).state.states@.len() as int),
            final(self).countdown == fresh_countdown(old(self).config, final(self).current_phase()),
    {
        match self.state.next() {
            CountdownType::Focus => self.set_focus(),
            CountdownType::ShortBreak => self.set_short_break(),
            CountdownType::LongBreak => self.set_long_break(),
        }
    }

    /// Synthesize the session row for the focus phase that just ended:
    /// stamped with the clock, spanning at most the focus duration,
    /// ids left for the application to fill in.
    pub fn tomato_complete(&self) -> (t: Tomato)
        requires
            self.config.wf(),
        ensures
            session_shape(t, self.config),
    {
        let end_time = now_timestamp();
        let d = self.config.task_duration as i64;
        let start_time = if end_time >= i64::MIN + d {
            end_time - d
        } else {
            i64::MIN
        };
        Tomato { inventory_id: 0, task_id: 0, start_time, end_time }
    }

    /// One tick.  An exhausted countdown ends the phase: a just-ended
    /// focus phase yields its session, and the cycle advances with a
    /// fresh (paused) countdown; otherwise the running countdown
    /// consumes the elapsed time, clamped at zero.
    pub fn on_tick(&mut self, elapsed_ms: u64) -> (r: Option<Tomato>)
        requires
            old(self).wf(),
        ensures
            final(self).wf(),
            final(self).config == old(self).config,
            final(self).where_idx == old(self).where_idx,
            final(self).state.states == old(self).state.states,
            old(self).countdown.left == 0 ==> {
                &&& final(self).state.idx == (old(self).state.idx + 1) % (
                old(self).state.states@.len() as int)
                &&& final(self).countdown == fresh_countdown(
                    old(self).config,
                    final(self).current_phase(),
                )
                &&& (r is Some <==> old(self).current_phase() == CountdownType::Focus)
                &&& (r is Some ==> session_shape(r->Some_0, old(self).config))
            },
            old(self).countdown.left != 0 ==> {
                &&& final(self).state == old(self).state
                &&& r is None
                &&& final(self).countdown.color == old(self).countdown.color
                &&& final(self).countdown.paused == old(self).countdown.paused
                &&& final(self).countdown.left == if old(self).countdown.paused {
                    old(self).countdown.left
                } else if old(self).countdown.left >= elapsed_ms {
                    (old(self).countdown.left - elapsed_ms) as u64
                } else {
                    0u64
                }
            },
    {
        let mut completed: Option<Tomato> = None;
        if self.countdown.is_exhausted() {
            if self.current_phase_exec() == CountdownType::Focus {
                completed = Some(self.tomato_complete());
            }
            self.switch_countdown();
        } else {
            self.countdown.on_tick(elapsed_ms);
        }
        completed
    }

    fn current_phase_exec(&self) -> (r: CountdownType)
        requires
            self.state.wf(),
        ensures
            r == self.current_phase(),
    {
        self.state.current()
    }

    pub fn min_and_sec(&self) -> (r: (u64, u64))
        ensures
            r.0 == (self.countdown.left as int / 1000) / 60,
            r.1 == (self.countdown.left as int / 1000) % 60,
    {
        self.countdown.min_and_sec()
    }

    /// The chosen (inventory, task) location the next session is
    /// booked against.
    pub fn where_idx(&self) -> (r: Option<(usize, usize)>)
        ensures
            r == self.where_idx,
    {
        self.where_idx
    }

    pub fn set_where_idx(&mut self, loc: (usize, usize))
        ensures
            *final(self) == (TomatoModel { where_idx: Some(loc), ..*old(self) }),
    {
        self.where_idx = Some(loc);
    }

    /// Pause or resume the countdown; nothing else moves.
    pub fn flip(&mut self)
        ensures
            *final(self) == (TomatoModel {
                countdown: (Countdown {
                    paused: !old(self).countdown.paused,
                    ..old(self).countdown
                }),
                ..*old(self)
            }),
    {
        self.countdown.flip();
    }

    /// The color tag of the active phase's countdown.
    pub fn fg_style(&self) -> (r: Color)
        ensures
            r == self.countdown.color,
    {
        self.countdown.color
    }

    /// Abandon the running countdown and start over on a fresh focus
    /// countdown, leaving the cycle position alone.
    pub fn reset(&mut self)
        requires
            old(self).config.wf(),
        ensures
            *final(self) == (TomatoModel {
                countdown: fresh_countdown(old(self).config, CountdownType::Focus),
                ..*old(self)
            }),
    {
        self.set_focus();
    }
}

} // verus!
