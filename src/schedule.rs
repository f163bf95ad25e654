//! The wait loop as a state machine: each poll reads the settings and the
//! clock and says whether to sleep for one slice or to fire.
use vstd::prelude::*;
use rand::rngs::StdRng;
use crate::config::{next_generation, ConfigModel, ConfigState};
use crate::random::draw_between;

verus! {

/// Length of one polling slice while a wait is in progress, in milliseconds.
pub const POLL_SLICE_MS: u64 = 100;

/// Length of one slice while triggering is off, in milliseconds.
pub const IDLE_SLICE_MS: u64 = 1000;

/// Where the wait loop stands.
#[derive(Clone, Copy, Debug, PartialEq, Eq, Structural)]
pub enum Phase {
    /// No wait in progress: off, or just fired.
    Idle,
    /// A wait of `delay_secs` seconds that began at `start_ms`, under the
    /// settings of generation `generation`.
    Waiting { start_ms: u64, delay_secs: u64, generation: u64 },
}

/// What the loop does after a poll.
#[derive(Clone, Copy, Debug, PartialEq, Eq, Structural)]
pub enum Action {
    /// Sleep this many milliseconds, then poll again.
    Sleep { millis: u64 },
    /// The wait ran out: dispatch now, then poll again at once.
    Fire,
}

/// Whole seconds gone from `start` to `now` (both in milliseconds); a clock
/// read before `start` counts as none.
pub open spec fn elapsed_secs(start: u64, now: u64) -> int {
    if now >= start {
        (now - start) / 1000
    } else {
        0
    }
}

/// `p` is a wait begun under the current settings `cfg`, which are on.
pub open spec fn wait_is_current(p: Phase, cfg: ConfigModel) -> bool {
    cfg.enabled && match p {
        Phase::Waiting { generation, .. } => generation == cfg.generation,
        Phase::Idle => false,
    }
}

/// A poll under `cfg` in phase `p` begins a new wait.
pub open spec fn needs_new_wait(p: Phase, cfg: ConfigModel) -> bool {
    cfg.enabled && !wait_is_current(p, cfg)
}

/// The wait `p` has run out at `now`.
pub open spec fn expired(p: Phase, now: u64) -> bool {
    match p {
        Phase::Waiting { start_ms, delay_secs, .. } => elapsed_secs(start_ms, now) >= delay_secs,
        Phase::Idle => false,
    }
}

/// One poll at `now` in phase `p` under settings `cfg`; `drawn` is the delay
/// for a wait begun by this poll. Off: idle. A wait of another generation or
/// none at all: a new one from now. Then fire if the wait has run out.
pub open spec fn step_spec(p: Phase, cfg: ConfigModel, now: u64, drawn: u64) -> (Phase, Action) {
    if !cfg.enabled {
        (Phase::Idle, Action::Sleep { millis: IDLE_SLICE_MS })
    } else {
        let w = if wait_is_current(p, cfg) {
            p
        } else {
            Phase::Waiting { start_ms: now, delay_secs: drawn, generation: cfg.generation }
        };
        if expired(w, now) {
            (Phase::Idle, Action::Fire)
        } else {
            (w, Action::Sleep { millis: POLL_SLICE_MS })
        }
    }
}

/// One poll, with the delay drawn beforehand: `drawn` matters only where the
/// poll begins a new wait.
pub fn step(phase: Phase, config: &ConfigState, now_ms: u64, drawn: u64) -> (r: (Phase, Action))
    ensures
        r == step_spec(phase, config@, now_ms, drawn),
{
    if !config.enabled() {
        return (Phase::Idle, Action::Sleep { millis: IDLE_SLICE_MS });
    }
    let current = match phase {
        Phase::Waiting { generation, .. } => generation == config.generation(),
        Phase::Idle => false,
    };
    let w = if current {
        phase
    } else {
        Phase::Waiting { start_ms: now_ms, delay_secs: drawn, generation: config.generation() }
    };
    let done = match w {
        Phase::Waiting { start_ms, delay_secs, .. } => {
            let secs = if now_ms >= start_ms {
                (now_ms - start_ms) / 1000
            } else {
                0
            };
            secs >= delay_secs
        },
        Phase::Idle => false,
    };
    if done {
        (Phase::Idle, Action::Fire)
    } else {
        (w, Action::Sleep { millis: POLL_SLICE_MS })
    }
}

/// The wait loop's state and its own random source for delays.
pub struct Scheduler {
    phase: Phase,
    rng: StdRng,
}

impl Scheduler {
    pub closed spec fn current(&self) -> Phase {
        self.phase
    }

    /// An idle loop that draws its delays from `rng`.
    pub fn new(rng: StdRng) -> (r: Scheduler)
        ensures
            r.current() == Phase::Idle,
    {
        Scheduler { phase: Phase::Idle, rng }
    }

    pub fn phase(&self) -> (r: Phase)
        ensures
            r == self.current(),
    {
        self.phase
    }

    /// One poll at `now_ms`. A new wait gets a delay drawn uniformly from
    /// the current bounds, both included; otherwise nothing is drawn.
    pub fn tick(&mut self, config: &ConfigState, now_ms: u64) -> (r: Action)
        requires
            config.wf(),
        ensures
            needs_new_wait(old(self).current(), config@) ==> exists|d: u64|
                config@.min_interval <= d <= config@.max_interval
                && (final(self).current(), r) == step_spec(old(self).current(), config@, now_ms, d),
            !needs_new_wait(old(self).current(), config@) ==> (final(self).current(), r)
                == step_spec(old(self).current(), config@, now_ms, 0),
    {
        let current = match self.phase {
            Phase::Waiting { generation, .. } => generation == config.generation(),
            Phase::Idle => false,
        };
        let drawn = if config.enabled() && !current {
            draw_between(&mut self.rng, config.min_interval(), config.max_interval())
        } else {
            0
        };
        let (p, a) = step(self.phase, config, now_ms, drawn);
        self.phase = p;
        a
    }
}

/// A wait begun with both bounds at `a` seconds, left alone, fires at the
/// first poll at least `a` whole seconds after it began, and not before.
pub proof fn lemma_fixed_delay_fires_on_time(cfg: ConfigModel, start: u64, now: u64, d: u64, later: u64)
    requires
        cfg.enabled,
        cfg.min_interval == cfg.max_interval,
        cfg.min_interval <= d <= cfg.max_interval,
        now >= start,
    ensures
        d == cfg.min_interval,
        cfg.min_interval == 0 ==> step_spec(Phase::Idle, cfg, start, d).1 == Action::Fire,
        cfg.min_interval > 0 ==> step_spec(Phase::Idle, cfg, start, d) == (
            Phase::Waiting { start_ms: start, delay_secs: cfg.min_interval, generation: cfg.generation },
            Action::Sleep { millis: POLL_SLICE_MS },
        ),
        cfg.min_interval > 0 ==> (step_spec(step_spec(Phase::Idle, cfg, start, d).0, cfg, now, later).1
            == Action::Fire <==> now - start >= 1000 * cfg.min_interval),
{
    let a = cfg.min_interval as int;
    let x = now - start;
    assert(x / 1000 >= a <==> x >= 1000 * a) by (nonlinear_arith)
        requires
            x >= 0,
    ;
}

/// A wait begun under settings `before` is dropped as soon as a poll sees
/// settings of another generation: the poll acts as if no wait had been in
/// progress, drawing from the new bounds, or idles if triggering is now off.
/// The stale delay never fires. Every accepted change of the bounds or of the
/// flag moves to the next generation, which differs from the one before.
pub proof fn lemma_changed_settings_abandon_wait(
    p: Phase,
    before: ConfigModel,
    after: ConfigModel,
    now: u64,
    d: u64,
)
    requires
        p matches Phase::Waiting { generation, .. } && generation == before.generation,
        after.generation != before.generation,
    ensures
        next_generation(before.generation) != before.generation,
        step_spec(p, after, now, d) == step_spec(Phase::Idle, after, now, d),
        !after.enabled ==> step_spec(p, after, now, d) == (
            Phase::Idle,
            Action::Sleep { millis: IDLE_SLICE_MS },
        ),
{
}

} // verus!
