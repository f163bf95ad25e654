//! Shared settings: whether triggering is on, the bounds of the random delay,
//! and a generation counter bumped on every change that affects timing.
use vstd::prelude::*;

verus! {

/// Lower bound of the delay, in seconds, before anything is configured.
pub const DEFAULT_MIN_INTERVAL: u64 = 1;

/// Upper bound of the delay, in seconds, before anything is configured.
pub const DEFAULT_MAX_INTERVAL: u64 = 30;

/// A point-in-time reading of the settings, as shown to the user.
#[derive(Clone, Copy, Debug, PartialEq, Eq, Structural)]
pub struct Status {
    pub enabled: bool,
    pub min_time: u64,
    pub max_time: u64,
    pub start_enabled: bool,
}

/// Why a configuration change was refused.
#[derive(Clone, Copy, Debug, PartialEq, Eq, Structural)]
pub enum ConfigError {
    /// The lower bound was above the upper bound.
    InvalidRange,
}

impl ConfigError {
    /// The message shown to the user for this error.
    pub fn message(&self) -> (r: String)
        ensures
            r@ == config_error_text(*self),
    {
        match self {
            ConfigError::InvalidRange => String::from_str(
                "Minimum time cannot be greater than maximum time",
            ),
        }
    }
}

/// The text of each error.
pub open spec fn config_error_text(e: ConfigError) -> Seq<char> {
    match e {
        ConfigError::InvalidRange => "Minimum time cannot be greater than maximum time"@,
    }
}

/// The mathematical content of a `ConfigState`.
pub struct ConfigModel {
    pub enabled: bool,
    pub min_interval: u64,
    pub max_interval: u64,
    pub start_enabled: bool,
    pub generation: u64,
}

/// The settings that the wait loop reads and that commands change.
#[derive(Clone, Copy, Debug)]
pub struct ConfigState {
    enabled: bool,
    min_interval: u64,
    max_interval: u64,
    start_enabled: bool,
    generation: u64,
}

/// The generation that follows `g`; it wraps only after the whole width is used.
pub open spec fn next_generation(g: u64) -> u64 {
    if g == u64::MAX {
        0
    } else {
        (g + 1) as u64
    }
}

impl View for ConfigState {
    type V = ConfigModel;

    closed spec fn view(&self) -> ConfigModel {
        ConfigModel {
            enabled: self.enabled,
            min_interval: self.min_interval,
            max_interval: self.max_interval,
            start_enabled: self.start_enabled,
            generation: self.generation,
        }
    }
}

impl ConfigState {
    /// The bounds are ordered.
    pub open spec fn wf(&self) -> bool {
        self@.min_interval <= self@.max_interval
    }

    /// Disabled, with the default bounds, at generation zero.
    pub fn new() -> (r: ConfigState)
        ensures
            r@ == (ConfigModel {
                enabled: false,
                min_interval: DEFAULT_MIN_INTERVAL,
                max_interval: DEFAULT_MAX_INTERVAL,
                start_enabled: false,
                generation: 0,
            }),
            r.wf(),
    {
        ConfigState {
            enabled: false,
            min_interval: DEFAULT_MIN_INTERVAL,
            max_interval: DEFAULT_MAX_INTERVAL,
            start_enabled: false,
            generation: 0,
        }
    }

    /// Settings restored at start-up: triggering starts on exactly when
    /// `start_enabled` says so. Stored bounds out of order are refused.
    pub fn from_settings(min: u64, max: u64, start_enabled: bool) -> (r: Result<
        ConfigState,
        ConfigError,
    >)
        ensures
            min > max <==> r == Err::<ConfigState, ConfigError>(ConfigError::InvalidRange),
            r matches Ok(c) ==> c@ == (ConfigModel {
                enabled: start_enabled,
                min_interval: min,
                max_interval: max,
                start_enabled,
                generation: 0,
            }) && c.wf(),
    {
        if min > max {
            return Err(ConfigError::InvalidRange);
        }
        Ok(ConfigState { enabled: start_enabled, min_interval: min, max_interval: max, start_enabled, generation: 0 })
    }

    pub fn enabled(&self) -> (r: bool)
        ensures
            r == self@.enabled,
    {
        self.enabled
    }

    pub fn min_interval(&self) -> (r: u64)
        ensures
            r == self@.min_interval,
    {
        self.min_interval
    }

    pub fn max_interval(&self) -> (r: u64)
        ensures
            r == self@.max_interval,
    {
        self.max_interval
    }

    pub fn start_enabled(&self) -> (r: bool)
        ensures
            r == self@.start_enabled,
    {
        self.start_enabled
    }

    pub fn generation(&self) -> (r: u64)
        ensures
            r == self@.generation,
    {
        self.generation
    }

    fn bump_generation(&mut self)
        ensures
            final(self)@ == (ConfigModel { generation: next_generation(old(self)@.generation), ..old(self)@ }),
    {
        if self.generation == u64::MAX {
            self.generation = 0;
        } else {
            self.generation = self.generation + 1;
        }
    }

    /// Replaces both bounds at once and bumps the generation; bounds out of
    /// order are refused and nothing changes.
    pub fn set_bounds(&mut self, min: u64, max: u64) -> (r: Result<(), ConfigError>)
        ensures
            min > max ==> r == Err::<(), ConfigError>(ConfigError::InvalidRange) && final(self)@ == old(self)@,
            min <= max ==> r is Ok && final(self)@ == (ConfigModel {
                min_interval: min,
                max_interval: max,
                generation: next_generation(old(self)@.generation),
                ..old(self)@
            }),
            min <= max && old(self)@.generation < u64::MAX ==> final(self)@.generation > old(self)@.generation,
            old(self).wf() ==> final(self).wf(),
    {
        if min > max {
            return Err(ConfigError::InvalidRange);
        }
        self.min_interval = min;
        self.max_interval = max;
        self.bump_generation();
        Ok(())
    }

    /// Turns triggering on or off; a change of the flag bumps the generation,
    /// setting it to the value it already has changes nothing.
    pub fn set_enabled(&mut self, flag: bool)
        ensures
            final(self)@ == (if flag == old(self)@.enabled {
                old(self)@
            } else {
                ConfigModel { enabled: flag, generation: next_generation(old(self)@.generation), ..old(self)@ }
            }),
            old(self).wf() ==> final(self).wf(),
    {
        if flag != self.enabled {
            self.enabled = flag;
            self.bump_generation();
        }
    }

    /// Whether triggering starts on at the next launch; no effect on timing.
    pub fn set_start_enabled(&mut self, flag: bool)
        ensures
            final(self)@ == (ConfigModel { start_enabled: flag, ..old(self)@ }),
            old(self).wf() ==> final(self).wf(),
    {
        self.start_enabled = flag;
    }

    /// A consistent reading of all the settings shown to the user.
    pub fn snapshot(&self) -> (r: Status)
        ensures
            r == status_of(self@),
    {
        Status {
            enabled: self.enabled,
            min_time: self.min_interval,
            max_time: self.max_interval,
            start_enabled: self.start_enabled,
        }
    }
}

/// What a snapshot of the settings `c` shows.
pub open spec fn status_of(c: ConfigModel) -> Status {
    Status {
        enabled: c.enabled,
        min_time: c.min_interval,
        max_time: c.max_interval,
        start_enabled: c.start_enabled,
    }
}

/// The status command: a snapshot of the settings.
pub fn get_status(config: &ConfigState) -> (r: Status)
    ensures
        r == status_of(config@),
{
    config.snapshot()
}

/// The toggle command: flips triggering and returns the new flag.
pub fn toggle_status(config: &mut ConfigState) -> (r: bool)
    ensures
        r == !old(config)@.enabled,
        final(config)@ == (ConfigModel {
            enabled: r,
            generation: next_generation(old(config)@.generation),
            ..old(config)@
        }),
        old(config).wf() ==> final(config).wf(),
{
    let flag = !config.enabled();
    config.set_enabled(flag);
    flag
}

/// The interval command: sets both bounds, or refuses bounds out of order.
pub fn set_interval(config: &mut ConfigState, min: u64, max: u64) -> (r: Result<(), ConfigError>)
    ensures
        min > max ==> r == Err::<(), ConfigError>(ConfigError::InvalidRange) && final(config)@ == old(config)@,
        min <= max ==> r is Ok && final(config)@ == (ConfigModel {
            min_interval: min,
            max_interval: max,
            generation: next_generation(old(config)@.generation),
            ..old(config)@
        }),
        old(config).wf() ==> final(config).wf(),
{
    config.set_bounds(min, max)
}

/// The start-up command: whether triggering starts on at the next launch.
pub fn set_start_enabled(config: &mut ConfigState, enabled: bool)
    ensures
        final(config)@ == (ConfigModel { start_enabled: enabled, ..old(config)@ }),
        old(config).wf() ==> final(config).wf(),
{
    config.set_start_enabled(enabled)
}

} // verus!
