//! The dispatcher: drops triggers that come too soon after the last one,
//! sometimes swaps the common sound for a rare one, and records each trigger
//! it lets through.
use vstd::prelude::*;
use rand::rngs::StdRng;
use crate::random::{draw_between, draw_ratio};
use crate::stats::{record_boom, record_spec, BoomStats, MAX_EVENT_SECS};

verus! {

/// Least spacing between two triggers that both count, in milliseconds.
pub const DEBOUNCE_MS: u64 = 100;

/// A rare variant is tried with chance `RARE_CHANCE_NUMERATOR` in
/// `RARE_CHANCE_DENOMINATOR`.
pub const RARE_CHANCE_NUMERATOR: u32 = 1;

pub const RARE_CHANCE_DENOMINATOR: u32 = 10;

/// A trigger at `now` passes the debounce gate after one at `last`, with a
/// window of `window` milliseconds: only a later trigger more than `window`
/// after it passes.
pub open spec fn accepts(last: Option<u64>, window: u64, now: u64) -> bool {
    match last {
        Some(l) => now - l > window,
        None => true,
    }
}

/// The sound picked, and whether it is a rare one: the rare variant `pick`
/// where one was drawn and its asset is there, else the common sound.
pub open spec fn selection(
    common: Seq<char>,
    rare: Seq<Seq<char>>,
    available: Seq<bool>,
    pick: Option<int>,
) -> (Seq<char>, bool) {
    match pick {
        Some(i) => if 0 <= i < rare.len() && i < available.len() && available[i] {
            (rare[i], true)
        } else {
            (common, false)
        },
        None => (common, false),
    }
}

pub open spec fn string_view(s: String) -> Seq<char> {
    s@
}

/// Debounce state, the sounds to choose from, and the random source of the
/// rare draws.
pub struct Dispatcher {
    last_dispatch_ms: Option<u64>,
    debounce_ms: u64,
    common: String,
    rare: Vec<String>,
    rng: StdRng,
}

impl Dispatcher {
    pub closed spec fn last_dispatch(&self) -> Option<u64> {
        self.last_dispatch_ms
    }

    pub closed spec fn window(&self) -> u64 {
        self.debounce_ms
    }

    pub closed spec fn common_action(&self) -> Seq<char> {
        self.common@
    }

    pub closed spec fn rare_actions(&self) -> Seq<Seq<char>> {
        self.rare@.map_values(|s: String| string_view(s))
    }

    /// The sound and rarity picked by this dispatcher for the rare draw `pick`.
    pub open spec fn picked(&self, available: Seq<bool>, pick: Option<int>) -> (Seq<char>, bool) {
        selection(self.common_action(), self.rare_actions(), available, pick)
    }

    /// A dispatcher that has let nothing through yet.
    pub fn new(common: String, rare: Vec<String>, debounce_ms: u64, rng: StdRng) -> (r: Dispatcher)
        ensures
            r.last_dispatch() is None,
            r.window() == debounce_ms,
            r.common_action() == common@,
            r.rare_actions() == rare@.map_values(|s: String| string_view(s)),
    {
        Dispatcher { last_dispatch_ms: None, debounce_ms, common, rare, rng }
    }

    /// The time of the last trigger let through, in milliseconds.
    pub fn last_dispatch_ms(&self) -> (r: Option<u64>)
        ensures
            r == self.last_dispatch(),
    {
        self.last_dispatch_ms
    }

    /// The sound for a trigger given the rare draw `pick` (none when the
    /// chance draw failed) and which rare assets are there.
    pub fn select(&self, pick: Option<usize>, available: &Vec<bool>) -> (r: (String, bool))
        ensures
            (r.0@, r.1) == selection(
                self.common_action(),
                self.rare_actions(),
                available@,
                match pick {
                    Some(i) => Some(i as int),
                    None => None,
                },
            ),
    {
        match pick {
            Some(i) => {
                if i < self.rare.len() && i < available.len() && available[i] {
                    (self.rare[i].clone(), true)
                } else {
                    (self.common.clone(), false)
                }
            },
            None => (self.common.clone(), false),
        }
    }

    /// One trigger at `now_ms` (milliseconds since the Unix epoch), with
    /// `available[i]` telling whether the asset of rare variant `i` is there.
    /// Too soon after the last trigger let through, nothing at all changes and
    /// nothing is drawn. Otherwise the trigger is let through: with the
    /// configured chance, and where there are rare variants, one of them is
    /// drawn uniformly; the sound picked is recorded into `stats` at the
    /// whole second of `now_ms` and returned for playing.
    pub fn dispatch(&mut self, now_ms: u64, available: &Vec<bool>, stats: &mut BoomStats) -> (r: Option<String>)
        requires
            old(stats).wf(),
            old(stats)@.total < u64::MAX,
            now_ms / 1000 <= MAX_EVENT_SECS,
        ensures
            final(stats).wf(),
            old(stats).recorded() ==> final(stats).recorded(),
            !accepts(old(self).last_dispatch(), old(self).window(), now_ms) ==> r is None
                && *final(self) == *old(self) && final(stats)@ == old(stats)@,
            accepts(old(self).last_dispatch(), old(self).window(), now_ms) ==> {
                &&& final(self).last_dispatch() == Some(now_ms)
                &&& final(self).window() == old(self).window()
                &&& final(self).common_action() == old(self).common_action()
                &&& final(self).rare_actions() == old(self).rare_actions()
                &&& exists|pick: Option<int>|
                    {
                        &&& (pick matches Some(i) ==> 0 <= i < old(self).rare_actions().len())
                        &&& r matches Some(s) && s@ == old(self).picked(available@, pick).0
                        &&& final(stats)@ == record_spec(
                            old(stats)@,
                            (now_ms / 1000) as i64,
                            old(self).picked(available@, pick).1,
                            old(self).picked(available@, pick).0,
                        )
                    }
            },
    {
        let pass = match self.last_dispatch_ms {
            Some(l) => now_ms > l && now_ms - l > self.debounce_ms,
            None => true,
        };
        if !pass {
            return None;
        }
        self.last_dispatch_ms = Some(now_ms);
        let n = self.rare.len();
        let pick = if n > 0 && draw_ratio(&mut self.rng, RARE_CHANCE_NUMERATOR, RARE_CHANCE_DENOMINATOR) {
            Some(draw_between(&mut self.rng, 0, (n - 1) as u64) as usize)
        } else {
            None
        };
        let ghost gpick = match pick {
            Some(i) => Some(i as int),
            None => None,
        };
        let (sound, is_rare) = self.select(pick, available);
        record_boom(stats, is_rare, sound.clone(), (now_ms / 1000) as i64);
        let r = Some(sound);
        proof {
            assert(r matches Some(s) && s@ == old(self).picked(available@, gpick).0);
        }
        r
    }
}

/// Of two triggers at `t1` and then `t2`, closer than the window, the first
/// is let through when none came before, and once it is (the last trigger is
/// then `t1`), the second is dropped, which changes nothing and draws nothing.
pub proof fn lemma_close_triggers_keep_first(window: u64, t1: u64, t2: u64)
    requires
        t2 - t1 <= window,
    ensures
        accepts(None, window, t1),
        !accepts(Some(t1), window, t2),
{
}

} // verus!
