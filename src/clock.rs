//! How far playback has got: time since the song started, less the time spent paused.
//! Times are milliseconds on a monotonic clock that the caller reads.
use vstd::prelude::*;

verus! {

pub struct PlaybackClock {
    /// When the current song started, if one is playing or paused.
    pub start_ms: Option<u64>,
    /// When the current pause began, if paused.
    pub paused_at_ms: Option<u64>,
    /// Time spent in pauses that have ended.
    pub total_paused_ms: u64,
}

pub open spec fn sat_sub(a: int, b: int) -> int {
    if a > b {
        a - b
    } else {
        0
    }
}

/// Playing time at `now`: time since the start, less the ended pauses, less the pause
/// in progress; never below zero.
pub open spec fn elapsed_at(c: PlaybackClock, now: u64) -> Option<int> {
    match c.start_ms {
        Some(s) => Some(
            sat_sub(
                sat_sub(sat_sub(now as int, s as int), c.total_paused_ms as int),
                match c.paused_at_ms {
                    Some(p) => sat_sub(now as int, p as int),
                    None => 0,
                },
            ),
        ),
        None => None,
    }
}

fn sat_sub_exec(a: u64, b: u64) -> (r: u64)
    ensures
        r == sat_sub(a as int, b as int),
{
    if a > b {
        a - b
    } else {
        0
    }
}

impl PlaybackClock {
    /// A clock with no song.
    pub fn new() -> (r: PlaybackClock)
        ensures
            r.start_ms is None,
            r.paused_at_ms is None,
            r.total_paused_ms == 0,
    {
        PlaybackClock { start_ms: None, paused_at_ms: None, total_paused_ms: 0 }
    }

    /// A song starts playing at `now`.
    pub fn start(&mut self, now: u64)
        ensures
            final(self).start_ms == Some(now),
            final(self).paused_at_ms is None,
            final(self).total_paused_ms == 0,
    {
        self.start_ms = Some(now);
        self.paused_at_ms = None;
        self.total_paused_ms = 0;
    }

    /// Playback stops; no song is left.
    pub fn stop(&mut self)
        ensures
            final(self).start_ms is None,
            final(self).paused_at_ms is None,
            final(self).total_paused_ms == 0,
    {
        self.start_ms = None;
        self.paused_at_ms = None;
        self.total_paused_ms = 0;
    }

    /// A pause begins at `now`, when a song is playing and not already paused.
    pub fn pause(&mut self, now: u64)
        ensures
            final(self).start_ms == old(self).start_ms,
            final(self).total_paused_ms == old(self).total_paused_ms,
            final(self).paused_at_ms == if old(self).start_ms is Some && old(self).paused_at_ms is None {
                Some(now)
            } else {
                old(self).paused_at_ms
            },
    {
        if self.start_ms.is_some() && self.paused_at_ms.is_none() {
            self.paused_at_ms = Some(now);
        }
    }

    /// The pause ends at `now`: its length joins the ended pauses (saturating at the
    /// largest count of milliseconds).
    pub fn resume(&mut self, now: u64)
        ensures
            final(self).start_ms == old(self).start_ms,
            final(self).paused_at_ms is None,
            final(self).total_paused_ms == match old(self).paused_at_ms {
                Some(p) => {
                    let t = old(self).total_paused_ms + sat_sub(now as int, p as int);
                    if t <= u64::MAX { t as u64 } else { u64::MAX }
                },
                None => old(self).total_paused_ms,
            },
    {
        if let Some(p) = self.paused_at_ms {
            let d = sat_sub_exec(now, p);
            self.total_paused_ms = self.total_paused_ms.saturating_add(d);
            self.paused_at_ms = None;
        }
    }

    pub fn is_paused(&self) -> (r: bool)
        ensures
            r == self.paused_at_ms is Some,
    {
        self.paused_at_ms.is_some()
    }

    /// Playing time at `now`, if a song has started.
    pub fn elapsed_ms(&self, now: u64) -> (r: Option<u64>)
        ensures
            match r {
                Some(e) => elapsed_at(*self, now) == Some(e as int),
                None => elapsed_at(*self, now) is None,
            },
    {
        match self.start_ms {
            Some(s) => {
                let e = sat_sub_exec(sat_sub_exec(now, s), self.total_paused_ms);
                let current = match self.paused_at_ms {
                    Some(p) => sat_sub_exec(now, p),
                    None => 0,
                };
                Some(sat_sub_exec(e, current))
            },
            None => None,
        }
    }

    /// Progress through a song of `total_ms`, as the playing time at `now` capped at the
    /// total (progress is the result divided by `total_ms`). None when no song has started
    /// or the total is not known.
    pub fn get_progress_with_duration(&self, now: u64, total_ms: u64) -> (r: Option<u64>)
        ensures
            match elapsed_at(*self, now) {
                Some(e) => if total_ms > 0 {
                    r == Some(if e < total_ms { e as u64 } else { total_ms })
                } else {
                    r is None
                },
                None => r is None,
            },
    {
        match self.elapsed_ms(now) {
            Some(e) => if total_ms > 0 {
                Some(if e < total_ms { e } else { total_ms })
            } else {
                None
            },
            None => None,
        }
    }
}

} // verus!
