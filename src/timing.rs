use vstd::prelude::*;

verus! {

/// How many recent frames the frame rate is averaged over.
pub const FRAME_WINDOW: usize = 60;

/// The sum of the frame durations in `s`.
pub open spec fn total_ns(s: Seq<u64>) -> int
    decreases s.len(),
{
    if s.len() == 0 {
        0
    } else {
        total_ns(s.drop_last()) + s.last()
    }
}

/// Frames a second over the window, rounded to the nearest integer and
/// capped at `u32::MAX`: `FRAME_WINDOW` frames in `total` nanoseconds.
pub open spec fn fps_of(total: int) -> int {
    if total <= 0 {
        0
    } else {
        let r = (2 * 60 * 1_000_000_000 + total) / (2 * total);
        if r > u32::MAX {
            u32::MAX as int
        } else {
            r
        }
    }
}

/// Frame timing on a monotonic clock measured in nanoseconds: the time since
/// start, the last frame's duration, and the durations of the last
/// `FRAME_WINDOW` frames in a ring.
pub struct Time {
    pub start_ns: u64,
    pub current_ns: u64,
    pub delta_ns: u64,
    pub frame_times: Vec<u64>,
    pub frame_index: usize,
    pub last_update_ns: u64,
}

impl Time {
    pub open spec fn wf(&self) -> bool {
        &&& self.frame_times@.len() == FRAME_WINDOW
        &&& self.frame_index < FRAME_WINDOW
        &&& self.start_ns <= self.last_update_ns
    }

    /// Timing that starts at clock reading `now_ns`, with no frames yet.
    pub fn new(now_ns: u64) -> (r: Time)
        ensures
            r.wf(),
            r.start_ns == now_ns,
            r.last_update_ns == now_ns,
            r.current_ns == 0,
            r.delta_ns == 0,
            total_ns(r.frame_times@) == 0,
    {
        let mut frame_times: Vec<u64> = Vec::new();
        let mut i: usize = 0;
        while i < FRAME_WINDOW
            invariant
                i <= FRAME_WINDOW,
                frame_times@.len() == i,
                total_ns(frame_times@) == 0,
            decreases FRAME_WINDOW - i,
        {
            let ghost before = frame_times@;
            frame_times.push(0);
            assert(frame_times@.drop_last() == before);
            i = i + 1;
        }
        Time {
            start_ns: now_ns,
            current_ns: 0,
            delta_ns: 0,
            frame_times,
            frame_index: 0,
            last_update_ns: now_ns,
        }
    }

}

/// Records a frame that ends at clock reading `now_ns`.
pub fn update(time: &mut Time, now_ns: u64)
    requires
        old(time).wf(),
        old(time).last_update_ns <= now_ns,
    ensures
        final(time).wf(),
        final(time).delta_ns == now_ns - old(time).last_update_ns,
        final(time).current_ns == now_ns - old(time).start_ns,
        final(time).last_update_ns == now_ns,
        final(time).start_ns == old(time).start_ns,
        final(time).frame_times@ == old(time).frame_times@.update(
            old(time).frame_index as int,
            final(time).delta_ns,
        ),
        final(time).frame_index == (old(time).frame_index + 1) % (FRAME_WINDOW as int),
{
    let delta = now_ns - time.last_update_ns;
    time.delta_ns = delta;
    time.last_update_ns = now_ns;
    time.current_ns = now_ns - time.start_ns;
    time.frame_times.set(time.frame_index, delta);
    time.frame_index = (time.frame_index + 1) % FRAME_WINDOW;
}

/// The average frame rate over the window, rounded; `0` before any time passed.
pub fn get_fps(time: &Time) -> (r: u32)
    requires
        time.wf(),
    ensures
        r == fps_of(total_ns(time.frame_times@)),
{
    let mut total: u128 = 0;
    let mut i: usize = 0;
    while i < time.frame_times.len()
        invariant
            i <= time.frame_times@.len(),
            time.frame_times@.len() == FRAME_WINDOW,
            total == total_ns(time.frame_times@.take(i as int)),
            total <= i * 0xffff_ffff_ffff_ffffu128,
        decreases time.frame_times@.len() - i,
    {
        let ghost t = time.frame_times@.take(i as int + 1);
        assert(t.drop_last() == time.frame_times@.take(i as int));
        total = total + time.frame_times[i] as u128;
        i = i + 1;
    }
    assert(time.frame_times@.take(FRAME_WINDOW as int) == time.frame_times@);
    if total == 0 {
        return 0;
    }
    let r = (120_000_000_000u128 + total) / (2 * total);
    if r > 0xffff_ffffu128 {
        0xffff_ffff
    } else {
        r as u32
    }
}

/// What the frame limiter carries from one frame to the next: how much the
/// last sleep overshot and how long the last frame's work took.
pub struct SleepTimer {
    pub oversleep_ns: u64,
    pub frametime_ns: u64,
}

impl SleepTimer {
    pub fn new() -> (r: SleepTimer)
        ensures
            r.oversleep_ns == 0,
            r.frametime_ns == 0,
    {
        SleepTimer { oversleep_ns: 0, frametime_ns: 0 }
    }

    /// How long to sleep so that a frame whose work took `frame_time_ns` lasts
    /// `limit_ns`, allowing for the last oversleep; never negative.
    pub fn sleep_duration(&self, limit_ns: u64, frame_time_ns: u64) -> (r: u64)
        ensures
            r == if frame_time_ns + self.oversleep_ns >= limit_ns {
                0
            } else {
                limit_ns - frame_time_ns - self.oversleep_ns
            },
    {
        let busy = frame_time_ns.saturating_add(self.oversleep_ns);
        limit_ns.saturating_sub(busy)
    }

    /// Records a frame whose work took `frame_time_ns` and which, sleep
    /// included, lasted `frame_total_ns` against a budget of `limit_ns`.
    pub fn record(&mut self, limit_ns: u64, frame_time_ns: u64, frame_total_ns: u64)
        ensures
            final(self).frametime_ns == frame_time_ns,
            final(self).oversleep_ns == if frame_total_ns >= limit_ns {
                frame_total_ns - limit_ns
            } else {
                0
            },
    {
        self.frametime_ns = frame_time_ns;
        self.oversleep_ns = frame_total_ns.saturating_sub(limit_ns);
    }
}

/// The frame budget in nanoseconds: one second over the target frame rate
/// when one is set, else `detect_frametime` of the display's refresh rate.
pub fn frame_limit_ns(target_frame_rate: Option<u32>, refresh_millihertz: Option<u32>) -> (r: u64)
    requires
        target_frame_rate matches Some(f) ==> f > 0,
    ensures
        r == match target_frame_rate {
            Some(f) => 1_000_000_000int / (f as int),
            None => detect_frametime_spec(refresh_millihertz),
        },
{
    match target_frame_rate {
        Some(f) => 1_000_000_000u64 / (f as u64),
        None => detect_frametime(refresh_millihertz),
    }
}

pub open spec fn detect_frametime_spec(refresh_millihertz: Option<u32>) -> int {
    let mhz: int = match refresh_millihertz {
        Some(m) => if m > 500 { m as int } else { 30_000 },
        None => 30_000,
    };
    2_000_000_000_000int / (2 * mhz - 1000)
}

/// The frame budget in nanoseconds for a display refreshing at
/// `refresh_millihertz`: a little longer than one refresh period, as for a
/// rate half a hertz below the display's. An unknown or implausible rate
/// (at most half a hertz) counts as 30 Hz.
pub fn detect_frametime(refresh_millihertz: Option<u32>) -> (r: u64)
    ensures
        r == detect_frametime_spec(refresh_millihertz),
{
    let mhz: u64 = match refresh_millihertz {
        Some(m) => if m > 500 { m as u64 } else { 30_000 },
        None => 30_000,
    };
    2_000_000_000_000u64 / (2 * mhz - 1000)
}

} // verus!
