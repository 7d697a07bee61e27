//! Choice of buffer size by measured throughput: small buffers for interactive
//! traffic, large ones for bulk transfer.
use vstd::prelude::*;
use std::time::Instant;

verus! {

/// Declares `std::time::Instant` to the verifier, as an opaque value.
#[verifier::external_type_specification]
#[verifier::external_body]
pub struct ExInstant(Instant);

/// Reads the clock.
///
/// Calls `Instant::now`; nothing is claimed of the result.
#[verifier::external_body]
fn instant_now() -> Instant {
    Instant::now()
}

/// Whole seconds since `start`.
///
/// Calls `Instant::elapsed` and `Duration::as_secs`; the result depends on the clock, so
/// nothing is claimed of it.
#[verifier::external_body]
fn elapsed_secs(start: &Instant) -> u64 {
    start.elapsed().as_secs()
}

/// Buffer size class.
#[derive(Debug, Clone, Copy, PartialEq, Eq, Structural)]
pub enum BufferMode {
    /// Small buffers, low latency.
    Standard,
    /// Large buffers, bulk transfer.
    HighThroughput,
}

/// Seconds between throughput measurements.
pub const MEASUREMENT_WINDOW_SECS: u64 = 5;

/// Measures throughput and switches the buffer mode on it.
pub struct AdaptiveBufferManager {
    current_mode: BufferMode,
    bytes_transferred: u64,
    last_mode_switch: Instant,
    measurement_window_secs: u64,
    throughput_threshold: u64,
}

/// The mode a measured throughput calls for.
pub open spec fn mode_for(throughput: int, threshold: u64) -> BufferMode {
    if throughput >= threshold {
        BufferMode::HighThroughput
    } else {
        BufferMode::Standard
    }
}

/// After a measurement step over `count` recorded bytes: either the window had not
/// passed and nothing changed but the count, or it had (some `elapsed` seconds) and
/// the throughput `count / elapsed` picked the mode and the count restarted at zero.
pub open spec fn after_measure(count: int, pre: AdaptiveBufferManager, post: AdaptiveBufferManager) -> bool {
    &&& post.threshold() == pre.threshold()
    &&& post.window_secs() == pre.window_secs()
    &&& (post.mode() == pre.mode() && post.transferred() == count) || (post.transferred() == 0 && exists|
        elapsed: u64,
    |
        elapsed >= pre.window_secs() && mode_for(#[trigger] throughput(count, elapsed), pre.threshold())
            == post.mode())
}

/// Bytes per second: `count` over `elapsed` seconds, at least one.
pub open spec fn throughput(count: int, elapsed: u64) -> int {
    count / (if elapsed >= 1 {
        elapsed as int
    } else {
        1
    })
}

impl AdaptiveBufferManager {
    /// The current mode.
    pub closed spec fn mode(&self) -> BufferMode {
        self.current_mode
    }

    /// Bytes recorded since the last measurement.
    pub closed spec fn transferred(&self) -> u64 {
        self.bytes_transferred
    }

    /// Bytes per second at or above which the large buffers are used.
    pub closed spec fn threshold(&self) -> u64 {
        self.throughput_threshold
    }

    /// Seconds between measurements.
    pub closed spec fn window_secs(&self) -> u64 {
        self.measurement_window_secs
    }

    /// Standard mode, nothing recorded, measuring every five seconds from now.
    pub fn new(throughput_threshold: u64) -> (m: AdaptiveBufferManager)
        ensures
            m.mode() == BufferMode::Standard,
            m.transferred() == 0,
            m.threshold() == throughput_threshold,
            m.window_secs() == MEASUREMENT_WINDOW_SECS,
    {
        AdaptiveBufferManager {
            current_mode: BufferMode::Standard,
            bytes_transferred: 0,
            last_mode_switch: instant_now(),
            measurement_window_secs: MEASUREMENT_WINDOW_SECS,
            throughput_threshold,
        }
    }

    /// The current mode.
    pub fn current_mode(&self) -> (m: BufferMode)
        ensures
            m == self.mode(),
    {
        self.current_mode
    }

    /// Whether `bytes` more can be recorded without passing `u64::MAX`.
    pub fn can_record(&self, bytes: u64) -> (r: bool)
        ensures
            r == (self.transferred() + bytes <= u64::MAX),
    {
        bytes <= u64::MAX - self.bytes_transferred
    }

    /// Adds `bytes` to the bytes recorded since the last measurement.
    pub fn record_transfer(&mut self, bytes: u32)
        requires
            old(self).transferred() + bytes <= u64::MAX,
        ensures
            final(self).transferred() == old(self).transferred() + bytes,
            final(self).mode() == old(self).mode(),
            final(self).threshold() == old(self).threshold(),
            final(self).window_secs() == old(self).window_secs(),
    {
        self.bytes_transferred = self.bytes_transferred + bytes as u64;
    }

    /// The measurement step, given the whole seconds since the last one: before the
    /// window has passed, nothing; after it, the throughput picks the mode, the count
    /// starts again from now, and the new mode is returned if it changed.
    pub fn switch_after(&mut self, elapsed: u64) -> (r: Option<BufferMode>)
        ensures
            final(self).threshold() == old(self).threshold(),
            final(self).window_secs() == old(self).window_secs(),
            elapsed < old(self).window_secs() ==> r is None && final(self).mode() == old(self).mode()
                && final(self).transferred() == old(self).transferred(),
            elapsed >= old(self).window_secs() ==> {
                let t = old(self).transferred() / (if elapsed >= 1 {
                    elapsed
                } else {
                    1
                });
                let m = mode_for(t as int, old(self).threshold());
                &&& final(self).mode() == m
                &&& final(self).transferred() == 0
                &&& r == (if m != old(self).mode() {
                    Some(m)
                } else {
                    None
                })
            },
    {
        if elapsed < self.measurement_window_secs {
            return None;
        }
        let secs = if elapsed >= 1 { elapsed } else { 1 };
        let throughput = self.bytes_transferred / secs;
        let new_mode = if throughput >= self.throughput_threshold {
            BufferMode::HighThroughput
        } else {
            BufferMode::Standard
        };
        let changed = new_mode != self.current_mode;
        self.current_mode = new_mode;
        self.bytes_transferred = 0;
        self.last_mode_switch = instant_now();
        if changed {
            Some(new_mode)
        } else {
            None
        }
    }

    /// The measurement step, with the seconds since the last one read from the clock.
    pub fn should_switch_mode(&mut self) -> (r: Option<BufferMode>)
        ensures
            final(self).threshold() == old(self).threshold(),
            final(self).window_secs() == old(self).window_secs(),
            r matches Some(m) ==> m == final(self).mode() && m != old(self).mode(),
            r is None ==> final(self).mode() == old(self).mode(),
            after_measure(old(self).transferred() as int, *old(self), *final(self)),
    {
        let elapsed = elapsed_secs(&self.last_mode_switch);
        let r = self.switch_after(elapsed);
        proof {
            if elapsed >= old(self).window_secs() {
                assert(mode_for(throughput(old(self).transferred() as int, elapsed), old(self).threshold())
                    == self.mode());
            }
        }
        r
    }

    /// The buffer size for the current mode.
    pub fn buffer_size(&self, standard_size: usize, high_throughput_size: usize) -> (n: usize)
        ensures
            n == (if self.mode() == BufferMode::Standard {
                standard_size
            } else {
                high_throughput_size
            }),
    {
        match self.current_mode {
            BufferMode::Standard => standard_size,
            BufferMode::HighThroughput => high_throughput_size,
        }
    }
}

} // verus!
