//! Presentation times, and the timestamps a driver carries them in.

use vstd::prelude::*;

use crate::error::Error;

verus! {

/// A span of time as a V4L2 buffer carries it: whole seconds and microseconds.
#[derive(Clone, Copy, Debug, PartialEq, Eq, Structural)]
pub struct Duration {
    secs: u64,
    micros: u32,
}

impl Duration {
    pub closed spec fn spec_secs(self) -> u64 {
        self.secs
    }

    pub closed spec fn spec_subsec(self) -> u32 {
        self.micros
    }

    /// The microseconds in the span.
    pub open spec fn total(self) -> int {
        self.spec_secs() * 1_000_000 + self.spec_subsec()
    }

    pub open spec fn wf(self) -> bool {
        self.spec_subsec() < 1_000_000
    }

    /// The span of `micros` microseconds.
    pub closed spec fn of(micros: u64) -> Duration {
        Duration { secs: micros / 1_000_000, micros: (micros % 1_000_000) as u32 }
    }

    /// No time at all.
    pub fn zero() -> (r: Duration)
        ensures
            r == Duration::of(0),
            r.wf(),
            r.total() == 0,
    {
        Duration { secs: 0, micros: 0 }
    }

    pub fn from_micros(micros: u64) -> (r: Duration)
        ensures
            r == Duration::of(micros),
            r.wf(),
            r.total() == micros,
    {
        Duration { secs: micros / 1_000_000, micros: (micros % 1_000_000) as u32 }
    }

    /// The span in a kernel `timeval`, whose microseconds may run past a second.
    pub fn from_timeval(sec: u64, usec: u32) -> (r: Duration)
        requires
            1_000 * usec <= u32::MAX,
            sec + usec / 1_000_000 <= u64::MAX,
        ensures
            r.wf(),
            r.total() == sec * 1_000_000 + usec,
    {
        Duration { secs: sec + (usec / 1_000_000) as u64, micros: usec % 1_000_000 }
    }

    /// Whole seconds, which is a `timeval`'s `tv_sec`.
    pub fn as_secs(self) -> (secs: u64)
        requires
            self.wf(),
        ensures
            secs == self.total() / 1_000_000,
    {
        self.secs
    }

    /// Microseconds past the whole second, which is a `timeval`'s `tv_usec`.
    pub fn subsec_micros(self) -> (micros: u32)
        requires
            self.wf(),
        ensures
            micros == self.total() % 1_000_000,
    {
        self.micros
    }

    pub fn as_micros(self) -> (micros: u128)
        ensures
            micros == self.total(),
    {
        self.secs as u128 * 1_000_000 + self.micros as u128
    }
}

/// The microseconds in a driver's timestamp, as far as 64 bits go.
pub open spec fn stamped(timestamp: Duration) -> u64 {
    (timestamp.total() % 0x1_0000_0000_0000_0000) as u64
}

/// The microseconds in a driver's timestamp, as far as 64 bits go.
pub fn stamp(timestamp: Duration) -> (micros: u64)
    ensures
        micros == stamped(timestamp),
{
    let micros = timestamp.as_micros();
    assert(micros as u64 == micros % 0x1_0000_0000_0000_0000) by (bit_vector);
    micros as u64
}

/// When a timeout that starts at `now` runs out, both in nanoseconds.
pub fn until(now: u64, timeout: u64) -> (deadline: u128)
    ensures
        deadline == now + timeout,
{
    now as u128 + timeout as u128
}

/// Two spans of the same length are the same span.
pub proof fn lemma_duration_is_its_length(a: Duration, b: Duration)
    requires
        a.wf(),
        b.wf(),
        a.total() == b.total(),
    ensures
        a == b,
{
}

/// A span holds the microseconds it was made from.
pub proof fn lemma_span_of(micros: u64)
    ensures
        Duration::of(micros).wf(),
        Duration::of(micros).total() == micros,
{
}

/// When a picture is shown, in microseconds since the broadcast began.
#[derive(Clone, Copy, Debug, PartialEq, Eq, Structural)]
pub struct Timestamp {
    micros: u64,
}

/// The largest time a QUIC variable-length integer carries.
pub const MAX_TIMESTAMP: u64 = 0x3fff_ffff_ffff_ffff;

impl Timestamp {
    pub closed spec fn view(self) -> u64 {
        self.micros
    }

    /// The time `micros` microseconds in.
    pub closed spec fn of(micros: u64) -> Timestamp {
        Timestamp { micros }
    }

    /// The time `micros` microseconds in, unless it is too far out to send.
    pub fn from_micros(micros: u64) -> (r: Result<Timestamp, Error>)
        ensures
            match r {
                Ok(timestamp) => {
                    &&& micros <= MAX_TIMESTAMP
                    &&& timestamp == Timestamp::of(micros)
                    &&& timestamp@ == micros
                },
                Err(err) => micros > MAX_TIMESTAMP && err == Error::TimestampRange { micros },
            },
    {
        if micros > MAX_TIMESTAMP {
            Err(Error::TimestampRange { micros })
        } else {
            Ok(Timestamp { micros })
        }
    }

    pub fn as_micros(self) -> (micros: u128)
        ensures
            micros == self@,
    {
        self.micros as u128
    }
}

/// A time that went to a driver as a span comes back as the same time, whichever it is.
pub proof fn law_a_time_is_its_microseconds(micros: u64)
    ensures
        Duration::of(micros).spec_secs() * 1_000_000 + Duration::of(micros).spec_subsec() == micros,
        Duration::of(micros).spec_subsec() < 1_000_000,
        stamped(Duration::of(micros)) == micros,
        Timestamp::of(micros)@ == micros,
{
    lemma_span_of(micros);
}

/// A span that 64 bits of microseconds can count is stamped in full; a longer one wraps.
pub proof fn law_a_stamp_is_the_whole_span(span: Duration, wraps: int)
    requires
        0 <= span.spec_secs() * 1_000_000 + span.spec_subsec() - wraps * 0x1_0000_0000_0000_0000
            <= u64::MAX,
    ensures
        stamped(span) == span.spec_secs() * 1_000_000 + span.spec_subsec() - wraps
            * 0x1_0000_0000_0000_0000,
{
    let total = span.spec_secs() * 1_000_000 + span.spec_subsec();
    vstd::arithmetic::div_mod::lemma_fundamental_div_mod_converse(
        total,
        0x1_0000_0000_0000_0000,
        wraps,
        total - wraps * 0x1_0000_0000_0000_0000,
    );
}

} // verus!
