//! Points in time and spans of time.
use rasn::types::GeneralizedTime;
use vstd::prelude::*;

verus! {

/// The DER GeneralizedTime of the instant `secs` seconds and `nanos`
/// nanoseconds after the epoch.
pub uninterp spec fn time_der(secs: i64, nanos: u32) -> Seq<u8>;

/// The instant that a DER GeneralizedTime stands for, as seconds and
/// nanoseconds after the epoch.
pub uninterp spec fn time_parse(der: Seq<u8>) -> Option<(i64, u32)>;

/// The instants of the years 0 to 9999; a nanosecond count of a billion or
/// more stands for a leap second, which only follows second 59.
pub open spec fn time_ok(secs: i64, nanos: u32) -> bool {
    &&& -62_167_219_200 <= secs <= 253_402_300_799
    &&& nanos < 2_000_000_000
    &&& nanos >= 1_000_000_000 ==> secs % 60 == 59
}

/// `rasn::der::encode` of a GeneralizedTime that `chrono` makes of the
/// seconds and nanoseconds: a function of both, which `rasn::der::decode`
/// takes back.
#[verifier::external_body]
fn encode_time(secs: i64, nanos: u32) -> (r: Vec<u8>)
    requires
        time_ok(secs, nanos),
    ensures
        r@ == time_der(secs, nanos),
        time_parse(r@) == Some((secs, nanos)),
{
    let t: GeneralizedTime = chrono::DateTime::from_timestamp(secs, nanos).expect("in range").fixed_offset();
    rasn::der::encode(&t).expect("a time always encodes")
}

/// `rasn::der::decode` of a GeneralizedTime: a function of the octets. The
/// text form has a four-digit year and at most a leap second.
#[verifier::external_body]
fn decode_time(der: &[u8]) -> (r: Option<(i64, u32)>)
    ensures
        r == time_parse(der@),
        r matches Some((s, n)) ==> time_ok(s, n),
{
    match rasn::der::decode::<GeneralizedTime>(der) {
        Ok(t) => Some((t.timestamp(), t.timestamp_subsec_nanos())),
        Err(_) => None,
    }
}

/// `chrono::Utc::now`, as seconds and nanoseconds after the epoch. Of the
/// reading only the nanosecond bound is claimed.
#[verifier::external_body]
fn utc_now() -> (r: (i64, u32))
    ensures
        r.1 < 2_000_000_000,
{
    let t = chrono::Utc::now();
    (t.timestamp(), t.timestamp_subsec_nanos())
}

/// A clock reading: seconds and nanoseconds after the epoch.
#[derive(Debug, Clone, Copy, PartialEq, Eq, Structural)]
pub struct Moment {
    /// Seconds after the epoch.
    pub secs: i64,
    /// Nanoseconds beyond the seconds.
    pub nanos: u32,
}

impl Moment {
    /// Nanoseconds after the epoch.
    pub open spec fn total(self) -> int {
        self.secs * 1_000_000_000 + self.nanos
    }

    /// The present moment, by the system clock.
    pub fn now() -> (r: Moment)
        ensures
            r.nanos < 2_000_000_000,
    {
        let (secs, nanos) = utc_now();
        Moment { secs, nanos }
    }

    /// Nanoseconds after the epoch.
    pub fn total_nanos(&self) -> (r: i128)
        ensures
            r == self.total(),
            -0x10_0000_0000_0000_0000_0000_0000 <= r <= 0x10_0000_0000_0000_0000_0000_0000,
    {
        self.secs as i128 * 1_000_000_000 + self.nanos as i128
    }
}

/// The timestamp of the whole second of an instant given in nanoseconds.
pub open spec fn stamp_of(total: int) -> TimeV {
    TimeV { secs: clamp_secs(total / 1_000_000_000), nanos: 0 }
}

/// The microseconds of an instant given in nanoseconds.
pub open spec fn usec_of(total: int) -> i32 {
    (total % 1_000_000_000 / 1_000) as i32
}

/// Splits an instant given in nanoseconds into its whole second and its
/// microseconds.
pub fn split_nanos(total: i128) -> (r: (KerberosTime, i32))
    requires
        -0x100_0000_0000_0000_0000_0000_0000 <= total <= 0x100_0000_0000_0000_0000_0000_0000,
    ensures
        r.0@ == stamp_of(total as int),
        r.1 == usec_of(total as int),
{
    let base: i128 = 1_000_000_000;
    let shift: i128 = 0x1000_0000_0000_0000_0000_0000;
    let up: i128 = total + shift * base;
    let q: i128 = up / base - shift;
    let rem: i128 = up % base;
    assert(q == total as int / 1_000_000_000 && rem == total as int % 1_000_000_000);
    let s: i64 = if q < -62_167_219_200 {
        -62_167_219_200
    } else if q > 253_402_300_799 {
        253_402_300_799
    } else {
        q as i64
    };
    (KerberosTime { secs: s, nanos: 0 }, (rem / 1_000) as i32)
}

/// A Kerberos timestamp: an instant of the years 0 to 9999.
#[derive(Debug, Clone, Copy, PartialEq, Eq, Structural)]
pub struct KerberosTime {
    secs: i64,
    nanos: u32,
}

/// Model of [`KerberosTime`].
pub struct TimeV {
    pub secs: i64,
    pub nanos: u32,
}

impl TimeV {
    /// Nanoseconds after the epoch.
    pub open spec fn total(self) -> int {
        self.secs * 1_000_000_000 + self.nanos
    }

    /// Whether this is an instant a timestamp can hold.
    pub open spec fn ok(self) -> bool {
        time_ok(self.secs, self.nanos)
    }
}

impl View for KerberosTime {
    type V = TimeV;

    closed spec fn view(&self) -> TimeV {
        TimeV { secs: self.secs, nanos: self.nanos }
    }
}

/// The whole second that a timestamp for `secs` holds: `secs` itself, or the
/// nearest end of the years 0 to 9999.
pub open spec fn clamp_secs(secs: int) -> i64 {
    if secs < -62_167_219_200 {
        -62_167_219_200i64
    } else if secs > 253_402_300_799 {
        253_402_300_799i64
    } else {
        secs as i64
    }
}

impl KerberosTime {
    #[verifier::type_invariant]
    spec fn wf(self) -> bool {
        time_ok(self.secs, self.nanos)
    }

    /// The timestamp of an instant, if the years 0 to 9999 hold it.
    pub fn new(secs: i64, nanos: u32) -> (r: Option<KerberosTime>)
        ensures
            match r {
                Some(t) => time_ok(secs, nanos) && t@ == (TimeV { secs, nanos }),
                None => !time_ok(secs, nanos),
            },
    {
        if secs < -62_167_219_200 || secs > 253_402_300_799 || nanos >= 2_000_000_000 {
            return None;
        }
        if nanos >= 1_000_000_000 && (secs + 62_167_219_200) % 60 != 59 {
            return None;
        }
        Some(KerberosTime { secs, nanos })
    }

    /// The timestamp of a whole second; outside of the years 0 to 9999, of
    /// the nearest second inside.
    pub fn from_secs(secs: i64) -> (r: KerberosTime)
        ensures
            r@ == (TimeV { secs: clamp_secs(secs as int), nanos: 0 }),
            r@.ok(),
    {
        let s: i64 = if secs < -62_167_219_200 {
            -62_167_219_200
        } else if secs > 253_402_300_799 {
            253_402_300_799
        } else {
            secs
        };
        KerberosTime { secs: s, nanos: 0 }
    }

    /// Whether two timestamps are the same instant.
    pub fn same(&self, other: &KerberosTime) -> (r: bool)
        ensures
            r == (self@ == other@),
    {
        self.secs == other.secs && self.nanos == other.nanos
    }

    /// Seconds after the epoch.
    pub fn timestamp(&self) -> (r: i64)
        ensures
            r == self@.secs,
    {
        self.secs
    }

    /// Nanoseconds after the epoch. A timestamp always holds an instant of
    /// the years 0 to 9999.
    pub fn total_nanos(&self) -> (r: i128)
        ensures
            r == self@.total(),
            self@.ok(),
    {
        proof {
            use_type_invariant(&*self);
        }
        self.secs as i128 * 1_000_000_000 + self.nanos as i128
    }

    /// The DER GeneralizedTime of this timestamp.
    pub fn to_der(&self) -> (r: Vec<u8>)
        ensures
            r@ == time_der(self@.secs, self@.nanos),
            self@.ok(),
            time_parse(r@) == Some((self@.secs, self@.nanos)),
    {
        proof {
            use_type_invariant(&*self);
        }
        encode_time(self.secs, self.nanos)
    }

    /// The timestamp of a DER GeneralizedTime.
    pub fn from_der(der: &[u8]) -> (r: Option<KerberosTime>)
        ensures
            match r {
                Some(t) => time_parse(der@) == Some((t@.secs, t@.nanos)),
                None => time_parse(der@) is None,
            },
    {
        match decode_time(der) {
            None => None,
            Some((secs, nanos)) => Some(KerberosTime { secs, nanos }),
        }
    }
}

/// A span of time.
#[derive(Debug, Clone, Copy, PartialEq, Eq, Structural)]
pub struct Duration {
    /// Whole seconds.
    pub secs: u64,
    /// Nanoseconds beyond the whole seconds.
    pub nanos: u32,
}

impl Duration {
    /// The span in nanoseconds.
    pub open spec fn total(self) -> int {
        self.secs * 1_000_000_000 + self.nanos
    }

    /// A span of whole seconds.
    pub fn from_secs(secs: u64) -> (r: Duration)
        ensures
            r == (Duration { secs, nanos: 0 }),
    {
        Duration { secs, nanos: 0 }
    }

    /// The whole seconds of the span.
    pub fn as_secs(&self) -> (r: u64)
        ensures
            r == self.secs,
    {
        self.secs
    }

    /// The span in nanoseconds.
    pub fn total_nanos(&self) -> (r: i128)
        ensures
            r == self.total(),
    {
        self.secs as i128 * 1_000_000_000 + self.nanos as i128
    }

    /// Twice the span, or the longest one.
    pub open spec fn twice(self) -> Duration {
        let nanos = 2 * self.nanos;
        let secs = 2 * self.secs + nanos / 1_000_000_000;
        if secs > u64::MAX {
            Duration { secs: u64::MAX, nanos: 999_999_999 }
        } else {
            Duration { secs: secs as u64, nanos: (nanos % 1_000_000_000) as u32 }
        }
    }

    /// The shorter of two spans.
    pub open spec fn shorter(self, other: Duration) -> Duration {
        if other.total() < self.total() { other } else { self }
    }

    /// Twice the span, or the longest one.
    pub fn doubled(&self) -> (r: Duration)
        ensures
            r == self.twice(),
    {
        let nanos: u64 = self.nanos as u64 * 2;
        let secs: u128 = self.secs as u128 * 2 + (nanos / 1_000_000_000) as u128;
        if secs > 0xFFFF_FFFF_FFFF_FFFF {
            Duration { secs: u64::MAX, nanos: 999_999_999 }
        } else {
            Duration { secs: secs as u64, nanos: (nanos % 1_000_000_000) as u32 }
        }
    }

    /// The shorter of two spans.
    pub fn min_with(&self, other: &Duration) -> (r: Duration)
        ensures
            r == self.shorter(*other),
    {
        if other.total_nanos() < self.total_nanos() {
            *other
        } else {
            *self
        }
    }

    /// Whether the span is empty.
    pub fn is_zero(&self) -> (r: bool)
        ensures
            r == (self.total() == 0),
    {
        self.secs == 0 && self.nanos == 0
    }
}

/// How a span of time is written, such as `300s`.
pub uninterp spec fn span_text(secs: u64, nanos: u32) -> Seq<char>;

/// The `Debug` form of `std::time::Duration` that `format!` writes, for the
/// span that `std::time::Duration::new` makes of these seconds and
/// nanoseconds: a function of the two.
#[verifier::external_body]
pub(crate) fn write_span(secs: u64, nanos: u32) -> (r: String)
    requires
        nanos < 1_000_000_000,
    ensures
        r@ == span_text(secs, nanos),
{
    format!("{:?}", std::time::Duration::new(secs, nanos))
}

impl Duration {
    /// The span with its nanoseconds below a second, or the longest one.
    pub open spec fn whole(self) -> Duration {
        let secs = self.secs + self.nanos / 1_000_000_000;
        if secs > u64::MAX {
            Duration { secs: u64::MAX, nanos: 999_999_999 }
        } else {
            Duration { secs: secs as u64, nanos: self.nanos % 1_000_000_000 }
        }
    }

    /// How the span is written.
    pub fn text(&self) -> (r: String)
        ensures
            r@ == span_text(self.whole().secs, self.whole().nanos),
    {
        let secs: u128 = self.secs as u128 + (self.nanos / 1_000_000_000) as u128;
        if secs > 0xFFFF_FFFF_FFFF_FFFF {
            write_span(u64::MAX, 999_999_999)
        } else {
            write_span(secs as u64, self.nanos % 1_000_000_000)
        }
    }
}

} // verus!
