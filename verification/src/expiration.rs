use vstd::prelude::*;

verus! {

/// The block height and block time (in nanoseconds) at which an operation runs.
#[derive(Clone, Copy, Debug, PartialEq, Eq, Structural)]
pub struct BlockInfo {
    pub height: u64,
    pub time_nanos: u64,
}

/// A point at which a proposal stops accepting submissions: a block height,
/// a block time in nanoseconds, or never.
#[derive(Clone, Copy, Debug, PartialEq, Eq, Structural)]
pub enum Expiration {
    AtHeight(u64),
    AtTime(u64),
    Never,
}

/// A length of time, counted in blocks or in seconds.
#[derive(Clone, Copy, Debug, PartialEq, Eq, Structural)]
pub enum Duration {
    Height(u64),
    Time(u64),
}

pub const NANOS_PER_SECOND: u64 = 1_000_000_000;

pub open spec fn spec_is_expired(e: Expiration, b: BlockInfo) -> bool {
    match e {
        Expiration::AtHeight(h) => b.height >= h,
        Expiration::AtTime(t) => b.time_nanos >= t,
        Expiration::Never => false,
    }
}

/// The expiration reached by waiting `d` from block `b`.
pub open spec fn spec_after(d: Duration, b: BlockInfo) -> Expiration {
    match d {
        Duration::Height(h) => Expiration::AtHeight((b.height + h) as u64),
        Duration::Time(t) => Expiration::AtTime((b.time_nanos + t * NANOS_PER_SECOND) as u64),
    }
}

/// True when `spec_after` stays within the 64-bit range.
pub open spec fn spec_after_fits(d: Duration, b: BlockInfo) -> bool {
    match d {
        Duration::Height(h) => b.height + h <= u64::MAX,
        Duration::Time(t) => b.time_nanos + t * NANOS_PER_SECOND <= u64::MAX,
    }
}

/// The expiration a proposal gets when the caller asked for `latest` while the
/// configuration allows at most `max`: the requested point clamped down to
/// `max`, or `None` when the two are not comparable (mixed height and time
/// units). A missing request and a request of `Never` both mean `max`.
pub open spec fn spec_clamped_expiration(latest: Option<Expiration>, max: Expiration) -> Option<
    Expiration,
> {
    match latest {
        None => Some(max),
        Some(e) => match (e, max) {
            (Expiration::AtHeight(h1), Expiration::AtHeight(h2)) => if h1 > h2 {
                Some(max)
            } else {
                Some(e)
            },
            (Expiration::AtTime(t1), Expiration::AtTime(t2)) => if t1 > t2 {
                Some(max)
            } else {
                Some(e)
            },
            (Expiration::Never, _) => Some(max),
            _ => None,
        },
    }
}

/// Law: within one unit, the granted expiration is the minimum of the
/// requested point and the configured maximum — a request beyond the window
/// is silently clamped, never refused, and a request already in the past is
/// granted as it is. A missing request means the maximum, and mixed units
/// cannot be compared at all.
pub proof fn lemma_expiry_bound(h1: u64, h2: u64, t1: u64, t2: u64)
    ensures
        spec_clamped_expiration(Some(Expiration::AtHeight(h1)), Expiration::AtHeight(h2)) == Some(
            Expiration::AtHeight(if h1 < h2 {
                h1
            } else {
                h2
            }),
        ),
        spec_clamped_expiration(Some(Expiration::AtTime(t1)), Expiration::AtTime(t2)) == Some(
            Expiration::AtTime(if t1 < t2 {
                t1
            } else {
                t2
            }),
        ),
        spec_clamped_expiration(None, Expiration::AtHeight(h2)) == Some(Expiration::AtHeight(h2)),
        spec_clamped_expiration(None, Expiration::AtTime(t2)) == Some(Expiration::AtTime(t2)),
        spec_clamped_expiration(Some(Expiration::Never), Expiration::AtTime(t2)) == Some(
            Expiration::AtTime(t2),
        ),
        spec_clamped_expiration(Some(Expiration::AtHeight(h1)), Expiration::AtTime(t2)) is None,
        spec_clamped_expiration(Some(Expiration::AtTime(t1)), Expiration::AtHeight(h2)) is None,
{
}

impl Expiration {
    pub fn is_expired(&self, block: &BlockInfo) -> (r: bool)
        ensures
            r == spec_is_expired(*self, *block),
    {
        match self {
            Expiration::AtHeight(h) => block.height >= *h,
            Expiration::AtTime(t) => block.time_nanos >= *t,
            Expiration::Never => false,
        }
    }
}

impl Duration {
    pub fn after(&self, block: &BlockInfo) -> (r: Expiration)
        requires
            spec_after_fits(*self, *block),
        ensures
            r == spec_after(*self, *block),
    {
        match self {
            Duration::Height(h) => Expiration::AtHeight(block.height + *h),
            Duration::Time(t) => Expiration::AtTime(block.time_nanos + *t * NANOS_PER_SECOND),
        }
    }
}

/// Clamp a requested expiration against the configured maximum; see
/// `spec_clamped_expiration`.
pub fn clamp_expiration(latest: &Option<Expiration>, max: Expiration) -> (r: Option<Expiration>)
    ensures
        r == spec_clamped_expiration(*latest, max),
{
    match latest {
        None => Some(max),
        Some(e) => match (e, max) {
            (Expiration::AtHeight(h1), Expiration::AtHeight(h2)) => if *h1 > h2 {
                Some(max)
            } else {
                Some(*e)
            },
            (Expiration::AtTime(t1), Expiration::AtTime(t2)) => if *t1 > t2 {
                Some(max)
            } else {
                Some(*e)
            },
            (Expiration::Never, _) => Some(max),
            _ => None,
        },
    }
}

} // verus!
