//! Defaults of the settings file.
use vstd::prelude::*;

verus! {

/// Number of seconds between two update cycles when the settings leave it out.
pub const DEFAULT_INTERVAL_SECS: u64 = 60;

/// Default of the IPv4 switch: IPv4 records are kept up to date.
pub fn yes() -> (r: bool)
    ensures
        r,
{
    true
}

/// Default of the IPv6 switch: IPv6 records are left alone.
pub fn no() -> (r: bool)
    ensures
        !r,
{
    false
}

/// Default poll interval, in seconds.
pub fn default_duration() -> (r: u64)
    ensures
        r == DEFAULT_INTERVAL_SECS,
        r == 60,
{
    DEFAULT_INTERVAL_SECS
}

} // verus!
