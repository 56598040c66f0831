//! Rate-limiting core for a Riot Games API client.
//!
//! The crate tracks dynamically discovered multi-window rate limits that the
//! server reports in response headers, spreads bursts, obeys server-directed
//! back-off, and decides when a failed request may be retried.
//!
//! All time values are monotonic-clock milliseconds (`u64`), handed in by the
//! caller; all fractional tuning factors are parts per million (`u32` in
//! `1..=1_000_000`), so the logic itself is exact integer arithmetic.

use vstd::prelude::*;

pub mod config;
pub mod division;
pub mod game_type;
pub mod headers;
pub mod insert_only_map;
pub mod meta;
pub mod notify;
pub mod queue_type;
pub mod rate_limit;
pub mod rate_limit_type;
pub mod region;
pub mod regional_requester;
pub mod riot_api;
pub mod route;
pub mod team;
pub mod text;
pub mod tier;
pub mod token_bucket;

verus! {

/// The error of parsing an enum constant from its name: no variant matched.
#[derive(Debug, Clone, Copy, PartialEq, Eq, Structural)]
pub struct VariantNotFound;

/// One million, the denominator of all parts-per-million factors.
pub const PPM_SCALE: u32 = 1_000_000;

/// `x` scaled by a parts-per-million factor, rounded down.
pub open spec fn spec_scale_ppm(x: int, ppm: int) -> int {
    (x * ppm) / (PPM_SCALE as int)
}

/// Scales `x` by `ppm / 1_000_000`, rounding down.
pub fn scale_ppm(x: u64, ppm: u32) -> (r: u64)
    requires
        ppm <= PPM_SCALE,
    ensures
        r == spec_scale_ppm(x as int, ppm as int),
        r <= x,
{
    proof {
        assert((x as int) * (ppm as int) <= (u64::MAX as int) * (PPM_SCALE as int))
            by (nonlinear_arith)
            requires
                0 <= x <= u64::MAX,
                0 <= ppm <= PPM_SCALE,
        ;
    }
    let wide: u128 = (x as u128) * (ppm as u128) / (PPM_SCALE as u128);
    proof {
        assert((x as int) * (ppm as int) <= (x as int) * (PPM_SCALE as int)) by (nonlinear_arith)
            requires
                ppm <= PPM_SCALE,
                0 <= x,
        ;
        assert((x as int) * (PPM_SCALE as int) / (PPM_SCALE as int) == x as int) by (nonlinear_arith)
            requires
                0 <= x,
        ;
        assert((x as int) * (ppm as int) / (PPM_SCALE as int) <= (x as int) * (PPM_SCALE as int) / (
        PPM_SCALE as int)) by (nonlinear_arith)
            requires
                (x as int) * (ppm as int) <= (x as int) * (PPM_SCALE as int),
        ;
        assert(0 <= (x as int) * (ppm as int)) by (nonlinear_arith)
            requires
                0 <= x,
                0 <= ppm,
        ;
    }
    wide as u64
}

} // verus!
