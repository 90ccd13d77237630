//! The auto-loop controller's decisions: how long to wait between attack
//! cycles, with optional random jitter against timing-based detection.
//!
//! The caller draws the jitter, sleeps for the returned number of seconds
//! in one-second steps so an interrupt can cancel between steps, and
//! triggers the next cycle.

use vstd::prelude::*;

use crate::config::AttackerLoopConfig;

verus! {

/// Relies on rand::rng and RngExt::random_range over `0..=max`: a value
/// in that range; nothing more is promised of it.
#[verifier::external_body]
fn draw_jitter(max: u64) -> (r: u64)
    ensures
        r <= max,
{
    rand::RngExt::random_range(&mut rand::rng(), 0..=max)
}

/// How long to wait before the next cycle, jitter drawn and included:
/// nothing before the very first cycle; afterwards at least the
/// configured interval and at most the interval plus the configured
/// jitter bound, saturating.  Which wait inside that window comes out is
/// the draw's.
pub fn next_cycle_wait(iteration: u64, cfg: &AttackerLoopConfig) -> (r: u64)
    ensures
        iteration <= 1 ==> r == 0,
        iteration > 1 ==> {
            let bound = match cfg.random {
                Some(m) => m as int,
                None => 0int,
            };
            &&& (r >= cfg.every || r == u64::MAX)
            &&& (r <= cfg.every + bound)
        },
{
    let max: u64 = match cfg.random {
        Some(m) => m,
        None => 0,
    };
    let jitter = draw_jitter(max);
    wait_seconds(iteration, cfg, jitter)
}

/// How long to wait before the next cycle when looping is configured:
/// nothing before the very first cycle, and afterwards the configured
/// interval plus the drawn jitter (which the caller draws in
/// `[0, random]`), saturating at the largest representable wait.
pub fn wait_seconds(iteration: u64, cfg: &AttackerLoopConfig, jitter_draw: u64) -> (r: u64)
    requires
        jitter_draw <= match cfg.random {
            Some(m) => m,
            None => 0,
        },
    ensures
        iteration <= 1 ==> r == 0,
        iteration > 1 ==> {
            &&& cfg.every + jitter_draw <= u64::MAX ==> r == cfg.every + jitter_draw
            &&& cfg.every + jitter_draw > u64::MAX ==> r == u64::MAX
        },
{
    if iteration <= 1 {
        0
    } else {
        cfg.every.saturating_add(jitter_draw)
    }
}

/// The wait the dashboard's auto-attack tick uses between cycles: the
/// configured interval plus `draw % random` jitter when jitter is
/// configured, and two minutes when no loop is configured at all.
pub fn tick_wait_duration(cfg: Option<&AttackerLoopConfig>, draw: u64) -> (r: u64)
    ensures
        match cfg {
            Some(c) => {
                let jitter = match c.random {
                    Some(m) => if m > 0 {
                        draw % m
                    } else {
                        0
                    },
                    None => 0,
                };
                (c.every + jitter <= u64::MAX ==> r == c.every + jitter) && (c.every + jitter
                    > u64::MAX ==> r == u64::MAX)
            },
            None => r == 120,
        },
{
    match cfg {
        Some(c) => {
            let jitter: u64 = match c.random {
                Some(m) => if m > 0 {
                    draw % m
                } else {
                    0
                },
                None => 0,
            };
            c.every.saturating_add(jitter)
        },
        None => 120,
    }
}

/// Whether enough time has passed for the next auto-attack cycle.
pub fn due_for_attack(elapsed: u64, wait: u64) -> (r: bool)
    ensures
        r == (elapsed >= wait),
{
    elapsed >= wait
}

} // verus!
