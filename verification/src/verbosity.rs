//! How much the program logs.

use vstd::prelude::*;

verus! {

/// The most verbose level that is logged.
#[derive(Clone, Copy, Debug, PartialEq, Eq, Structural)]
pub enum LevelFilter {
    Off,
    Warn,
    Info,
    Debug,
    Trace,
}

/// The filter for a level index: -1 is silence, 0 warnings, 1 information,
/// 2 debugging, and everything else traces.
pub open spec fn filter_of(level_index: int) -> LevelFilter {
    if level_index == -1 {
        LevelFilter::Off
    } else if level_index == 0 {
        LevelFilter::Warn
    } else if level_index == 1 {
        LevelFilter::Info
    } else if level_index == 2 {
        LevelFilter::Debug
    } else {
        LevelFilter::Trace
    }
}

/// The filter for a level index.
pub fn level_filter_from_level_index(level_index: isize) -> (filter: LevelFilter)
    ensures
        filter == filter_of(level_index as int),
{
    match level_index {
        -1 => LevelFilter::Off,
        0 => LevelFilter::Warn,
        1 => LevelFilter::Info,
        2 => LevelFilter::Debug,
        _ => LevelFilter::Trace,
    }
}

/// The level index that the command line asks for: silence where `quiet` is
/// given, else the number of times that `verbose` was.
pub fn level_index(quiet: bool, verbose: isize) -> (index: isize)
    ensures
        index == (if quiet {
            -1
        } else {
            verbose as int
        }),
{
    if quiet {
        -1
    } else {
        verbose
    }
}

} // verus!
