use vstd::prelude::*;

verus! {

/// Most cores that the CPU panel shows.
pub const SHOWN_CORES: usize = 4;

/// How heavily a resource is loaded, for colouring its gauge.
#[derive(Debug, Clone, Copy, PartialEq, Eq, Structural)]
pub enum LoadLevel {
    Low,
    Moderate,
    High,
}

/// Whole hours and the remaining whole minutes of `uptime` seconds.
pub fn uptime_hours_minutes(uptime: u64) -> (r: (u64, u64))
    ensures
        r.0 == uptime / 3600,
        r.1 == (uptime % 3600) / 60,
        r.1 < 60,
{
    (uptime / 3600, (uptime % 3600) / 60)
}

/// Level of a core at `percent`: up to 50 low, up to 80 moderate, above that high.
pub fn cpu_load_level(percent: u16) -> (r: LoadLevel)
    ensures
        r == if percent <= 50 {
            LoadLevel::Low
        } else if percent <= 80 {
            LoadLevel::Moderate
        } else {
            LoadLevel::High
        },
{
    if percent <= 50 {
        LoadLevel::Low
    } else if percent <= 80 {
        LoadLevel::Moderate
    } else {
        LoadLevel::High
    }
}

/// Level of memory at `percent`: up to 60 low, up to 85 moderate, above that high.
pub fn memory_load_level(percent: u16) -> (r: LoadLevel)
    ensures
        r == if percent <= 60 {
            LoadLevel::Low
        } else if percent <= 85 {
            LoadLevel::Moderate
        } else {
            LoadLevel::High
        },
{
    if percent <= 60 {
        LoadLevel::Low
    } else if percent <= 85 {
        LoadLevel::Moderate
    } else {
        LoadLevel::High
    }
}

/// How many of `cores` series the CPU panel shows.
pub fn shown_core_count(cores: usize) -> (r: usize)
    ensures
        r == if cores < SHOWN_CORES {
            cores
        } else {
            SHOWN_CORES
        },
{
    if cores < SHOWN_CORES {
        cores
    } else {
        SHOWN_CORES
    }
}

} // verus!
