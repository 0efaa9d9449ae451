//! Snapshot and history engine of a terminal system monitor: bounded sample
//! histories, the system-of-record that a sampler refreshes, the sorted process
//! view, the selection cursor and the mapping from keys to commands.

pub mod controls;
pub mod display;
pub mod history;
pub mod monitor;
pub mod process;

pub use controls::{App, Command, Key};
pub use history::HistoryRing;
pub use monitor::{CpuInfo, CpuReading, HostSample, ProcessSample, SystemInfo, SystemMonitor, SystemSample};
pub use process::{ProcessInfo, SortOrder};
