use vstd::prelude::*;

use crate::history::{keep_last, lemma_keep_last_push, HistoryRing, HISTORY_LEN};
use crate::process::{sort_processes, sorted_by, ProcessInfo, SortOrder};

verus! {

broadcast use vstd::seq_lib::group_to_multiset_ensures;

/// One core's reading in a sample: its label and its usage in hundredths of a percent.
pub struct CpuReading {
    pub name: String,
    pub usage: u64,
}

/// One process as the sampler reports it; `cpu_usage` is in hundredths of a percent.
pub struct ProcessSample {
    pub pid: u32,
    pub name: String,
    pub cpu_usage: u64,
    pub memory: u64,
}

/// Host metadata as the sampler reports it; a field the host does not give is `None`.
pub struct HostSample {
    pub host_name: Option<String>,
    pub kernel_version: Option<String>,
    pub os_version: Option<String>,
    pub uptime: u64,
}

/// Everything one call of the sampler returns.
pub struct SystemSample {
    pub cpus: Vec<CpuReading>,
    pub total_memory: u64,
    pub used_memory: u64,
    pub processes: Vec<ProcessSample>,
    pub host: HostSample,
}

/// One core's series: its label, latest usage and the bounded usage history.
pub struct CpuInfo {
    pub name: String,
    pub usage: u64,
    pub history: HistoryRing,
}

/// Host metadata for display, with `"unknown"` for what the host did not give.
pub struct SystemInfo {
    pub hostname: String,
    pub kernel_version: String,
    pub os_version: String,
    pub uptime: u64,
}

/// `part` as a share of `whole`, in hundredths of a percent, rounded down; 0 when
/// `whole` is 0, and saturating at `u64::MAX`.
pub open spec fn percent_of(part: u64, whole: u64) -> u64 {
    if whole == 0 {
        0
    } else {
        let q = (part * 10000) / (whole as int);
        if q > u64::MAX {
            u64::MAX
        } else {
            q as u64
        }
    }
}

pub fn percent(part: u64, whole: u64) -> (r: u64)
    ensures
        r == percent_of(part, whole),
{
    if whole == 0 {
        return 0;
    }
    assert((part as u128) * 10000 <= (u64::MAX as u128) * 10000) by (nonlinear_arith);
    let q: u128 = (part as u128) * 10000 / (whole as u128);
    if q > u64::MAX as u128 {
        u64::MAX
    } else {
        q as u64
    }
}

/// The row that the process view shows for `p` when total memory is `total`.
pub open spec fn process_row(p: ProcessSample, total: u64) -> ProcessInfo {
    ProcessInfo {
        pid: p.pid,
        name: p.name,
        cpu_usage: p.cpu_usage,
        memory: p.memory,
        memory_percent: percent_of(p.memory, total),
    }
}

/// The display text of an optional host field.
pub open spec fn or_unknown(s: Option<String>) -> Seq<char> {
    match s {
        Some(v) => v@,
        None => "unknown"@,
    }
}

fn text_or_unknown(s: &Option<String>) -> (r: String)
    ensures
        r@ == or_unknown(*s),
{
    match s {
        Some(v) => v.clone(),
        None => "unknown".to_owned(),
    }
}

proof fn lemma_refresh_run_step(hs: Seq<Seq<u64>>, vs: Seq<u64>, j: int)
    requires
        hs.len() == vs.len() + 1,
        hs[0] == Seq::<u64>::empty(),
        forall|t: int| 0 <= t < vs.len() ==> #[trigger] hs[t + 1] == keep_last(hs[t].push(vs[t]), HISTORY_LEN as nat),
        0 <= j < hs.len(),
    ensures
        hs[j] == keep_last(vs.subrange(0, j), HISTORY_LEN as nat),
        hs[j].len() == if j < HISTORY_LEN { j } else { HISTORY_LEN as int },
    decreases j,
{
    if j == 0 {
        assert(keep_last(vs.subrange(0, 0), HISTORY_LEN as nat) =~= Seq::<u64>::empty());
    } else {
        lemma_refresh_run_step(hs, vs, j - 1);
        assert(hs[(j - 1) + 1] == keep_last(hs[j - 1].push(vs[j - 1]), HISTORY_LEN as nat));
        lemma_keep_last_push(vs.subrange(0, j - 1), vs[j - 1], HISTORY_LEN as nat);
        assert(vs.subrange(0, j - 1).push(vs[j - 1]) =~= vs.subrange(0, j));
    }
}

/// Over a run of refreshes from a fresh store, any one history (a core's or the
/// memory history) that each refresh extends as `refresh` states, with value `vs[t]`
/// at the `t`-th refresh, holds after `j` refreshes exactly the last `HISTORY_LEN`
/// of `vs[0..j]` in push order, and has length `min(j, HISTORY_LEN)`: every series
/// fed on each refresh grows by one per refresh and stays in step with the others.
pub proof fn lemma_refresh_run(hs: Seq<Seq<u64>>, vs: Seq<u64>)
    requires
        hs.len() == vs.len() + 1,
        hs[0] == Seq::<u64>::empty(),
        forall|t: int| 0 <= t < vs.len() ==> #[trigger] hs[t + 1] == keep_last(hs[t].push(vs[t]), HISTORY_LEN as nat),
    ensures
        forall|j: int|
            0 <= j < hs.len() ==> {
                &&& #[trigger] hs[j] == keep_last(vs.subrange(0, j), HISTORY_LEN as nat)
                &&& hs[j].len() == if j < HISTORY_LEN { j } else { HISTORY_LEN as int }
            },
{
    assert forall|j: int| 0 <= j < hs.len() implies {
        &&& #[trigger] hs[j] == keep_last(vs.subrange(0, j), HISTORY_LEN as nat)
        &&& hs[j].len() == if j < HISTORY_LEN { j } else { HISTORY_LEN as int }
    } by {
        lemma_refresh_run_step(hs, vs, j);
    }
}

/// The system-of-record: the latest sample and the CPU and memory histories.
///
/// The number of CPU series is fixed by the first sample; later samples with more
/// cores have the extra cores ignored, and series beyond a shorter sample keep
/// their values.
pub struct SystemMonitor {
    cpu_history: Vec<CpuInfo>,
    memory_history: HistoryRing,
    processes: Vec<ProcessSample>,
    total_memory: u64,
    used_memory: u64,
    host: HostSample,
}

impl SystemMonitor {
    pub closed spec fn wf(&self) -> bool {
        &&& self.memory_history.wf()
        &&& forall|i: int| 0 <= i < self.cpu_history@.len() ==> (#[trigger] self.cpu_history@[i]).history.wf()
    }

    /// The CPU series, one per core, in core order.
    pub closed spec fn cpu_series(&self) -> Seq<CpuInfo> {
        self.cpu_history@
    }

    /// The memory-use history, in hundredths of a percent, oldest first.
    pub closed spec fn memory_series(&self) -> Seq<u64> {
        self.memory_history@
    }

    /// The process table of the latest sample.
    pub closed spec fn process_table(&self) -> Seq<ProcessSample> {
        self.processes@
    }

    pub closed spec fn total(&self) -> u64 {
        self.total_memory
    }

    pub closed spec fn used(&self) -> u64 {
        self.used_memory
    }

    pub closed spec fn host_sample(&self) -> HostSample {
        self.host
    }

    /// The process table as rows of the view, in table order.
    pub open spec fn rows(&self) -> Seq<ProcessInfo> {
        Seq::new(
            self.process_table().len(),
            |i: int| process_row(self.process_table()[i], self.total()),
        )
    }

    /// A store initialised from the first sample: one series per core in it, with
    /// usage 0 and empty histories.
    pub fn new(sample: SystemSample) -> (r: SystemMonitor)
        ensures
            r.wf(),
            r.cpu_series().len() == sample.cpus@.len(),
            forall|i: int|
                0 <= i < sample.cpus@.len() ==> {
                    &&& (#[trigger] r.cpu_series()[i]).name == sample.cpus@[i].name
                    &&& r.cpu_series()[i].usage == 0
                    &&& r.cpu_series()[i].history@ == Seq::<u64>::empty()
                },
            r.memory_series() == Seq::<u64>::empty(),
            r.process_table() == sample.processes@,
            r.total() == sample.total_memory,
            r.used() == sample.used_memory,
            r.host_sample() == sample.host,
    {
        let mut cpus: Vec<CpuInfo> = Vec::new();
        let mut i: usize = 0;
        while i < sample.cpus.len()
            invariant
                i <= sample.cpus@.len(),
                cpus@.len() == i,
                forall|k: int|
                    0 <= k < i ==> {
                        &&& (#[trigger] cpus@[k]).name == sample.cpus@[k].name
                        &&& cpus@[k].usage == 0
                        &&& cpus@[k].history.wf()
                        &&& cpus@[k].history@ == Seq::<u64>::empty()
                    },
            decreases sample.cpus@.len() - i,
        {
            cpus.push(CpuInfo { name: sample.cpus[i].name.clone(), usage: 0, history: HistoryRing::new() });
            i = i + 1;
        }
        SystemMonitor {
            cpu_history: cpus,
            memory_history: HistoryRing::new(),
            processes: sample.processes,
            total_memory: sample.total_memory,
            used_memory: sample.used_memory,
            host: sample.host,
        }
    }

    /// Applies one sample: replaces the process table, memory totals and host data,
    /// pushes each core's usage onto its series, and pushes the memory-use percentage
    /// onto the memory history. Every history grows by at most one sample.
    pub fn refresh(&mut self, sample: SystemSample)
        requires
            old(self).wf(),
        ensures
            final(self).wf(),
            final(self).cpu_series().len() == old(self).cpu_series().len(),
            forall|i: int|
                0 <= i < old(self).cpu_series().len() ==> {
                    let before = old(self).cpu_series()[i];
                    let after = #[trigger] final(self).cpu_series()[i];
                    &&& after.history@.len() <= before.history@.len() + 1
                    &&& if i < sample.cpus@.len() {
                        &&& after.name == before.name
                        &&& after.usage == sample.cpus@[i].usage
                        &&& after.history@ == keep_last(
                            before.history@.push(sample.cpus@[i].usage),
                            HISTORY_LEN as nat,
                        )
                    } else {
                        after == before
                    }
                },
            final(self).memory_series() == keep_last(
                old(self).memory_series().push(percent_of(sample.used_memory, sample.total_memory)),
                HISTORY_LEN as nat,
            ),
            final(self).memory_series().len() <= old(self).memory_series().len() + 1,
            final(self).process_table() == sample.processes@,
            final(self).total() == sample.total_memory,
            final(self).used() == sample.used_memory,
            final(self).host_sample() == sample.host,
    {
        let ghost prev = self.cpu_history@;
        let n = self.cpu_history.len();
        let mut i: usize = 0;
        while i < n && i < sample.cpus.len()
            invariant
                n == self.cpu_history@.len(),
                n == prev.len(),
                i <= n,
                i <= sample.cpus@.len(),
                self.memory_history.wf(),
                self.memory_history@ == old(self).memory_history@,
                prev == old(self).cpu_history@,
                forall|k: int| 0 <= k < n ==> (#[trigger] self.cpu_history@[k]).history.wf(),
                forall|k: int|
                    0 <= k < n ==> {
                        let before = prev[k];
                        let after = #[trigger] self.cpu_history@[k];
                        if k < i {
                            &&& after.name == before.name
                            &&& after.usage == sample.cpus@[k].usage
                            &&& after.history@ == keep_last(
                                before.history@.push(sample.cpus@[k].usage),
                                HISTORY_LEN as nat,
                            )
                        } else {
                            after == before
                        }
                    },
            decreases n - i,
        {
            let u = sample.cpus[i].usage;
            self.cpu_history[i].usage = u;
            self.cpu_history[i].history.push(u);
            i = i + 1;
        }
        assert forall|k: int| 0 <= k < n implies (#[trigger] self.cpu_history@[k]).history@.len()
            <= prev[k].history@.len() + 1 by {
            if k < i {
                let h = prev[k].history@.push(sample.cpus@[k].usage);
                assert(keep_last(h, HISTORY_LEN as nat).len() <= h.len());
            }
        }
        let p = percent(sample.used_memory, sample.total_memory);
        self.memory_history.push(p);
        self.processes = sample.processes;
        self.total_memory = sample.total_memory;
        self.used_memory = sample.used_memory;
        self.host = sample.host;
    }

    /// A freshly sorted copy of the current process table: the rows of the table,
    /// each once, ordered by `sort_order`. An empty table gives an empty view.
    pub fn get_processes(&self, sort_order: &SortOrder) -> (r: Vec<ProcessInfo>)
        ensures
            r@.to_multiset() == self.rows().to_multiset(),
            sorted_by(*sort_order, r@),
            r@.len() == self.process_table().len(),
    {
        let mut rows: Vec<ProcessInfo> = Vec::new();
        let mut i: usize = 0;
        while i < self.processes.len()
            invariant
                i <= self.processes@.len(),
                rows@ == self.rows().subrange(0, i as int),
            decreases self.processes@.len() - i,
        {
            let p = &self.processes[i];
            rows.push(
                ProcessInfo {
                    pid: p.pid,
                    name: p.name.clone(),
                    cpu_usage: p.cpu_usage,
                    memory: p.memory,
                    memory_percent: percent(p.memory, self.total_memory),
                },
            );
            i = i + 1;
            assert(rows@ =~= self.rows().subrange(0, i as int));
        }
        assert(rows@ =~= self.rows());
        let r = sort_processes(&rows, *sort_order);
        assert(r@.to_multiset().len() == rows@.to_multiset().len());
        r
    }

    /// The CPU series, one per core.
    pub fn get_cpu_info(&self) -> (r: &Vec<CpuInfo>)
        requires
            self.wf(),
        ensures
            r@ == self.cpu_series(),
            forall|i: int| 0 <= i < r@.len() ==> (#[trigger] r@[i]).history.wf(),
    {
        &self.cpu_history
    }

    pub fn get_total_memory(&self) -> (r: u64)
        ensures
            r == self.total(),
    {
        self.total_memory
    }

    pub fn get_used_memory(&self) -> (r: u64)
        ensures
            r == self.used(),
    {
        self.used_memory
    }

    /// Memory in use, in hundredths of a percent of the total.
    pub fn get_memory_percent(&self) -> (r: u64)
        ensures
            r == percent_of(self.used(), self.total()),
    {
        percent(self.used_memory, self.total_memory)
    }

    pub fn get_memory_history(&self) -> (r: &HistoryRing)
        requires
            self.wf(),
        ensures
            r.wf(),
            r@ == self.memory_series(),
    {
        &self.memory_history
    }

    pub fn get_system_info(&self) -> (r: SystemInfo)
        ensures
            r.hostname@ == or_unknown(self.host_sample().host_name),
            r.kernel_version@ == or_unknown(self.host_sample().kernel_version),
            r.os_version@ == or_unknown(self.host_sample().os_version),
            r.uptime == self.host_sample().uptime,
    {
        SystemInfo {
            hostname: text_or_unknown(&self.host.host_name),
            kernel_version: text_or_unknown(&self.host.kernel_version),
            os_version: text_or_unknown(&self.host.os_version),
            uptime: self.host.uptime,
        }
    }
}

} // verus!
