//! Samples of the system: what is read, in which order, and what is made of it.

use vstd::prelude::*;

use crate::adapter::GpuAdapter;
use crate::engine::AdapterLuid;
use crate::text::joined;

verus! {

/// A time of the system, in two halves.
#[derive(Clone, Copy, Debug, PartialEq, Eq, Structural)]
pub struct FileTime {
    pub low: u32,
    pub high: u32,
}

/// How long the processors have been idle, in the kernel, and in programs. The
/// time in the kernel holds the idle time too.
#[derive(Clone, Copy, Debug, PartialEq, Eq, Structural)]
pub struct CpuTimes {
    pub idle: u64,
    pub kernel: u64,
    pub user: u64,
}

/// How much of the processors' time was spent working.
#[derive(Clone, Copy, Debug, PartialEq, Eq, Structural)]
pub struct CpuLoad {
    pub busy: u64,
    pub total: u64,
}

/// How the memory is used.
#[derive(Clone, Copy, Debug, PartialEq, Eq, Structural)]
pub struct MemorySample {
    pub used_bytes: u64,
    pub total_bytes: u64,
}

/// How the processors are used.
#[derive(Clone, Copy, Debug, PartialEq, Eq, Structural)]
pub struct CpuSample {
    pub load: CpuLoad,
    pub logical_processors: usize,
}

/// How the graphics adapter is used. The load is a binary64 number in percent,
/// as its bit pattern.
#[derive(Debug)]
pub struct GpuSample {
    pub name: String,
    pub usage_percent: Option<u64>,
    pub dedicated_total_bytes: u64,
}

/// One sample of the system.
#[derive(Debug)]
pub struct SystemSample {
    pub captured_at_unix_ms: u128,
    pub cpu: CpuSample,
    pub memory: MemorySample,
    pub gpu: Option<GpuSample>,
}

/// The difference of two counters, zero where it would be negative.
pub open spec fn monus(left: int, right: int) -> int {
    if left >= right {
        left - right
    } else {
        0
    }
}

/// The number that the two halves of a time make.
pub open spec fn filetime(value: FileTime) -> int {
    value.high * 0x1_0000_0000 + value.low
}

/// Puts the two halves of a time together.
pub fn filetime_value(value: FileTime) -> (ticks: u64)
    ensures
        ticks == filetime(value),
{
    let high: u64 = value.high as u64;
    let low: u64 = value.low as u64;
    assert(high <= 0xffff_ffff && low <= 0xffff_ffff ==> (high << 32) | low == high * 0x1_0000_0000
        + low) by (bit_vector);
    (high << 32) | low
}

/// Different times are different numbers, and later ones larger.
pub proof fn filetimes_are_ordered(earlier: FileTime, later: FileTime)
    ensures
        filetime(earlier) == filetime(later) <==> earlier == later,
        filetime(earlier) < filetime(later) <==> earlier.high < later.high || (earlier.high
            == later.high && earlier.low < later.low),
{
}

impl CpuTimes {
    /// The times of the processors, put together from their halves.
    pub fn from_filetimes(idle: FileTime, kernel: FileTime, user: FileTime) -> (times: Self)
        ensures
            times.idle == filetime(idle),
            times.kernel == filetime(kernel),
            times.user == filetime(user),
    {
        CpuTimes {
            idle: filetime_value(idle),
            kernel: filetime_value(kernel),
            user: filetime_value(user),
        }
    }
}

/// The time that passed between two readings, in the kernel and in programs,
/// as far as a counter can hold it.
pub open spec fn elapsed(previous: CpuTimes, current: CpuTimes) -> int {
    let sum = monus(current.kernel as int, previous.kernel as int) + monus(
        current.user as int,
        previous.user as int,
    );
    if sum <= u64::MAX {
        sum
    } else {
        u64::MAX as int
    }
}

/// The load between two readings.
pub open spec fn load_between(previous: CpuTimes, current: CpuTimes) -> CpuLoad {
    let total = elapsed(previous, current);
    let idle = monus(current.idle as int, previous.idle as int);
    CpuLoad { busy: monus(total, idle) as u64, total: total as u64 }
}

/// Returns the load between two readings.
pub fn cpu_usage(previous: CpuTimes, current: CpuTimes) -> (load: CpuLoad)
    ensures
        load == load_between(previous, current),
{
    let idle: u64 = current.idle.saturating_sub(previous.idle);
    let kernel: u64 = current.kernel.saturating_sub(previous.kernel);
    let user: u64 = current.user.saturating_sub(previous.user);
    let total: u64 = kernel.saturating_add(user);
    CpuLoad { busy: total.saturating_sub(idle), total }
}

/// The processors were never busy for longer than the time that passed. They
/// were not busy at all where all of it was idle, and all the time where none
/// of it was.
pub proof fn load_is_a_share(previous: CpuTimes, current: CpuTimes)
    ensures
        load_between(previous, current).busy <= load_between(previous, current).total,
        current.idle - previous.idle >= elapsed(previous, current) ==> load_between(
            previous,
            current,
        ).busy == 0,
        current.idle <= previous.idle ==> load_between(previous, current).busy == load_between(
            previous,
            current,
        ).total,
        load_between(previous, previous) == (CpuLoad { busy: 0, total: 0 }),
{
}

/// Between two readings of counters that only grow, the busy time and the idle
/// time together are the time that passed in the kernel and in programs.
pub proof fn busy_and_idle_make_the_total(previous: CpuTimes, current: CpuTimes)
    requires
        previous.idle <= current.idle,
        previous.kernel <= current.kernel,
        previous.user <= current.user,
        (current.kernel - previous.kernel) + (current.user - previous.user) <= u64::MAX,
        current.idle - previous.idle <= (current.kernel - previous.kernel) + (current.user
            - previous.user),
    ensures
        load_between(previous, current).total == (current.kernel - previous.kernel) + (current.user
            - previous.user),
        load_between(previous, current).busy + (current.idle - previous.idle) == load_between(
            previous,
            current,
        ).total,
{
}

/// A counter that ran backwards counts as one that stood still, a time beyond
/// what a counter can hold as the most that it can hold, and more idle time
/// than time as no busy time.
pub proof fn odd_readings_are_bounded(previous: CpuTimes, current: CpuTimes)
    ensures
        current.kernel <= previous.kernel && current.user <= previous.user ==> load_between(
            previous,
            current,
        ) == (CpuLoad { busy: 0, total: 0 }),
        current.kernel <= previous.kernel && current.user >= previous.user ==> load_between(
            previous,
            current,
        ).total == current.user - previous.user,
        current.kernel >= previous.kernel && current.user <= previous.user ==> load_between(
            previous,
            current,
        ).total == current.kernel - previous.kernel,
        (current.kernel - previous.kernel) + (current.user - previous.user) > u64::MAX
            ==> load_between(previous, current).total == u64::MAX,
        current.idle <= previous.idle ==> load_between(previous, current).busy == load_between(
            previous,
            current,
        ).total,
        current.idle >= previous.idle ==> {
            let load = load_between(previous, current);
            if current.idle - previous.idle <= load.total {
                load.busy + (current.idle - previous.idle) == load.total
            } else {
                load.busy == 0
            }
        },
{
}

/// The two halves of a time can be told from its number.
pub proof fn filetime_keeps_its_halves(value: FileTime)
    ensures
        filetime(value) / 0x1_0000_0000 == value.high,
        filetime(value) % 0x1_0000_0000 == value.low,
{
}

impl MemorySample {
    /// The memory that is used, of which this much is there and this much free.
    pub fn new(total_bytes: u64, available_bytes: u64) -> (sample: Self)
        ensures
            sample.total_bytes == total_bytes,
            sample.used_bytes == monus(total_bytes as int, available_bytes as int),
            sample.used_bytes <= sample.total_bytes,
            available_bytes <= total_bytes ==> sample.used_bytes + available_bytes == total_bytes,
            available_bytes > total_bytes ==> sample.used_bytes == 0,
    {
        MemorySample { used_bytes: total_bytes.saturating_sub(available_bytes), total_bytes }
    }
}

/// The text that says that a call of the system failed, and why.
pub fn call_failed(call: &str, reason: &str) -> (message: String)
    ensures
        message@ == call@ + " failed: "@ + reason@,
{
    joined(joined(call, " failed: ").as_str(), reason)
}

/// The sampler: the last reading of the processors, and the adapter.
#[derive(Debug)]
pub struct Sampler {
    pub previous_cpu: Option<CpuTimes>,
    pub gpu: Option<GpuAdapter>,
}

/// What a sample is made of, up to what is read next.
#[derive(Clone, Copy, Debug, PartialEq, Eq, Structural)]
pub enum SampleStage {
    /// The times of the processors are read next.
    Cpu,
    /// The memory is read next.
    Memory { load: CpuLoad },
    /// The load of the adapter is read next.
    Usage { load: CpuLoad, memory: MemorySample },
    /// The clock is read next.
    Clock { load: CpuLoad, memory: MemorySample, usage: Option<u64> },
    /// The processors are counted next.
    Processors {
        load: CpuLoad,
        memory: MemorySample,
        usage: Option<u64>,
        captured_at_unix_ms: u128,
    },
}

/// What was read.
#[derive(Debug)]
pub enum SampleReading {
    /// The times of the processors, or why they cannot be read.
    Cpu(Result<CpuTimes, String>),
    /// The use of the memory, or why it cannot be read.
    Memory(Result<MemorySample, String>),
    /// The load of the adapter, where there is one to be had.
    Usage(Option<u64>),
    /// The milliseconds since the start of 1970, if it is not before that.
    Clock(Option<u128>),
    /// The number of processors, where it is known.
    Processors(Option<usize>),
}

/// Where a sample stands.
#[derive(Debug)]
pub enum SampleStep {
    /// More is to be read.
    Next(SampleStage),
    /// The sample is complete.
    Done(SystemSample),
    /// There is no sample, for this reason.
    Failed(String),
}

impl SampleStage {
    /// Whether this is what was to be read next.
    pub open spec fn expects(self, reading: SampleReading) -> bool {
        match self {
            SampleStage::Cpu => reading is Cpu,
            SampleStage::Memory { .. } => reading is Memory,
            SampleStage::Usage { .. } => reading is Usage,
            SampleStage::Clock { .. } => reading is Clock,
            SampleStage::Processors { .. } => reading is Processors,
        }
    }
}

impl Sampler {
    /// The load since the last reading of the processors, none at the first.
    pub open spec fn load_spec(self, current: CpuTimes) -> CpuLoad {
        match self.previous_cpu {
            Some(previous) => load_between(previous, current),
            None => CpuLoad { busy: 0, total: 0 },
        }
    }

    /// Whether a sample says of the adapter what this sampler knows of it,
    /// with this load.
    pub open spec fn reports_gpu(self, sample: Option<GpuSample>, usage: Option<u64>) -> bool {
        match self.gpu {
            Some(adapter) => {
                &&& sample matches Some(gpu)
                &&& gpu.name@ == adapter.name@
                &&& gpu.usage_percent == usage
                &&& gpu.dedicated_total_bytes == adapter.dedicated_total_bytes
            },
            None => sample is None,
        }
    }

    /// Whether this step follows a reading.
    pub open spec fn follows_sample(
        self,
        stage: SampleStage,
        reading: SampleReading,
        step: SampleStep,
    ) -> bool {
        match (stage, reading) {
            (SampleStage::Cpu, SampleReading::Cpu(Ok(current))) => step == SampleStep::Next(
                SampleStage::Memory { load: self.load_spec(current) },
            ),
            (SampleStage::Cpu, SampleReading::Cpu(Err(reason))) => step == SampleStep::Failed(
                reason,
            ),
            (SampleStage::Memory { load }, SampleReading::Memory(Ok(memory))) => step
                == SampleStep::Next(SampleStage::Usage { load, memory }),
            (SampleStage::Memory { .. }, SampleReading::Memory(Err(reason))) => step
                == SampleStep::Failed(reason),
            (SampleStage::Usage { load, memory }, SampleReading::Usage(usage)) => step
                == SampleStep::Next(SampleStage::Clock { load, memory, usage }),
            (
                SampleStage::Clock { load, memory, usage },
                SampleReading::Clock(Some(captured_at_unix_ms)),
            ) => step == SampleStep::Next(
                SampleStage::Processors { load, memory, usage, captured_at_unix_ms },
            ),
            (SampleStage::Clock { .. }, SampleReading::Clock(None)) => step matches SampleStep::Failed(
                reason,
            ) && reason@ == "system clock is before the Unix epoch"@,
            (
                SampleStage::Processors { load, memory, usage, captured_at_unix_ms },
                SampleReading::Processors(count),
            ) => {
                &&& step matches SampleStep::Done(sample)
                &&& sample.captured_at_unix_ms == captured_at_unix_ms
                &&& sample.cpu.load == load
                &&& sample.cpu.logical_processors == (match count {
                    Some(known) => known,
                    None => 1,
                })
                &&& sample.memory == memory
                &&& self.reports_gpu(sample.gpu, usage)
            },
            _ => false,
        }
    }

    /// A sampler that has read nothing yet, for this adapter.
    pub fn new(gpu: Option<GpuAdapter>) -> (sampler: Self)
        ensures
            sampler.previous_cpu is None,
            sampler.gpu == gpu,
    {
        Sampler { previous_cpu: None, gpu }
    }

    /// The adapter whose load is to be queried, where there is one.
    pub fn queried_adapter(&self) -> (luid: Option<AdapterLuid>)
        ensures
            luid == (match self.gpu {
                Some(adapter) => Some(adapter.luid),
                None => None,
            }),
    {
        match &self.gpu {
            Some(adapter) => Some(adapter.luid),
            None => None,
        }
    }

    /// Goes on with a sample after a reading. Once the processors have been
    /// read, that reading is what the next sample compares with, even where
    /// this one fails later.
    pub fn sample(&mut self, stage: SampleStage, reading: SampleReading) -> (step: SampleStep)
        requires
            stage.expects(reading),
        ensures
            old(self).follows_sample(stage, reading, step),
            final(self).gpu == old(self).gpu,
            final(self).previous_cpu == (match reading {
                SampleReading::Cpu(Ok(current)) => Some(current),
                _ => old(self).previous_cpu,
            }),
    {
        match (stage, reading) {
            (SampleStage::Cpu, SampleReading::Cpu(Ok(current))) => {
                let load = match self.previous_cpu {
                    Some(previous) => cpu_usage(previous, current),
                    None => CpuLoad { busy: 0, total: 0 },
                };
                self.previous_cpu = Some(current);
                SampleStep::Next(SampleStage::Memory { load })
            },
            (SampleStage::Cpu, SampleReading::Cpu(Err(reason))) => SampleStep::Failed(reason),
            (SampleStage::Memory { load }, SampleReading::Memory(Ok(memory))) => SampleStep::Next(
                SampleStage::Usage { load, memory },
            ),
            (SampleStage::Memory { .. }, SampleReading::Memory(Err(reason))) => {
                SampleStep::Failed(reason)
            },
            (SampleStage::Usage { load, memory }, SampleReading::Usage(usage)) => SampleStep::Next(
                SampleStage::Clock { load, memory, usage },
            ),
            (
                SampleStage::Clock { load, memory, usage },
                SampleReading::Clock(Some(captured_at_unix_ms)),
            ) => SampleStep::Next(
                SampleStage::Processors { load, memory, usage, captured_at_unix_ms },
            ),
            (
                SampleStage::Processors { load, memory, usage, captured_at_unix_ms },
                SampleReading::Processors(count),
            ) => {
                let logical_processors: usize = match count {
                    Some(known) => known,
                    None => 1,
                };
                let gpu = match &self.gpu {
                    Some(adapter) => Some(
                        GpuSample {
                            name: adapter.name.clone(),
                            usage_percent: usage,
                            dedicated_total_bytes: adapter.dedicated_total_bytes,
                        },
                    ),
                    None => None,
                };
                SampleStep::Done(
                    SystemSample {
                        captured_at_unix_ms,
                        cpu: CpuSample { load, logical_processors },
                        memory,
                        gpu,
                    },
                )
            },
            // Only a clock before the epoch is left.
            _ => SampleStep::Failed("system clock is before the Unix epoch".to_owned()),
        }
    }
}

/// A sample for which every reading succeeds holds them all: the load since
/// the reading before, the memory, the load of the adapter, the time and the
/// number of processors.
pub proof fn sample_holds_every_reading(
    before: Sampler,
    after: Sampler,
    current: CpuTimes,
    memory: MemorySample,
    usage: Option<u64>,
    captured_at_unix_ms: u128,
    count: Option<usize>,
    steps: Seq<SampleStep>,
)
    requires
        after.gpu == before.gpu,
        steps.len() == 5,
        before.follows_sample(SampleStage::Cpu, SampleReading::Cpu(Ok(current)), steps[0]),
        steps[0] matches SampleStep::Next(stage) ==> after.follows_sample(
            stage,
            SampleReading::Memory(Ok(memory)),
            steps[1],
        ),
        steps[1] matches SampleStep::Next(stage) ==> after.follows_sample(
            stage,
            SampleReading::Usage(usage),
            steps[2],
        ),
        steps[2] matches SampleStep::Next(stage) ==> after.follows_sample(
            stage,
            SampleReading::Clock(Some(captured_at_unix_ms)),
            steps[3],
        ),
        steps[3] matches SampleStep::Next(stage) ==> after.follows_sample(
            stage,
            SampleReading::Processors(count),
            steps[4],
        ),
    ensures
        steps[4] matches SampleStep::Done(sample) && {
            &&& sample.captured_at_unix_ms == captured_at_unix_ms
            &&& sample.cpu.load == before.load_spec(current)
            &&& sample.cpu.logical_processors == (match count {
                Some(known) => known,
                None => 1,
            })
            &&& sample.memory == memory
            &&& before.reports_gpu(sample.gpu, usage)
        },
{
}

/// The first reading of the processors shows no load; each later one shows the
/// load since the reading before.
pub proof fn load_is_since_the_reading_before(
    sampler: Sampler,
    current: CpuTimes,
    step: SampleStep,
)
    requires
        sampler.follows_sample(SampleStage::Cpu, SampleReading::Cpu(Ok(current)), step),
    ensures
        step matches SampleStep::Next(SampleStage::Memory { load }) && match sampler.previous_cpu {
            None => load.busy == 0 && load.total == 0,
            Some(previous) => load == load_between(previous, current),
        },
{
}

/// Each reading is carried along unchanged, beside those before it.
pub proof fn readings_are_carried_along(
    sampler: Sampler,
    load: CpuLoad,
    memory: MemorySample,
    usage: Option<u64>,
    captured_at_unix_ms: u128,
    step: SampleStep,
)
    ensures
        sampler.follows_sample(
            SampleStage::Memory { load },
            SampleReading::Memory(Ok(memory)),
            step,
        ) ==> step == SampleStep::Next(SampleStage::Usage { load, memory }),
        sampler.follows_sample(
            SampleStage::Usage { load, memory },
            SampleReading::Usage(usage),
            step,
        ) ==> step == SampleStep::Next(SampleStage::Clock { load, memory, usage }),
        sampler.follows_sample(
            SampleStage::Clock { load, memory, usage },
            SampleReading::Clock(Some(captured_at_unix_ms)),
            step,
        ) ==> step == SampleStep::Next(
            SampleStage::Processors { load, memory, usage, captured_at_unix_ms },
        ),
{
}

/// A finished sample holds what was read, and of the adapter its name, its
/// memory and the load that was read; an unknown number of processors is one.
pub proof fn finished_sample_holds_what_was_read(
    sampler: Sampler,
    load: CpuLoad,
    memory: MemorySample,
    usage: Option<u64>,
    captured_at_unix_ms: u128,
    count: Option<usize>,
    step: SampleStep,
)
    requires
        sampler.follows_sample(
            SampleStage::Processors { load, memory, usage, captured_at_unix_ms },
            SampleReading::Processors(count),
            step,
        ),
    ensures
        step matches SampleStep::Done(sample) && {
            &&& sample.captured_at_unix_ms == captured_at_unix_ms
            &&& sample.cpu.load == load
            &&& sample.memory == memory
            &&& count matches Some(known) ==> sample.cpu.logical_processors == known
            &&& count is None ==> sample.cpu.logical_processors == 1
            &&& sample.gpu is Some <==> sampler.gpu is Some
            &&& sampler.gpu matches Some(adapter) ==> (sample.gpu matches Some(gpu) && gpu.name@
                == adapter.name@ && gpu.usage_percent == usage && gpu.dedicated_total_bytes
                == adapter.dedicated_total_bytes)
        },
{
}

/// A reading that fails ends the sample with its reason, at whatever stage.
pub proof fn failed_reading_ends_the_sample(
    sampler: Sampler,
    load: CpuLoad,
    memory: MemorySample,
    usage: Option<u64>,
    reason: String,
    step: SampleStep,
)
    ensures
        sampler.follows_sample(SampleStage::Cpu, SampleReading::Cpu(Err(reason)), step) ==> step
            == SampleStep::Failed(reason),
        sampler.follows_sample(
            SampleStage::Memory { load },
            SampleReading::Memory(Err(reason)),
            step,
        ) ==> step == SampleStep::Failed(reason),
        sampler.follows_sample(
            SampleStage::Clock { load, memory, usage },
            SampleReading::Clock(None),
            step,
        ) ==> (step matches SampleStep::Failed(said) && said@
            == "system clock is before the Unix epoch"@),
{
}

} // verus!
