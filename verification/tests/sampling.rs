use companion::adapter::GpuAdapter;
use companion::engine::AdapterLuid;
use companion::sampler::{
    call_failed, cpu_usage, filetime_value, CpuLoad, CpuTimes, FileTime, MemorySample, SampleReading,
    SampleStage, SampleStep, Sampler,
};

fn times(idle: u64, kernel: u64, user: u64) -> CpuTimes {
    CpuTimes { idle, kernel, user }
}

fn adapter() -> GpuAdapter {
    GpuAdapter {
        name: "Adapter".to_owned(),
        dedicated_total_bytes: 1 << 30,
        luid: AdapterLuid { high: 0, low: 0x1234 },
    }
}

fn next(step: SampleStep) -> SampleStage {
    match step {
        SampleStep::Next(stage) => stage,
        other => panic!("no next stage: {other:?}"),
    }
}

#[test]
fn filetime_joins_its_halves() {
    assert_eq!(filetime_value(FileTime { low: 5, high: 0 }), 5);
    assert_eq!(filetime_value(FileTime { low: 5, high: 2 }), 0x2_0000_0005);
    assert_eq!(filetime_value(FileTime { low: u32::MAX, high: u32::MAX }), u64::MAX);
    assert_eq!(
        CpuTimes::from_filetimes(
            FileTime { low: 1, high: 0 },
            FileTime { low: 2, high: 1 },
            FileTime { low: 3, high: 0 },
        ),
        times(1, 0x1_0000_0002, 3)
    );
}

#[test]
fn load_is_the_share_that_was_not_idle() {
    let load = cpu_usage(times(10, 20, 5), times(15, 40, 10));
    assert_eq!(load, CpuLoad { busy: 20, total: 25 });
    assert_eq!(cpu_usage(times(1, 2, 3), times(1, 2, 3)), CpuLoad { busy: 0, total: 0 });
    assert_eq!(cpu_usage(times(0, 0, 0), times(9, 4, 3)), CpuLoad { busy: 0, total: 7 });
    assert_eq!(cpu_usage(times(5, 0, 0), times(2, 4, 3)), CpuLoad { busy: 7, total: 7 });
    assert_eq!(cpu_usage(times(0, 9, 1), times(0, 4, 3)), CpuLoad { busy: 2, total: 2 });
    assert_eq!(
        cpu_usage(times(0, 0, 0), times(1, u64::MAX, u64::MAX)),
        CpuLoad { busy: u64::MAX - 1, total: u64::MAX }
    );
}

#[test]
fn memory_in_use_is_what_is_not_free() {
    assert_eq!(MemorySample::new(10, 4), MemorySample { used_bytes: 6, total_bytes: 10 });
    assert_eq!(MemorySample::new(4, 10), MemorySample { used_bytes: 0, total_bytes: 4 });
}

#[test]
fn failed_calls_are_named() {
    assert_eq!(call_failed("GetSystemTimes", "denied"), "GetSystemTimes failed: denied");
}

#[test]
fn sample_holds_every_reading() {
    let mut sampler = Sampler::new(Some(adapter()));
    assert_eq!(sampler.queried_adapter(), Some(AdapterLuid { high: 0, low: 0x1234 }));
    sampler.sample(SampleStage::Cpu, SampleReading::Cpu(Ok(times(10, 20, 5))));
    let memory = MemorySample { used_bytes: 3, total_bytes: 8 };
    let stage = next(sampler.sample(SampleStage::Cpu, SampleReading::Cpu(Ok(times(15, 40, 10)))));
    assert_eq!(stage, SampleStage::Memory { load: CpuLoad { busy: 20, total: 25 } });
    let stage = next(sampler.sample(stage, SampleReading::Memory(Ok(memory))));
    let stage = next(sampler.sample(stage, SampleReading::Usage(Some(12.5f64.to_bits()))));
    let stage = next(sampler.sample(stage, SampleReading::Clock(Some(1700))));
    match sampler.sample(stage, SampleReading::Processors(Some(16))) {
        SampleStep::Done(sample) => {
            assert_eq!(sample.captured_at_unix_ms, 1700);
            assert_eq!(sample.cpu.load, CpuLoad { busy: 20, total: 25 });
            assert_eq!(sample.cpu.logical_processors, 16);
            assert_eq!(sample.memory, memory);
            let gpu = sample.gpu.unwrap();
            assert_eq!(gpu.name, "Adapter");
            assert_eq!(gpu.usage_percent.map(f64::from_bits), Some(12.5));
            assert_eq!(gpu.dedicated_total_bytes, 1 << 30);
        }
        other => panic!("no sample: {other:?}"),
    }
}

#[test]
fn first_sample_has_no_load() {
    let mut sampler = Sampler::new(None);
    assert_eq!(sampler.queried_adapter(), None);
    let stage = next(sampler.sample(SampleStage::Cpu, SampleReading::Cpu(Ok(times(1, 2, 3)))));
    assert_eq!(stage, SampleStage::Memory { load: CpuLoad { busy: 0, total: 0 } });
    assert_eq!(sampler.previous_cpu, Some(times(1, 2, 3)));
    let stage = SampleStage::Processors {
        load: CpuLoad { busy: 0, total: 0 },
        memory: MemorySample { used_bytes: 0, total_bytes: 0 },
        usage: None,
        captured_at_unix_ms: 1,
    };
    match sampler.sample(stage, SampleReading::Processors(None)) {
        SampleStep::Done(sample) => {
            assert_eq!(sample.cpu.logical_processors, 1);
            assert!(sample.gpu.is_none());
        }
        other => panic!("no sample: {other:?}"),
    }
}

#[test]
fn failed_readings_end_the_sample() {
    let mut sampler = Sampler::new(None);
    assert!(matches!(
        sampler.sample(SampleStage::Cpu, SampleReading::Cpu(Err("times".to_owned()))),
        SampleStep::Failed(reason) if reason == "times"
    ));
    assert_eq!(sampler.previous_cpu, None);
    let stage = next(sampler.sample(SampleStage::Cpu, SampleReading::Cpu(Ok(times(1, 2, 3)))));
    assert!(matches!(
        sampler.sample(stage, SampleReading::Memory(Err("memory".to_owned()))),
        SampleStep::Failed(reason) if reason == "memory"
    ));
    assert_eq!(sampler.previous_cpu, Some(times(1, 2, 3)));
    let stage = SampleStage::Clock {
        load: CpuLoad { busy: 0, total: 0 },
        memory: MemorySample { used_bytes: 0, total_bytes: 0 },
        usage: None,
    };
    assert!(matches!(
        sampler.sample(stage, SampleReading::Clock(None)),
        SampleStep::Failed(reason) if reason == "system clock is before the Unix epoch"
    ));
}
