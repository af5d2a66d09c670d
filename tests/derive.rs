use macmon::metrics::{
    average_windows, calc_freq, calc_freq_final, cfio_watts, derive_window, finish_metrics,
    mean_nonzero, ram_usage, sort_by_name, temp_source, temps_from_named, TempSource, temps_from_readings, window_fits_soc, zero_div,
    IOReportIteratorItem, MemMetrics, Metrics, TempMetrics, UnitError, VmCounts,
};
use macmon::soc::SocInfo;

fn states(list: &[(&str, u64)]) -> Vec<(String, u64)> {
    list.iter().map(|(n, v)| (n.to_string(), *v)).collect()
}

fn soc() -> SocInfo {
    SocInfo {
        mac_model: "Mac".to_string(),
        chip_name: "Apple M2".to_string(),
        memory_gb: 16,
        ecpu_cores: 4,
        pcpu_cores: 4,
        ecpu_freqs: vec![600, 1200, 2400],
        pcpu_freqs: vec![1000, 3000],
        gpu_cores: 10,
        gpu_freqs: vec![0, 400, 800],
    }
}

fn item(group: &str, subgroup: &str, channel: &str, unit: &str, res: Vec<(String, u64)>, energy: u64) -> IOReportIteratorItem {
    IOReportIteratorItem {
        group: group.to_string(),
        subgroup: subgroup.to_string(),
        channel: channel.to_string(),
        unit: unit.to_string(),
        residencies: res,
        energy,
    }
}

#[test]
fn zero_div_by_zero_is_zero() {
    assert_eq!(zero_div(7, 0), 0);
    assert_eq!(zero_div(7, 2), 3);
}

#[test]
fn calc_freq_end_to_end_example() {
    let r = calc_freq(&states(&[("IDLE", 100), ("s0", 0), ("s1", 100), ("s2", 100)]), &vec![600, 1200, 2400]);
    assert_eq!(r.0, 1800);
    assert_eq!(r.1, 500_000);
}

#[test]
fn calc_freq_idle_domain_is_zero() {
    let r = calc_freq(&states(&[("IDLE", 500), ("a", 0), ("b", 0)]), &vec![600, 1200]);
    assert_eq!(r, (0, 0));
    let r = calc_freq(&states(&[("IDLE", 0), ("a", 0), ("b", 0)]), &vec![600, 1200]);
    assert_eq!(r, (0, 0));
}

#[test]
fn calc_freq_single_active_state_is_its_frequency() {
    let r = calc_freq(&states(&[("IDLE", 10), ("a", 0), ("b", 50), ("c", 0)]), &vec![600, 1200, 2400]);
    assert_eq!(r.0, 1200);
    let r = calc_freq(&states(&[("OFF", 0), ("a", 7)]), &vec![389]);
    assert_eq!(r.0, 389);
}

#[test]
fn calc_freq_skips_every_leading_inactive_state() {
    let r = calc_freq(&states(&[("IDLE", 10), ("DOWN", 10), ("a", 30), ("b", 10)]), &vec![1000, 2000]);
    assert_eq!(r.0, 1250);
    assert_eq!(r.1, 416_666);
}

#[test]
fn calc_freq_final_means() {
    assert_eq!(calc_freq_final(&vec![], &vec![600, 2400]), (600, 0));
    assert_eq!(calc_freq_final(&vec![(1000, 500_000), (2000, 300_000)], &vec![600]), (1500, 400_000));
    assert_eq!(calc_freq_final(&vec![(100, 10)], &vec![600]), (600, 10));
}

#[test]
fn watts_from_millijoules() {
    let w = cfio_watts(5000, "mJ", 1000).unwrap();
    assert_eq!(w.micros(), 5_000_000);
    assert_eq!(w.num * 5, 5 * w.den * 5);
}

#[test]
fn watts_from_micro_and_nano_joules() {
    assert_eq!(cfio_watts(5000, "uJ", 1000).unwrap().micros(), 5_000);
    assert_eq!(cfio_watts(5000, "nJ", 1000).unwrap().micros(), 5);
}

#[test]
fn watts_unknown_unit_is_error() {
    assert_eq!(cfio_watts(5000, "J", 1000), Err(UnitError));
    assert_eq!(cfio_watts(5000, "", 1000), Err(UnitError));
}

#[test]
fn watts_double_when_duration_halves() {
    let full = cfio_watts(5000, "mJ", 1000).unwrap();
    let half = cfio_watts(5000, "mJ", 500).unwrap();
    assert_eq!(half.micros(), 2 * full.micros());
    assert_eq!(half.num * full.den, 2 * full.num * half.den);
}

fn window() -> Vec<IOReportIteratorItem> {
    vec![
        item("CPU Stats", "CPU Core Performance States", "ECPU000", "", states(&[("IDLE", 100), ("s0", 0), ("s1", 100), ("s2", 100)]), 0),
        item("CPU Stats", "CPU Core Performance States", "ECPU010", "", states(&[("IDLE", 100), ("s0", 100), ("s1", 0), ("s2", 0)]), 0),
        item("CPU Stats", "CPU Core Performance States", "PCPU000", "", states(&[("IDLE", 0), ("a", 0), ("b", 10)]), 0),
        item("GPU Stats", "GPU Performance States", "GPUPH", "", states(&[("OFF", 50), ("s1", 50), ("s2", 0)]), 0),
        item("Energy Model", "", "CPU Energy", "mJ", vec![], 2000),
        item("Energy Model", "", "GPU Energy", "nJ", vec![], 3_000_000),
        item("Energy Model", "", "ANE0", "mJ", vec![], 500),
        item("Energy Model", "", "DRAM0", "uJ", vec![], 400_000),
        item("Energy Model", "", "GPU SRAM0", "mJ", vec![], 100),
        item("Energy Model", "", "DISP", "bogus", vec![], 100),
    ]
}

#[test]
fn derive_window_classifies_channels() {
    let s = soc();
    let items = window();
    assert!(window_fits_soc(&items, &s));
    let m = derive_window(&items, &s, 1000);
    // efficiency cores: (1800, 500000) and (600, 125000) averaged
    assert_eq!(m.ecpu_usage, (1200, 312_500));
    assert_eq!(m.pcpu_usage, (3000, 1_000_000));
    assert_eq!(m.gpu_usage, (400, 250_000));
    assert_eq!(m.cpu_power, 2_000_000);
    assert_eq!(m.gpu_power, 3_000);
    assert_eq!(m.ane_power, 500_000);
    assert_eq!(m.ram_power, 400_000);
    assert_eq!(m.gpu_ram_power, 100_000);
    assert_eq!(m.all_power, 0);
}

#[test]
fn derive_window_skips_channel_with_unknown_unit() {
    let s = soc();
    let mut items = window();
    items.push(item("Energy Model", "", "DIE_1_CPU Energy", "kJ", vec![], 1));
    let m = derive_window(&items, &s, 1000);
    assert_eq!(m.cpu_power, 2_000_000);
    assert_eq!(m.gpu_power, 3_000);
    assert_eq!(m.ecpu_usage, (1200, 312_500));
}

#[test]
fn window_fits_rejects_short_residency_list() {
    let s = soc();
    let items = vec![item("CPU Stats", "CPU Core Performance States", "ECPU000", "", states(&[("IDLE", 1), ("a", 1)]), 0)];
    assert!(!window_fits_soc(&items, &s));
}

fn record(ecpu: (u32, u64), cpu_power: u64) -> Metrics {
    Metrics {
        temp: TempMetrics::zero(),
        memory: MemMetrics::zero(),
        ecpu_usage: ecpu,
        pcpu_usage: (0, 0),
        gpu_usage: (0, 0),
        cpu_power,
        gpu_power: 10,
        ane_power: 0,
        all_power: 0,
        sys_power: 0,
        ram_power: 0,
        gpu_ram_power: 0,
    }
}

#[test]
fn average_windows_takes_field_means() {
    let avg = average_windows(&vec![record((1000, 100), 4), record((2000, 300), 7), record((1500, 200), 1), record((1500, 200), 0)]);
    assert_eq!(avg.ecpu_usage, (1500, 200));
    assert_eq!(avg.cpu_power, 3);
    assert_eq!(avg.gpu_power, 10);
    let none = average_windows(&vec![]);
    assert_eq!(none.cpu_power, 0);
}

#[test]
fn finish_metrics_totals_and_system_power() {
    let mem = MemMetrics { ram_total: 8, ram_usage: 4, swap_total: 2, swap_usage: 1 };
    let temp = TempMetrics { cpu_temp_avg: 40_000, gpu_temp_avg: 0 };
    let m = finish_metrics(record((0, 0), 5), Some(mem), temp, Some(3));
    assert_eq!(m.all_power, 15);
    assert_eq!(m.sys_power, 15);
    assert_eq!(m.memory, mem);
    assert_eq!(m.temp, temp);
    assert_eq!(finish_metrics(record((0, 0), 5), Some(mem), temp, Some(40)).sys_power, 40);
    assert_eq!(finish_metrics(record((0, 0), 5), Some(mem), temp, None).sys_power, 0);
    let no_mem = finish_metrics(record((0, 0), 5), None, temp, Some(3));
    assert_eq!(no_mem.memory, MemMetrics::zero());
    assert_eq!(no_mem.all_power, 15);
}

#[test]
fn temperatures_average_nonzero_readings() {
    assert_eq!(mean_nonzero(&vec![0, 40_000, 50_000]), 45_000);
    assert_eq!(mean_nonzero(&vec![0, 0]), 0);
    let t = temps_from_readings(&vec![30_000, 0], &vec![]);
    assert_eq!(t, TempMetrics { cpu_temp_avg: 30_000, gpu_temp_avg: 0 });
}

#[test]
fn temperatures_by_sensor_name() {
    let r = vec![
        ("GPU MTR Temp Sensor1".to_string(), 50_000),
        ("PMU tdie1".to_string(), 90_000),
        ("eACC MTR Temp Sensor0".to_string(), 40_000),
        ("pACC MTR Temp Sensor2".to_string(), 60_000),
    ];
    let t = temps_from_named(&r);
    assert_eq!(t, TempMetrics { cpu_temp_avg: 50_000, gpu_temp_avg: 50_000 });
    assert_eq!(temps_from_named(&vec![]), TempMetrics { cpu_temp_avg: 0, gpu_temp_avg: 0 });
}

#[test]
fn ram_usage_formula() {
    let c = VmCounts { active: 10, inactive: 5, wired: 3, speculative: 2, compressed: 4, purgeable: 1, external: 3 };
    assert_eq!(ram_usage(c, 16384), 20 * 16384);
    let under = VmCounts { active: 1, inactive: 0, wired: 0, speculative: 0, compressed: 0, purgeable: 5, external: 0 };
    assert_eq!(ram_usage(under, 4096), 0);
}

#[test]
fn sensor_readings_sorted_by_name() {
    let r = vec![
        ("pACC MTR Temp Sensor2".to_string(), 3),
        ("GPU MTR Temp Sensor1".to_string(), 1),
        ("eACC MTR Temp Sensor0".to_string(), 2),
        ("GPU MTR Temp Sensor1".to_string(), 4),
        ("GPU".to_string(), 5),
    ];
    let sorted = sort_by_name(r);
    let names: Vec<&str> = sorted.iter().map(|x| x.0.as_str()).collect();
    assert_eq!(names, vec!["GPU", "GPU MTR Temp Sensor1", "GPU MTR Temp Sensor1", "eACC MTR Temp Sensor0", "pACC MTR Temp Sensor2"]);
    assert_eq!(sorted.iter().map(|x| x.1).collect::<Vec<_>>(), vec![5, 1, 4, 2, 3]);
    assert!(sort_by_name(vec![]).is_empty());
}

#[test]
fn temperature_source_choice() {
    assert_eq!(temp_source(0), TempSource::Hid);
    assert_eq!(temp_source(3), TempSource::Smc);
}
