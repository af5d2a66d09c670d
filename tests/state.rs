use macmon::config::{clamp_interval, control_for_key, Config, Control, ViewType};
use macmon::history::{avg2, Dashboard, PowerStore, TempStore, MAX_SPARKLINE};
use macmon::metrics::{MemMetrics, Metrics, TempMetrics};
use macmon::sampling::{chain_windows, plan_windows, snapshots_to_take};

#[test]
fn avg2_cold_start_takes_value() {
    assert_eq!(avg2(0, 42), 42);
    assert_eq!(avg2(10, 20), 15);
    assert_eq!(avg2(u64::MAX, u64::MAX), u64::MAX);
}

#[test]
fn power_store_smooths_and_tracks() {
    let mut p = PowerStore::new();
    p.push(4_000);
    assert_eq!(p.top_value, 4_000);
    p.push(2_000);
    assert_eq!(p.top_value, 3_000);
    assert_eq!(p.max_value, 4_000);
    assert_eq!(p.avg_value, 3_000);
    assert_eq!(p.items, vec![2_000, 4_000]);
    for _ in 0..200 {
        p.push(1);
    }
    assert_eq!(p.items.len(), MAX_SPARKLINE);
    assert_eq!(p.max_value, 1);
}

#[test]
fn temp_trend_needs_two_readings() {
    let mut t = TempStore::new();
    t.push(0);
    assert!(t.items.is_empty());
    t.push(40_000);
    t.push(0);
    assert_eq!(t.items, vec![40_000]);
    t.push(50_000);
    assert_eq!(t.trend_ema(), 48_000);
    t.push(0);
    assert_eq!(t.items, vec![48_000, 50_000, 40_000]);
    assert_eq!(t.last(), 48_000);
}

#[test]
fn temp_trend_lies_between_extremes() {
    let t = TempStore { items: vec![30_000, 90_000, 60_000, 45_000] };
    let e = t.trend_ema();
    assert!(e >= 30_000 && e <= 90_000);
    // oldest first: 45000 -> (4*60000+45000)/5 = 57000 -> (4*90000+57000)/5 = 83400 -> (4*30000+83400)/5 = 40680
    assert_eq!(e, 40_680);
}

#[test]
fn dashboard_update_fills_every_history() {
    let mut d = Dashboard::new();
    let m = Metrics {
        temp: TempMetrics { cpu_temp_avg: 45_000, gpu_temp_avg: 0 },
        memory: MemMetrics { ram_total: 16, ram_usage: 8, swap_total: 4, swap_usage: 1 },
        ecpu_usage: (1200, 500_000),
        pcpu_usage: (3000, 250_000),
        gpu_usage: (400, 0),
        cpu_power: 1_000,
        gpu_power: 2_000,
        ane_power: 0,
        all_power: 3_000,
        sys_power: 5_000,
        ram_power: 0,
        gpu_ram_power: 0,
    };
    d.update_metrics(m);
    assert_eq!(d.cpu_power.top_value, 1_000);
    assert_eq!(d.sys_power.top_value, 5_000);
    assert_eq!(d.ecpu_freq.items, vec![50]);
    assert_eq!(d.pcpu_freq.top_value, 3000);
    assert_eq!(d.cpu_temp.items, vec![45_000]);
    assert!(d.gpu_temp.items.is_empty());
    assert_eq!(d.mem.max_ram, 8);
}

#[test]
fn config_intervals_step() {
    let mut c = Config::default();
    assert_eq!(c.interval, 1000);
    c.inc_interval();
    assert_eq!(c.interval, 1250);
    c.interval = 1100;
    c.dec_interval();
    assert_eq!(c.interval, 1000);
    c.interval = 250;
    c.dec_interval();
    assert_eq!(c.interval, 250);
    c.interval = 100;
    c.dec_interval();
    assert_eq!(c.interval, 250);
    c.interval = 9_900;
    c.inc_interval();
    assert_eq!(c.interval, 10_000);
    c.inc_interval();
    assert_eq!(c.interval, 10_000);
}

#[test]
fn config_cycles_colors_and_views() {
    let mut c = Config { view_type: ViewType::Sparkline, color: 10, interval: 1000 };
    c.next_color();
    assert_eq!(c.color, 0);
    c.next_color();
    assert_eq!(c.color, 1);
    c.color = 99;
    c.next_color();
    assert_eq!(c.color, 0);
    c.next_view_type();
    assert_eq!(c.view_type, ViewType::Gauge);
    c.next_view_type();
    assert_eq!(c.view_type, ViewType::Sparkline);
}

#[test]
fn interval_clamp() {
    assert_eq!(clamp_interval(0), 100);
    assert_eq!(clamp_interval(500), 500);
    assert_eq!(clamp_interval(60_000), 10_000);
}

#[test]
fn key_bindings() {
    assert_eq!(control_for_key('q', false), Some(Control::Quit));
    assert_eq!(control_for_key('c', true), Some(Control::Quit));
    assert_eq!(control_for_key('c', false), Some(Control::ChangeColor));
    assert_eq!(control_for_key('v', false), Some(Control::ChangeView));
    assert_eq!(control_for_key('=', false), Some(Control::IncInterval));
    assert_eq!(control_for_key('+', false), Some(Control::IncInterval));
    assert_eq!(control_for_key('-', false), Some(Control::DecInterval));
    assert_eq!(control_for_key('x', false), None);
}

#[test]
fn window_plan_clamps_count() {
    assert_eq!(plan_windows(1000, 4), (4, 250));
    assert_eq!(plan_windows(1000, 0), (1, 1000));
    assert_eq!(plan_windows(1000, 64), (32, 31));
    assert_eq!(snapshots_to_take(true, 4), 4);
    assert_eq!(snapshots_to_take(false, 4), 5);
}

#[test]
fn windows_chain_cold_start() {
    let fresh = vec![('a', 0u64), ('b', 250), ('c', 500), ('d', 760), ('e', 1000)];
    let (w, last) = chain_windows(None, &fresh);
    assert_eq!(w, vec![('a', 'b', 250), ('b', 'c', 250), ('c', 'd', 260), ('d', 'e', 240)]);
    assert_eq!(w.iter().map(|x| x.2).sum::<u64>(), 1000);
    assert_eq!(last, Some(('e', 1000)));
}

#[test]
fn windows_chain_carries_previous_snapshot() {
    let fresh = vec![('b', 100u64), ('c', 100)];
    let (w, last) = chain_windows(Some(('a', 40)), &fresh);
    assert_eq!(w, vec![('a', 'b', 60), ('b', 'c', 1)]);
    assert_eq!(last, Some(('c', 100)));
}
