//! End-to-end checks of the rate engine on concrete snapshots.

use vfsstat::fields::{Field, FieldName, FieldValue};
use vfsstat::metrics::{compute_metrics, elapsed_ns, Ratio, Scale};
use vfsstat::rows::{print_header, print_stats};
use vfsstat::sampler::{tick_decide, LoopState};
use vfsstat::snapshot::{zone_hashmap, CounterGroup};
use vfsstat::stats::{get_stats, ExtractError, Stats};

fn num(name: FieldName, v: u64) -> Field {
    Field { name, value: FieldValue::Num(v) }
}

/// Counters in the order reads, writes, nread, nwritten, rtime, wtime,
/// rlentime, wlentime, delay_cnt, delay_time.
fn group(instance: i32, created: i64, sampled: i64, c: [u64; 10], zone: &str) -> CounterGroup {
    let fields = vec![
        num(FieldName::Reads, c[0]),
        num(FieldName::Writes, c[1]),
        num(FieldName::Nread, c[2]),
        num(FieldName::Nwritten, c[3]),
        num(FieldName::Rtime, c[4]),
        num(FieldName::Wtime, c[5]),
        num(FieldName::Rlentime, c[6]),
        num(FieldName::Wlentime, c[7]),
        num(FieldName::DelayCnt, c[8]),
        num(FieldName::DelayTime, c[9]),
        Field { name: FieldName::Zonename, value: FieldValue::Text(zone.as_bytes().to_vec()) },
    ];
    CounterGroup { instance, created_at: created, sampled_at: sampled, fields }
}

fn rv(r: &Ratio) -> f64 {
    assert!(r.den > 0);
    r.num as f64 / r.den as f64
}

#[test]
fn scenario_one_second_interval() {
    let curr = zone_hashmap(vec![group(
        0,
        0,
        2_000_000_000,
        [100, 50, 102400, 51200, 500_000_000, 300_000_000, 2_000_000_000, 1_000_000_000, 10, 1_000_000],
        "global",
    )]);
    let prev = Some(zone_hashmap(vec![group(0, 0, 1_000_000_000, [0; 10], "global")]));
    let rows = print_stats(&curr, &prev, 0, Scale::KB, false, true).unwrap();
    assert_eq!(rows.len(), 1);
    let m = &rows[0].metrics;
    assert_eq!(rv(&m.reads_per_sec), 100.0);
    assert_eq!(rv(&m.writes_per_sec), 50.0);
    assert_eq!(rv(&m.kb_read_per_sec), 100.0);
    assert_eq!(rv(&m.kb_written_per_sec), 50.0);
    assert_eq!(rv(&m.read_queue_depth), 2.0);
    assert_eq!(rv(&m.write_queue_depth), 1.0);
    assert_eq!(rv(&m.delay_ops_per_sec), 10.0);
    assert_eq!(rv(&m.delay_latency), 100000.0);
    assert_eq!(rv(&m.read_busy_pct), 50.0);
    assert_eq!(rv(&m.write_busy_pct), 30.0);
}

#[test]
fn delay_latency_zero_when_no_delays() {
    let cs = Stats { delay_cnt: 7, delay_time: 999_999, reads: 1, writes: 0, nread: 0, nwritten: 0, rtime: 0, wtime: 0, rlentime: 0, wlentime: 0 };
    let ps = Stats { delay_cnt: 7, delay_time: 5, ..Default::default() };
    let m = compute_metrics(&cs, &ps, 1_000_000_000, Scale::KB);
    assert_eq!(m.delay_latency.num, 0);
    assert_eq!(m.delay_latency.den, 1);
}

#[test]
fn latency_zero_when_no_throughput() {
    let cs = Stats { rlentime: 5_000_000_000, wlentime: 7_000_000_000, ..Default::default() };
    let ps = Stats::default();
    let m = compute_metrics(&cs, &ps, 1_000_000_000, Scale::KB);
    assert_eq!(m.read_latency_us.num, 0);
    assert_eq!(m.write_latency_us.num, 0);
    assert!(m.read_latency_us.den > 0);
    assert!(m.write_latency_us.den > 0);
}

#[test]
fn degenerate_interval_yields_all_zero() {
    let cs = Stats { reads: 100, writes: 50, ..Default::default() };
    let ps = Stats::default();
    let m = compute_metrics(&cs, &ps, 0, Scale::KB);
    assert_eq!(rv(&m.reads_per_sec), 0.0);
    assert_eq!(rv(&m.writes_per_sec), 0.0);
    let m = compute_metrics(&cs, &ps, -5, Scale::MB);
    assert_eq!(rv(&m.kb_read_per_sec), 0.0);
}

#[test]
fn mb_scale_divides_by_mebibyte() {
    let cs = Stats { nread: 10 * 1048576, ..Default::default() };
    let ps = Stats::default();
    let m = compute_metrics(&cs, &ps, 1_000_000_000, Scale::MB);
    assert_eq!(rv(&m.kb_read_per_sec), 10.0);
}

#[test]
fn elapsed_uses_previous_snaptime_when_nonzero() {
    assert_eq!(elapsed_ns(9, 2, Some(4)), 5);
    // a zero previous snapshot time falls back to the creation time
    assert_eq!(elapsed_ns(9, 2, Some(0)), 7);
    assert_eq!(elapsed_ns(9, 2, None), 7);
}

#[test]
fn newly_appeared_instance_produces_no_row() {
    let curr = zone_hashmap(vec![
        group(0, 0, 2_000_000_000, [1; 10], "global"),
        group(3, 0, 2_000_000_000, [9; 10], "newzone"),
    ]);
    let prev = Some(zone_hashmap(vec![group(0, 0, 1_000_000_000, [0; 10], "global")]));
    let rows = print_stats(&curr, &prev, 0, Scale::KB, false, true).unwrap();
    assert_eq!(rows.len(), 1);
    assert_eq!(rows[0].instance, 0);
    // without a previous snapshot, both instances report lifetime activity
    let rows = print_stats(&curr, &None, 0, Scale::KB, false, true).unwrap();
    assert_eq!(rows.len(), 2);
}

#[test]
fn idle_filter_hides_and_shows() {
    let c = [5, 6, 7, 8, 1, 2, 3, 4, 9, 10];
    let curr = zone_hashmap(vec![group(0, 0, 2_000_000_000, c, "global")]);
    let prev = Some(zone_hashmap(vec![group(0, 0, 1_000_000_000, c, "global")]));
    // all four read/write deltas are zero: hidden with the flag set
    let rows = print_stats(&curr, &prev, 0, Scale::KB, true, true).unwrap();
    assert_eq!(rows.len(), 0);
    // with the flag unset the instance still produces a row of zero rates
    let rows = print_stats(&curr, &prev, 0, Scale::KB, false, true).unwrap();
    assert_eq!(rows.len(), 1);
    let m = &rows[0].metrics;
    assert_eq!(rv(&m.reads_per_sec), 0.0);
    assert_eq!(rv(&m.writes_per_sec), 0.0);
    assert_eq!(rv(&m.kb_read_per_sec), 0.0);
    assert_eq!(rv(&m.kb_written_per_sec), 0.0);
}

#[test]
fn restrict_to_self_filters_other_zones() {
    let curr = zone_hashmap(vec![
        group(0, 0, 2_000_000_000, [1; 10], "global"),
        group(7, 0, 2_000_000_000, [2; 10], "other"),
    ]);
    let rows = print_stats(&curr, &None, 7, Scale::KB, false, false).unwrap();
    assert_eq!(rows.len(), 1);
    assert_eq!(rows[0].instance, 7);
}

#[test]
fn zone_name_truncated_to_eight_bytes() {
    let curr = zone_hashmap(vec![group(42, 0, 2_000_000_000, [1; 10], "abcdefghijkl")]);
    let rows = print_stats(&curr, &None, 0, Scale::KB, false, true).unwrap();
    assert_eq!(rows.len(), 1);
    assert_eq!(rows[0].zonename, b"abcdefgh".to_vec());
    assert_eq!(rows[0].instance, 42);
    // a short name is kept whole
    let curr = zone_hashmap(vec![group(1, 0, 2_000_000_000, [1; 10], "abc")]);
    let rows = print_stats(&curr, &None, 0, Scale::KB, false, true).unwrap();
    assert_eq!(rows[0].zonename, b"abc".to_vec());
}

#[test]
fn rows_come_out_in_ascending_instance_order() {
    let curr = zone_hashmap(vec![
        group(9, 0, 2_000_000_000, [1; 10], "c"),
        group(1, 0, 2_000_000_000, [1; 10], "a"),
        group(4, 0, 2_000_000_000, [1; 10], "b"),
    ]);
    let rows = print_stats(&curr, &None, 0, Scale::KB, false, true).unwrap();
    let order: Vec<i32> = rows.iter().map(|r| r.instance).collect();
    assert_eq!(order, vec![1, 4, 9]);
}

#[test]
fn duplicate_instance_last_wins() {
    let mut a = group(5, 0, 2_000_000_000, [1; 10], "first");
    a.created_at = 11;
    let b = group(5, 0, 2_000_000_000, [2; 10], "second");
    let snap = zone_hashmap(vec![a, b]);
    let g = snap.get(5).unwrap();
    assert_eq!(g.created_at, 0);
    assert!(snap.get(6).is_none());
}

#[test]
fn missing_field_is_reported() {
    let mut g = group(0, 0, 2_000_000_000, [1; 10], "global");
    g.fields.retain(|f| f.name != FieldName::Writes);
    let e = get_stats(&g.fields).unwrap_err();
    assert_eq!(e, ExtractError::MissingField(FieldName::Writes));
    let curr = zone_hashmap(vec![g]);
    let e = print_stats(&curr, &None, 0, Scale::KB, false, true).unwrap_err();
    assert_eq!(e, ExtractError::MissingField(FieldName::Writes));
}

#[test]
fn wrong_field_kind_is_reported() {
    let mut g = group(0, 0, 2_000_000_000, [1; 10], "global");
    for f in g.fields.iter_mut() {
        if f.name == FieldName::Reads {
            f.value = FieldValue::Text(b"oops".to_vec());
        }
    }
    let e = get_stats(&g.fields).unwrap_err();
    assert_eq!(e, ExtractError::TypeMismatch(FieldName::Reads));
}

#[test]
fn missing_zonename_is_reported() {
    let mut g = group(0, 0, 2_000_000_000, [1; 10], "global");
    g.fields.retain(|f| f.name != FieldName::Zonename);
    let curr = zone_hashmap(vec![g]);
    let e = print_stats(&curr, &None, 0, Scale::KB, false, true).unwrap_err();
    assert_eq!(e, ExtractError::MissingField(FieldName::Zonename));
}

#[test]
fn extraction_succeeds_on_complete_fields() {
    let g = group(0, 0, 2_000_000_000, [1, 2, 3, 4, 5, 6, 7, 8, 9, 10], "global");
    let s = get_stats(&g.fields).unwrap();
    assert_eq!(s.reads, 1);
    assert_eq!(s.writes, 2);
    assert_eq!(s.nread, 3);
    assert_eq!(s.nwritten, 4);
    assert_eq!(s.rtime, 5);
    assert_eq!(s.wtime, 6);
    assert_eq!(s.rlentime, 7);
    assert_eq!(s.wlentime, 8);
    assert_eq!(s.delay_cnt, 9);
    assert_eq!(s.delay_time, 10);
}

#[test]
fn header_hidden_on_request() {
    assert!(print_header(true).is_none());
    let h = print_header(false).unwrap();
    assert!(h.starts_with("  r/s"));
    assert!(h.ends_with("zone"));
}

#[test]
fn header_reappears_every_twenty_ticks() {
    let mut st = LoopState::start();
    let mut headers = Vec::new();
    for tick in 1..=60u32 {
        let (header, done, next) = tick_decide(st, None);
        if header {
            headers.push(tick);
        }
        assert!(!done);
        st = next;
    }
    assert_eq!(headers, vec![20, 40, 60]);
}

#[test]
fn loop_stops_after_configured_count() {
    let mut st = LoopState::start();
    let mut ticks: u32 = 0;
    loop {
        let (_, done, next) = tick_decide(st, Some(5));
        st = next;
        ticks += 1;
        if done {
            break;
        }
    }
    assert_eq!(ticks, 5);
}
