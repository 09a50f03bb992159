use ictmon::buffer::TimestampBuffer;
use ictmon::config::{WindowConfig, INITIAL_SLEEP_MS, MOVING_AVG_INTERVAL_MS, UPDATE_INTERVAL_MS};
use ictmon::monitor::{Action, Event, Fault, Monitor};
use ictmon::rate::{effective_elapsed_ms, uptime_ms, RateSample};

fn per_second(sample: &RateSample) -> f64 {
    if sample.effective_ms == 0 {
        0.0
    } else {
        sample.count as f64 / (sample.effective_ms as f64 / 1000.0)
    }
}

fn drain(buffer: &mut TimestampBuffer) -> Vec<u64> {
    let mut out = Vec::new();
    while let Some(t) = buffer.pop_front() {
        out.push(t);
    }
    out
}

fn count_in(arrivals: &[u64], low: i128, high: i128) -> usize {
    arrivals.iter().filter(|t| low <= **t as i128 && **t as i128 <= high).count()
}

#[test]
fn eviction_scenario() {
    let mut monitor = Monitor::new(WindowConfig::new(1000, 1000, 1000), 0);
    monitor.record(0);
    monitor.record(1500);
    assert_eq!(monitor.pending(), 2);
    let sample = monitor.evaluate(1600);
    assert_eq!(sample.count, 1);
    assert_eq!(monitor.pending(), 1);
    assert_eq!(sample.effective_ms, 1000);
    assert_eq!(sample.rate_millis(), 1000);
}

#[test]
fn eviction_scenario_on_the_buffer() {
    let mut buffer = TimestampBuffer::new();
    buffer.append(0);
    buffer.append(1500);
    assert_eq!(buffer.prune(600), 1);
    assert_eq!(buffer.len(), 1);
    assert_eq!(buffer.peek_front(), Some(1500));
}

#[test]
fn end_to_end_scenario() {
    let config = WindowConfig::new(60000, 1000, 1000);
    let mut monitor = Monitor::new(config, 0);
    for i in 0..120u64 {
        let action = monitor.step(Event::Arrival(1000 + i * 2000 / 120));
        assert_eq!(action, Action::Continue);
    }
    let action = monitor.step(Event::Tick(3000));
    let expected = RateSample::new(120, 3000);
    assert_eq!(action, Action::Report(expected));
    assert_eq!(expected.rate_millis(), 40000);
    assert_eq!(per_second(&expected), 40.0);
    assert_eq!(monitor.pending(), 120);
}

#[test]
fn warm_up_caps_the_denominator() {
    let mut monitor = Monitor::new(WindowConfig::new(60000, 1000, 1000), 0);
    for at in [2000u64, 4000, 6000, 8000, 9500] {
        monitor.record(at);
    }
    let sample = monitor.evaluate(10000);
    assert_eq!(sample.count, 5);
    assert_eq!(sample.effective_ms, 10000);
    assert_eq!(sample.rate_millis(), 500);
    assert_eq!(per_second(&sample), 0.5);
}

#[test]
fn full_window_caps_at_window_length() {
    let mut monitor = Monitor::new(WindowConfig::new(60000, 1000, 1000), 0);
    monitor.record(100_000);
    let sample = monitor.evaluate(150_000);
    assert_eq!(sample, RateSample { count: 1, effective_ms: 60000 });
    let at_the_edge = monitor.evaluate(160_000);
    assert_eq!(at_the_edge, RateSample { count: 1, effective_ms: 60000 });
    let past_it = monitor.evaluate(160_001);
    assert_eq!(past_it, RateSample { count: 0, effective_ms: 60000 });
}

#[test]
fn effective_elapsed_values() {
    assert_eq!(effective_elapsed_ms(60000, 0, 10000), 10000);
    assert_eq!(effective_elapsed_ms(60000, 0, 59999), 59999);
    assert_eq!(effective_elapsed_ms(60000, 0, 60000), 60000);
    assert_eq!(effective_elapsed_ms(60000, 0, 60001), 60000);
    assert_eq!(effective_elapsed_ms(60000, 5000, 8000), 3000);
    assert_eq!(effective_elapsed_ms(60000, 5000, 5000), 0);
    assert_eq!(effective_elapsed_ms(60000, 5000, 4000), 0);
    assert_eq!(effective_elapsed_ms(0, 0, 4000), 0);
    assert_eq!(effective_elapsed_ms(u64::MAX, 0, u64::MAX), u64::MAX);
}

#[test]
fn uptime_in_milliseconds() {
    assert_eq!(uptime_ms(0, 0), 0);
    assert_eq!(uptime_ms(0, 999), 999);
    assert_eq!(uptime_ms(3, 250), 3250);
    assert_eq!(uptime_ms(60, 0), 60000);
    assert_eq!(uptime_ms(18_446_744_073_709_551, 615), u64::MAX);
    assert_eq!(uptime_ms(18_446_744_073_709_551, 616), u64::MAX);
    assert_eq!(uptime_ms(18_446_744_073_709_551, 614), u64::MAX - 1);
    assert_eq!(uptime_ms(u64::MAX, u32::MAX), u64::MAX);
}

#[test]
fn zero_arrivals_give_zero_rate() {
    for now in [0u64, 1, 999, 1000, 60000, 60001, u64::MAX] {
        let mut monitor = Monitor::new(WindowConfig::standard(), 0);
        let sample = monitor.evaluate(now);
        assert_eq!(sample.count, 0);
        assert_eq!(sample.rate_millis(), 0);
        assert_eq!(per_second(&sample), 0.0);
    }
}

#[test]
fn no_elapsed_time_gives_zero_rate() {
    let mut monitor = Monitor::new(WindowConfig::standard(), 500);
    monitor.record(500);
    monitor.record(500);
    let sample = monitor.evaluate(500);
    assert_eq!(sample, RateSample { count: 2, effective_ms: 0 });
    assert_eq!(sample.rate_millis(), 0);
    let before_start = monitor.evaluate(100);
    assert_eq!(before_start.effective_ms, 0);
    assert_eq!(before_start.rate_millis(), 0);
}

#[test]
fn rate_is_rounded_down_to_thousandths() {
    assert_eq!(RateSample::new(7, 3000).rate_millis(), 2333);
    assert_eq!(RateSample::new(1, 60000).rate_millis(), 16);
    assert_eq!(RateSample::new(1, 1).rate_millis(), 1_000_000);
    assert_eq!(RateSample::new(0, 1).rate_millis(), 0);
    assert_eq!(RateSample::new(3, 0).rate_millis(), 0);
    assert_eq!(
        RateSample::new(usize::MAX, 1).rate_millis(),
        usize::MAX as u128 * 1_000_000
    );
    assert_eq!(RateSample::new(1, u64::MAX).rate_millis(), 0);
}

#[test]
fn window_counts_match_a_direct_count() {
    let arrivals: Vec<u64> = vec![
        0, 0, 10, 250, 250, 251, 900, 1000, 1001, 1999, 2000, 2000, 5000, 5001, 9000, 9999, 10000,
    ];
    let window: u64 = 1000;
    for now in [10000u64, 10001, 10500, 10999, 11000, 11001, 12000, 30000] {
        let mut monitor = Monitor::new(WindowConfig::new(window, 100, 0), 0);
        for at in arrivals.iter() {
            monitor.record(*at);
        }
        let sample = monitor.evaluate(now);
        let low = now as i128 - window as i128;
        assert_eq!(sample.count, count_in(&arrivals, low, now as i128));
        assert_eq!(monitor.pending(), sample.count);
    }
}

#[test]
fn window_counts_over_successive_ticks() {
    let arrivals: Vec<u64> = vec![100, 200, 1200, 1300, 1400, 2500, 2600, 4000];
    let window: u64 = 1000;
    let mut monitor = Monitor::new(WindowConfig::new(window, 500, 0), 0);
    let mut fed: usize = 0;
    let mut now: u64 = 500;
    while now <= 6000 {
        while fed < arrivals.len() && arrivals[fed] <= now {
            monitor.record(arrivals[fed]);
            fed += 1;
        }
        let sample = monitor.evaluate(now);
        let low = now as i128 - window as i128;
        assert_eq!(sample.count, count_in(&arrivals[..fed], low, now as i128));
        now += 500;
    }
    assert_eq!(monitor.pending(), 0);
}

#[test]
fn timestamp_on_the_window_start_is_kept() {
    let mut monitor = Monitor::new(WindowConfig::new(1000, 1000, 0), 0);
    monitor.record(599);
    monitor.record(600);
    monitor.record(601);
    let sample = monitor.evaluate(1600);
    assert_eq!(sample.count, 2);
    let mut buffer = TimestampBuffer::new();
    buffer.append(600);
    assert_eq!(buffer.prune(600), 0);
    assert_eq!(buffer.prune(601), 1);
    assert_eq!(buffer.len(), 0);
}

#[test]
fn nothing_is_evicted_before_a_full_window_has_passed() {
    let mut monitor = Monitor::new(WindowConfig::new(60000, 1000, 1000), 0);
    monitor.record(0);
    monitor.record(1);
    let sample = monitor.evaluate(59999);
    assert_eq!(sample.count, 2);
    let sample = monitor.evaluate(60000);
    assert_eq!(sample.count, 2);
    let sample = monitor.evaluate(60001);
    assert_eq!(sample.count, 1);
}

#[test]
fn eviction_keeps_only_what_is_at_or_after_the_boundary() {
    let arrivals: Vec<u64> = vec![1, 2, 2, 3, 5, 8, 13, 21, 21, 34, 55];
    for boundary in 0..60u64 {
        let mut buffer = TimestampBuffer::new();
        for at in arrivals.iter() {
            buffer.append(*at);
        }
        let evicted = buffer.prune(boundary);
        assert_eq!(evicted, arrivals.iter().filter(|t| **t < boundary).count());
        for at in arrivals[..evicted].iter() {
            assert!(*at < boundary);
        }
        let left = drain(&mut buffer);
        assert_eq!(left, arrivals[evicted..].to_vec());
        for at in left.iter() {
            assert!(*at >= boundary);
        }
    }
}

#[test]
fn eviction_stops_at_the_first_timestamp_that_stays() {
    let mut buffer = TimestampBuffer::new();
    for at in [5u64, 1, 7, 2] {
        buffer.append(at);
    }
    assert_eq!(buffer.prune(3), 0);
    assert_eq!(buffer.prune(6), 2);
    assert_eq!(drain(&mut buffer), vec![7, 2]);
}

#[test]
fn buffer_is_first_in_first_out() {
    let mut buffer = TimestampBuffer::new();
    assert_eq!(buffer.len(), 0);
    assert_eq!(buffer.peek_front(), None);
    assert_eq!(buffer.pop_front(), None);
    buffer.append(3);
    buffer.append(4);
    buffer.append(4);
    assert_eq!(buffer.len(), 3);
    assert_eq!(buffer.peek_front(), Some(3));
    assert_eq!(buffer.len(), 3);
    assert_eq!(buffer.pop_front(), Some(3));
    assert_eq!(buffer.pop_front(), Some(4));
    assert_eq!(buffer.len(), 1);
    assert_eq!(buffer.pop_front(), Some(4));
    assert_eq!(buffer.pop_front(), None);
    assert_eq!(buffer.prune(u64::MAX), 0);
}

#[test]
fn stale_front_is_told_from_the_oldest_timestamp() {
    let mut buffer = TimestampBuffer::new();
    assert!(!buffer.front_is_stale(0));
    assert!(!buffer.front_is_stale(u64::MAX));
    buffer.append(7);
    buffer.append(3);
    assert!(!buffer.front_is_stale(7));
    assert!(buffer.front_is_stale(8));
    assert!(!buffer.front_is_stale(5));
    assert_eq!(buffer.len(), 2);
}

#[test]
fn appends_in_clock_order_read_back_in_order() {
    let mut buffer = TimestampBuffer::new();
    let mut clock: u64 = 0;
    for i in 0..10_000u64 {
        clock += (i * 7919) % 5;
        buffer.append(clock);
        if i % 1000 == 999 {
            buffer.prune(clock / 2);
        }
    }
    let read = drain(&mut buffer);
    assert!(!read.is_empty());
    for pair in read.windows(2) {
        assert!(pair[0] <= pair[1]);
    }
}

#[test]
fn faults_terminate_and_change_nothing() {
    let mut monitor = Monitor::new(WindowConfig::standard(), 0);
    monitor.record(10);
    assert_eq!(monitor.step(Event::TransportFault), Action::Terminate(Fault::Transport));
    assert_eq!(monitor.step(Event::SchedulingFault), Action::Terminate(Fault::Scheduling));
    assert_eq!(monitor.pending(), 1);
    assert_eq!(monitor.step(Event::Tick(20)), Action::Report(RateSample::new(1, 20)));
}

#[test]
fn fault_diagnostics() {
    assert_eq!(Fault::Transport.diagnostic(), "receive errored");
    assert_eq!(Fault::Scheduling.diagnostic(), "interval errored");
}

#[test]
fn monitor_keeps_what_it_was_built_with() {
    let config = WindowConfig::new(5000, 250, 750);
    let mut monitor = Monitor::new(config, 42);
    assert_eq!(monitor.config(), config);
    assert_eq!(monitor.started_ms(), 42);
    assert_eq!(monitor.pending(), 0);
    monitor.record(50);
    monitor.evaluate(60);
    assert_eq!(monitor.config(), config);
    assert_eq!(monitor.started_ms(), 42);
}

#[test]
fn clock_that_does_not_start_at_zero() {
    let mut monitor = Monitor::new(WindowConfig::new(1000, 1000, 1000), 1_000_000);
    monitor.record(1_000_000);
    monitor.record(1_001_500);
    let sample = monitor.evaluate(1_001_600);
    assert_eq!(sample, RateSample { count: 1, effective_ms: 1000 });
}

#[test]
fn standard_configuration() {
    let config = WindowConfig::standard();
    assert_eq!(config.window_ms, 60000);
    assert_eq!(config.tick_ms, 1000);
    assert_eq!(config.warmup_ms, 1000);
    assert_eq!(config, WindowConfig::new(MOVING_AVG_INTERVAL_MS, UPDATE_INTERVAL_MS, INITIAL_SLEEP_MS));
}
