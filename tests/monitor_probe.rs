use netload::monitor::{
    start_network_monitoring, MonitorConfig, MonitorError, NetworkMetrics, NetworkMonitor,
    DEFAULT_THRESHOLD, DEFAULT_WINDOW_SIZE,
};
use netload::probe::{probe_lost, sample_metrics, PacketLossProbe, ProbeReply, SAMPLE_PROBES};

fn sample(timestamp: u64, latency: u32) -> NetworkMetrics {
    NetworkMetrics { timestamp, latency, packet_loss: 0, bandwidth: 0, is_anomaly: false }
}

#[test]
fn empty_history_scores_zero() {
    let mut m = NetworkMonitor::with_defaults();
    let r = m.detect_anomaly(sample(1, 5000));
    assert_eq!(r.anomaly_score.deviation, 0);
    assert_eq!(r.anomaly_score.spread_low, 0);
    assert_eq!(r.anomaly_score.samples, 0);
    assert!(!r.metrics.is_anomaly);
    assert_eq!(r.threshold, DEFAULT_THRESHOLD);
}

#[test]
fn flat_history_flags_a_spike() {
    let mut m = NetworkMonitor::with_defaults();
    for t in 0..10 {
        let r = m.detect_anomaly(sample(t, 50));
        assert!(!r.metrics.is_anomaly);
    }
    let r = m.detect_anomaly(sample(10, 500));
    assert!(r.metrics.is_anomaly);
    assert_eq!(r.anomaly_score.deviation, 4500);
    assert_eq!(r.anomaly_score.spread_low, 0);
    assert_eq!(r.anomaly_score.samples, 10);
}

#[test]
fn flat_history_flags_a_spike_at_the_largest_threshold() {
    let mut m = NetworkMonitor::new(20, u32::MAX).unwrap();
    for t in 0..10 {
        m.detect_anomaly(sample(t, 50));
    }
    assert!(m.detect_anomaly(sample(10, 500)).metrics.is_anomaly);
}

#[test]
fn spread_history_scores_against_threshold() {
    // window 10, 20, 30: mean 20, population deviation sqrt(200 / 3)
    let mut m = NetworkMonitor::new(10, 2000).unwrap();
    for (t, l) in [10u32, 20, 30].iter().enumerate() {
        m.detect_anomaly(sample(t as u64, *l));
    }
    let mut a = NetworkMonitor::new(10, 2000).unwrap();
    for s in m.snapshot() {
        a.detect_anomaly(s);
    }
    // 40 scores 20 / 8.165 = 2.449, above 2.0
    let r = m.detect_anomaly(sample(3, 40));
    assert_eq!(r.anomaly_score.deviation, 60);
    assert_eq!(r.anomaly_score.spread_low, 600);
    assert_eq!(r.anomaly_score.samples, 3);
    assert!(r.metrics.is_anomaly);
    // 35 scores 15 / 8.165 = 1.837, below 2.0
    let r = a.detect_anomaly(sample(3, 35));
    assert_eq!(r.anomaly_score.deviation, 45);
    assert!(!r.metrics.is_anomaly);
}

#[test]
fn score_equal_to_threshold_is_not_an_anomaly() {
    // window 0, 2: mean 1, deviation 1; a sample at 3 scores exactly 2.0
    let mut m = NetworkMonitor::new(10, 2000).unwrap();
    m.detect_anomaly(sample(0, 0));
    m.detect_anomaly(sample(1, 2));
    let r = m.detect_anomaly(sample(2, 3));
    assert_eq!(r.anomaly_score.deviation, 4);
    assert_eq!(r.anomaly_score.spread_low, 4);
    assert!(!r.metrics.is_anomaly);
    let mut m = NetworkMonitor::new(10, 1999).unwrap();
    m.detect_anomaly(sample(0, 0));
    m.detect_anomaly(sample(1, 2));
    assert!(m.detect_anomaly(sample(2, 3)).metrics.is_anomaly);
}

#[test]
fn window_keeps_the_latest_samples() {
    let window = 4;
    let mut m = NetworkMonitor::new(window, 2000).unwrap();
    for t in 0..7u64 {
        m.detect_anomaly(sample(t, 100 + t as u32));
    }
    let snap = m.snapshot();
    assert_eq!(snap.len(), window);
    let stamps: Vec<u64> = snap.iter().map(|s| s.timestamp).collect();
    assert_eq!(stamps, vec![3, 4, 5, 6]);
    let lats: Vec<u32> = snap.iter().map(|s| s.latency).collect();
    assert_eq!(lats, vec![103, 104, 105, 106]);
}

#[test]
fn scored_sample_differs_only_in_its_flag() {
    let mut probe = PacketLossProbe::new(SAMPLE_PROBES);
    while !probe.is_done() {
        probe.record(ProbeReply::Status(200));
    }
    let fresh = sample_metrics(1_700_000_000_000, 900, &probe);
    assert!(!fresh.is_anomaly);
    let mut m = NetworkMonitor::with_defaults();
    m.detect_anomaly(sample(0, 100));
    m.detect_anomaly(sample(1, 110));
    let r = m.detect_anomaly(fresh);
    assert!(r.metrics.is_anomaly);
    assert_eq!(r.metrics, NetworkMetrics { is_anomaly: true, ..fresh });
    assert_eq!(m.snapshot().last().copied(), Some(r.metrics));
}

#[test]
fn reset_empties_the_window() {
    let mut m = NetworkMonitor::with_defaults();
    assert_eq!(m.window_size(), DEFAULT_WINDOW_SIZE);
    m.detect_anomaly(sample(0, 10));
    let cfg = MonitorConfig { window_size: 5, anomaly_threshold: 3000, sampling_interval: 1000 };
    assert_eq!(start_network_monitoring(&mut m, &cfg), Ok(()));
    assert!(m.snapshot().is_empty());
    assert_eq!(m.window_size(), 5);
    assert_eq!(m.anomaly_threshold(), 3000);
}

#[test]
fn only_a_zero_window_is_refused() {
    assert_eq!(NetworkMonitor::new(0, 2000).err(), Some(MonitorError::InvalidWindowSize));
    let big = NetworkMonitor::new(2_000_000, 2000).unwrap();
    assert_eq!(big.window_size(), 2_000_000);
    assert!(big.snapshot().is_empty());
    assert_eq!(NetworkMonitor::new(usize::MAX, 2000).unwrap().window_size(), usize::MAX);
    let mut m = NetworkMonitor::with_defaults();
    m.detect_anomaly(sample(0, 10));
    let cfg = MonitorConfig { window_size: 0, anomaly_threshold: 1000, sampling_interval: 1 };
    assert_eq!(start_network_monitoring(&mut m, &cfg), Err(MonitorError::InvalidWindowSize));
    assert_eq!(m.snapshot().len(), 1);
    assert_eq!(m.window_size(), DEFAULT_WINDOW_SIZE);
    let cfg = MonitorConfig { window_size: 2_000_000, anomaly_threshold: 1000, sampling_interval: 1 };
    assert_eq!(start_network_monitoring(&mut m, &cfg), Ok(()));
    assert!(m.snapshot().is_empty());
    assert_eq!(m.window_size(), 2_000_000);
}

#[test]
fn extreme_latencies_score_exactly() {
    // window u32::MAX, 0: mean 2^31 - 0.5, spread n^2 var = (2^32 - 1)^2
    let mut m = NetworkMonitor::new(10, u32::MAX).unwrap();
    m.detect_anomaly(sample(0, u32::MAX));
    m.detect_anomaly(sample(1, 0));
    let r = m.detect_anomaly(sample(2, u32::MAX));
    assert_eq!(r.anomaly_score.deviation, u32::MAX as u128);
    assert_eq!(r.anomaly_score.spread_low, (u32::MAX as u128) * (u32::MAX as u128));
    assert_eq!(r.anomaly_score.spread_high, 0);
    // score 1.0, below every threshold from 1.0 up
    assert!(!r.metrics.is_anomaly);
    let mut m = NetworkMonitor::new(10, 999).unwrap();
    m.detect_anomaly(sample(0, u32::MAX));
    m.detect_anomaly(sample(1, 0));
    assert!(m.detect_anomaly(sample(2, u32::MAX)).metrics.is_anomaly);
}

#[test]
fn three_lost_of_ten_is_thirty_percent() {
    let mut probe = PacketLossProbe::new(10);
    for i in 0..10 {
        let reply = if i % 3 == 0 && i < 9 { ProbeReply::TransportError } else { ProbeReply::Status(204) };
        probe.record(reply);
    }
    assert!(probe.is_done());
    assert_eq!((probe.lost(), probe.sent()), (3, 10));
    assert_eq!(probe.lost() as f64 / probe.sent() as f64 * 100.0, 30.0);
}

#[test]
fn non_success_statuses_count_as_lost() {
    assert!(probe_lost(ProbeReply::TransportError));
    assert!(probe_lost(ProbeReply::Status(404)));
    assert!(probe_lost(ProbeReply::Status(500)));
    assert!(probe_lost(ProbeReply::Status(199)));
    assert!(probe_lost(ProbeReply::Status(300)));
    assert!(!probe_lost(ProbeReply::Status(200)));
    assert!(!probe_lost(ProbeReply::Status(299)));
}

#[test]
fn loss_counts_are_exact() {
    let mut probe = PacketLossProbe::new(3);
    assert_eq!((probe.lost(), probe.sent()), (0, 0));
    probe.record(ProbeReply::TransportError);
    probe.record(ProbeReply::Status(200));
    probe.record(ProbeReply::Status(201));
    assert!(probe.is_done());
    // one lost of three: 33.33 percent
    assert_eq!((probe.lost(), probe.sent()), (1, 3));
}

#[test]
fn sample_has_no_bandwidth_and_is_unscored() {
    let mut probe = PacketLossProbe::new(SAMPLE_PROBES);
    for i in 0..SAMPLE_PROBES {
        probe.record(if i < 4 { ProbeReply::Status(503) } else { ProbeReply::Status(200) });
    }
    let s = sample_metrics(42, 17, &probe);
    assert_eq!(s, NetworkMetrics { timestamp: 42, latency: 17, packet_loss: 40, bandwidth: 0, is_anomaly: false });
}
