use recvtest::bootstrap::ConfigError;
use recvtest::bootstrap::assign_ports;
use recvtest::bootstrap::parse_core_id;
use recvtest::bootstrap::parse_core_spec;
use recvtest::clock::ns_to_seconds;
use recvtest::mac::AcceptAll;
use recvtest::mac::EthertypeIs;
use recvtest::mac::MacSwap;
use recvtest::merge::Merged;
use recvtest::pipeline::Composition;
use recvtest::pipeline::Pipeline;
use recvtest::pipeline::Runnable;
use recvtest::pipeline::mirror_pipeline;
use recvtest::port::Port;
use recvtest::stats::CounterSnapshot;
use recvtest::stats::Reporter;
use recvtest::stats::counter_delta;
use recvtest::worker::Worker;

fn loaded_pipeline(n_frames: u8, batch: usize) -> Pipeline<MacSwap, AcceptAll> {
    let mut port = Port::new();
    for k in 0..n_frames {
        let mut f = vec![1, 1, 1, 1, 1, k, 2, 2, 2, 2, 2, k, 8, 0];
        f.push(k);
        port.deliver(f);
    }
    mirror_pipeline(port, batch)
}

#[test]
fn merged_process_drives_each_pipeline_once() {
    let units = vec![loaded_pipeline(2, 10), loaded_pipeline(3, 10)];
    let mut m = Merged::merge(units);
    m.process();
    assert_eq!(m.unit(0).stats(), (2, 2));
    assert_eq!(m.unit(1).stats(), (3, 3));
    let (rx, tx) = m.stats();
    assert_eq!(rx, 5);
    assert_eq!(tx, 5);
}

#[test]
fn unlike_chains_merge_behind_one_shape() {
    let mut tagged_port = Port::new();
    tagged_port.deliver(vec![1, 1, 1, 1, 1, 1, 2, 2, 2, 2, 2, 2, 8, 0]);
    tagged_port.deliver(vec![1, 1, 1, 1, 1, 1, 2, 2, 2, 2, 2, 2, 8, 6]);
    let units = vec![
        Composition::Mirror(loaded_pipeline(2, 10)),
        Composition::MirrorOfEthertype(Pipeline::compose(
            tagged_port,
            MacSwap,
            EthertypeIs { hi: 8, lo: 0 },
            10,
        )),
    ];
    let mut m = Merged::merge(units);
    m.process();
    assert_eq!(m.unit(0).stats(), (2, 2));
    assert_eq!(m.unit(1).stats(), (2, 1));
}

#[test]
fn merge_round_robin_stays_fair() {
    let units = vec![
        loaded_pipeline(20, 1),
        loaded_pipeline(20, 1),
        loaded_pipeline(20, 1),
    ];
    let mut m = Merged::merge(units);
    for _ in 0..7 {
        m.step();
    }
    let counts = [
        m.unit(0).stats().0,
        m.unit(1).stats().0,
        m.unit(2).stats().0,
    ];
    assert_eq!(counts, [3, 2, 2]);
    for a in counts.iter() {
        for b in counts.iter() {
            assert!(*a <= *b + 1);
        }
    }
}

#[test]
fn counter_deltas_are_exact() {
    let d = counter_delta(
        CounterSnapshot { rx: 1_000_007, tx: 999_999 },
        CounterSnapshot { rx: 1_000_000, tx: 999_000 },
    );
    assert_eq!(d, (7, 999));
}

#[test]
fn reporter_cuts_exact_interval_deltas() {
    let mut rep = Reporter::new(4, 100);
    let r = rep.tick(101, CounterSnapshot { rx: 7, tx: 5 });
    let report = r.expect("a whole second elapsed");
    assert_eq!(report.elapsed, 1);
    assert_eq!(report.core, 4);
    assert_eq!(report.rx_delta, 7);
    assert_eq!(report.tx_delta, 5);
    assert_eq!(report.loops, 1);
    let r2 = rep.tick(101, CounterSnapshot { rx: 9, tx: 9 });
    assert!(r2.is_none());
    let r3 = rep.tick(103, CounterSnapshot { rx: 10, tx: 11 });
    let report3 = r3.expect("two more seconds elapsed");
    assert_eq!(report3.elapsed, 2);
    assert_eq!(report3.rx_delta, 3);
    assert_eq!(report3.tx_delta, 6);
    assert_eq!(report3.loops, 2);
}

#[test]
fn reporter_is_silent_within_the_second() {
    let mut rep = Reporter::new(0, 50);
    assert!(rep.tick(50, CounterSnapshot { rx: 1, tx: 1 }).is_none());
    assert!(rep.tick(49, CounterSnapshot { rx: 2, tx: 2 }).is_none());
}

#[test]
fn worker_iteration_polls_and_reports() {
    let units = vec![loaded_pipeline(2, 10)];
    let m = Merged::merge(units);
    let mut w = Worker::new(m, 3, 0);
    let report = w.iteration(1).expect("a second elapsed");
    assert_eq!(report.core, 3);
    assert_eq!(report.elapsed, 1);
    assert_eq!(report.rx_delta, 2);
    assert_eq!(report.tx_delta, 2);
    assert_eq!(report.loops, 1);
    assert!(w.iteration(1).is_none());
}

#[test]
fn worker_under_no_traffic_reports_zero_deltas() {
    let units = vec![mirror_pipeline(Port::new(), 8)];
    let m = Merged::merge(units);
    let mut w = Worker::new(m, 0, 0);
    let report = w.iteration(2).expect("two seconds elapsed");
    assert_eq!(report.elapsed, 2);
    assert_eq!(report.rx_delta, 0);
    assert_eq!(report.tx_delta, 0);
}

#[test]
fn startup_mismatch_is_a_fatal_config_error() {
    let cores: Vec<u32> = vec![1, 2, 3];
    match assign_ports(&cores, 2) {
        Ok(_) => panic!("mismatched counts must be refused"),
        Err(e) => assert_eq!(e, ConfigError::MoreCoresThanPorts),
    }
}

#[test]
fn assign_ports_groups_in_request_order() {
    let cores: Vec<u32> = vec![0, 1, 0];
    let m = assign_ports(&cores, 3).expect("enough ports");
    assert_eq!(m.len(), 2);
    assert_eq!(m.entry(0).core, 0);
    assert_eq!(m.entry(0).ports, vec![0, 2]);
    assert_eq!(m.entry(1).core, 1);
    assert_eq!(m.entry(1).ports, vec![1]);
}

#[test]
fn assign_ports_accepts_equal_counts() {
    let cores: Vec<u32> = vec![5, 6];
    let m = assign_ports(&cores, 2).expect("counts match");
    assert_eq!(m.len(), 2);
    assert_eq!(m.entry(0).ports, vec![0]);
    assert_eq!(m.entry(1).ports, vec![1]);
}

#[test]
fn parse_core_id_reads_decimal() {
    assert_eq!(parse_core_id(&b"7".to_vec()), Some(7));
    assert_eq!(parse_core_id(&b"42".to_vec()), Some(42));
    assert_eq!(parse_core_id(&b"0".to_vec()), Some(0));
    assert_eq!(parse_core_id(&b"4294967295".to_vec()), Some(u32::MAX));
}

#[test]
fn parse_core_id_refuses_junk() {
    assert_eq!(parse_core_id(&b"".to_vec()), None);
    assert_eq!(parse_core_id(&b"4x".to_vec()), None);
    assert_eq!(parse_core_id(&b"-1".to_vec()), None);
    assert_eq!(parse_core_id(&b"4294967296".to_vec()), None);
}

#[test]
fn bad_core_spec_is_a_config_error() {
    match parse_core_spec(&b"abc".to_vec()) {
        Ok(_) => panic!("junk must be refused"),
        Err(e) => assert_eq!(e, ConfigError::BadCoreSpec),
    }
    assert_eq!(parse_core_spec(&b"8".to_vec()), Ok(8));
}

#[test]
fn config_errors_have_distinct_messages() {
    assert_ne!(
        ConfigError::MoreCoresThanPorts.message(),
        ConfigError::BadCoreSpec.message()
    );
}

#[test]
fn nanoseconds_convert_to_whole_seconds() {
    assert_eq!(ns_to_seconds(0), 0);
    assert_eq!(ns_to_seconds(999_999_999), 0);
    assert_eq!(ns_to_seconds(2_500_000_000), 2);
}
