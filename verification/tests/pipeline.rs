use recvtest::mac::HeaderTransform;
use recvtest::mac::MacHeader;
use recvtest::mac::MacSwap;
use recvtest::mac::read_header;
use recvtest::mac::write_header;
use recvtest::mac::EthertypeIs;
use recvtest::pipeline::Pipeline;
use recvtest::pipeline::mirror_pipeline;
use recvtest::port::Port;

fn frame(dst: [u8; 6], src: [u8; 6], ethertype: [u8; 2], payload: &[u8]) -> Vec<u8> {
    let mut f = Vec::new();
    f.extend_from_slice(&dst);
    f.extend_from_slice(&src);
    f.extend_from_slice(&ethertype);
    f.extend_from_slice(payload);
    f
}

#[test]
fn mac_swap_swaps_addresses() {
    let buf = frame([1, 2, 3, 4, 5, 6], [7, 8, 9, 10, 11, 12], [8, 0], &[0xaa]);
    let mut h: MacHeader = read_header(&buf);
    MacSwap.apply(&mut h);
    assert_eq!(h.dst, vec![7, 8, 9, 10, 11, 12]);
    assert_eq!(h.src, vec![1, 2, 3, 4, 5, 6]);
    assert_eq!(h.ethertype, vec![8, 0]);
}

#[test]
fn mac_swap_twice_restores_header() {
    let buf = frame([1, 2, 3, 4, 5, 6], [7, 8, 9, 10, 11, 12], [8, 0], &[]);
    let mut h: MacHeader = read_header(&buf);
    MacSwap.apply(&mut h);
    MacSwap.apply(&mut h);
    assert_eq!(h.dst, vec![1, 2, 3, 4, 5, 6]);
    assert_eq!(h.src, vec![7, 8, 9, 10, 11, 12]);
    assert_eq!(h.ethertype, vec![8, 0]);
}

#[test]
fn header_write_read_roundtrip() {
    let mut buf = frame([1, 2, 3, 4, 5, 6], [7, 8, 9, 10, 11, 12], [8, 6], &[1, 2, 3]);
    let h = read_header(&buf);
    let before = buf.clone();
    write_header(&mut buf, &h);
    assert_eq!(buf, before);
}

#[test]
fn pipeline_reflects_frames_in_arrival_order() {
    let mut port = Port::new();
    for k in 0..5u8 {
        port.deliver(frame([1, 1, 1, 1, 1, k], [2, 2, 2, 2, 2, k], [8, 0], &[k, k + 1]));
    }
    let mut p = mirror_pipeline(port, 8);
    p.poll();
    let (rx, tx) = p.stats();
    assert_eq!(rx, 5);
    assert_eq!(tx, 5);
    assert_eq!(p.port().transmitted_count(), 5);
    for k in 0..5u8 {
        let out = p.port().transmitted_frame(k as usize);
        let expected = frame([2, 2, 2, 2, 2, k], [1, 1, 1, 1, 1, k], [8, 0], &[k, k + 1]);
        assert_eq!(out, &expected);
    }
}

#[test]
fn empty_poll_changes_nothing() {
    let port = Port::new();
    let mut p = mirror_pipeline(port, 16);
    p.poll();
    p.poll();
    let (rx, tx) = p.stats();
    assert_eq!(rx, 0);
    assert_eq!(tx, 0);
    assert_eq!(p.port().transmitted_count(), 0);
}

#[test]
fn short_frame_is_dropped_not_transmitted() {
    let mut port = Port::new();
    port.deliver(vec![1, 2, 3]);
    port.deliver(frame([9, 9, 9, 9, 9, 9], [3, 3, 3, 3, 3, 3], [8, 0], &[]));
    let mut p = mirror_pipeline(port, 8);
    p.poll();
    let (rx, tx) = p.stats();
    assert_eq!(rx, 2);
    assert_eq!(tx, 1);
    assert_eq!(
        p.port().transmitted_frame(0),
        &frame([3, 3, 3, 3, 3, 3], [9, 9, 9, 9, 9, 9], [8, 0], &[])
    );
}

#[test]
fn filter_excludes_refused_frames() {
    let mut port = Port::new();
    port.deliver(frame([1, 0, 0, 0, 0, 1], [2, 0, 0, 0, 0, 1], [8, 0], &[7]));
    port.deliver(frame([1, 0, 0, 0, 0, 2], [2, 0, 0, 0, 0, 2], [8, 6], &[8]));
    port.deliver(frame([1, 0, 0, 0, 0, 3], [2, 0, 0, 0, 0, 3], [8, 0], &[9]));
    let mut p = Pipeline::compose(port, MacSwap, EthertypeIs { hi: 8, lo: 0 }, 8);
    p.poll();
    let (rx, tx) = p.stats();
    assert_eq!(rx, 3);
    assert_eq!(tx, 2);
    let refused = frame([2, 0, 0, 0, 0, 2], [1, 0, 0, 0, 0, 2], [8, 6], &[8]);
    for k in 0..p.port().transmitted_count() {
        assert_ne!(p.port().transmitted_frame(k), &refused);
    }
    assert_eq!(
        p.port().transmitted_frame(0),
        &frame([2, 0, 0, 0, 0, 1], [1, 0, 0, 0, 0, 1], [8, 0], &[7])
    );
    assert_eq!(
        p.port().transmitted_frame(1),
        &frame([2, 0, 0, 0, 0, 3], [1, 0, 0, 0, 0, 3], [8, 0], &[9])
    );
}

#[test]
fn order_survives_interleaved_arrivals_and_polls() {
    let mut p = mirror_pipeline(Port::new(), 4);
    for k in 0..2u8 {
        p.deliver(frame([1, 1, 1, 1, 1, k], [2, 2, 2, 2, 2, k], [8, 0], &[]));
    }
    p.poll();
    for k in 2..4u8 {
        p.deliver(frame([1, 1, 1, 1, 1, k], [2, 2, 2, 2, 2, k], [8, 0], &[]));
    }
    p.poll();
    assert_eq!(p.port().transmitted_count(), 4);
    for k in 0..4u8 {
        let out = p.port().transmitted_frame(k as usize);
        assert_eq!(out, &frame([2, 2, 2, 2, 2, k], [1, 1, 1, 1, 1, k], [8, 0], &[]));
    }
}

#[test]
fn batched_polls_consume_in_chunks() {
    let mut port = Port::new();
    for k in 0..5u8 {
        port.deliver(frame([1, 1, 1, 1, 1, k], [2, 2, 2, 2, 2, k], [8, 0], &[]));
    }
    let mut p = mirror_pipeline(port, 2);
    p.poll();
    assert_eq!(p.stats().0, 2);
    p.poll();
    assert_eq!(p.stats().0, 4);
    p.poll();
    assert_eq!(p.stats().0, 5);
    assert_eq!(p.stats().1, 5);
}
