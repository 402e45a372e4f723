use rtsp2flv::timestamps::{PacketState, RawStamps, Timestamps};

fn raw(dts: Option<i64>, pts: Option<i64>) -> RawStamps {
    RawStamps { dts, pts }
}

#[test]
fn missing_and_regressed_decode_timestamps_are_repaired() {
    let mut state = PacketState::new();
    let input = [None, Some(5), Some(3), Some(10), Some(10), Some(8)];
    let mut out = Vec::new();
    for dts in input {
        out.push(state.repair(raw(dts, None)));
    }
    let dts: Vec<i64> = out.iter().map(|t| t.dts).collect();
    assert_eq!(dts, vec![0, 5, 6, 10, 11, 12]);
    for t in &out {
        assert_eq!(t.pts, t.dts);
    }
    for pair in dts.windows(2) {
        assert!(pair[0] < pair[1]);
    }
}

#[test]
fn first_packet_without_timestamps_starts_at_zero() {
    let mut state = PacketState::new();
    assert_eq!(state.last_dts(), None);
    assert_eq!(state.last_pts(), None);
    assert_eq!(state.repair(raw(None, None)), Timestamps { dts: 0, pts: 0 });
    assert_eq!(state.last_dts(), Some(0));
    assert_eq!(state.last_pts(), Some(0));
}

#[test]
fn first_packet_keeps_its_decode_timestamp() {
    let mut state = PacketState::new();
    assert_eq!(state.repair(raw(Some(-40), Some(7))), Timestamps { dts: -40, pts: 7 });
    assert_eq!(state.last_dts(), Some(-40));
    assert_eq!(state.last_pts(), Some(7));
}

#[test]
fn missing_decode_timestamp_follows_the_watermark() {
    let mut state = PacketState::new();
    state.repair(raw(Some(100), Some(100)));
    assert_eq!(state.repair(raw(None, None)), Timestamps { dts: 101, pts: 101 });
    assert_eq!(state.repair(raw(None, Some(500))), Timestamps { dts: 102, pts: 500 });
}

#[test]
fn presentation_before_decode_is_raised() {
    let mut state = PacketState::new();
    assert_eq!(state.repair(raw(Some(10), Some(4))), Timestamps { dts: 10, pts: 10 });
}

#[test]
fn presentation_is_raised_again_after_decode_is_forced() {
    let mut state = PacketState::new();
    state.repair(raw(Some(20), Some(20)));
    // dts 5 <= 20 is forced to 21; pts 8 was above 5 but is below 21.
    assert_eq!(state.repair(raw(Some(5), Some(8))), Timestamps { dts: 21, pts: 21 });
    // pts beyond the forced dts stays.
    assert_eq!(state.repair(raw(Some(5), Some(90))), Timestamps { dts: 22, pts: 90 });
}

#[test]
fn ordered_timestamps_pass_unchanged() {
    let mut state = PacketState::new();
    for (d, p) in [(0, 2), (1, 1), (2, 4), (3, 3)] {
        assert_eq!(state.repair(raw(Some(d), Some(p))), Timestamps { dts: d, pts: p });
    }
}

#[test]
fn duplicate_decode_timestamp_is_moved_by_one() {
    let mut state = PacketState::new();
    state.repair(raw(Some(7), None));
    assert_eq!(state.repair(raw(Some(7), None)).dts, 8);
    assert_eq!(state.repair(raw(Some(7), None)).dts, 9);
}

#[test]
fn exhausted_track_takes_no_packet() {
    let mut state = PacketState::new();
    assert_eq!(
        state.try_repair(raw(Some(i64::MAX), None)),
        Some(Timestamps { dts: i64::MAX, pts: i64::MAX })
    );
    assert_eq!(state.try_repair(raw(Some(3), None)), None);
    assert_eq!(state.try_repair(raw(None, None)), None);
    assert_eq!(state.last_dts(), Some(i64::MAX));
    assert_eq!(state.last_pts(), Some(i64::MAX));
}

#[test]
fn try_repair_agrees_with_repair() {
    let mut a = PacketState::new();
    let mut b = PacketState::new();
    for (d, p) in [(None, Some(3)), (Some(1), None), (Some(1), Some(0)), (Some(i64::MAX - 1), None)] {
        assert_eq!(a.try_repair(raw(d, p)), Some(b.repair(raw(d, p))));
    }
    assert_eq!(a.last_dts(), Some(i64::MAX - 1));
    assert_eq!(a.try_repair(raw(None, None)).map(|t| t.dts), Some(i64::MAX));
}

#[test]
fn smallest_timestamp_is_an_ordinary_value() {
    let mut state = PacketState::new();
    assert_eq!(state.repair(raw(Some(i64::MIN), None)), Timestamps { dts: i64::MIN, pts: i64::MIN });
    assert_eq!(state.repair(raw(None, None)).dts, i64::MIN + 1);
}
