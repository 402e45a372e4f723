use rtsp2flv::projection::{MediaKind, Projection};

#[test]
fn only_audio_and_video_are_relayed() {
    assert!(MediaKind::Video.is_relayed());
    assert!(MediaKind::Audio.is_relayed());
    assert!(!MediaKind::Subtitle.is_relayed());
    assert!(!MediaKind::Data.is_relayed());
    assert!(!MediaKind::Attachment.is_relayed());
    assert!(!MediaKind::Unknown.is_relayed());
}

#[test]
fn relayed_tracks_are_numbered_in_input_order() {
    let p = Projection::new(vec![
        MediaKind::Video,
        MediaKind::Subtitle,
        MediaKind::Audio,
        MediaKind::Data,
        MediaKind::Audio,
    ]);
    assert_eq!(p.input_count(), 5);
    assert_eq!(p.output_count(), 3);
    assert_eq!(p.target_of(0), Some(0));
    assert_eq!(p.target_of(1), None);
    assert_eq!(p.target_of(2), Some(1));
    assert_eq!(p.target_of(3), None);
    assert_eq!(p.target_of(4), Some(2));
}

#[test]
fn track_beyond_the_input_has_no_output() {
    let p = Projection::new(vec![MediaKind::Video]);
    assert_eq!(p.target_of(1), None);
    assert_eq!(p.target_of(usize::MAX), None);
}

#[test]
fn sources_invert_targets() {
    let p = Projection::new(vec![
        MediaKind::Data,
        MediaKind::Audio,
        MediaKind::Unknown,
        MediaKind::Video,
    ]);
    assert_eq!(p.source_of(0), Some(1));
    assert_eq!(p.source_of(1), Some(3));
    assert_eq!(p.source_of(2), None);
    for out in 0..p.output_count() {
        let src = p.source_of(out).unwrap();
        assert_eq!(p.target_of(src), Some(out));
    }
}

#[test]
fn input_without_relayed_tracks_has_no_output() {
    let p = Projection::new(vec![MediaKind::Subtitle, MediaKind::Attachment]);
    assert_eq!(p.output_count(), 0);
    assert_eq!(p.target_of(0), None);
    assert_eq!(p.target_of(1), None);
    assert_eq!(p.source_of(0), None);
}

#[test]
fn empty_input_projects_to_nothing() {
    let p = Projection::new(Vec::new());
    assert_eq!(p.input_count(), 0);
    assert_eq!(p.output_count(), 0);
    assert_eq!(p.target_of(0), None);
}
