use client::video::error::Error;
use client::video::handler::{
    holds_picture, picture_bytes, LocalVideoHandler, PeerVideoHandler, VideoHandler,
};
use client::video::webcam::{
    pacing_delay, split_bitstream, EncodePipeline, FramePlan, KeyframeSchedule,
    DEFAULT_FRAME_INTERVAL_MS, DEFAULT_KEYFRAME_INTERVAL,
};
use client::video::{LocalVideoPanel, PeerVideoPanel, UPPER_HALF_BLOCK};

fn sps() -> Vec<u8> {
    vec![0, 0, 0, 1, 0x67, 0x42, 0x00, 0x1F]
}

fn pps() -> Vec<u8> {
    vec![0, 0, 0, 1, 0x68, 0xCE, 0x3C, 0x80]
}

fn idr() -> Vec<u8> {
    vec![0, 0, 1, 0x65, 0x88, 0x84]
}

fn non_idr() -> Vec<u8> {
    vec![0, 0, 0, 1, 0x41, 0x9A, 0x02]
}

fn joined(units: &[Vec<u8>]) -> Vec<u8> {
    units.concat()
}

fn test_frame(width: usize, height: usize, shade: u8) -> Vec<u8> {
    let mut rgb = Vec::with_capacity(width * height * 3);
    for y in 0..height {
        for x in 0..width {
            let value = ((x * 255 / width) as u8 / 2).wrapping_add(shade).wrapping_add((y / 4) as u8);
            rgb.extend_from_slice(&[value, value / 2, 255 - value]);
        }
    }
    rgb
}

#[test]
fn holds_picture_checks_size() {
    assert!(holds_picture(4, 3, 36));
    assert!(!holds_picture(4, 3, 35));
    assert!(!holds_picture(0, 3, 0));
    assert!(!holds_picture(3, 0, 0));
    assert!(!holds_picture(usize::MAX, usize::MAX, 3));
    assert!(!holds_picture(usize::MAX / 2, 1, 5));
}

#[test]
fn picture_bytes_are_three_per_pixel() {
    assert_eq!(picture_bytes(4, 3), Some(36));
    assert_eq!(picture_bytes(0, 3), Some(0));
    assert_eq!(picture_bytes(usize::MAX, 1), None);
    assert_eq!(picture_bytes(usize::MAX, usize::MAX), None);
    assert_eq!(picture_bytes(usize::MAX / 3, 1), Some(usize::MAX / 3 * 3));
}

#[test]
fn local_handler_takes_frames_of_camera_size() {
    let mut handler = LocalVideoHandler::new(4, 2).unwrap();
    assert_eq!(handler.rgb_buffer(), &[0u8; 24]);
    let frame: Vec<u8> = (0..24).collect();
    assert_eq!(handler.receive_stream(&frame).unwrap(), (4, 2));
    assert_eq!(handler.rgb_buffer(), &frame[..]);
}

#[test]
fn local_handler_refuses_other_sizes() {
    let mut handler = LocalVideoHandler::new(4, 2).unwrap();
    let frame: Vec<u8> = (0..24).collect();
    handler.receive_stream(&frame).unwrap();
    assert!(matches!(handler.receive_stream(&vec![1u8; 23]), Err(Error::Decoding)));
    assert!(matches!(handler.receive_stream(&Vec::new()), Err(Error::Decoding)));
    assert_eq!(handler.rgb_buffer(), &frame[..]);
}

#[test]
fn local_handler_needs_pixels() {
    assert!(matches!(LocalVideoHandler::new(0, 2), Err(Error::CameraNotReady { .. })));
    assert!(matches!(LocalVideoHandler::new(2, 0), Err(Error::CameraNotReady { .. })));
    assert!(matches!(
        LocalVideoHandler::new(usize::MAX, 2),
        Err(Error::CameraNotReady { .. })
    ));
}

#[test]
fn new_pipeline_is_empty() {
    let handler = PeerVideoHandler::new().unwrap();
    assert_eq!(handler.sps(), &None);
    assert_eq!(handler.pps(), &None);
    assert!(handler.frame_buffer().is_empty());
    assert!(handler.rgb_buffer().is_empty());
}

#[test]
fn keyframe_batch_starts_from_cached_parameter_sets() {
    let mut handler = PeerVideoHandler::new().unwrap();
    assert!(handler.ingest(&vec![sps()]).is_err());
    assert!(handler.frame_buffer().is_empty());
    assert!(handler.ingest(&vec![pps()]).is_err());
    assert!(handler.frame_buffer().is_empty());
    assert_eq!(handler.sps(), &Some(sps()));
    assert_eq!(handler.pps(), &Some(pps()));

    handler.assemble(&vec![idr(), non_idr()]).unwrap();
    assert_eq!(handler.frame_buffer(), &joined(&[sps(), pps(), idr(), non_idr()])[..]);
}

#[test]
fn batch_without_keyframe_starts_from_empty_buffer() {
    let mut handler = PeerVideoHandler::new().unwrap();
    assert!(handler.ingest(&vec![sps(), pps(), idr(), non_idr()]).is_err());
    assert!(handler.frame_buffer().is_empty());
    assert_eq!(handler.sps(), &Some(sps()));
    assert_eq!(handler.pps(), &Some(pps()));

    handler.assemble(&vec![non_idr()]).unwrap();
    assert_eq!(handler.frame_buffer(), &non_idr()[..]);
}

#[test]
fn parameter_sets_of_the_batch_are_cached_before_the_reset() {
    let mut handler = PeerVideoHandler::new().unwrap();
    handler.assemble(&vec![sps(), pps(), idr(), non_idr()]).unwrap();
    assert_eq!(
        handler.frame_buffer(),
        &joined(&[sps(), pps(), sps(), pps(), idr(), non_idr()])[..]
    );
}

#[test]
fn keyframe_without_parameter_sets_leaves_buffer_alone() {
    let mut handler = PeerVideoHandler::new().unwrap();
    handler.assemble(&vec![non_idr()]).unwrap();
    handler.assemble(&vec![sps(), idr()]).unwrap();
    assert_eq!(handler.frame_buffer(), &joined(&[non_idr(), sps(), idr()])[..]);
    assert_eq!(handler.pps(), &None);
}

#[test]
fn cache_keeps_the_last_parameter_set() {
    let mut handler = PeerVideoHandler::new().unwrap();
    let other_sps = vec![0, 0, 1, 0x67, 0x64];
    handler.assemble(&vec![sps(), other_sps.clone(), non_idr()]).unwrap();
    assert_eq!(handler.sps(), &Some(other_sps));
}

#[test]
fn malformed_batch_changes_nothing() {
    let mut handler = PeerVideoHandler::new().unwrap();
    handler.assemble(&vec![sps()]).unwrap();
    let before = handler.frame_buffer().to_vec();
    let batch = vec![pps(), vec![0x65, 1, 2]];
    assert!(matches!(handler.assemble(&batch), Err(Error::MalformedNalUnit)));
    assert!(matches!(handler.ingest(&batch), Err(Error::MalformedNalUnit)));
    assert_eq!(handler.frame_buffer(), &before[..]);
    assert_eq!(handler.pps(), &None);
    assert_eq!(handler.sps(), &Some(sps()));
}

#[test]
fn stream_with_bare_start_code_is_malformed() {
    let mut handler = PeerVideoHandler::new().unwrap();
    let stream = vec![0, 0, 1, 0x67, 9, 0, 0, 1];
    assert!(matches!(handler.receive_stream(&stream), Err(Error::MalformedNalUnit)));
    assert_eq!(handler.sps(), &None);
}

#[test]
fn stream_is_split_at_start_codes() {
    let mut handler = PeerVideoHandler::new().unwrap();
    let mut stream = vec![9, 9];
    stream.extend_from_slice(&[0, 0, 1, 0x67, 0x42, 0, 0, 1, 0x68, 0xCE]);
    assert!(handler.receive_stream(&stream).is_err());
    assert_eq!(handler.sps(), &Some(vec![0, 0, 1, 0x67, 0x42]));
    assert_eq!(handler.pps(), &Some(vec![0, 0, 1, 0x68, 0xCE]));
    assert!(handler.frame_buffer().is_empty());
}

#[test]
fn decoder_answers_are_checked() {
    let mut handler = PeerVideoHandler::new().unwrap();
    let picture = vec![7u8; 2 * 3 * 3];
    assert_eq!(handler.accept_picture(Ok(Some((2, 3, picture.clone())))).unwrap(), (2, 3));
    assert_eq!(handler.rgb_buffer(), &picture[..]);
    assert!(matches!(handler.accept_picture(Ok(None)), Err(Error::Decoding)));
    assert!(matches!(
        handler.accept_picture(Ok(Some((2, 3, vec![1u8; 17])))),
        Err(Error::Decoding)
    ));
    assert!(matches!(
        handler.accept_picture(Ok(Some((0, 3, Vec::new())))),
        Err(Error::Decoding)
    ));
    match handler.accept_picture(Err(String::from("broken stream"))) {
        Err(Error::OpenH264 { message }) => assert_eq!(message, "broken stream"),
        _ => panic!("a failure of the decoder must be reported as such"),
    }
    assert_eq!(handler.rgb_buffer(), &picture[..]);
}

#[test]
fn pacing_waits_for_the_rest_of_the_interval() {
    assert_eq!(DEFAULT_FRAME_INTERVAL_MS, 50);
    assert_eq!(pacing_delay(0, 50), 50);
    assert_eq!(pacing_delay(20, 50), 30);
    assert_eq!(pacing_delay(49, 50), 1);
    assert_eq!(pacing_delay(50, 50), 0);
    assert_eq!(pacing_delay(500, 50), 0);
}

#[test]
fn keyframe_is_forced_every_interval_frames() {
    assert_eq!(DEFAULT_KEYFRAME_INTERVAL, 30);
    let mut schedule = KeyframeSchedule::new(DEFAULT_KEYFRAME_INTERVAL);
    for frame in 0..100u32 {
        assert_eq!(schedule.advance(), frame % 30 == 0);
    }
    assert_eq!(schedule.keyframe_interval(), 30);
}

#[test]
fn interval_of_zero_or_one_forces_every_frame() {
    let mut zero = KeyframeSchedule::new(0);
    let mut one = KeyframeSchedule::new(1);
    assert_eq!(zero.keyframe_interval(), 1);
    for _ in 0..5 {
        assert!(zero.advance());
        assert!(one.advance());
    }
}

#[test]
fn pipeline_refuses_resolutions_that_cannot_be_encoded() {
    assert!(matches!(EncodePipeline::new(0, 16, 30), Err(Error::CameraNotReady { .. })));
    assert!(matches!(EncodePipeline::new(15, 16, 30), Err(Error::CameraNotReady { .. })));
    assert!(matches!(EncodePipeline::new(16, 17, 30), Err(Error::CameraNotReady { .. })));
    assert!(matches!(
        EncodePipeline::new(usize::MAX - 1, 2, 30),
        Err(Error::CameraNotReady { .. })
    ));
}

#[test]
fn nothing_is_encoded_without_broadcast() {
    let mut pipeline = EncodePipeline::new(32, 32, 3).unwrap();
    let frame = test_frame(32, 32, 0);
    assert_eq!(pipeline.process(&frame, false).unwrap(), Vec::<Vec<u8>>::new());
    assert_eq!(pipeline.plan(false), FramePlan::PreviewOnly);
    assert_eq!(pipeline.plan(true), FramePlan::Encode { force_intra: true });
    assert_eq!(pipeline.plan(false), FramePlan::PreviewOnly);
    assert_eq!(pipeline.plan(true), FramePlan::Encode { force_intra: false });
    assert_eq!(pipeline.plan(true), FramePlan::Encode { force_intra: false });
    assert_eq!(pipeline.plan(true), FramePlan::Encode { force_intra: true });
}

#[test]
fn frame_of_wrong_size_is_not_encoded() {
    let mut pipeline = EncodePipeline::new(32, 32, 2).unwrap();
    assert!(matches!(
        pipeline.process(&vec![0u8; 32 * 32 * 3 - 1], true),
        Err(Error::CameraNotReady { .. })
    ));
    assert_eq!(pipeline.plan(true), FramePlan::Encode { force_intra: true });
}

#[test]
fn bitstream_is_cut_into_units() {
    let stream = vec![5, 0, 0, 0, 1, 0x67, 1, 0, 0, 1, 0x68, 2, 0, 0, 0, 1, 0x65, 3];
    let chunks = split_bitstream(Ok(stream)).unwrap();
    assert_eq!(
        chunks,
        vec![vec![0, 0, 1, 0x67, 1], vec![0, 0, 1, 0x68, 2, 0], vec![0, 0, 1, 0x65, 3]]
    );
    assert_eq!(split_bitstream(Ok(vec![1, 2, 3])).unwrap(), Vec::<Vec<u8>>::new());
    match split_bitstream(Err(String::from("encoder gone"))) {
        Err(Error::OpenH264 { message }) => assert_eq!(message, "encoder gone"),
        _ => panic!("a failure of the encoder must be reported as such"),
    }
}

#[test]
fn encoded_frames_decode_to_pictures_of_the_same_size() {
    let mut pipeline = EncodePipeline::new(64, 48, 30).unwrap();
    let mut handler = PeerVideoHandler::new().unwrap();
    let mut decoded = 0;
    for shade in 0..4u8 {
        let chunks = pipeline.process(&test_frame(64, 48, shade * 10), true).unwrap();
        assert!(!chunks.is_empty());
        for chunk in &chunks {
            assert_eq!(&chunk[..3], &[0, 0, 1]);
        }
        if shade == 0 {
            let kinds: Vec<u8> = chunks.iter().map(|chunk| chunk[3] & 0x1F).collect();
            assert!(kinds.contains(&7));
            assert!(kinds.contains(&8));
            assert!(kinds.contains(&5));
        }
        let stream: Vec<u8> = chunks.concat();
        if let Ok(size) = handler.receive_stream(&stream) {
            assert_eq!(size, (64, 48));
            assert_eq!(handler.rgb_buffer().len(), 64 * 48 * 3);
            decoded += 1;
        }
        assert!(handler.frame_buffer().is_empty());
    }
    assert!(decoded >= 1);
    assert!(handler.sps().is_some());
    assert!(handler.pps().is_some());
}

#[test]
fn peer_panel_shows_decoded_frame() {
    let mut pipeline = EncodePipeline::new(64, 48, 30).unwrap();
    let mut panel = PeerVideoPanel::new_peer(1, 12, 20, 8).unwrap();
    let white = vec![255u8; 64 * 48 * 3];
    let mut shown = false;
    for _ in 0..4 {
        let stream: Vec<u8> = pipeline.process(&white, true).unwrap().concat();
        if panel.receive_stream(&stream).is_ok() {
            shown = true;
        }
    }
    assert!(shown);
    let cells = panel.cells();
    assert_eq!(cells.len(), 6);
    for (row, line) in cells.iter().enumerate() {
        assert_eq!(line.len(), 16);
        for (column, cell) in line.iter().enumerate() {
            assert_eq!(cell.column as usize, 3 + column);
            assert_eq!(cell.row as usize, 13 + row);
            assert_eq!(cell.glyph, UPPER_HALF_BLOCK);
            assert!(cell.top_color >= 20);
            assert!(cell.bottom_color >= 20);
        }
    }
}

#[test]
fn local_panel_resamples_camera_frames() {
    let mut panel = LocalVideoPanel::new_local(1, 1, 8, 4, 8, 4).unwrap();
    let cells = panel.cells();
    assert_eq!(cells.len(), 2);
    assert!(cells.iter().all(|row| row.len() == 4));
    assert!(cells.iter().flatten().all(|cell| cell.top_color == 0 && cell.bottom_color == 0));

    panel.receive_stream(&vec![255u8; 8 * 4 * 3]).unwrap();
    let cells = panel.cells();
    assert!(cells.iter().flatten().all(|cell| cell.top_color == 23 && cell.bottom_color == 23));
    assert_eq!(cells[1][3].column, 6);
    assert_eq!(cells[1][3].row, 3);

    assert!(matches!(panel.receive_stream(&vec![0u8; 5]), Err(Error::Decoding)));
    let cells = panel.cells();
    assert!(cells.iter().flatten().all(|cell| cell.top_color == 23));
}

#[test]
fn panel_too_small_for_its_border_has_no_cells() {
    let panel = LocalVideoPanel::new_local(0, 0, 3, 5, 2, 2).unwrap();
    let cells = panel.cells();
    assert_eq!(cells.len(), 3);
    assert!(cells.iter().all(|row| row.is_empty()));
    let panel = LocalVideoPanel::new_local(0, 0, 10, 1, 2, 2).unwrap();
    assert!(panel.cells().is_empty());
}

#[test]
fn panel_at_the_far_edge_of_the_screen() {
    let mut panel = LocalVideoPanel::new_local(65530, 65532, 6, 4, 2, 2).unwrap();
    panel.receive_stream(&vec![255u8; 12]).unwrap();
    let cells = panel.cells();
    assert_eq!(cells.len(), 2);
    assert_eq!(cells[1].len(), 2);
    assert_eq!(cells[1][1].column, 65533);
    assert_eq!(cells[1][1].row, 65534);
    assert_eq!(cells[1][1].top_color, 23);
}
