use horn_shunck_rs::camera::{capture_request, capture_step, plan_upload, rgba_frame_fits, CaptureAction, CaptureEvent, CaptureRequest, LuminanceFrame, RgbaFrame};

fn rgba(w: u32, h: u32, n: usize) -> RgbaFrame {
    RgbaFrame { width: w, height: h, data: vec![0; n] }
}

fn luma(w: u32, h: u32) -> LuminanceFrame {
    LuminanceFrame { width: w, height: h, data: vec![1; (w * h) as usize] }
}

#[test]
fn capture_request_pairs_frames() {
    match capture_request(Ok(rgba(2, 1, 8)), Ok(luma(2, 1))) {
        CaptureRequest::Frame(c, l) => {
            assert_eq!((c.width, c.height, c.data.len()), (2, 1, 8));
            assert_eq!(l.data, vec![1, 1]);
        }
        CaptureRequest::Error(_) => panic!("expected a frame"),
    }
}

#[test]
fn capture_request_reports_first_error() {
    let r = capture_request(Err("colour".to_string()), Err("grey".to_string()));
    assert!(matches!(&r, CaptureRequest::Error(m) if m == "colour"));
    assert!(r.ends_capture());
    let r2 = capture_request(Ok(rgba(1, 1, 4)), Err("grey".to_string()));
    assert!(matches!(&r2, CaptureRequest::Error(m) if m == "grey"));
    let r3 = capture_request(Ok(rgba(1, 1, 4)), Ok(luma(1, 1)));
    assert!(!r3.ends_capture());
}

#[test]
fn plan_upload_accepts_matching_frame() {
    let p = plan_upload(None, &rgba(3, 2, 24)).ok().unwrap();
    assert!(p.recreate_texture);
    assert_eq!(p.bytes_per_row, 12);
    assert_eq!(p.rows_per_image, 2);
    let q = plan_upload(Some((3, 2)), &rgba(3, 2, 24)).ok().unwrap();
    assert!(!q.recreate_texture);
    let r = plan_upload(Some((3, 3)), &rgba(3, 2, 24)).ok().unwrap();
    assert!(r.recreate_texture);
}

#[test]
fn plan_upload_rejects_wrong_size() {
    let e = plan_upload(Some((3, 2)), &rgba(3, 2, 6)).err().unwrap();
    assert_eq!((e.width, e.height, e.actual, e.expected), (3, 2, 6, 24));
    let z = plan_upload(None, &rgba(0, 5, 0));
    assert!(z.is_ok());
}

#[test]
fn rgba_frame_fits_cases() {
    assert!(rgba_frame_fits(&rgba(1920, 1080, 4 * 1920 * 1080)));
    assert!(rgba_frame_fits(&rgba(3, 2, 5)));
    let wide = RgbaFrame { width: u32::MAX, height: 0, data: vec![] };
    assert!(!rgba_frame_fits(&wide));
    let huge = RgbaFrame { width: u32::MAX, height: u32::MAX, data: vec![] };
    assert!(!rgba_frame_fits(&huge));
}

#[test]
fn capture_step_open_and_stop() {
    assert!(matches!(capture_step(CaptureEvent::CameraOpened(Ok(()))), CaptureAction::ReadStopFlag));
    assert!(matches!(
        capture_step(CaptureEvent::CameraOpened(Err("no camera".to_string()))),
        CaptureAction::SendAndStop(CaptureRequest::Error(m)) if m == "no camera"
    ));
    assert!(matches!(capture_step(CaptureEvent::StopFlag(true)), CaptureAction::Stop));
    assert!(matches!(capture_step(CaptureEvent::StopFlag(false)), CaptureAction::ReadFrame));
}

#[test]
fn capture_step_frames_and_sends() {
    assert!(matches!(capture_step(CaptureEvent::FrameRead(Ok(()))), CaptureAction::Decode));
    assert!(matches!(
        capture_step(CaptureEvent::FrameRead(Err("read".to_string()))),
        CaptureAction::SendAndStop(CaptureRequest::Error(m)) if m == "read"
    ));
    assert!(matches!(
        capture_step(CaptureEvent::Decoded(Ok(rgba(1, 1, 4)), Ok(luma(1, 1)))),
        CaptureAction::Send(CaptureRequest::Frame(_, _))
    ));
    assert!(matches!(
        capture_step(CaptureEvent::Decoded(Ok(rgba(1, 1, 4)), Err("grey".to_string()))),
        CaptureAction::SendAndStop(CaptureRequest::Error(m)) if m == "grey"
    ));
    assert!(matches!(capture_step(CaptureEvent::FrameSent(Ok(()))), CaptureAction::ReadStopFlag));
    assert!(matches!(
        capture_step(CaptureEvent::FrameSent(Err("closed".to_string()))),
        CaptureAction::ReportAndContinue(m) if m == "closed"
    ));
}
