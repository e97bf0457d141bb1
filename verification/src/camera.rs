//! Frames delivered by the camera and the checks made before they are shown.
use vstd::prelude::*;

verus! {

/// A colour frame: `width * height` pixels of four bytes (red, green, blue,
/// alpha), row by row.
pub struct RgbaFrame {
    pub width: u32,
    pub height: u32,
    pub data: Vec<u8>,
}

/// A grey-level frame: one luminance byte per pixel, row by row.
#[derive(Clone)]
pub struct LuminanceFrame {
    pub width: u32,
    pub height: u32,
    pub data: Vec<u8>,
}

/// What the capture side hands to the display side: a frame decoded both in
/// colour and in luminance, or the reason capture stopped.
pub enum CaptureRequest {
    Frame(RgbaFrame, LuminanceFrame),
    Error(String),
}

impl CaptureRequest {
    /// Capture goes on after a frame and stops after an error.
    pub fn ends_capture(&self) -> (r: bool)
        ensures
            r <==> self is Error,
    {
        match self {
            CaptureRequest::Frame(_, _) => false,
            CaptureRequest::Error(_) => true,
        }
    }
}

/// The request for one camera buffer, given its colour and luminance
/// decodings: the frame pair when both succeeded, otherwise the first failure,
/// the colour decoding being the first one tried.
pub fn capture_request(
    color: Result<RgbaFrame, String>,
    luminance: Result<LuminanceFrame, String>,
) -> (r: CaptureRequest)
    ensures
        match (color, luminance) {
            (Ok(c), Ok(l)) => r == CaptureRequest::Frame(c, l),
            (Err(e), _) => r == CaptureRequest::Error(e),
            (Ok(_), Err(e)) => r == CaptureRequest::Error(e),
        },
{
    match color {
        Err(e) => CaptureRequest::Error(e),
        Ok(c) => match luminance {
            Ok(l) => CaptureRequest::Frame(c, l),
            Err(e) => CaptureRequest::Error(e),
        },
    }
}

/// What the capture side just learnt: the outcome of the call that the last
/// action asked for.
pub enum CaptureEvent {
    /// The camera was opened, or could not be (with the reason).
    CameraOpened(Result<(), String>),
    /// The stop flag was read.
    StopFlag(bool),
    /// A camera buffer was read, or could not be (with the reason).
    FrameRead(Result<(), String>),
    /// The buffer was decoded in colour and in luminance.
    Decoded(Result<RgbaFrame, String>, Result<LuminanceFrame, String>),
    /// A frame was sent to the display, or could not be (with the reason).
    FrameSent(Result<(), String>),
}

/// What the capture side does next.
pub enum CaptureAction {
    /// Read the stop flag.
    ReadStopFlag,
    /// Read a buffer from the camera.
    ReadFrame,
    /// Decode the buffer just read.
    Decode,
    /// Send this request and go on.
    Send(CaptureRequest),
    /// Send this request and stop capturing.
    SendAndStop(CaptureRequest),
    /// Report that a frame could not be sent, then read the stop flag.
    ReportAndContinue(String),
    /// Stop capturing.
    Stop,
}

/// The capture loop's answer to each event: a camera that cannot be opened or
/// read, or a buffer that cannot be decoded, is reported to the display and
/// ends capture; a raised stop flag ends it silently; a decoded frame pair is
/// sent, and a failed send is reported locally without stopping.
pub open spec fn capture_step_spec(event: CaptureEvent) -> CaptureAction {
    match event {
        CaptureEvent::CameraOpened(Ok(())) => CaptureAction::ReadStopFlag,
        CaptureEvent::CameraOpened(Err(m)) => CaptureAction::SendAndStop(CaptureRequest::Error(m)),
        CaptureEvent::StopFlag(true) => CaptureAction::Stop,
        CaptureEvent::StopFlag(false) => CaptureAction::ReadFrame,
        CaptureEvent::FrameRead(Ok(())) => CaptureAction::Decode,
        CaptureEvent::FrameRead(Err(m)) => CaptureAction::SendAndStop(CaptureRequest::Error(m)),
        CaptureEvent::Decoded(Ok(c), Ok(l)) => CaptureAction::Send(CaptureRequest::Frame(c, l)),
        CaptureEvent::Decoded(Err(m), _) => CaptureAction::SendAndStop(CaptureRequest::Error(m)),
        CaptureEvent::Decoded(Ok(_), Err(m)) => CaptureAction::SendAndStop(CaptureRequest::Error(m)),
        CaptureEvent::FrameSent(Ok(())) => CaptureAction::ReadStopFlag,
        CaptureEvent::FrameSent(Err(m)) => CaptureAction::ReportAndContinue(m),
    }
}

/// The capture loop sends exactly the frames it decoded: after both decodings
/// succeed it sends that colour frame and that luminance frame, each with its
/// own width, height and bytes; it sends a frame pair after no other event; it
/// only ever sends and stops with an error; and it stops without sending
/// exactly when the stop flag is raised.
pub proof fn lemma_capture_sends_decoded_frames(e: CaptureEvent)
    ensures
        e matches CaptureEvent::Decoded(Ok(c), Ok(l)) ==> capture_step_spec(e)
            == CaptureAction::Send(CaptureRequest::Frame(c, l)),
        capture_step_spec(e) matches CaptureAction::Send(CaptureRequest::Frame(c, l)) ==> e
            == CaptureEvent::Decoded(Ok(c), Ok(l)),
        capture_step_spec(e) matches CaptureAction::Send(r) ==> r is Frame,
        capture_step_spec(e) matches CaptureAction::SendAndStop(r) ==> r is Error,
        capture_step_spec(e) is Stop <==> e == CaptureEvent::StopFlag(true),
        e matches CaptureEvent::Decoded(Ok(c), Ok(l)) ==> ({
            let a = capture_step_spec(e);
            a matches CaptureAction::Send(CaptureRequest::Frame(c2, l2)) && c2.width == c.width
                && c2.height == c.height && c2.data == c.data && l2.width == l.width && l2.height
                == l.height && l2.data == l.data
        }),
{
}

/// The capture loop's next action after `event`.
pub fn capture_step(event: CaptureEvent) -> (a: CaptureAction)
    ensures
        a == capture_step_spec(event),
        event matches CaptureEvent::Decoded(Ok(c), Ok(l)) ==> a == CaptureAction::Send(
            CaptureRequest::Frame(c, l),
        ),
        a matches CaptureAction::Send(CaptureRequest::Frame(c, l)) ==> event
            == CaptureEvent::Decoded(Ok(c), Ok(l)),
{
    match event {
        CaptureEvent::CameraOpened(Ok(())) => CaptureAction::ReadStopFlag,
        CaptureEvent::CameraOpened(Err(m)) => CaptureAction::SendAndStop(CaptureRequest::Error(m)),
        CaptureEvent::StopFlag(stop) => if stop {
            CaptureAction::Stop
        } else {
            CaptureAction::ReadFrame
        },
        CaptureEvent::FrameRead(Ok(())) => CaptureAction::Decode,
        CaptureEvent::FrameRead(Err(m)) => CaptureAction::SendAndStop(CaptureRequest::Error(m)),
        CaptureEvent::Decoded(color, luminance) => {
            let request = capture_request(color, luminance);
            if request.ends_capture() {
                CaptureAction::SendAndStop(request)
            } else {
                CaptureAction::Send(request)
            }
        },
        CaptureEvent::FrameSent(Ok(())) => CaptureAction::ReadStopFlag,
        CaptureEvent::FrameSent(Err(m)) => CaptureAction::ReportAndContinue(m),
    }
}

/// Number of bytes of a `width` by `height` RGBA8 image.
pub open spec fn rgba_len(width: int, height: int) -> int {
    4 * width * height
}

/// A colour frame whose byte count does not match its dimensions.
pub struct FrameSizeError {
    pub width: u32,
    pub height: u32,
    pub actual: usize,
    pub expected: usize,
}

/// How a checked colour frame reaches the camera texture.
pub struct UploadPlan {
    /// The texture must be (re)created at the frame's size first.
    pub recreate_texture: bool,
    /// Bytes per row of the copy.
    pub bytes_per_row: u32,
    /// Rows of the copy.
    pub rows_per_image: u32,
}

/// The sizes that checking and uploading a colour frame compute fit their
/// machine integers: `4 * width` and `4 * width * height` in `usize`, and, for a
/// frame whose byte count matches, the row length `4 * width` in `u32`.
pub open spec fn upload_sizes_fit(frame: &RgbaFrame) -> bool {
    &&& 4 * frame.width <= usize::MAX
    &&& rgba_len(frame.width as int, frame.height as int) <= usize::MAX
    &&& frame.data@.len() == rgba_len(frame.width as int, frame.height as int) ==> 4 * frame.width
        <= u32::MAX
}

/// The size check asks nothing beyond machine limits: a frame passes when its
/// byte count `4 * width * height` and its row length `4 * width` are machine
/// sizes (the row length a `u32`), so every frame up to 16384 pixels along
/// each side passes on any machine; and a frame that passes has a row length
/// and a byte count that are machine sizes.
pub proof fn lemma_upload_sizes(frame: &RgbaFrame)
    ensures
        4 * frame.width * frame.height <= usize::MAX && 4 * frame.width <= u32::MAX
            ==> upload_sizes_fit(frame),
        frame.width <= 16384 && frame.height <= 16384 ==> upload_sizes_fit(frame),
        upload_sizes_fit(frame) ==> 4 * frame.width <= usize::MAX && 4 * frame.width
            * frame.height <= usize::MAX,
{
    let w = frame.width as int;
    let h = frame.height as int;
    assert(rgba_len(w, h) == 4 * w * h);
    if w <= 16384 && h <= 16384 {
        assert(4 * w * h <= 4 * 16384 * 16384) by (nonlinear_arith)
            requires
                0 <= w <= 16384,
                0 <= h <= 16384,
        ;
    }
}

/// Whether `upload_sizes_fit(frame)` holds.
pub fn rgba_frame_fits(frame: &RgbaFrame) -> (ok: bool)
    ensures
        ok == upload_sizes_fit(frame),
        4 * frame.width * frame.height <= usize::MAX && 4 * frame.width <= u32::MAX ==> ok,
        frame.width <= 16384 && frame.height <= 16384 ==> ok,
        ok ==> 4 * frame.width <= usize::MAX && 4 * frame.width * frame.height <= usize::MAX,
{
    proof {
        lemma_upload_sizes(frame);
    }
    let w: u128 = frame.width as u128;
    let h: u128 = frame.height as u128;
    assert(4 * w * h <= 4 * 0xffff_ffffu128 * 0xffff_ffffu128) by (nonlinear_arith)
        requires
            w <= 0xffff_ffff,
            h <= 0xffff_ffff,
    ;
    let row: u128 = 4 * w;
    let total: u128 = row * h;
    assert(total == rgba_len(frame.width as int, frame.height as int)) by (nonlinear_arith)
        requires
            row == 4 * w,
            total == row * h,
            w == frame.width,
            h == frame.height,
    ;
    if row > usize::MAX as u128 || total > usize::MAX as u128 {
        return false;
    }
    if frame.data.len() as u128 == total {
        row <= u32::MAX as u128
    } else {
        true
    }
}

/// Checks a colour frame against its dimensions and plans its upload to a
/// camera texture of size `texture` (`None`: no texture yet). The texture is
/// recreated when there is none or when its size differs from the frame's.
pub fn plan_upload(texture: Option<(u32, u32)>, frame: &RgbaFrame) -> (r: Result<
    UploadPlan,
    FrameSizeError,
>)
    requires
        upload_sizes_fit(frame),
    ensures
        r is Ok <==> frame.data@.len() == rgba_len(frame.width as int, frame.height as int),
        r is Ok <==> frame.data@.len() == 4 * frame.width * frame.height,
        r matches Ok(p) ==> {
            &&& p.recreate_texture == match texture {
                Some(t) => t.0 != frame.width || t.1 != frame.height,
                None => true,
            }
            &&& p.bytes_per_row == 4 * frame.width
            &&& p.rows_per_image == frame.height
        },
        r matches Err(e) ==> {
            &&& e.width == frame.width
            &&& e.height == frame.height
            &&& e.actual == frame.data@.len()
            &&& e.expected == rgba_len(frame.width as int, frame.height as int)
            &&& e.expected == 4 * frame.width * frame.height
        },
{
    let row: usize = 4 * (frame.width as usize);
    assert(row * frame.height == rgba_len(frame.width as int, frame.height as int)) by (nonlinear_arith)
        requires
            row == 4 * frame.width,
    ;
    let expected: usize = row * (frame.height as usize);
    let actual: usize = frame.data.len();
    if actual != expected {
        return Err(FrameSizeError { width: frame.width, height: frame.height, actual, expected });
    }
    let recreate_texture: bool = match texture {
        Some(t) => t.0 != frame.width || t.1 != frame.height,
        None => true,
    };
    Ok(UploadPlan { recreate_texture, bytes_per_row: 4 * frame.width, rows_per_image: frame.height })
}

} // verus!
