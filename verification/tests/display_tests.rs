use horn_shunck_rs::camera::{CaptureRequest, LuminanceFrame, RgbaFrame};
use horn_shunck_rs::display::{
    div_ceil, flow_schedule, flow_workgroups, preferred_format, surface_action,
    surface_extent, window_reaction, DrainError, DrainStep, FlowBindGroupLayout, FlowPass, FrameDrain, QueueEvent,
    SurfaceAction, SurfaceError, SurfaceStatus, WindowInput, WindowReaction,
};

fn pair(tag: u8) -> (RgbaFrame, LuminanceFrame) {
    (
        RgbaFrame { width: 1, height: 1, data: vec![tag, tag, tag, 255] },
        LuminanceFrame { width: 1, height: 1, data: vec![tag] },
    )
}

fn frame_event(tag: u8) -> QueueEvent {
    let (c, l) = pair(tag);
    QueueEvent::Received(CaptureRequest::Frame(c, l))
}

#[test]
fn drain_keeps_last_two_luminance_frames() {
    let mut d = FrameDrain::new(Some(pair(0).1));
    for t in 1..=3 {
        assert!(matches!(d.step(frame_event(t)), DrainStep::Continue));
    }
    assert!(matches!(d.step(QueueEvent::Empty), DrainStep::Done));
    assert_eq!(d.latest_colored.as_ref().unwrap().data[0], 3);
    assert_eq!(d.latest_luminance.as_ref().unwrap().data, vec![3]);
    assert_eq!(d.previous_luminance.as_ref().unwrap().data, vec![2]);
    assert!(d.has_flow_inputs());
}

#[test]
fn drain_single_frame_pairs_with_earlier_redraw() {
    let mut d = FrameDrain::new(Some(pair(7).1));
    d.step(frame_event(8));
    assert_eq!(d.previous_luminance.as_ref().unwrap().data, vec![7]);
    assert_eq!(d.latest_luminance.as_ref().unwrap().data, vec![8]);
}

#[test]
fn drain_without_frames_has_no_flow() {
    let mut d = FrameDrain::new(Some(pair(7).1));
    assert!(matches!(d.step(QueueEvent::Empty), DrainStep::Done));
    assert!(d.latest_colored.is_none());
    assert!(!d.has_flow_inputs());
    let mut first = FrameDrain::new(None);
    first.step(frame_event(1));
    assert!(!first.has_flow_inputs());
}

#[test]
fn drain_fails_on_error_and_disconnect() {
    let mut d = FrameDrain::new(None);
    let r = d.step(QueueEvent::Received(CaptureRequest::Error("camera".to_string())));
    assert!(matches!(r, DrainStep::Failed(DrainError::Capture(m)) if m == "camera"));
    let r2 = d.step(QueueEvent::Disconnected);
    assert!(matches!(r2, DrainStep::Failed(DrainError::Disconnected)));
}

#[test]
fn surface_actions() {
    assert!(matches!(surface_action(SurfaceStatus::Success), SurfaceAction::Draw { reconfigure_after: false }));
    assert!(matches!(surface_action(SurfaceStatus::Suboptimal), SurfaceAction::Draw { reconfigure_after: true }));
    assert!(matches!(surface_action(SurfaceStatus::Timeout), SurfaceAction::Skip));
    assert!(matches!(surface_action(SurfaceStatus::Occluded), SurfaceAction::Skip));
    assert!(matches!(surface_action(SurfaceStatus::Outdated), SurfaceAction::ReconfigureAndSkip));
    assert!(matches!(surface_action(SurfaceStatus::Validation), SurfaceAction::Fail(SurfaceError::Validation)));
    assert!(matches!(surface_action(SurfaceStatus::Lost), SurfaceAction::Fail(SurfaceError::Lost)));
}

#[test]
fn div_ceil_values() {
    assert_eq!(div_ceil(0, 16), 0);
    assert_eq!(div_ceil(1, 16), 1);
    assert_eq!(div_ceil(16, 16), 1);
    assert_eq!(div_ceil(17, 16), 2);
    assert_eq!(div_ceil(u32::MAX, 16), 0x1000_0000);
    assert_eq!(div_ceil(u32::MAX, 1), u32::MAX);
}

#[test]
fn workgroups_follow_frame_height() {
    let f = LuminanceFrame { width: 1920, height: 1080, data: vec![] };
    assert_eq!(flow_workgroups(&f), (136, 68, 1));
    let g = LuminanceFrame { width: 5, height: 0, data: vec![] };
    assert_eq!(flow_workgroups(&g), (0, 0, 1));
}

#[test]
fn schedule_alternates_and_ends_on_primary() {
    let s = flow_schedule();
    assert_eq!(s.len(), 20);
    for (i, p) in s.iter().enumerate() {
        if i % 2 == 0 {
            assert!(matches!(p, FlowPass::PrimaryToSecondary));
        } else {
            assert!(matches!(p, FlowPass::SecondaryToPrimary));
        }
    }
}

#[test]
fn bind_group_layouts_swap_the_flow_buffers() {
    let a = FlowBindGroupLayout::new(FlowPass::PrimaryToSecondary);
    let b = FlowBindGroupLayout::new(FlowPass::SecondaryToPrimary);
    assert_eq!((a.params, a.previous_luminance, a.current_luminance), (0, 1, 2));
    assert_eq!((b.params, b.previous_luminance, b.current_luminance), (0, 1, 2));
    assert_eq!((a.primary_flow, a.secondary_flow), (3, 4));
    assert_eq!((b.primary_flow, b.secondary_flow), (4, 3));
    // The second pass writes (binding 4) the primary buffer, and reads (binding 3)
    // the buffer the first pass wrote.
    assert_eq!(b.primary_flow, 4);
    assert_eq!(a.secondary_flow, 4);
    assert_eq!(b.secondary_flow, 3);
}

#[test]
fn window_reactions() {
    assert!(matches!(window_reaction(false, WindowInput::CloseRequested), WindowReaction::Ignore));
    assert!(matches!(window_reaction(true, WindowInput::CloseRequested), WindowReaction::Exit));
    assert!(matches!(window_reaction(true, WindowInput::Keyboard { is_q: true }), WindowReaction::Exit));
    assert!(matches!(window_reaction(true, WindowInput::Keyboard { is_q: false }), WindowReaction::Ignore));
    assert!(matches!(window_reaction(true, WindowInput::RedrawRequested), WindowReaction::Redraw));
    assert!(matches!(
        window_reaction(true, WindowInput::Resized { width: 800, height: 600 }),
        WindowReaction::Reconfigure { width: 800, height: 600 }
    ));
    assert!(matches!(window_reaction(true, WindowInput::Resized { width: 0, height: 600 }), WindowReaction::Ignore));
    assert!(matches!(window_reaction(true, WindowInput::Other), WindowReaction::Ignore));
}

#[test]
fn surface_extent_at_least_one() {
    assert_eq!(surface_extent(0, 0), (1, 1));
    assert_eq!(surface_extent(640, 0), (640, 1));
    assert_eq!(surface_extent(640, 480), (640, 480));
}

#[test]
fn preferred_format_picks_first_srgb() {
    assert_eq!(preferred_format(&vec![false, true, true]), 1);
    assert_eq!(preferred_format(&vec![false, false]), 0);
    assert_eq!(preferred_format(&vec![true]), 0);
}
