//! Decisions of the live display: which camera frames a redraw uses, how the
//! optical-flow compute passes are scheduled and bound, and how window and
//! surface events are answered. The GPU and window calls themselves are made by
//! the caller, which feeds the outcome of each call back in.
use vstd::prelude::*;
use crate::camera::{CaptureRequest, LuminanceFrame, RgbaFrame};

verus! {

/// What polling the capture queue once gave.
pub enum QueueEvent {
    /// A request was waiting.
    Received(CaptureRequest),
    /// Nothing is waiting.
    Empty,
    /// The capture side has gone.
    Disconnected,
}

/// Why a redraw cannot go on.
pub enum DrainError {
    /// The capture side reported this error.
    Capture(String),
    /// The capture side stopped without a word.
    Disconnected,
}

/// What to do after one poll of the capture queue.
pub enum DrainStep {
    /// Poll again.
    Continue,
    /// The queue is empty: go on with the redraw.
    Done,
    /// Stop the redraw with this error.
    Failed(DrainError),
}

/// The frames gathered by emptying the capture queue at the start of a redraw.
pub struct FrameDrain {
    /// Colour frame of the newest request of this redraw.
    pub latest_colored: Option<RgbaFrame>,
    /// Luminance frame that came just before the newest one.
    pub previous_luminance: Option<LuminanceFrame>,
    /// Newest luminance frame, kept from one redraw to the next.
    pub latest_luminance: Option<LuminanceFrame>,
}

/// One poll of the capture queue: a frame becomes the newest one and the frame
/// it replaces becomes the previous one; an empty queue ends the drain; an
/// error or a vanished capture side fails it.
pub open spec fn drain_next(s: FrameDrain, e: QueueEvent) -> (FrameDrain, DrainStep) {
    match e {
        QueueEvent::Received(CaptureRequest::Frame(c, l)) => (
            FrameDrain {
                latest_colored: Some(c),
                previous_luminance: s.latest_luminance,
                latest_luminance: Some(l),
            },
            DrainStep::Continue,
        ),
        QueueEvent::Received(CaptureRequest::Error(m)) => (
            s,
            DrainStep::Failed(DrainError::Capture(m)),
        ),
        QueueEvent::Empty => (s, DrainStep::Done),
        QueueEvent::Disconnected => (s, DrainStep::Failed(DrainError::Disconnected)),
    }
}

/// The drain state after the frame pairs of `frames` arrived one after the other.
pub open spec fn drain_frames(s: FrameDrain, frames: Seq<(RgbaFrame, LuminanceFrame)>) -> FrameDrain
    decreases frames.len(),
{
    if frames.len() == 0 {
        s
    } else {
        let last = frames.last();
        drain_next(
            drain_frames(s, frames.drop_last()),
            QueueEvent::Received(CaptureRequest::Frame(last.0, last.1)),
        ).0
    }
}

impl FrameDrain {
    /// The drain at the start of a redraw, given the newest luminance frame of
    /// the redraws before.
    pub fn new(latest_luminance: Option<LuminanceFrame>) -> (d: FrameDrain)
        ensures
            d.latest_colored is None,
            d.previous_luminance is None,
            d.latest_luminance == latest_luminance,
    {
        FrameDrain { latest_colored: None, previous_luminance: None, latest_luminance }
    }

    /// Takes in the outcome of one poll of the capture queue.
    pub fn step(&mut self, event: QueueEvent) -> (r: DrainStep)
        ensures
            (*final(self), r) == drain_next(*old(self), event),
            event is Empty ==> *final(self) == *old(self) && r is Done,
            event is Disconnected ==> *final(self) == *old(self) && r is Failed,
            event matches QueueEvent::Received(CaptureRequest::Error(m)) ==> *final(self) == *old(
                self,
            ) && r == DrainStep::Failed(DrainError::Capture(m)),
            event matches QueueEvent::Received(CaptureRequest::Frame(c, l)) ==> {
                &&& final(self).latest_colored == Some(c)
                &&& final(self).latest_luminance == Some(l)
                &&& final(self).previous_luminance == old(self).latest_luminance
                &&& r is Continue
            },
    {
        match event {
            QueueEvent::Received(CaptureRequest::Frame(c, l)) => {
                let previous: Option<LuminanceFrame> = self.latest_luminance.take();
                self.latest_luminance = Some(l);
                self.previous_luminance = previous;
                self.latest_colored = Some(c);
                DrainStep::Continue
            },
            QueueEvent::Received(CaptureRequest::Error(m)) => DrainStep::Failed(
                DrainError::Capture(m),
            ),
            QueueEvent::Empty => DrainStep::Done,
            QueueEvent::Disconnected => DrainStep::Failed(DrainError::Disconnected),
        }
    }

    /// The flow is computed on this redraw exactly when two luminance frames,
    /// the previous and the newest, are at hand.
    pub fn has_flow_inputs(&self) -> (r: bool)
        ensures
            r <==> self.previous_luminance is Some && self.latest_luminance is Some,
    {
        self.previous_luminance.is_some() && self.latest_luminance.is_some()
    }
}

/// After any number of frames, polling goes on; after at least one, the newest
/// colour and luminance frames are those of the last pair and the previous
/// luminance frame is that of the pair before it, or, after a single pair, the
/// newest luminance frame from before the drain.
pub proof fn lemma_drain_keeps_last_two(s: FrameDrain, frames: Seq<(RgbaFrame, LuminanceFrame)>)
    requires
        frames.len() >= 1,
    ensures
        drain_frames(s, frames).latest_colored == Some(frames.last().0),
        drain_frames(s, frames).latest_luminance == Some(frames.last().1),
        drain_frames(s, frames).previous_luminance == if frames.len() >= 2 {
            Some(frames[frames.len() - 2].1)
        } else {
            s.latest_luminance
        },
    decreases frames.len(),
{
    let init = frames.drop_last();
    if frames.len() >= 2 {
        lemma_drain_keeps_last_two(s, init);
        assert(init.last() == frames[frames.len() - 2]);
    } else {
        assert(init.len() == 0);
        assert(drain_frames(s, init) == s);
    }
}

/// A poll that brings no frame (an empty queue, an error or a vanished
/// capture side) leaves the drain exactly as it was, so the newest luminance
/// frame of earlier redraws is kept; an empty queue ends the drain and the other
/// two fail it. A frame makes its pair the newest and moves the luminance frame
/// it replaces to the previous one.
pub proof fn lemma_drain_poll(s: FrameDrain, e: QueueEvent)
    ensures
        !(e is Received && e->Received_0 is Frame) ==> drain_next(s, e).0 == s,
        e is Empty ==> drain_next(s, e).1 is Done,
        e is Disconnected ==> drain_next(s, e).1 == DrainStep::Failed(DrainError::Disconnected),
        e matches QueueEvent::Received(CaptureRequest::Error(m)) ==> drain_next(s, e).1
            == DrainStep::Failed(DrainError::Capture(m)),
        e matches QueueEvent::Received(CaptureRequest::Frame(c, l)) ==> {
            &&& drain_next(s, e).0.latest_colored == Some(c)
            &&& drain_next(s, e).0.latest_luminance == Some(l)
            &&& drain_next(s, e).0.previous_luminance == s.latest_luminance
            &&& drain_next(s, e).1 is Continue
        },
{
}

/// Across redraws: a redraw that finds the queue empty keeps the newest
/// luminance frame `l1`, so the next redraw that receives one frame `(c2, l2)`
/// pairs `l1` as the previous frame with `l2` as the newest, and has both flow
/// inputs.
pub proof fn lemma_empty_redraw_keeps_pairing(l1: LuminanceFrame, c2: RgbaFrame, l2: LuminanceFrame)
    ensures
        ({
            let first = FrameDrain {
                latest_colored: None,
                previous_luminance: None,
                latest_luminance: Some(l1),
            };
            let after_first = drain_next(first, QueueEvent::Empty).0;
            let second = FrameDrain {
                latest_colored: None,
                previous_luminance: None,
                latest_luminance: after_first.latest_luminance,
            };
            let after_frame = drain_next(
                second,
                QueueEvent::Received(CaptureRequest::Frame(c2, l2)),
            ).0;
            let after_second = drain_next(after_frame, QueueEvent::Empty).0;
            &&& after_first.latest_luminance == Some(l1)
            &&& after_second.previous_luminance == Some(l1)
            &&& after_second.latest_luminance == Some(l2)
            &&& after_second.latest_colored == Some(c2)
        }),
{
}

/// What a surface status asks of a redraw.
pub enum SurfaceStatus {
    Success,
    Suboptimal,
    Timeout,
    Occluded,
    Outdated,
    Validation,
    Lost,
}

/// Why a redraw fails on the surface.
pub enum SurfaceError {
    Validation,
    Lost,
}

/// How a redraw goes on once the surface has answered.
pub enum SurfaceAction {
    /// Draw into the texture, then reconfigure the surface if asked.
    Draw { reconfigure_after: bool },
    /// Skip this redraw.
    Skip,
    /// Reconfigure the surface and skip this redraw.
    ReconfigureAndSkip,
    /// Fail the redraw.
    Fail(SurfaceError),
}

/// The answer to each surface status: draw on success (and reconfigure after a
/// suboptimal texture), skip on a timeout or an occluded window, reconfigure
/// and skip on an outdated surface, fail on a validation error or a lost
/// surface.
pub fn surface_action(status: SurfaceStatus) -> (a: SurfaceAction)
    ensures
        a == match status {
            SurfaceStatus::Success => SurfaceAction::Draw { reconfigure_after: false },
            SurfaceStatus::Suboptimal => SurfaceAction::Draw { reconfigure_after: true },
            SurfaceStatus::Timeout => SurfaceAction::Skip,
            SurfaceStatus::Occluded => SurfaceAction::Skip,
            SurfaceStatus::Outdated => SurfaceAction::ReconfigureAndSkip,
            SurfaceStatus::Validation => SurfaceAction::Fail(SurfaceError::Validation),
            SurfaceStatus::Lost => SurfaceAction::Fail(SurfaceError::Lost),
        },
{
    match status {
        SurfaceStatus::Success => SurfaceAction::Draw { reconfigure_after: false },
        SurfaceStatus::Suboptimal => SurfaceAction::Draw { reconfigure_after: true },
        SurfaceStatus::Timeout => SurfaceAction::Skip,
        SurfaceStatus::Occluded => SurfaceAction::Skip,
        SurfaceStatus::Outdated => SurfaceAction::ReconfigureAndSkip,
        SurfaceStatus::Validation => SurfaceAction::Fail(SurfaceError::Validation),
        SurfaceStatus::Lost => SurfaceAction::Fail(SurfaceError::Lost),
    }
}

/// Side of a square compute workgroup, in pixels.
pub const WORKGROUP_SIDE: u32 = 16;

/// Number of `b`-sized pieces needed to cover `a`.
pub open spec fn div_ceil_spec(a: int, b: int) -> int {
    (a + b - 1) / b
}

/// `a / b` rounded up.
pub fn div_ceil(a: u32, b: u32) -> (q: u32)
    requires
        b > 0,
    ensures
        q == div_ceil_spec(a as int, b as int),
        q * b >= a,
        q == 0 || (q - 1) * b < a,
{
    let d: u32 = a / b;
    let r: u32 = a % b;
    proof {
        vstd::arithmetic::div_mod::lemma_fundamental_div_mod(a as int, b as int);
    }
    if r != 0 {
        assert(d < u32::MAX) by (nonlinear_arith)
            requires
                a == b * d + r,
                0 < r < b,
                a <= u32::MAX,
                d >= 0,
        ;
        let q: u32 = d + 1;
        assert(a + b - 1 == q * b + (r - 1)) by (nonlinear_arith)
            requires
                a == b * d + r,
                q == d + 1,
        ;
        proof {
            vstd::arithmetic::div_mod::lemma_fundamental_div_mod_converse(
                a + b - 1,
                b as int,
                q as int,
                r - 1,
            );
        }
        assert(q * b >= a && (q - 1) * b < a) by (nonlinear_arith)
            requires
                a == b * d + r,
                q == d + 1,
                0 < r < b,
        ;
        q
    } else {
        assert(a + b - 1 == d * b + (b - 1)) by (nonlinear_arith)
            requires
                a == b * d + r,
                r == 0,
        ;
        proof {
            vstd::arithmetic::div_mod::lemma_fundamental_div_mod_converse(
                a + b - 1,
                b as int,
                d as int,
                b - 1,
            );
        }
        assert(d * b >= a && (d == 0 || (d - 1) * b < a)) by (nonlinear_arith)
            requires
                a == b * d + r,
                r == 0,
                b > 0,
        ;
        d
    }
}

/// Workgroups dispatched by one flow pass over a luminance frame: both counts
/// are derived from the frame's height, the first one doubled, each covering
/// the height in 16-pixel steps.
pub fn flow_workgroups(frame: &LuminanceFrame) -> (g: (u32, u32, u32))
    ensures
        g.1 == div_ceil_spec(frame.height as int, 16),
        g.0 == 2 * g.1,
        g.2 == 1,
        16 * g.1 >= frame.height,
        g.1 == 0 || 16 * (g.1 - 1) < frame.height,
{
    let n: u32 = div_ceil(frame.height, WORKGROUP_SIDE);
    assert(n <= 0x1000_0000) by (nonlinear_arith)
        requires
            n == div_ceil_spec(frame.height as int, 16),
    ;
    (2 * n, n, 1)
}

/// The two flow buffers that the compute passes write in turn; the primary one
/// is the one the display samples.
pub enum FlowBuffer {
    Primary,
    Secondary,
}

/// A compute pass reads the flow from one buffer and writes it into the other.
pub enum FlowPass {
    PrimaryToSecondary,
    SecondaryToPrimary,
}

/// Buffer a pass reads.
pub open spec fn pass_source(p: FlowPass) -> FlowBuffer {
    match p {
        FlowPass::PrimaryToSecondary => FlowBuffer::Primary,
        FlowPass::SecondaryToPrimary => FlowBuffer::Secondary,
    }
}

/// Buffer a pass writes.
pub open spec fn pass_target(p: FlowPass) -> FlowBuffer {
    match p {
        FlowPass::PrimaryToSecondary => FlowBuffer::Secondary,
        FlowPass::SecondaryToPrimary => FlowBuffer::Primary,
    }
}

/// Shader binding of the flow that a pass reads.
pub const FLOW_IN_BINDING: u32 = 3;

/// Shader binding of the flow that a pass writes.
pub const FLOW_OUT_BINDING: u32 = 4;

/// Shader binding of the flow parameters.
pub const PARAMS_BINDING: u32 = 0;

/// Shader binding of the previous luminance frame.
pub const PREVIOUS_LUMINANCE_BINDING: u32 = 1;

/// Shader binding of the newest luminance frame.
pub const CURRENT_LUMINANCE_BINDING: u32 = 2;

/// Binding numbers of the resources in the bind group of a compute pass.
pub struct FlowBindGroupLayout {
    pub params: u32,
    pub previous_luminance: u32,
    pub current_luminance: u32,
    pub primary_flow: u32,
    pub secondary_flow: u32,
}

/// The bind group of a pass: parameters and both luminance frames at fixed
/// bindings; the flow buffer the pass reads at the input binding and the
/// other one at the output binding.
pub open spec fn flow_layout_spec(p: FlowPass) -> FlowBindGroupLayout {
    FlowBindGroupLayout {
        params: PARAMS_BINDING,
        previous_luminance: PREVIOUS_LUMINANCE_BINDING,
        current_luminance: CURRENT_LUMINANCE_BINDING,
        primary_flow: if pass_source(p) == FlowBuffer::Primary {
            FLOW_IN_BINDING
        } else {
            FLOW_OUT_BINDING
        },
        secondary_flow: if pass_source(p) == FlowBuffer::Secondary {
            FLOW_IN_BINDING
        } else {
            FLOW_OUT_BINDING
        },
    }
}

/// The flow buffer found at `binding` in a bind group laid out as `l`.
pub open spec fn flow_buffer_at(l: FlowBindGroupLayout, binding: u32) -> Option<FlowBuffer> {
    if l.primary_flow == binding {
        Some(FlowBuffer::Primary)
    } else if l.secondary_flow == binding {
        Some(FlowBuffer::Secondary)
    } else {
        None
    }
}

impl FlowBindGroupLayout {
    /// The bind group layout of pass `p`.
    pub fn new(p: FlowPass) -> (l: FlowBindGroupLayout)
        ensures
            l == flow_layout_spec(p),
            l.params == 0 && l.previous_luminance == 1 && l.current_luminance == 2,
            p is PrimaryToSecondary ==> l.primary_flow == 3 && l.secondary_flow == 4,
            p is SecondaryToPrimary ==> l.primary_flow == 4 && l.secondary_flow == 3,
    {
        let (primary_flow, secondary_flow) = match p {
            FlowPass::PrimaryToSecondary => (FLOW_IN_BINDING, FLOW_OUT_BINDING),
            FlowPass::SecondaryToPrimary => (FLOW_OUT_BINDING, FLOW_IN_BINDING),
        };
        FlowBindGroupLayout {
            params: PARAMS_BINDING,
            previous_luminance: PREVIOUS_LUMINANCE_BINDING,
            current_luminance: CURRENT_LUMINANCE_BINDING,
            primary_flow,
            secondary_flow,
        }
    }
}

/// In the bind group of every pass the five resources sit at five different
/// bindings, the shader reads the pass's source buffer and writes its target
/// buffer; so a pass from the primary buffer followed by one back leaves the
/// newest flow in the primary buffer, the one the display samples.
pub proof fn lemma_pass_pair_ends_in_primary(p: FlowPass)
    ensures
        flow_buffer_at(flow_layout_spec(p), FLOW_IN_BINDING) == Some(pass_source(p)),
        flow_buffer_at(flow_layout_spec(p), FLOW_OUT_BINDING) == Some(pass_target(p)),
        ({
            let l = flow_layout_spec(p);
            let b = seq![l.params, l.previous_luminance, l.current_luminance, l.primary_flow, l.secondary_flow];
            forall|i: int, j: int| 0 <= i < j < 5 ==> b[i] != b[j]
        }),
        flow_buffer_at(flow_layout_spec(FlowPass::PrimaryToSecondary), FLOW_OUT_BINDING)
            == flow_buffer_at(flow_layout_spec(FlowPass::SecondaryToPrimary), FLOW_IN_BINDING),
        flow_buffer_at(flow_layout_spec(FlowPass::SecondaryToPrimary), FLOW_OUT_BINDING) == Some(
            FlowBuffer::Primary,
        ),
{
}

/// Number of back-and-forth rounds of flow passes per redraw.
pub const FLOW_ROUNDS: usize = 10;

/// The compute passes of one redraw, in order: `FLOW_ROUNDS` rounds, each a
/// pass from the primary buffer to the secondary one and a pass back.
pub fn flow_schedule() -> (passes: Vec<FlowPass>)
    ensures
        passes@.len() == 2 * FLOW_ROUNDS,
        forall|i: int|
            0 <= i < passes@.len() ==> #[trigger] passes@[i] == if i % 2 == 0 {
                FlowPass::PrimaryToSecondary
            } else {
                FlowPass::SecondaryToPrimary
            },
{
    let mut passes: Vec<FlowPass> = Vec::new();
    let mut r: usize = 0;
    while r < FLOW_ROUNDS
        invariant
            r <= FLOW_ROUNDS,
            passes@.len() == 2 * r,
            forall|i: int|
                0 <= i < passes@.len() ==> #[trigger] passes@[i] == if i % 2 == 0 {
                    FlowPass::PrimaryToSecondary
                } else {
                    FlowPass::SecondaryToPrimary
                },
        decreases FLOW_ROUNDS - r,
    {
        passes.push(FlowPass::PrimaryToSecondary);
        passes.push(FlowPass::SecondaryToPrimary);
        r = r + 1;
    }
    passes
}

/// The passes of a redraw form a chain: the first reads the primary buffer
/// (where the flow was cleared), each next pass reads what the one before
/// wrote, and the last writes the primary buffer, which the display samples.
pub proof fn lemma_flow_schedule_chains(passes: Seq<FlowPass>)
    requires
        passes.len() == 2 * FLOW_ROUNDS,
        forall|i: int|
            0 <= i < passes.len() ==> #[trigger] passes[i] == if i % 2 == 0 {
                FlowPass::PrimaryToSecondary
            } else {
                FlowPass::SecondaryToPrimary
            },
    ensures
        pass_source(passes[0]) == FlowBuffer::Primary,
        forall|i: int|
            0 < i < passes.len() ==> pass_source(#[trigger] passes[i]) == pass_target(
                passes[i - 1],
            ),
        pass_target(passes[passes.len() - 1]) == FlowBuffer::Primary,
{
    assert forall|i: int| 0 < i < passes.len() implies pass_source(#[trigger] passes[i])
        == pass_target(passes[i - 1]) by {
        assert(passes[i - 1] == if (i - 1) % 2 == 0 {
            FlowPass::PrimaryToSecondary
        } else {
            FlowPass::SecondaryToPrimary
        });
    }
    assert(passes[passes.len() - 1] == FlowPass::SecondaryToPrimary);
}

/// A window event, as far as the display cares.
pub enum WindowInput {
    CloseRequested,
    Resized { width: u32, height: u32 },
    RedrawRequested,
    /// A keyboard event; `is_q` tells whether its physical key is Q.
    Keyboard { is_q: bool },
    Other,
}

/// What the display does about a window event.
pub enum WindowReaction {
    Ignore,
    Exit,
    Reconfigure { width: u32, height: u32 },
    Redraw,
}

/// The answer to a window event. Before the display is set up every event is
/// ignored; after, closing the window or the Q key exits, a resize to a
/// non-empty size reconfigures the surface at that size, and a redraw request
/// redraws.
pub fn window_reaction(ready: bool, input: WindowInput) -> (r: WindowReaction)
    ensures
        r == if !ready {
            WindowReaction::Ignore
        } else {
            match input {
                WindowInput::CloseRequested => WindowReaction::Exit,
                WindowInput::Resized { width, height } => if width > 0 && height > 0 {
                    WindowReaction::Reconfigure { width, height }
                } else {
                    WindowReaction::Ignore
                },
                WindowInput::RedrawRequested => WindowReaction::Redraw,
                WindowInput::Keyboard { is_q } => if is_q {
                    WindowReaction::Exit
                } else {
                    WindowReaction::Ignore
                },
                WindowInput::Other => WindowReaction::Ignore,
            }
        },
{
    if !ready {
        return WindowReaction::Ignore;
    }
    match input {
        WindowInput::CloseRequested => WindowReaction::Exit,
        WindowInput::Resized { width, height } => if width > 0 && height > 0 {
            WindowReaction::Reconfigure { width, height }
        } else {
            WindowReaction::Ignore
        },
        WindowInput::RedrawRequested => WindowReaction::Redraw,
        WindowInput::Keyboard { is_q } => if is_q {
            WindowReaction::Exit
        } else {
            WindowReaction::Ignore
        },
        WindowInput::Other => WindowReaction::Ignore,
    }
}

/// Size at which a window's surface is first configured: the window's size,
/// with each side at least one pixel.
pub fn surface_extent(width: u32, height: u32) -> (e: (u32, u32))
    ensures
        e.0 == if width >= 1 {
            width
        } else {
            1
        },
        e.1 == if height >= 1 {
            height
        } else {
            1
        },
{
    (if width >= 1 {
        width
    } else {
        1
    }, if height >= 1 {
        height
    } else {
        1
    })
}

/// Index of the surface format to use among formats whose sRGB flags are
/// `srgb`: the first sRGB one, or the first one when none is sRGB.
pub fn preferred_format(srgb: &Vec<bool>) -> (k: usize)
    requires
        srgb@.len() > 0,
    ensures
        k < srgb@.len(),
        (exists|i: int| 0 <= i < srgb@.len() && srgb@[i]) ==> srgb@[k as int] && forall|i: int|
            0 <= i < k ==> !srgb@[i],
        !(exists|i: int| 0 <= i < srgb@.len() && srgb@[i]) ==> k == 0,
{
    let mut i: usize = 0;
    while i < srgb.len()
        invariant
            i <= srgb@.len(),
            forall|m: int| 0 <= m < i ==> !srgb@[m],
        decreases srgb@.len() - i,
    {
        if srgb[i] {
            return i;
        }
        i = i + 1;
    }
    0
}

} // verus!
