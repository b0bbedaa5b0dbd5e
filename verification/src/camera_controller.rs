//! The capture core: the Stopped / Preview / Capture state machine, the
//! commands that drive it, and the packets it hands to viewers. The
//! controller decides; the unverified adapter performs the device calls the
//! decisions name, runs the acquisition thread and moves packets onto the
//! wire. Each control-loop tick does the state-dependent work first, then
//! drains every pending command in arrival order.
use vstd::prelude::*;

pub use crate::histogram::{histogram, ChannelHistogram};

use crate::asi::{ASI_ERROR, CONTROL_TYPE, IMG_TYPE};
use crate::frame_slot::FrameSlot;
use crate::histogram::{hist_count, hist_max, rows_max};
use crate::plot::{hist_plot_of, render_hist_plot, PLOT_BYTES, PLOT_HEIGHT, PLOT_WIDTH};
use crate::OpenCamera;

verus! {

/// The control messages the command plane delivers, drained once per tick
/// in arrival order. Exposure is carried in thousandths of a second, the
/// unit the sensor control stores.
#[derive(Clone, Copy, Debug, PartialEq, Eq, Structural)]
pub enum ControlMessages {
    StartPreview,
    StopPreview,
    SetGain(i32),
    SetExposure(i64),
    SetWbR(i32),
    SetWbB(i32),
    SwitchOutput,
    StartCapture(i32),
}

/// A device call the adapter must perform on the controller's behalf.
#[derive(Clone, Copy, Debug, PartialEq, Eq, Structural)]
pub enum DeviceAction {
    SetControl(CONTROL_TYPE, i64, bool),
    SetRoiFormat(i32, i32, i32, IMG_TYPE),
    StartAcquisition,
    StopAcquisition,
}

/// Why the controller refused or abandoned an operation. Toggling preview
/// or starting another capture during a running capture is a caller
/// contract violation surfaced as a typed error; the capture errors end
/// the session, mirroring the fail-fast posture of the sequencer.
#[derive(Clone, Copy, Debug, PartialEq, Eq, Structural)]
pub enum ControllerError {
    StartPreviewWhileCapturing,
    StopPreviewWhileCapturing,
    StartCaptureWhileCapturing,
    CaptureFetch(ASI_ERROR),
    CapturePersist,
}

/// The capture states. `Capture` tracks how many frames the sequencer has
/// saved so far out of the requested total.
#[derive(Clone, Copy, Debug, PartialEq, Eq, Structural)]
pub enum CamState {
    Stopped,
    Preview { show_hist: bool },
    Capture { total_frames: i32, captured: i32 },
}

/// The channel order of the bytes in a preview image.
#[derive(Clone, Copy, Debug, PartialEq, Eq, Structural)]
pub enum PixelOrder {
    BGR,
    RGB,
}

/// The sensor's applied control values, read back on demand so they
/// reflect what the device actually uses. Exposure is in thousandths of a
/// second.
#[derive(Clone, Copy, Debug, PartialEq, Eq, Structural)]
pub struct ControlValues {
    pub gain: i64,
    pub exposure: i64,
    pub wb_r: i64,
    pub wb_b: i64,
}

/// One preview image for the viewers: dimensions, channel order, the raw
/// or rendered bytes, and the control readback taken with it.
#[derive(Clone, Debug, PartialEq)]
pub struct ImagePacket {
    pub w: u32,
    pub h: u32,
    pub pix: PixelOrder,
    pub img: Vec<u8>,
    pub controls: ControlValues,
}

/// Progress of a multi-frame capture.
#[derive(Clone, Copy, Debug, PartialEq, Eq, Structural)]
pub struct CaptureStatus {
    pub captured_frames: i32,
    pub total_frames: i32,
}

/// What the fan-out broadcasts to every subscribed viewer.
#[derive(Clone, Debug, PartialEq)]
pub enum ClientPacket {
    Preview(ImagePacket),
    CaptureStatus(CaptureStatus),
}

/// What the adapter reports back for one frame of a capture sequence: the
/// frame was fetched and persisted, or which of the two failed.
#[derive(Clone, Copy, Debug, PartialEq, Eq, Structural)]
pub enum CaptureEvent {
    FrameSaved,
    FetchFailed(ASI_ERROR),
    PersistFailed,
}

/// What one command does to the state, and which device call it asks for.
/// Toggling preview during a capture, and starting a capture while one is
/// already running, are refused; a second StartPreview in Preview and a
/// StopPreview in Stopped are no-ops; StartCapture wins over either
/// preview sub-state.
pub open spec fn spec_handle_command(st: CamState, cmd: ControlMessages) -> Result<
    (CamState, Option<DeviceAction>),
    ControllerError,
> {
    match cmd {
        ControlMessages::SetGain(gain) => Ok(
            (st, Some(DeviceAction::SetControl(CONTROL_TYPE::GAIN, gain as i64, false))),
        ),
        ControlMessages::SetExposure(exp) => Ok(
            (st, Some(DeviceAction::SetControl(CONTROL_TYPE::EXPOSURE, exp, false))),
        ),
        ControlMessages::SetWbR(r) => Ok(
            (st, Some(DeviceAction::SetControl(CONTROL_TYPE::WB_R, r as i64, false))),
        ),
        ControlMessages::SetWbB(b) => Ok(
            (st, Some(DeviceAction::SetControl(CONTROL_TYPE::WB_B, b as i64, false))),
        ),
        ControlMessages::SwitchOutput => match st {
            CamState::Preview { show_hist } => Ok(
                (CamState::Preview { show_hist: !show_hist }, None),
            ),
            _ => Ok((st, None)),
        },
        ControlMessages::StartPreview => match st {
            CamState::Stopped => Ok(
                (CamState::Preview { show_hist: false }, Some(DeviceAction::StartAcquisition)),
            ),
            CamState::Preview { .. } => Ok((st, None)),
            CamState::Capture { .. } => Err(ControllerError::StartPreviewWhileCapturing),
        },
        ControlMessages::StopPreview => match st {
            CamState::Stopped => Ok((st, None)),
            CamState::Preview { .. } => Ok((CamState::Stopped, Some(DeviceAction::StopAcquisition))),
            CamState::Capture { .. } => Err(ControllerError::StopPreviewWhileCapturing),
        },
        ControlMessages::StartCapture(total_frames) => match st {
            CamState::Capture { .. } => Err(ControllerError::StartCaptureWhileCapturing),
            _ => Ok((CamState::Capture { total_frames, captured: 0 }, None)),
        },
    }
}

/// The outcome of draining a command batch: the state afterwards, the
/// device calls requested along the way, and the error that stopped the
/// drain, if one did.
pub struct DrainOutcome {
    pub state: CamState,
    pub actions: Seq<DeviceAction>,
    pub err: Option<ControllerError>,
}

pub open spec fn opt_action_seq(a: Option<DeviceAction>) -> Seq<DeviceAction> {
    match a {
        Some(action) => seq![action],
        None => Seq::empty(),
    }
}

/// Draining applies each pending message exactly once, in arrival order,
/// stopping at the first refused transition.
pub open spec fn spec_drain(st: CamState, cmds: Seq<ControlMessages>) -> DrainOutcome
    decreases cmds.len(),
{
    if cmds.len() == 0 {
        DrainOutcome { state: st, actions: Seq::empty(), err: None }
    } else {
        match spec_handle_command(st, cmds[0]) {
            Ok((st1, act)) => {
                let rest = spec_drain(st1, cmds.skip(1));
                DrainOutcome {
                    state: rest.state,
                    actions: opt_action_seq(act) + rest.actions,
                    err: rest.err,
                }
            },
            Err(e) => DrainOutcome { state: st, actions: Seq::empty(), err: Some(e) },
        }
    }
}

/// The capture-state bound the controller maintains.
pub open spec fn state_wf(st: CamState) -> bool {
    match st {
        CamState::Capture { total_frames, captured } => {
            &&& 0 <= captured
            &&& captured <= (if total_frames > 0 { total_frames as int } else { 0 })
        },
        _ => true,
    }
}

/// The per-channel histograms of an interleaved frame, as rows of buckets.
pub open spec fn spec_histogram_rows(frame: Seq<u8>, nch: int) -> Seq<Seq<u32>> {
    Seq::new(nch as nat, |c: int| Seq::new(256, |v: int| hist_count(frame, nch, c, v) as u32))
}

/// The three-channel histogram of a frame after the documented channel 0/2
/// swap that turns the device's BGR order into RGB.
pub open spec fn spec_swapped_histogram(frame: Seq<u8>) -> Seq<Seq<u32>> {
    let base = spec_histogram_rows(frame, 3);
    base.update(0, base[2]).update(2, base[0])
}

/// The vertical scale of the diagnostic plot: the tallest bucket, and at
/// least one so the axis is never empty.
pub open spec fn spec_plot_scale(rows: Seq<Seq<u32>>) -> u32 {
    if rows_max(rows) == 0 {
        1u32
    } else {
        rows_max(rows)
    }
}

/// What one Preview render step yields and does to the frame slot, given
/// the controller as it stood when the step ran: with any undelivered
/// packet still queued outbound, or no fresh frame, nothing is produced
/// and the slot is untouched; a fresh frame is consumed and packaged raw
/// (BGR) or as the rendered histogram image (RGB), per the overlay flag,
/// with the control readback taken alongside it.
pub open spec fn spec_preview_output(
    ctrl: CameraController,
    slot0: FrameSlot,
    slot1: FrameSlot,
    outbound_queued: usize,
    controls: ControlValues,
    r: Option<ClientPacket>,
) -> bool {
    &&& (outbound_queued >= 1 ==> slot1 == slot0 && r is None)
    &&& (outbound_queued == 0 && !slot0.is_fresh() ==> slot1 == slot0 && r is None)
    &&& (outbound_queued == 0 && slot0.is_fresh() ==> {
        &&& !slot1.is_fresh()
        &&& slot1.frame() == slot0.frame()
        &&& r matches Some(pkt) && pkt matches ClientPacket::Preview(p) && {
            &&& p.w == ctrl.spec_width()
            &&& p.h == ctrl.spec_height()
            &&& p.controls == controls
            &&& (ctrl.spec_state() matches CamState::Preview { show_hist } ==> {
                if show_hist {
                    &&& p.pix == PixelOrder::RGB
                    &&& p.img@ == hist_plot_of(
                        PLOT_WIDTH,
                        PLOT_HEIGHT,
                        spec_swapped_histogram(slot0.frame()),
                        spec_plot_scale(spec_swapped_histogram(slot0.frame())),
                    )
                } else {
                    &&& p.pix == PixelOrder::BGR
                    &&& p.img@ == slot0.frame()
                }
            })
        }
    })
}

/// The capture core. It owns the state machine and decides what every tick
/// does; all device I/O is returned to the adapter as `DeviceAction`s or
/// consumed as plain values.
pub struct CameraController {
    ccd: OpenCamera,
    state: CamState,
    width: u32,
    height: u32,
}

impl CameraController {
    pub closed spec fn spec_state(&self) -> CamState {
        self.state
    }

    pub closed spec fn spec_width(&self) -> u32 {
        self.width
    }

    pub closed spec fn spec_height(&self) -> u32 {
        self.height
    }

    pub closed spec fn spec_ccd(&self) -> OpenCamera {
        self.ccd
    }

    /// The frame length the preview path expects from the frame slot.
    pub open spec fn spec_frame_len(&self) -> int {
        self.spec_width() * self.spec_height() * 3
    }

    pub open spec fn wf(&self) -> bool {
        &&& state_wf(self.spec_state())
        &&& 1 <= self.spec_width()
        &&& 1 <= self.spec_height()
        &&& self.spec_frame_len() <= u32::MAX
    }

    /// Everything but the state is fixed for the controller's life.
    pub open spec fn same_config(&self, other: &Self) -> bool {
        &&& self.spec_width() == other.spec_width()
        &&& self.spec_height() == other.spec_height()
        &&& self.spec_ccd() == other.spec_ccd()
    }

    /// A controller over a claimed sensor, stopped, at the default
    /// full-HD region of interest.
    pub fn new(ccd: OpenCamera) -> (r: Self)
        ensures
            r.wf(),
            r.spec_state() == CamState::Stopped,
            r.spec_width() == 1920u32,
            r.spec_height() == 1080u32,
            r.spec_ccd() == ccd,
    {
        CameraController { ccd, state: CamState::Stopped, width: 1920, height: 1080 }
    }

    pub fn state(&self) -> (r: CamState)
        ensures
            r == self.spec_state(),
    {
        self.state
    }

    pub fn width(&self) -> (r: u32)
        ensures
            r == self.spec_width(),
    {
        self.width
    }

    pub fn height(&self) -> (r: u32)
        ensures
            r == self.spec_height(),
    {
        self.height
    }

    /// The session's opening moves: full-HD RGB24 region of interest at
    /// binning 1, then the default gain, exposure, white balance and
    /// bandwidth values.
    pub fn configure(&mut self) -> (r: Vec<DeviceAction>)
        ensures
            final(self).spec_state() == old(self).spec_state(),
            final(self).spec_ccd() == old(self).spec_ccd(),
            final(self).spec_width() == 1920u32,
            final(self).spec_height() == 1080u32,
            state_wf(old(self).spec_state()) ==> final(self).wf(),
            r@ =~= seq![
                DeviceAction::SetRoiFormat(1920, 1080, 1, IMG_TYPE::RGB24),
                DeviceAction::SetControl(CONTROL_TYPE::GAIN, 200, false),
                DeviceAction::SetControl(CONTROL_TYPE::EXPOSURE, 10000, false),
                DeviceAction::SetControl(CONTROL_TYPE::WB_B, 87, false),
                DeviceAction::SetControl(CONTROL_TYPE::WB_R, 45, false),
                DeviceAction::SetControl(CONTROL_TYPE::BANDWIDTHOVERLOAD, 100, false),
            ],
    {
        self.width = 1920;
        self.height = 1080;
        let mut actions: Vec<DeviceAction> = Vec::new();
        actions.push(DeviceAction::SetRoiFormat(1920, 1080, 1, IMG_TYPE::RGB24));
        actions.push(self.set_gain(200, false));
        actions.push(self.set_exposure(10000, false));
        actions.push(self.set_white_balance_blue(87, false));
        actions.push(self.set_white_balance_red(45, false));
        actions.push(DeviceAction::SetControl(CONTROL_TYPE::BANDWIDTHOVERLOAD, 100, false));
        actions
    }

    /// Asks the adapter to set the sensor gain.
    pub fn set_gain(&self, gain: i32, auto: bool) -> (a: DeviceAction)
        ensures
            a == DeviceAction::SetControl(CONTROL_TYPE::GAIN, gain as i64, auto),
    {
        DeviceAction::SetControl(CONTROL_TYPE::GAIN, gain as i64, auto)
    }

    /// Asks the adapter to set the exposure, given in thousandths of a
    /// second.
    pub fn set_exposure(&self, exposure: i64, auto: bool) -> (a: DeviceAction)
        ensures
            a == DeviceAction::SetControl(CONTROL_TYPE::EXPOSURE, exposure, auto),
    {
        DeviceAction::SetControl(CONTROL_TYPE::EXPOSURE, exposure, auto)
    }

    /// Asks the adapter to set the red white-balance coefficient.
    pub fn set_white_balance_red(&self, r: i32, auto: bool) -> (a: DeviceAction)
        ensures
            a == DeviceAction::SetControl(CONTROL_TYPE::WB_R, r as i64, auto),
    {
        DeviceAction::SetControl(CONTROL_TYPE::WB_R, r as i64, auto)
    }

    /// Asks the adapter to set the blue white-balance coefficient.
    pub fn set_white_balance_blue(&self, b: i32, auto: bool) -> (a: DeviceAction)
        ensures
            a == DeviceAction::SetControl(CONTROL_TYPE::WB_B, b as i64, auto),
    {
        DeviceAction::SetControl(CONTROL_TYPE::WB_B, b as i64, auto)
    }

    /// Enters Preview from Stopped and asks for the acquisition loop to be
    /// started; a no-op if already previewing; refused during a capture.
    pub fn start_video(&mut self) -> (r: Result<Option<DeviceAction>, ControllerError>)
        ensures
            final(self).same_config(old(self)),
            match spec_handle_command(old(self).spec_state(), ControlMessages::StartPreview) {
                Ok((st, act)) => final(self).spec_state() == st && r == Ok::<_, ControllerError>(act),
                Err(e) => *final(self) == *old(self) && r == Err::<Option<DeviceAction>, _>(e),
            },
    {
        match self.state {
            CamState::Stopped => {
                self.state = CamState::Preview { show_hist: false };
                Ok(Some(DeviceAction::StartAcquisition))
            },
            CamState::Preview { .. } => Ok(None),
            CamState::Capture { .. } => Err(ControllerError::StartPreviewWhileCapturing),
        }
    }

    /// Leaves Preview for Stopped and asks for the acquisition loop to be
    /// stopped and joined; a no-op if already stopped; refused during a
    /// capture.
    pub fn stop_video(&mut self) -> (r: Result<Option<DeviceAction>, ControllerError>)
        ensures
            final(self).same_config(old(self)),
            match spec_handle_command(old(self).spec_state(), ControlMessages::StopPreview) {
                Ok((st, act)) => final(self).spec_state() == st && r == Ok::<_, ControllerError>(act),
                Err(e) => *final(self) == *old(self) && r == Err::<Option<DeviceAction>, _>(e),
            },
    {
        match self.state {
            CamState::Stopped => Ok(None),
            CamState::Preview { .. } => {
                self.state = CamState::Stopped;
                Ok(Some(DeviceAction::StopAcquisition))
            },
            CamState::Capture { .. } => Err(ControllerError::StopPreviewWhileCapturing),
        }
    }

    /// Applies one control message.
    pub fn handle_command(&mut self, cmd: ControlMessages) -> (r: Result<
        Option<DeviceAction>,
        ControllerError,
    >)
        requires
            old(self).wf(),
        ensures
            final(self).wf(),
            final(self).same_config(old(self)),
            match spec_handle_command(old(self).spec_state(), cmd) {
                Ok((st, act)) => final(self).spec_state() == st && r == Ok::<_, ControllerError>(act),
                Err(e) => *final(self) == *old(self) && r == Err::<Option<DeviceAction>, _>(e),
            },
    {
        match cmd {
            ControlMessages::SetGain(gain) => Ok(Some(self.set_gain(gain, false))),
            ControlMessages::SetExposure(exp) => Ok(Some(self.set_exposure(exp, false))),
            ControlMessages::SetWbR(r) => Ok(Some(self.set_white_balance_red(r, false))),
            ControlMessages::SetWbB(b) => Ok(Some(self.set_white_balance_blue(b, false))),
            ControlMessages::SwitchOutput => {
                if let CamState::Preview { show_hist } = self.state {
                    self.state = CamState::Preview { show_hist: !show_hist };
                }
                Ok(None)
            },
            ControlMessages::StartPreview => self.start_video(),
            ControlMessages::StopPreview => self.stop_video(),
            ControlMessages::StartCapture(total_frames) => match self.state {
                CamState::Capture { .. } => Err(ControllerError::StartCaptureWhileCapturing),
                _ => {
                    self.state = CamState::Capture { total_frames, captured: 0 };
                    Ok(None)
                },
            },
        }
    }

    /// Drains a batch of pending commands in arrival order, collecting the
    /// device calls they ask for. The first refused transition stops the
    /// drain; the calls gathered before it are still returned so the
    /// adapter can perform them before failing.
    pub fn handle_commands(&mut self, cmds: &Vec<ControlMessages>) -> (r: (
        Vec<DeviceAction>,
        Option<ControllerError>,
    ))
        requires
            old(self).wf(),
        ensures
            final(self).wf(),
            final(self).same_config(old(self)),
            ({
                let o = spec_drain(old(self).spec_state(), cmds@);
                &&& final(self).spec_state() == o.state
                &&& r.0@ == o.actions
                &&& r.1 == o.err
            }),
    {
        let ghost full = spec_drain(old(self).spec_state(), cmds@);
        let mut actions: Vec<DeviceAction> = Vec::new();
        let mut k: usize = 0;
        proof {
            assert(cmds@.skip(0) =~= cmds@);
            assert(actions@ + full.actions =~= full.actions);
        }
        while k < cmds.len()
            invariant
                k <= cmds@.len(),
                self.wf(),
                self.same_config(old(self)),
                full == spec_drain(old(self).spec_state(), cmds@),
                full.state == spec_drain(self.spec_state(), cmds@.skip(k as int)).state,
                full.err == spec_drain(self.spec_state(), cmds@.skip(k as int)).err,
                full.actions == actions@ + spec_drain(self.spec_state(), cmds@.skip(k as int)).actions,
            decreases cmds@.len() - k,
        {
            proof {
                assert(cmds@.skip(k as int)[0] == cmds@[k as int]);
                assert(cmds@.skip(k as int).skip(1) =~= cmds@.skip(k as int + 1));
            }
            let ghost before = spec_drain(self.spec_state(), cmds@.skip(k as int));
            match self.handle_command(cmds[k]) {
                Ok(Some(action)) => {
                    actions.push(action);
                    proof {
                        assert(full.actions =~= actions@ + spec_drain(
                            self.spec_state(),
                            cmds@.skip(k as int + 1),
                        ).actions);
                    }
                },
                Ok(None) => {
                    proof {
                        assert(full.actions =~= actions@ + spec_drain(
                            self.spec_state(),
                            cmds@.skip(k as int + 1),
                        ).actions);
                    }
                },
                Err(e) => {
                    proof {
                        assert(full.actions =~= actions@);
                    }
                    return (actions, Some(e));
                },
            }
            k += 1;
        }
        proof {
            assert(cmds@.skip(cmds@.len() as int) =~= Seq::<ControlMessages>::empty());
            assert(full.actions =~= actions@);
        }
        (actions, None)
    }

    /// Packages the freshest raw frame, as delivered (BGR order), with the
    /// control readback taken alongside it.
    pub fn make_preview(&self, frame: Vec<u8>, controls: ControlValues) -> (r: ClientPacket)
        requires
            frame@.len() == self.spec_frame_len(),
        ensures
            r matches ClientPacket::Preview(p) && {
                &&& p.w == self.spec_width()
                &&& p.h == self.spec_height()
                &&& p.pix == PixelOrder::BGR
                &&& p.img@ == frame@
                &&& p.controls == controls
            },
    {
        ClientPacket::Preview(
            ImagePacket {
                w: self.width,
                h: self.height,
                pix: PixelOrder::BGR,
                img: frame,
                controls,
            },
        )
    }

    /// Computes the frame's channel histograms, swaps channels 0 and 2 to
    /// undo the device's BGR order, renders them as the fixed-size
    /// diagnostic image and packages that instead of the raw frame.
    pub fn make_histogram(&self, frame: &Vec<u8>, controls: ControlValues) -> (r: ClientPacket)
        requires
            self.wf(),
            frame@.len() == self.spec_frame_len(),
        ensures
            r matches ClientPacket::Preview(p) && {
                &&& p.w == self.spec_width()
                &&& p.h == self.spec_height()
                &&& p.pix == PixelOrder::RGB
                &&& p.img@ == hist_plot_of(
                    PLOT_WIDTH,
                    PLOT_HEIGHT,
                    spec_swapped_histogram(frame@),
                    spec_plot_scale(spec_swapped_histogram(frame@)),
                )
                &&& p.img@.len() == PLOT_BYTES
                &&& p.controls == controls
            },
    {
        let mut hist = histogram(frame.as_slice(), 3);
        proof {
            assert forall|c: int, v: int| 0 <= c < 3 && 0 <= v < 256
                implies (#[trigger] hist.rows()[c][v])
                    == spec_histogram_rows(frame@, 3)[c][v] by {
                assert(hist.rows()[c][v] as nat == hist_count(frame@, 3, c, v));
            }
            assert(hist.rows() =~~= spec_histogram_rows(frame@, 3));
        }
        hist.swap_channels(0, 2);
        proof {
            assert(hist.rows() =~~= spec_swapped_histogram(frame@));
        }
        let max_value = hist_max(&hist);
        let scale = if max_value == 0 { 1u32 } else { max_value };
        proof {
            assert(hist.channels.deep_view() =~~= hist.rows());
            assert forall|c: int, v: int| 0 <= c < hist.channels@.len()
                && 0 <= v < hist.channels@[c]@.len()
                implies (#[trigger] hist.channels@[c]@[v]) <= scale by {
                crate::histogram::lemma_rows_max_bound(hist.rows(), c, v);
            }
        }
        let img = render_hist_plot(&hist.channels, scale);
        ClientPacket::Preview(
            ImagePacket {
                w: self.width,
                h: self.height,
                pix: PixelOrder::RGB,
                img,
                controls,
            },
        )
    }

    /// One Preview tick. Backpressure comes first: with any undelivered
    /// packet still queued outbound, nothing is produced or consumed this
    /// tick. Otherwise, if the slot holds a fresh frame it is taken and
    /// packaged — raw or as the histogram image, per the overlay flag —
    /// with the control readback the adapter supplied; if no fresh frame
    /// has arrived yet, the tick produces nothing and the adapter polls
    /// again.
    pub fn preview_tick(
        &self,
        slot: &mut FrameSlot,
        outbound_queued: usize,
        controls: ControlValues,
    ) -> (r: Option<ClientPacket>)
        requires
            self.wf(),
            self.spec_state() matches CamState::Preview { .. },
            old(slot).wf(),
            old(slot).spec_frame_len() == self.spec_frame_len(),
        ensures
            final(slot).wf(),
            final(slot).spec_frame_len() == old(slot).spec_frame_len(),
            spec_preview_output(*self, *old(slot), *final(slot), outbound_queued, controls, r),
    {
        if outbound_queued >= 1 {
            return None;
        }
        let taken = slot.take_if_fresh();
        match taken {
            None => None,
            Some(frame) => {
                let show_hist = match self.state {
                    CamState::Preview { show_hist } => show_hist,
                    _ => false,
                };
                if show_hist {
                    Some(self.make_histogram(&frame, controls))
                } else {
                    Some(self.make_preview(frame, controls))
                }
            },
        }
    }

    /// One whole Preview tick of the control loop, in the documented
    /// order: the render step first, over the state as it stood when the
    /// tick began, then the full drain of every command the plane had
    /// delivered by then. Each drained command is therefore applied after
    /// this tick's render step and before the next tick's — none is left
    /// pending across ticks, dropped, or applied twice.
    pub fn preview_cycle(
        &mut self,
        slot: &mut FrameSlot,
        outbound_queued: usize,
        controls: ControlValues,
        cmds: &Vec<ControlMessages>,
    ) -> (r: (Option<ClientPacket>, Vec<DeviceAction>, Option<ControllerError>))
        requires
            old(self).wf(),
            old(self).spec_state() matches CamState::Preview { .. },
            old(slot).wf(),
            old(slot).spec_frame_len() == old(self).spec_frame_len(),
        ensures
            final(self).wf(),
            final(self).same_config(old(self)),
            final(slot).wf(),
            final(slot).spec_frame_len() == old(slot).spec_frame_len(),
            spec_preview_output(
                *old(self),
                *old(slot),
                *final(slot),
                outbound_queued,
                controls,
                r.0,
            ),
            ({
                let o = spec_drain(old(self).spec_state(), cmds@);
                &&& final(self).spec_state() == o.state
                &&& r.1@ == o.actions
                &&& r.2 == o.err
            }),
    {
        let packet = self.preview_tick(slot, outbound_queued, controls);
        let (actions, err) = self.handle_commands(cmds);
        (packet, actions, err)
    }

    /// Reports one frame of the running capture sequence. A saved frame
    /// advances the count and yields the status packet to broadcast; a
    /// fetch or persist failure is fatal to the sequence and leaves the
    /// state untouched for the session teardown.
    pub fn capture_step(&mut self, ev: CaptureEvent) -> (r: Result<ClientPacket, ControllerError>)
        requires
            old(self).wf(),
            old(self).spec_state() matches CamState::Capture { total_frames, captured }
                && captured < total_frames,
        ensures
            final(self).wf(),
            final(self).same_config(old(self)),
            old(self).spec_state() matches CamState::Capture { total_frames, captured } ==> match ev {
                CaptureEvent::FrameSaved => {
                    &&& final(self).spec_state() == (CamState::Capture {
                        total_frames,
                        captured: (captured + 1) as i32,
                    })
                    &&& r == Ok::<_, ControllerError>(ClientPacket::CaptureStatus(
                        CaptureStatus {
                            captured_frames: (captured + 1) as i32,
                            total_frames,
                        },
                    ))
                },
                CaptureEvent::FetchFailed(e) => *final(self) == *old(self) && r
                    == Err::<ClientPacket, _>(ControllerError::CaptureFetch(e)),
                CaptureEvent::PersistFailed => *final(self) == *old(self) && r
                    == Err::<ClientPacket, _>(ControllerError::CapturePersist),
            },
    {
        match self.state {
            CamState::Capture { total_frames, captured } => match ev {
                CaptureEvent::FrameSaved => {
                    let done = captured + 1;
                    self.state = CamState::Capture { total_frames, captured: done };
                    Ok(ClientPacket::CaptureStatus(
                        CaptureStatus { captured_frames: done, total_frames },
                    ))
                },
                CaptureEvent::FetchFailed(e) => Err(ControllerError::CaptureFetch(e)),
                CaptureEvent::PersistFailed => Err(ControllerError::CapturePersist),
            },
            _ => vstd::pervasive::unreached(),
        }
    }

    /// Whether the running capture sequence has saved every requested frame.
    pub fn capture_finished(&self) -> (r: bool)
        requires
            self.spec_state() matches CamState::Capture { .. },
        ensures
            self.spec_state() matches CamState::Capture { total_frames, captured } ==> r == (
            captured >= total_frames),
    {
        match self.state {
            CamState::Capture { total_frames, captured } => captured >= total_frames,
            _ => false,
        }
    }

    /// On completion of a capture sequence the controller falls back to
    /// plain Preview.
    pub fn finish_capture(&mut self)
        requires
            old(self).wf(),
            old(self).spec_state() matches CamState::Capture { total_frames, captured }
                && captured >= total_frames,
        ensures
            final(self).wf(),
            final(self).same_config(old(self)),
            final(self).spec_state() == (CamState::Preview { show_hist: false }),
    {
        self.state = CamState::Preview { show_hist: false };
    }
}

/// The statuses a capture of `total` frames broadcasts from the point
/// where `captured` frames are already saved.
pub open spec fn spec_capture_statuses(total: i32, captured: i32) -> Seq<ClientPacket>
    decreases total - captured,
{
    if captured >= total {
        Seq::empty()
    } else {
        seq![
            ClientPacket::CaptureStatus(
                CaptureStatus { captured_frames: (captured + 1) as i32, total_frames: total },
            ),
        ] + spec_capture_statuses(total, (captured + 1) as i32)
    }
}

/// A capture of `total` frames emits exactly one status per saved frame,
/// counting 1 up to `total` in order, before Preview resumes.
pub proof fn lemma_capture_counts(total: i32, captured: i32)
    requires
        0 <= captured <= total,
    ensures
        spec_capture_statuses(total, captured).len() == total - captured,
        forall|i: int| 0 <= i < total - captured ==> spec_capture_statuses(total, captured)[i]
            == ClientPacket::CaptureStatus(
            CaptureStatus { captured_frames: (captured + 1 + i) as i32, total_frames: total },
        ),
    decreases total - captured,
{
    if captured < total {
        lemma_capture_counts(total, (captured + 1) as i32);
    }
}

/// Messages arriving across several ticks are applied exactly as if they
/// had arrived in one batch: draining `first` and then `second` reaches the
/// same state, requests the same device calls in the same order, and fails
/// in the same way as draining their concatenation. With `spec_drain`
/// walking its batch front to back, this is the arrival-order,
/// exactly-once guarantee of the command plane.
pub proof fn lemma_drain_batches(st: CamState, first: Seq<ControlMessages>, second: Seq<ControlMessages>)
    ensures
        ({
            let one = spec_drain(st, first + second);
            let head = spec_drain(st, first);
            if head.err is Some {
                one.state == head.state && one.actions == head.actions && one.err == head.err
            } else {
                let tail = spec_drain(head.state, second);
                one.state == tail.state && one.actions == head.actions + tail.actions && one.err
                    == tail.err
            }
        }),
    decreases first.len(),
{
    if first.len() == 0 {
        assert(first + second =~= second);
        assert(spec_drain(st, first).actions + spec_drain(st, second).actions =~= spec_drain(
            st,
            second,
        ).actions);
    } else {
        assert((first + second)[0] == first[0]);
        match spec_handle_command(st, first[0]) {
            Ok((st1, act)) => {
                assert((first + second).skip(1) =~= first.skip(1) + second);
                lemma_drain_batches(st1, first.skip(1), second);
                let head1 = spec_drain(st1, first.skip(1));
                if head1.err is Some {
                    assert(opt_action_seq(act) + head1.actions =~= opt_action_seq(act)
                        + head1.actions);
                } else {
                    let tail = spec_drain(head1.state, second);
                    assert(opt_action_seq(act) + (head1.actions + tail.actions) =~= (
                    opt_action_seq(act) + head1.actions) + tail.actions);
                }
            },
            Err(_) => {
                assert((first + second).skip(1) =~= first.skip(1) + second);
            },
        }
    }
}

/// Within one error-free drain, each pending message is applied exactly
/// once, in arrival order: for every position `k`, the drain of the first
/// `k + 1` messages is the drain of the first `k`, followed by one
/// application of message `k` to the state those `k` produced, with that
/// message's device call appended after theirs — so the drain is the
/// left-to-right fold of single-message steps, and no message is dropped,
/// reordered or applied twice.
pub proof fn lemma_drain_applies_each_once(st: CamState, cmds: Seq<ControlMessages>, k: int)
    requires
        0 <= k < cmds.len(),
        spec_drain(st, cmds).err is None,
    ensures
        spec_drain(st, cmds.take(k)).err is None,
        spec_handle_command(spec_drain(st, cmds.take(k)).state, cmds[k]) matches Ok((st1, act))
            && spec_drain(st, cmds.take(k + 1)).state == st1
            && spec_drain(st, cmds.take(k + 1)).actions
                == spec_drain(st, cmds.take(k)).actions + opt_action_seq(act),
{
    let head = spec_drain(st, cmds.take(k));
    assert(cmds =~= cmds.take(k) + cmds.skip(k));
    lemma_drain_batches(st, cmds.take(k), cmds.skip(k));
    assert(head.err is None);

    assert(cmds =~= cmds.take(k + 1) + cmds.skip(k + 1));
    lemma_drain_batches(st, cmds.take(k + 1), cmds.skip(k + 1));
    assert(spec_drain(st, cmds.take(k + 1)).err is None);

    let single = seq![cmds[k]];
    assert(cmds.take(k + 1) =~= cmds.take(k) + single);
    lemma_drain_batches(st, cmds.take(k), single);
    assert(single.skip(1) =~= Seq::<ControlMessages>::empty());
    match spec_handle_command(head.state, cmds[k]) {
        Ok((st1, act)) => {
            reveal_with_fuel(spec_drain, 2);
            assert(single[0] == cmds[k]);
            assert(spec_drain(st1, single.skip(1)).actions == Seq::<DeviceAction>::empty());
            assert(spec_drain(head.state, single).state == st1);
            assert(spec_drain(head.state, single).actions =~= opt_action_seq(act));
        },
        Err(_) => {
            assert(false);
        },
    }
}

/// Starting preview twice in a row from Stopped looks exactly like
/// starting it once: the first StartPreview enters Preview and asks for
/// one acquisition-loop start, the second changes nothing and asks for
/// nothing.
pub proof fn lemma_start_preview_idempotent()
    ensures
        spec_handle_command(CamState::Stopped, ControlMessages::StartPreview) == Ok::<
            _,
            ControllerError,
        >((CamState::Preview { show_hist: false }, Some(DeviceAction::StartAcquisition))),
        spec_handle_command(
            CamState::Preview { show_hist: false },
            ControlMessages::StartPreview,
        ) == Ok::<_, ControllerError>((
            CamState::Preview { show_hist: false },
            None::<DeviceAction>,
        )),
{
}

} // verus!
