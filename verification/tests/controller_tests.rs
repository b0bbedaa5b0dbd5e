use zwo_asi_rs::camera_controller::{
    CamState, CameraController, CaptureEvent, CaptureStatus, ClientPacket, ControlMessages,
    ControlValues, ControllerError, DeviceAction, PixelOrder,
};
use zwo_asi_rs::asi::{ASI_ERROR, CONTROL_TYPE};
use zwo_asi_rs::command::parse_command;
use zwo_asi_rs::frame_slot::FrameSlot;
use zwo_asi_rs::Camera;
use zwo_asi_rs::_ASI_CAMERA_INFO;

/// A stand-in for the sensor: remembers the last requested value of each
/// control, as the real SDK's control store would.
struct FakeDevice {
    gain: i64,
    exposure: i64,
    wb_r: i64,
    wb_b: i64,
    acquisition_starts: usize,
    acquisition_stops: usize,
}

impl FakeDevice {
    fn new() -> Self {
        FakeDevice { gain: 0, exposure: 0, wb_r: 0, wb_b: 0, acquisition_starts: 0, acquisition_stops: 0 }
    }

    fn apply(&mut self, action: &DeviceAction) {
        match action {
            DeviceAction::SetControl(CONTROL_TYPE::GAIN, v, _) => self.gain = *v,
            DeviceAction::SetControl(CONTROL_TYPE::EXPOSURE, v, _) => self.exposure = *v,
            DeviceAction::SetControl(CONTROL_TYPE::WB_R, v, _) => self.wb_r = *v,
            DeviceAction::SetControl(CONTROL_TYPE::WB_B, v, _) => self.wb_b = *v,
            DeviceAction::SetControl(_, _, _) => {}
            DeviceAction::SetRoiFormat(_, _, _, _) => {}
            DeviceAction::StartAcquisition => self.acquisition_starts += 1,
            DeviceAction::StopAcquisition => self.acquisition_stops += 1,
        }
    }
}

fn fresh_controller() -> CameraController {
    let camera = Camera::new(_ASI_CAMERA_INFO::new());
    let ccd = camera.open().expect("open is a model step and always succeeds");
    CameraController::new(ccd)
}

#[test]
fn new_controller_is_stopped_full_hd() {
    let ctrl = fresh_controller();
    assert_eq!(ctrl.state(), CamState::Stopped);
    assert_eq!(ctrl.width(), 1920);
    assert_eq!(ctrl.height(), 1080);
}

#[test]
fn configure_requests_the_default_setup() {
    let mut ctrl = fresh_controller();
    let actions = ctrl.configure();
    assert_eq!(actions.len(), 6);
    assert_eq!(actions[1], DeviceAction::SetControl(CONTROL_TYPE::GAIN, 200, false));
    assert_eq!(actions[2], DeviceAction::SetControl(CONTROL_TYPE::EXPOSURE, 10000, false));
    assert_eq!(actions[3], DeviceAction::SetControl(CONTROL_TYPE::WB_B, 87, false));
    assert_eq!(actions[4], DeviceAction::SetControl(CONTROL_TYPE::WB_R, 45, false));
}

#[test]
fn start_preview_twice_is_one_acquisition_start() {
    let mut ctrl = fresh_controller();
    let mut dev = FakeDevice::new();

    let first = ctrl.handle_command(ControlMessages::StartPreview).unwrap();
    assert_eq!(first, Some(DeviceAction::StartAcquisition));
    if let Some(a) = first {
        dev.apply(&a);
    }
    assert_eq!(ctrl.state(), CamState::Preview { show_hist: false });

    let second = ctrl.handle_command(ControlMessages::StartPreview).unwrap();
    assert_eq!(second, None);
    if let Some(a) = second {
        dev.apply(&a);
    }
    assert_eq!(ctrl.state(), CamState::Preview { show_hist: false });
    assert_eq!(dev.acquisition_starts, 1);
}

#[test]
fn stop_preview_stops_once_and_is_idempotent() {
    let mut ctrl = fresh_controller();
    ctrl.handle_command(ControlMessages::StartPreview).unwrap();
    let stop = ctrl.handle_command(ControlMessages::StopPreview).unwrap();
    assert_eq!(stop, Some(DeviceAction::StopAcquisition));
    assert_eq!(ctrl.state(), CamState::Stopped);
    let again = ctrl.handle_command(ControlMessages::StopPreview).unwrap();
    assert_eq!(again, None);
    assert_eq!(ctrl.state(), CamState::Stopped);
}

#[test]
fn preview_toggle_is_refused_during_capture() {
    let mut ctrl = fresh_controller();
    ctrl.handle_command(ControlMessages::StartCapture(2)).unwrap();
    let start = ctrl.handle_command(ControlMessages::StartPreview);
    assert_eq!(start, Err(ControllerError::StartPreviewWhileCapturing));
    let stop = ctrl.handle_command(ControlMessages::StopPreview);
    assert_eq!(stop, Err(ControllerError::StopPreviewWhileCapturing));
    assert_eq!(ctrl.state(), CamState::Capture { total_frames: 2, captured: 0 });
}

#[test]
fn start_capture_is_refused_while_capturing() {
    let mut ctrl = fresh_controller();
    ctrl.handle_command(ControlMessages::StartCapture(2)).unwrap();
    let r = ctrl.handle_command(ControlMessages::StartCapture(5));
    assert_eq!(r, Err(ControllerError::StartCaptureWhileCapturing));
    assert_eq!(ctrl.state(), CamState::Capture { total_frames: 2, captured: 0 });

    // One drained batch cannot restart a capture either: the second
    // request is refused and the first sequence stands untouched.
    let mut ctrl2 = fresh_controller();
    let (actions, err) = ctrl2.handle_commands(&vec![
        ControlMessages::StartCapture(5),
        ControlMessages::StartCapture(3),
    ]);
    assert!(actions.is_empty());
    assert_eq!(err, Some(ControllerError::StartCaptureWhileCapturing));
    assert_eq!(ctrl2.state(), CamState::Capture { total_frames: 5, captured: 0 });
}

#[test]
fn switch_output_toggles_only_in_preview() {
    let mut ctrl = fresh_controller();
    ctrl.handle_command(ControlMessages::SwitchOutput).unwrap();
    assert_eq!(ctrl.state(), CamState::Stopped);
    ctrl.handle_command(ControlMessages::StartPreview).unwrap();
    ctrl.handle_command(ControlMessages::SwitchOutput).unwrap();
    assert_eq!(ctrl.state(), CamState::Preview { show_hist: true });
    ctrl.handle_command(ControlMessages::SwitchOutput).unwrap();
    assert_eq!(ctrl.state(), CamState::Preview { show_hist: false });
}

#[test]
fn commands_are_drained_in_arrival_order() {
    let mut ctrl = fresh_controller();
    let cmds = vec![
        ControlMessages::SetGain(7),
        ControlMessages::StartPreview,
        ControlMessages::SetGain(9),
        ControlMessages::SwitchOutput,
    ];
    let (actions, err) = ctrl.handle_commands(&cmds);
    assert!(err.is_none());
    assert_eq!(
        actions,
        vec![
            DeviceAction::SetControl(CONTROL_TYPE::GAIN, 7, false),
            DeviceAction::StartAcquisition,
            DeviceAction::SetControl(CONTROL_TYPE::GAIN, 9, false),
        ]
    );
    assert_eq!(ctrl.state(), CamState::Preview { show_hist: true });
}

#[test]
fn drain_stops_at_first_refused_transition() {
    let mut ctrl = fresh_controller();
    let cmds = vec![
        ControlMessages::SetGain(5),
        ControlMessages::StartCapture(1),
        ControlMessages::StartPreview,
        ControlMessages::SetGain(6),
    ];
    let (actions, err) = ctrl.handle_commands(&cmds);
    assert_eq!(err, Some(ControllerError::StartPreviewWhileCapturing));
    assert_eq!(actions, vec![DeviceAction::SetControl(CONTROL_TYPE::GAIN, 5, false)]);
    assert_eq!(ctrl.state(), CamState::Capture { total_frames: 1, captured: 0 });
}

#[test]
fn capture_emits_each_status_then_resumes_preview() {
    let mut ctrl = fresh_controller();
    ctrl.handle_command(ControlMessages::StartPreview).unwrap();
    ctrl.handle_command(ControlMessages::StartCapture(3)).unwrap();
    assert_eq!(ctrl.state(), CamState::Capture { total_frames: 3, captured: 0 });

    let mut packets = Vec::new();
    while !ctrl.capture_finished() {
        let pkt = ctrl.capture_step(CaptureEvent::FrameSaved).unwrap();
        packets.push(pkt);
    }
    ctrl.finish_capture();

    assert_eq!(
        packets,
        vec![
            ClientPacket::CaptureStatus(CaptureStatus { captured_frames: 1, total_frames: 3 }),
            ClientPacket::CaptureStatus(CaptureStatus { captured_frames: 2, total_frames: 3 }),
            ClientPacket::CaptureStatus(CaptureStatus { captured_frames: 3, total_frames: 3 }),
        ]
    );
    assert_eq!(ctrl.state(), CamState::Preview { show_hist: false });
}

#[test]
fn capture_of_zero_frames_finishes_immediately() {
    let mut ctrl = fresh_controller();
    ctrl.handle_command(ControlMessages::StartCapture(0)).unwrap();
    assert!(ctrl.capture_finished());
    ctrl.finish_capture();
    assert_eq!(ctrl.state(), CamState::Preview { show_hist: false });
}

#[test]
fn capture_of_negative_count_finishes_immediately() {
    let mut ctrl = fresh_controller();
    ctrl.handle_command(ControlMessages::StartCapture(-2)).unwrap();
    assert!(ctrl.capture_finished());
    ctrl.finish_capture();
    assert_eq!(ctrl.state(), CamState::Preview { show_hist: false });
}

#[test]
fn capture_failures_are_fatal_to_the_sequence() {
    let mut ctrl = fresh_controller();
    ctrl.handle_command(ControlMessages::StartCapture(2)).unwrap();
    let r = ctrl.capture_step(CaptureEvent::FetchFailed(ASI_ERROR::TIMEOUT));
    assert_eq!(r, Err(ControllerError::CaptureFetch(ASI_ERROR::TIMEOUT)));
    assert_eq!(ctrl.state(), CamState::Capture { total_frames: 2, captured: 0 });

    let r2 = ctrl.capture_step(CaptureEvent::PersistFailed);
    assert_eq!(r2, Err(ControllerError::CapturePersist));
}

#[test]
fn command_stream_drives_capture_against_fake_device() {
    let mut ctrl = fresh_controller();
    let mut dev = FakeDevice::new();
    ctrl.handle_command(ControlMessages::StartPreview)
        .unwrap()
        .map(|a| dev.apply(&a));

    // The wire delivers the two text tokens; the drained commands are
    // applied before the next tick's state-dependent work.
    let stream = ["SET_GAIN:150", "START_CAPTURE:3"];
    let mut cmds = Vec::new();
    for token in stream.iter() {
        if let Some(msg) = parse_command(token).expect("both tokens are well-formed") {
            cmds.push(msg);
        }
    }
    let (actions, err) = ctrl.handle_commands(&cmds);
    assert!(err.is_none());
    for a in actions.iter() {
        dev.apply(a);
    }
    assert_eq!(dev.gain, 150);

    let mut packets = Vec::new();
    while !ctrl.capture_finished() {
        packets.push(ctrl.capture_step(CaptureEvent::FrameSaved).unwrap());
        assert_eq!(dev.gain, 150);
    }
    ctrl.finish_capture();

    assert_eq!(
        packets,
        vec![
            ClientPacket::CaptureStatus(CaptureStatus { captured_frames: 1, total_frames: 3 }),
            ClientPacket::CaptureStatus(CaptureStatus { captured_frames: 2, total_frames: 3 }),
            ClientPacket::CaptureStatus(CaptureStatus { captured_frames: 3, total_frames: 3 }),
        ]
    );
    assert_eq!(ctrl.state(), CamState::Preview { show_hist: false });
    assert_eq!(dev.gain, 150);
}

#[test]
fn backpressure_skips_production_for_the_tick() {
    let mut ctrl = fresh_controller();
    ctrl.handle_command(ControlMessages::StartPreview).unwrap();
    let frame_len = (ctrl.width() * ctrl.height() * 3) as usize;
    let (mut slot, mut work) = FrameSlot::new(frame_len);
    slot.publish(&mut work);
    assert!(slot.fresh());

    let controls = ControlValues { gain: 1, exposure: 2, wb_r: 3, wb_b: 4 };
    // One undelivered packet queued outbound: nothing is produced and the
    // fresh frame is not consumed.
    let r = ctrl.preview_tick(&mut slot, 1, controls);
    assert!(r.is_none());
    assert!(slot.fresh());

    // An empty outbound queue: the same tick now produces the packet.
    let r2 = ctrl.preview_tick(&mut slot, 0, controls);
    assert!(r2.is_some());
    assert!(!slot.fresh());
}

#[test]
fn preview_cycle_renders_before_the_drain() {
    let mut ctrl = fresh_controller();
    ctrl.handle_command(ControlMessages::StartPreview).unwrap();
    let frame_len = (ctrl.width() * ctrl.height() * 3) as usize;
    let (mut slot, mut work) = FrameSlot::new(frame_len);
    slot.publish(&mut work);

    // The overlay toggle arrives during the tick: the tick's own render
    // still uses the state it began with (raw BGR frame), and the command
    // is applied before the next tick's render, which would plot.
    let controls = ControlValues { gain: 1, exposure: 2, wb_r: 3, wb_b: 4 };
    let cmds = vec![ControlMessages::SwitchOutput];
    let (packet, actions, err) = ctrl.preview_cycle(&mut slot, 0, controls, &cmds);
    assert!(err.is_none());
    assert!(actions.is_empty());
    match packet.expect("a fresh frame must be packaged") {
        ClientPacket::Preview(p) => assert_eq!(p.pix, PixelOrder::BGR),
        other => panic!("expected a preview packet, got {:?}", other),
    }
    assert_eq!(ctrl.state(), CamState::Preview { show_hist: true });
}

#[test]
fn preview_tick_packages_the_raw_frame() {
    let mut ctrl = fresh_controller();
    ctrl.handle_command(ControlMessages::StartPreview).unwrap();
    let frame_len = (ctrl.width() * ctrl.height() * 3) as usize;
    let (mut slot, mut work) = FrameSlot::new(frame_len);
    for (i, b) in work.iter_mut().enumerate() {
        *b = (i % 251) as u8;
    }
    let published = work.clone();
    slot.publish(&mut work);

    let controls = ControlValues { gain: 150, exposure: 10000, wb_r: 45, wb_b: 87 };
    let pkt = ctrl.preview_tick(&mut slot, 0, controls).expect("fresh frame must be packaged");
    match pkt {
        ClientPacket::Preview(p) => {
            assert_eq!(p.w, 1920);
            assert_eq!(p.h, 1080);
            assert_eq!(p.pix, PixelOrder::BGR);
            assert_eq!(p.img, published);
            assert_eq!(p.controls, controls);
        }
        other => panic!("expected a preview packet, got {:?}", other),
    }

    // No fresh frame yet: the tick waits instead of re-sending stale data.
    let none = ctrl.preview_tick(&mut slot, 0, controls);
    assert!(none.is_none());
}
