use zwo_asi_rs::asi::ASI_ERROR;
use zwo_asi_rs::camera_controller::{
    CameraController, ClientPacket, ControlMessages, ControlValues, PixelOrder,
};
use zwo_asi_rs::frame_slot::{acquisition_step, FrameSlot};
use zwo_asi_rs::histogram::{hist_max, histogram};
use zwo_asi_rs::Camera;
use zwo_asi_rs::_ASI_CAMERA_INFO;

/// A single-colour frame of `pixels` pixels with components (b, g, r) as
/// the device delivers them (BGR order).
fn single_colour_frame(pixels: usize, c0: u8, c1: u8, c2: u8) -> Vec<u8> {
    let mut buf = Vec::with_capacity(pixels * 3);
    for _ in 0..pixels {
        buf.push(c0);
        buf.push(c1);
        buf.push(c2);
    }
    buf
}

#[test]
fn histogram_of_single_colour_has_one_full_bucket_per_channel() {
    let width = 8usize;
    let height = 4usize;
    let frame = single_colour_frame(width * height, 10, 20, 30);
    let hist = histogram(&frame, 3);
    assert_eq!(hist.channels.len(), 3);
    for (c, peak) in [(0usize, 10usize), (1, 20), (2, 30)] {
        for v in 0..256usize {
            let expected = if v == peak { (width * height) as u32 } else { 0 };
            assert_eq!(hist.channels[c][v], expected, "channel {} bucket {}", c, v);
        }
    }
    assert_eq!(hist_max(&hist), (width * height) as u32);
}

#[test]
fn channel_swap_moves_the_peak_to_the_swapped_index() {
    let frame = single_colour_frame(6, 10, 20, 30);
    let mut hist = histogram(&frame, 3);
    hist.swap_channels(0, 2);
    // The device delivers BGR; after the swap the blue peak sits in
    // channel 2 and the red peak in channel 0.
    assert_eq!(hist.channels[0][30], 6);
    assert_eq!(hist.channels[2][10], 6);
    assert_eq!(hist.channels[0][10], 0);
    assert_eq!(hist.channels[2][30], 0);
    assert_eq!(hist.channels[1][20], 6);
}

#[test]
fn histogram_counts_partial_buffers_by_sample() {
    // Five samples of two channels: indices 0,2,4 are channel 0.
    let buf = vec![9u8, 7, 9, 7, 9];
    let hist = histogram(&buf, 2);
    assert_eq!(hist.channels[0][9], 3);
    assert_eq!(hist.channels[1][7], 2);
    assert_eq!(hist.channels[0][7], 0);
}

#[test]
fn frame_slot_yields_only_full_frames() {
    let (mut slot, mut work) = FrameSlot::new(6);
    assert_eq!(slot.frame_len(), 6);
    assert!(!slot.fresh());
    assert!(slot.take_if_fresh().is_none());

    work.copy_from_slice(&[1, 2, 3, 4, 5, 6]);
    slot.publish(&mut work);
    assert!(slot.fresh());
    let taken = slot.take_if_fresh().expect("a published frame is fresh");
    assert_eq!(taken.len(), 6);
    assert_eq!(taken, vec![1, 2, 3, 4, 5, 6]);
    assert!(!slot.fresh());
    assert!(slot.take_if_fresh().is_none());

    // The writer got the previous buffer back for the next fetch.
    assert_eq!(work.len(), 6);
}

#[test]
fn acquisition_retries_timeouts_and_keeps_the_published_frame() {
    let (mut slot, mut work) = FrameSlot::new(3);
    work.copy_from_slice(&[5, 5, 5]);
    let cont = acquisition_step(&mut slot, &mut work, Ok(()), false).unwrap();
    assert!(cont);
    assert!(slot.fresh());

    // A timeout publishes nothing and the loop goes on.
    let cont = acquisition_step(&mut slot, &mut work, Err(ASI_ERROR::TIMEOUT), false).unwrap();
    assert!(cont);
    let frame = slot.take_if_fresh().unwrap();
    assert_eq!(frame, vec![5, 5, 5]);

    // Any other device error aborts the loop and corrupts nothing.
    work.copy_from_slice(&[9, 9, 9]);
    let res = acquisition_step(&mut slot, &mut work, Err(ASI_ERROR::CAMERA_REMOVED), false);
    assert_eq!(res, Err(ASI_ERROR::CAMERA_REMOVED));
    assert!(!slot.fresh());

    // The stop signal is honoured once per iteration, after the publish.
    let cont = acquisition_step(&mut slot, &mut work, Ok(()), true).unwrap();
    assert!(!cont);
    assert_eq!(slot.take_if_fresh().unwrap(), vec![9, 9, 9]);
}

#[test]
fn histogram_tick_renders_the_diagnostic_image() {
    let camera = Camera::new(_ASI_CAMERA_INFO::new());
    let mut ctrl = CameraController::new(camera.open().unwrap());
    ctrl.handle_command(ControlMessages::StartPreview).unwrap();
    ctrl.handle_command(ControlMessages::SwitchOutput).unwrap();

    let frame_len = (ctrl.width() * ctrl.height() * 3) as usize;
    let (mut slot, mut work) = FrameSlot::new(frame_len);
    for (i, b) in work.iter_mut().enumerate() {
        *b = (i % 200) as u8;
    }
    slot.publish(&mut work);

    let controls = ControlValues { gain: 200, exposure: 10000, wb_r: 45, wb_b: 87 };
    let pkt = ctrl.preview_tick(&mut slot, 0, controls).expect("fresh frame must be packaged");
    match pkt {
        ClientPacket::Preview(p) => {
            assert_eq!(p.pix, PixelOrder::RGB);
            assert_eq!(p.img.len(), 1920 * 1080 * 3);
            // The plot was drawn: the canvas was filled white, so the
            // bytes cannot all still be zero.
            assert!(p.img.iter().any(|b| *b == 255));
            assert_eq!(p.controls, controls);
        }
        other => panic!("expected a preview packet, got {:?}", other),
    }
}
