use zwo_asi_rs::asi::{
    check_error_code, exposure_status_of_code, ExposureStep, ASI_ERROR, EXPOSURE_STATUS, IMG_TYPE,
    ROIFormat,
};
use zwo_asi_rs::camera_controller::ControlMessages;
use zwo_asi_rs::command::{parse_command, ProtocolError};
use zwo_asi_rs::Camera;
use zwo_asi_rs::_ASI_CAMERA_INFO;

#[test]
fn known_commands_decode() {
    assert_eq!(parse_command("SET_GAIN:150"), Ok(Some(ControlMessages::SetGain(150))));
    assert_eq!(parse_command("SET_GAIN:-20"), Ok(Some(ControlMessages::SetGain(-20))));
    assert_eq!(parse_command("SET_GAIN:+3"), Ok(Some(ControlMessages::SetGain(3))));
    assert_eq!(parse_command("SET_WB_R:45"), Ok(Some(ControlMessages::SetWbR(45))));
    assert_eq!(parse_command("SET_WB_B:87"), Ok(Some(ControlMessages::SetWbB(87))));
    assert_eq!(parse_command("SWITCH_OUTPUT:"), Ok(Some(ControlMessages::SwitchOutput)));
    assert_eq!(parse_command("START_CAPTURE:3"), Ok(Some(ControlMessages::StartCapture(3))));
}

#[test]
fn exposure_values_are_thousandths_truncated() {
    assert_eq!(parse_command("SET_EXPOSURE:10"), Ok(Some(ControlMessages::SetExposure(10000))));
    assert_eq!(parse_command("SET_EXPOSURE:1.5"), Ok(Some(ControlMessages::SetExposure(1500))));
    assert_eq!(
        parse_command("SET_EXPOSURE:0.1234"),
        Ok(Some(ControlMessages::SetExposure(123))),
    );
    assert_eq!(parse_command("SET_EXPOSURE:.25"), Ok(Some(ControlMessages::SetExposure(250))));
    assert_eq!(parse_command("SET_EXPOSURE:2."), Ok(Some(ControlMessages::SetExposure(2000))));
    assert_eq!(
        parse_command("SET_EXPOSURE:-0.75"),
        Ok(Some(ControlMessages::SetExposure(-750))),
    );
}

#[test]
fn token_without_separator_is_ignored() {
    assert_eq!(parse_command("SWITCH_OUTPUT"), Ok(None));
    assert_eq!(parse_command(""), Ok(None));
}

#[test]
fn unknown_command_is_a_protocol_error() {
    assert_eq!(parse_command("SET_FOCUS:3"), Err(ProtocolError::UnknownCommand));
    assert_eq!(parse_command(":7"), Err(ProtocolError::UnknownCommand));
}

#[test]
fn unusable_values_are_protocol_errors() {
    assert_eq!(parse_command("SET_GAIN:"), Err(ProtocolError::InvalidValue));
    assert_eq!(parse_command("SET_GAIN:abc"), Err(ProtocolError::InvalidValue));
    assert_eq!(parse_command("SET_GAIN:12x"), Err(ProtocolError::InvalidValue));
    assert_eq!(parse_command("SET_GAIN:99999999999"), Err(ProtocolError::InvalidValue));
    assert_eq!(parse_command("SET_GAIN:2147483648"), Err(ProtocolError::InvalidValue));
    assert_eq!(parse_command("SET_EXPOSURE:."), Err(ProtocolError::InvalidValue));
    assert_eq!(parse_command("SET_EXPOSURE:1.2.3"), Err(ProtocolError::InvalidValue));
    assert_eq!(parse_command("START_CAPTURE:many"), Err(ProtocolError::InvalidValue));
    assert_eq!(
        parse_command("SET_EXPOSURE:99999999999999999999"),
        Err(ProtocolError::InvalidValue),
    );
}

#[test]
fn extreme_gain_values_round_trip() {
    assert_eq!(
        parse_command("SET_GAIN:2147483647"),
        Ok(Some(ControlMessages::SetGain(2147483647))),
    );
    assert_eq!(
        parse_command("SET_GAIN:-2147483648"),
        Ok(Some(ControlMessages::SetGain(-2147483648))),
    );
}

#[test]
fn error_codes_map_to_named_conditions() {
    assert_eq!(check_error_code(0), Ok(()));
    assert_eq!(check_error_code(1), Err(ASI_ERROR::INVALID_INDEX));
    assert_eq!(check_error_code(4), Err(ASI_ERROR::CAMERA_CLOSED));
    assert_eq!(check_error_code(11), Err(ASI_ERROR::TIMEOUT));
    assert_eq!(check_error_code(13), Err(ASI_ERROR::BUFFER_TOO_SMALL));
    assert_eq!(check_error_code(16), Err(ASI_ERROR::GENERAL_ERROR));
    assert_eq!(check_error_code(99), Err(ASI_ERROR::UNKNOWN));
    assert_eq!(check_error_code(-1), Err(ASI_ERROR::UNKNOWN));
}

#[test]
fn exposure_status_decodes_and_drives_the_poll() {
    assert_eq!(exposure_status_of_code(0), Ok(EXPOSURE_STATUS::EXP_IDLE));
    assert_eq!(exposure_status_of_code(1), Ok(EXPOSURE_STATUS::EXP_WORKING));
    assert_eq!(exposure_status_of_code(2), Ok(EXPOSURE_STATUS::EXP_SUCCESS));
    assert_eq!(exposure_status_of_code(3), Ok(EXPOSURE_STATUS::EXP_FAILED));
    assert_eq!(exposure_status_of_code(7), Err(ASI_ERROR::UNKNOWN));

    assert_eq!(ExposureStep::of_status(EXPOSURE_STATUS::EXP_WORKING), ExposureStep::Wait);
    assert_eq!(ExposureStep::of_status(EXPOSURE_STATUS::EXP_SUCCESS), ExposureStep::Download);
    assert_eq!(ExposureStep::of_status(EXPOSURE_STATUS::EXP_FAILED), ExposureStep::Fail);
    assert_eq!(ExposureStep::of_status(EXPOSURE_STATUS::EXP_IDLE), ExposureStep::Fail);
}

#[test]
fn frame_buffer_sizes_follow_the_pixel_layout() {
    assert_eq!(IMG_TYPE::RAW8.bytes_per_pixel(), 1);
    assert_eq!(IMG_TYPE::RGB24.bytes_per_pixel(), 3);
    assert_eq!(IMG_TYPE::RAW16.bytes_per_pixel(), 2);
    assert_eq!(IMG_TYPE::Y8.bytes_per_pixel(), 1);

    let roi = ROIFormat { width: 1920, height: 1080, bin: 1, img_type: IMG_TYPE::RGB24 };
    assert_eq!(roi.buffer_len(), 1920 * 1080 * 3);
    let raw = ROIFormat { width: 640, height: 480, bin: 2, img_type: IMG_TYPE::RAW16 };
    assert_eq!(raw.buffer_len(), 640 * 480 * 2);
}

#[test]
fn camera_name_is_decoded_from_its_description() {
    let mut info = _ASI_CAMERA_INFO::new();
    info.Name = b"ZWO ASI294MC".to_vec();
    info.CameraID = 4;
    let camera = Camera::new(info);
    assert_eq!(camera.get_name(), "ZWO ASI294MC");
    let opened = camera.open().unwrap();
    assert_eq!(opened.id(), 4);
}

#[test]
fn blank_camera_description_has_a_zeroed_name() {
    let info = _ASI_CAMERA_INFO::new();
    assert_eq!(info.Name.len(), 64);
    assert!(info.Name.iter().all(|b| *b == 0));
    assert_eq!(info.IsColorCam, 1);
    let camera = Camera::new(info);
    assert_eq!(camera.get_name().len(), 64);
}
