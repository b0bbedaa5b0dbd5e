//! Model of the sensor SDK surface the capture core relies on: the error
//! code set, control identifiers, image formats and the region-of-interest
//! description. The actual calls into the vendor SDK are made by the
//! unverified adapter; the core only reasons about these plain values.
use vstd::prelude::*;

verus! {

/// The named error conditions a sensor call can surface.
#[derive(Clone, Copy, Debug, PartialEq, Eq, Structural)]
#[allow(non_camel_case_types)]
pub enum ASI_ERROR {
    INVALID_INDEX,
    INVALID_ID,
    INVALID_CONTROL_TYPE,
    CAMERA_CLOSED,
    CAMERA_REMOVED,
    INVALID_PATH,
    INVALID_FILEFORMAT,
    INVALID_SIZE,
    INVALID_IMGTYPE,
    OUTOF_BOUNDARY,
    TIMEOUT,
    INVALID_SEQUENCE,
    BUFFER_TOO_SMALL,
    VIDEO_MODE_ACTIVE,
    EXPOSURE_IN_PROGRESS,
    GENERAL_ERROR,
    INVALID_MODE,
    GPS_NOT_SUPPORTED,
    GPS_VER_ERR,
    GPS_FPGA_ERR,
    GPS_PARAM_OUT_OF_RANGE,
    GPS_DATA_INVALID,
    UNKNOWN,
}

/// The meaning of each numeric status code of the sensor SDK.
pub open spec fn spec_error_of_code(code: i32) -> Result<(), ASI_ERROR> {
    if code == 0 {
        Ok(())
    } else if code == 1 {
        Err(ASI_ERROR::INVALID_INDEX)
    } else if code == 2 {
        Err(ASI_ERROR::INVALID_ID)
    } else if code == 3 {
        Err(ASI_ERROR::INVALID_CONTROL_TYPE)
    } else if code == 4 {
        Err(ASI_ERROR::CAMERA_CLOSED)
    } else if code == 5 {
        Err(ASI_ERROR::CAMERA_REMOVED)
    } else if code == 6 {
        Err(ASI_ERROR::INVALID_PATH)
    } else if code == 7 {
        Err(ASI_ERROR::INVALID_FILEFORMAT)
    } else if code == 8 {
        Err(ASI_ERROR::INVALID_SIZE)
    } else if code == 9 {
        Err(ASI_ERROR::INVALID_IMGTYPE)
    } else if code == 10 {
        Err(ASI_ERROR::OUTOF_BOUNDARY)
    } else if code == 11 {
        Err(ASI_ERROR::TIMEOUT)
    } else if code == 12 {
        Err(ASI_ERROR::INVALID_SEQUENCE)
    } else if code == 13 {
        Err(ASI_ERROR::BUFFER_TOO_SMALL)
    } else if code == 14 {
        Err(ASI_ERROR::VIDEO_MODE_ACTIVE)
    } else if code == 15 {
        Err(ASI_ERROR::EXPOSURE_IN_PROGRESS)
    } else if code == 16 {
        Err(ASI_ERROR::GENERAL_ERROR)
    } else if code == 17 {
        Err(ASI_ERROR::INVALID_MODE)
    } else if code == 18 {
        Err(ASI_ERROR::GPS_NOT_SUPPORTED)
    } else if code == 19 {
        Err(ASI_ERROR::GPS_VER_ERR)
    } else if code == 20 {
        Err(ASI_ERROR::GPS_FPGA_ERR)
    } else if code == 21 {
        Err(ASI_ERROR::GPS_PARAM_OUT_OF_RANGE)
    } else if code == 22 {
        Err(ASI_ERROR::GPS_DATA_INVALID)
    } else {
        Err(ASI_ERROR::UNKNOWN)
    }
}

/// Turns a raw status code returned by a sensor call into the library's
/// error type; zero is success, unknown codes are reported as such.
pub fn check_error_code(code: i32) -> (r: Result<(), ASI_ERROR>)
    ensures
        r == spec_error_of_code(code),
{
    match code {
        0 => Ok(()),
        1 => Err(ASI_ERROR::INVALID_INDEX),
        2 => Err(ASI_ERROR::INVALID_ID),
        3 => Err(ASI_ERROR::INVALID_CONTROL_TYPE),
        4 => Err(ASI_ERROR::CAMERA_CLOSED),
        5 => Err(ASI_ERROR::CAMERA_REMOVED),
        6 => Err(ASI_ERROR::INVALID_PATH),
        7 => Err(ASI_ERROR::INVALID_FILEFORMAT),
        8 => Err(ASI_ERROR::INVALID_SIZE),
        9 => Err(ASI_ERROR::INVALID_IMGTYPE),
        10 => Err(ASI_ERROR::OUTOF_BOUNDARY),
        11 => Err(ASI_ERROR::TIMEOUT),
        12 => Err(ASI_ERROR::INVALID_SEQUENCE),
        13 => Err(ASI_ERROR::BUFFER_TOO_SMALL),
        14 => Err(ASI_ERROR::VIDEO_MODE_ACTIVE),
        15 => Err(ASI_ERROR::EXPOSURE_IN_PROGRESS),
        16 => Err(ASI_ERROR::GENERAL_ERROR),
        17 => Err(ASI_ERROR::INVALID_MODE),
        18 => Err(ASI_ERROR::GPS_NOT_SUPPORTED),
        19 => Err(ASI_ERROR::GPS_VER_ERR),
        20 => Err(ASI_ERROR::GPS_FPGA_ERR),
        21 => Err(ASI_ERROR::GPS_PARAM_OUT_OF_RANGE),
        22 => Err(ASI_ERROR::GPS_DATA_INVALID),
        _ => Err(ASI_ERROR::UNKNOWN),
    }
}

/// The pixel layouts the sensor can stream.
#[derive(Clone, Copy, Debug, PartialEq, Eq, Structural)]
#[allow(non_camel_case_types)]
pub enum IMG_TYPE {
    RAW8,
    RGB24,
    RAW16,
    Y8,
}

impl IMG_TYPE {
    /// How many bytes one pixel occupies in this layout.
    pub open spec fn spec_bytes_per_pixel(self) -> i32 {
        match self {
            IMG_TYPE::RAW8 => 1,
            IMG_TYPE::RGB24 => 3,
            IMG_TYPE::RAW16 => 2,
            IMG_TYPE::Y8 => 1,
        }
    }

    pub fn bytes_per_pixel(&self) -> (r: i32)
        ensures
            r == self.spec_bytes_per_pixel(),
    {
        match self {
            IMG_TYPE::RAW8 => 1,
            IMG_TYPE::RGB24 => 3,
            IMG_TYPE::RAW16 => 2,
            IMG_TYPE::Y8 => 1,
        }
    }
}

/// The sensor controls the core reads or writes.
#[derive(Clone, Copy, Debug, PartialEq, Eq, Structural)]
#[allow(non_camel_case_types)]
pub enum CONTROL_TYPE {
    GAIN,
    EXPOSURE,
    GAMMA,
    WB_R,
    WB_B,
    OFFSET,
    BANDWIDTHOVERLOAD,
    OVERCLOCK,
    TEMPERATURE,
    FLIP,
    AUTO_MAX_GAIN,
    AUTO_MAX_EXP,
    AUTO_TARGET_BRIGHTNESS,
    HARDWARE_BIN,
    HIGH_SPEED_MODE,
    COOLER_POWER_PERC,
    TARGET_TEMP,
    COOLER_ON,
    MONO_BIN,
    FAN_ON,
    PATTERN_ADJUST,
    ANTI_DEW_HEATER,
    FAN_ADJUST,
    PWRLED_BRIGNT,
    USBHUB_RESET,
    GPS_SUPPORT,
    GPS_START_LINE,
    GPS_END_LINE,
    ROLLING_INTERVAL,
}

/// The phases of a single-shot exposure as reported by the sensor.
#[derive(Clone, Copy, Debug, PartialEq, Eq, Structural)]
#[allow(non_camel_case_types)]
pub enum EXPOSURE_STATUS {
    EXP_IDLE,
    EXP_WORKING,
    EXP_SUCCESS,
    EXP_FAILED,
}

/// The meaning of each numeric exposure status code.
pub open spec fn spec_exposure_status_of_code(code: u32) -> Result<EXPOSURE_STATUS, ASI_ERROR> {
    if code == 0 {
        Ok(EXPOSURE_STATUS::EXP_IDLE)
    } else if code == 1 {
        Ok(EXPOSURE_STATUS::EXP_WORKING)
    } else if code == 2 {
        Ok(EXPOSURE_STATUS::EXP_SUCCESS)
    } else if code == 3 {
        Ok(EXPOSURE_STATUS::EXP_FAILED)
    } else {
        Err(ASI_ERROR::UNKNOWN)
    }
}

/// Decodes the raw exposure status word delivered by the sensor.
pub fn exposure_status_of_code(code: u32) -> (r: Result<EXPOSURE_STATUS, ASI_ERROR>)
    ensures
        r == spec_exposure_status_of_code(code),
{
    match code {
        0 => Ok(EXPOSURE_STATUS::EXP_IDLE),
        1 => Ok(EXPOSURE_STATUS::EXP_WORKING),
        2 => Ok(EXPOSURE_STATUS::EXP_SUCCESS),
        3 => Ok(EXPOSURE_STATUS::EXP_FAILED),
        _ => Err(ASI_ERROR::UNKNOWN),
    }
}

/// What a single-shot exposure should do next, given the reported status:
/// keep polling while the exposure runs, download the data on success,
/// and give up otherwise.
#[derive(Clone, Copy, Debug, PartialEq, Eq, Structural)]
pub enum ExposureStep {
    Wait,
    Download,
    Fail,
}

impl ExposureStep {
    pub open spec fn spec_of_status(status: EXPOSURE_STATUS) -> ExposureStep {
        match status {
            EXPOSURE_STATUS::EXP_WORKING => ExposureStep::Wait,
            EXPOSURE_STATUS::EXP_SUCCESS => ExposureStep::Download,
            _ => ExposureStep::Fail,
        }
    }

    /// One decision of the single-shot exposure poll loop.
    pub fn of_status(status: EXPOSURE_STATUS) -> (r: ExposureStep)
        ensures
            r == ExposureStep::spec_of_status(status),
    {
        match status {
            EXPOSURE_STATUS::EXP_WORKING => ExposureStep::Wait,
            EXPOSURE_STATUS::EXP_SUCCESS => ExposureStep::Download,
            _ => ExposureStep::Fail,
        }
    }
}

/// The streaming region-of-interest the sensor was configured with.
#[derive(Clone, Copy, Debug, PartialEq, Eq, Structural)]
pub struct ROIFormat {
    pub width: i32,
    pub height: i32,
    pub bin: i32,
    pub img_type: IMG_TYPE,
}

impl ROIFormat {
    /// The byte length of one full frame under this configuration.
    pub open spec fn spec_buffer_len(self) -> int {
        self.width * self.height * self.img_type.spec_bytes_per_pixel()
    }

    /// Computes the frame buffer size the acquisition loop must preallocate.
    pub fn buffer_len(&self) -> (r: usize)
        requires
            0 <= self.width,
            0 <= self.height,
            self.spec_buffer_len() <= usize::MAX,
        ensures
            r == self.spec_buffer_len(),
    {
        let bpp = self.img_type.bytes_per_pixel();
        proof {
            assert(self.width * self.height <= self.width * self.height * bpp) by (nonlinear_arith)
                requires
                    0 <= self.width,
                    0 <= self.height,
                    1 <= bpp,
            ;
        }
        (self.width as usize) * (self.height as usize) * (bpp as usize)
    }
}

} // verus!
