//! Capture core for a single continuously streaming imaging sensor.
//!
//! The library holds the verified heart of the controller: the capture
//! state machine, the frame hand-off slot between the acquisition loop and
//! the control loop, command decoding, histogram computation and the
//! packets sent to viewers. Device I/O, the wire transport and file
//! persistence are left to an unverified adapter, which drives the core
//! through plain values.
use vstd::prelude::*;

pub mod asi;
pub mod camera_controller;
pub mod command;
pub mod frame_slot;
pub mod histogram;
pub mod plot;

use crate::asi::ASI_ERROR;

verus! {

/// Static description of one connected sensor, as the enumeration call
/// reports it. Only the fields the core reads are modelled; the name is
/// kept as the raw bytes the SDK delivers.
#[derive(Clone, Debug)]
#[allow(non_camel_case_types)]
pub struct _ASI_CAMERA_INFO {
    pub Name: Vec<u8>,
    pub CameraID: i32,
    pub MaxHeight: i64,
    pub MaxWidth: i64,
    pub IsColorCam: i32,
    pub BayerPattern: i32,
    pub SupportedBins: Vec<i32>,
    pub SupportedVideoFormat: Vec<i32>,
    pub MechanicalShutter: i32,
    pub ST4Port: i32,
    pub IsCoolerCam: i32,
    pub IsUSB3Host: i32,
    pub IsUSB3Camera: i32,
    pub BitDepth: i32,
    pub IsTriggerCam: i32,
}

#[allow(non_camel_case_types)]
pub type ASI_CAMERA_INFO = _ASI_CAMERA_INFO;

impl _ASI_CAMERA_INFO {
    /// A blank description: a zeroed 64-byte name and a colour camera with
    /// a default pattern, as used before the enumeration call fills it in.
    pub open spec fn is_blank(&self) -> bool {
        &&& self.Name@ == Seq::new(64, |i: int| 0u8)
        &&& self.CameraID == 0
        &&& self.MaxHeight == 0
        &&& self.MaxWidth == 0
        &&& self.IsColorCam == 1
        &&& self.BayerPattern == 1
        &&& self.SupportedBins@ == Seq::new(16, |i: int| 0i32)
        &&& self.SupportedVideoFormat@ == Seq::new(8, |i: int| 0i32)
        &&& self.MechanicalShutter == 0
        &&& self.ST4Port == 0
        &&& self.IsCoolerCam == 0
        &&& self.IsUSB3Host == 0
        &&& self.IsUSB3Camera == 0
        &&& self.BitDepth == 0
        &&& self.IsTriggerCam == 0
    }

    pub fn new() -> (r: Self)
        ensures
            r.is_blank(),
    {
        let name: Vec<u8> = vec![0u8; 64];
        let bins: Vec<i32> = vec![0i32; 16];
        let formats: Vec<i32> = vec![0i32; 8];
        proof {
            assert(name@ =~= Seq::new(64, |i: int| 0u8));
            assert(bins@ =~= Seq::new(16, |i: int| 0i32));
            assert(formats@ =~= Seq::new(8, |i: int| 0i32));
        }
        Self {
            Name: name,
            CameraID: 0,
            MaxHeight: 0,
            MaxWidth: 0,
            IsColorCam: 1,
            BayerPattern: 1,
            SupportedBins: bins,
            SupportedVideoFormat: formats,
            MechanicalShutter: 0,
            ST4Port: 0,
            IsCoolerCam: 0,
            IsUSB3Host: 0,
            IsUSB3Camera: 0,
            BitDepth: 0,
            IsTriggerCam: 0,
        }
    }
}

impl Default for _ASI_CAMERA_INFO {
    fn default() -> (r: Self)
        ensures
            r.is_blank(),
    {
        Self::new()
    }
}

/// One connected sensor, known by its static description.
pub struct Camera {
    info: _ASI_CAMERA_INFO,
}

impl Default for Camera {
    fn default() -> (r: Self)
        ensures
            r.spec_info().is_blank(),
    {
        Camera { info: _ASI_CAMERA_INFO::new() }
    }
}

impl Camera {
    pub closed spec fn spec_info(&self) -> _ASI_CAMERA_INFO {
        self.info
    }

    pub fn new(info: _ASI_CAMERA_INFO) -> (r: Self)
        ensures
            r.spec_info() == info,
    {
        Self { info }
    }

    /// Claims the sensor for use: the adapter performs the SDK open call
    /// with the same identifier before touching the device.
    pub fn open(&self) -> (r: Result<OpenCamera, ASI_ERROR>)
        ensures
            r matches Ok(c) && c.spec_id() == self.spec_info().CameraID,
    {
        Ok(OpenCamera { camera_id: self.info.CameraID })
    }

    /// The sensor's name, decoded from the raw bytes of its description.
    /// The bytes a camera reports are text; a description holding anything
    /// else is a defect of the enumeration path.
    pub fn get_name(&self) -> (r: String)
        requires
            vstd::utf8::valid_utf8(self.spec_info().Name@),
        ensures
            vstd::utf8::encode_utf8(r@) == self.spec_info().Name@,
    {
        string_from_utf8_bytes(&self.info.Name)
    }
}

/// Relies on String::from_utf8: on valid UTF-8 input it returns Ok with
/// the string those bytes encode.
#[verifier::external_body]
fn string_from_utf8_bytes(bytes: &Vec<u8>) -> (r: String)
    requires
        vstd::utf8::valid_utf8(bytes@),
    ensures
        vstd::utf8::encode_utf8(r@) == bytes@,
{
    String::from_utf8(bytes.clone()).unwrap()
}

/// A claimed sensor session. The core tracks only its identity; every SDK
/// call against it is the adapter's to make.
pub struct OpenCamera {
    camera_id: i32,
}

impl OpenCamera {
    pub closed spec fn spec_id(&self) -> i32 {
        self.camera_id
    }

    pub fn id(&self) -> (r: i32)
        ensures
            r == self.spec_id(),
    {
        self.camera_id
    }
}

} // verus!
