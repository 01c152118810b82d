//! FFmpeg's own numbering of devices and pixel formats.
#![allow(non_camel_case_types)]
use vstd::prelude::*;

verus! {

/// A kind of hardware device that FFmpeg can decode on.
#[derive(Clone, Copy, Debug, PartialEq, Eq, Structural)]
pub enum AVHWDeviceType {
    AV_HWDEVICE_TYPE_NONE,
    AV_HWDEVICE_TYPE_CUDA,
    AV_HWDEVICE_TYPE_VAAPI,
    AV_HWDEVICE_TYPE_VIDEOTOOLBOX,
    AV_HWDEVICE_TYPE_D3D11VA,
}

impl AVHWDeviceType {
    /// FFmpeg's number of the device type.
    pub open spec fn spec_code(self) -> i32 {
        match self {
            AVHWDeviceType::AV_HWDEVICE_TYPE_NONE => 0,
            AVHWDeviceType::AV_HWDEVICE_TYPE_CUDA => 2,
            AVHWDeviceType::AV_HWDEVICE_TYPE_VAAPI => 3,
            AVHWDeviceType::AV_HWDEVICE_TYPE_VIDEOTOOLBOX => 6,
            AVHWDeviceType::AV_HWDEVICE_TYPE_D3D11VA => 7,
        }
    }

    /// FFmpeg's number of the device type.
    pub fn code(self) -> (res: i32)
        ensures
            res == self.spec_code(),
    {
        match self {
            AVHWDeviceType::AV_HWDEVICE_TYPE_NONE => 0,
            AVHWDeviceType::AV_HWDEVICE_TYPE_CUDA => 2,
            AVHWDeviceType::AV_HWDEVICE_TYPE_VAAPI => 3,
            AVHWDeviceType::AV_HWDEVICE_TYPE_VIDEOTOOLBOX => 6,
            AVHWDeviceType::AV_HWDEVICE_TYPE_D3D11VA => 7,
        }
    }
}

/// A pixel format in which decoded pictures are taken over.
#[derive(Clone, Copy, Debug, PartialEq, Eq, Structural)]
pub enum AVPixelFormat {
    /// Three planes: luma, and two chroma planes of half the height.
    AV_PIX_FMT_YUV420P,
    /// Two planes: luma, and interleaved chroma of half the height.
    AV_PIX_FMT_NV12,
}

impl AVPixelFormat {
    /// FFmpeg's number of the pixel format.
    pub open spec fn spec_code(self) -> i32 {
        match self {
            AVPixelFormat::AV_PIX_FMT_YUV420P => 0,
            AVPixelFormat::AV_PIX_FMT_NV12 => 23,
        }
    }

    /// FFmpeg's number of the pixel format.
    pub fn code(self) -> (res: i32)
        ensures
            res == self.spec_code(),
    {
        match self {
            AVPixelFormat::AV_PIX_FMT_YUV420P => 0,
            AVPixelFormat::AV_PIX_FMT_NV12 => 23,
        }
    }

    /// The format that has the number `code`, if it is one of these.
    pub open spec fn spec_from_code(code: i32) -> Option<AVPixelFormat> {
        if code == 0 {
            Some(AVPixelFormat::AV_PIX_FMT_YUV420P)
        } else if code == 23 {
            Some(AVPixelFormat::AV_PIX_FMT_NV12)
        } else {
            None
        }
    }

    /// The format that has the number `code`; `None` for any other number.
    pub fn from_code(code: i32) -> (res: Option<AVPixelFormat>)
        ensures
            res == Self::spec_from_code(code),
    {
        if code == AVPixelFormat::AV_PIX_FMT_YUV420P.code() {
            Some(AVPixelFormat::AV_PIX_FMT_YUV420P)
        } else if code == AVPixelFormat::AV_PIX_FMT_NV12.code() {
            Some(AVPixelFormat::AV_PIX_FMT_NV12)
        } else {
            None
        }
    }

    /// How many planes a picture in this format has.
    pub open spec fn plane_count(self) -> nat {
        match self {
            AVPixelFormat::AV_PIX_FMT_YUV420P => 3,
            AVPixelFormat::AV_PIX_FMT_NV12 => 2,
        }
    }
}

/// The number of a pixel format names that format, and no other number does.
pub proof fn law_pixel_format_codes(format: AVPixelFormat, code: i32)
    ensures
        AVPixelFormat::spec_from_code(code) == Some(format) <==> code == format.spec_code(),
{
}

} // verus!
