//! Laws of the numbers that FFmpeg and the lists of decoders go by.
use crate::ffmpeg::{AVHWDeviceType, AVPixelFormat};
use crate::ffmpeg_ram::Priority;
use vstd::prelude::*;

verus! {

/// Each device type has FFmpeg's number for it, and no two have the same.
pub proof fn law_device_numbers(device: AVHWDeviceType, code: i32)
    requires
        call_ensures(AVHWDeviceType::code, (device,), code),
    ensures
        code == 0 <==> device == AVHWDeviceType::AV_HWDEVICE_TYPE_NONE,
        code == 2 <==> device == AVHWDeviceType::AV_HWDEVICE_TYPE_CUDA,
        code == 3 <==> device == AVHWDeviceType::AV_HWDEVICE_TYPE_VAAPI,
        code == 6 <==> device == AVHWDeviceType::AV_HWDEVICE_TYPE_VIDEOTOOLBOX,
        code == 7 <==> device == AVHWDeviceType::AV_HWDEVICE_TYPE_D3D11VA,
{
}

/// Each pixel format has FFmpeg's number for it, and that number alone names it.
pub proof fn law_pixel_format_numbers(
    format: AVPixelFormat,
    code: i32,
    other: i32,
    named: Option<AVPixelFormat>,
)
    requires
        call_ensures(AVPixelFormat::code, (format,), code),
        call_ensures(AVPixelFormat::from_code, (other,), named),
    ensures
        code == 0 <==> format == AVPixelFormat::AV_PIX_FMT_YUV420P,
        code == 23 <==> format == AVPixelFormat::AV_PIX_FMT_NV12,
        named == Some(format) <==> other == code,
        named is None <==> other != 0 && other != 23,
{
}

/// The better the priority, the lower its number, from zero in steps of one.
pub proof fn law_priority_numbers(priority: Priority, value: i32)
    requires
        call_ensures(Priority::value, (priority,), value),
    ensures
        value == 0 <==> priority == Priority::Best,
        value == 1 <==> priority == Priority::Good,
        value == 2 <==> priority == Priority::Normal,
        value == 3 <==> priority == Priority::Soft,
        value == 4 <==> priority == Priority::Bad,
{
}

} // verus!
