//! Laws of the decoders that are looked for.
use crate::common::{DataFormat, Platform};
use crate::ffmpeg::AVHWDeviceType;
use crate::ffmpeg_ram;
use crate::ffmpeg_ram::candidates;
use crate::ffmpeg_ram::decode::Decoder;
use crate::ffmpeg_ram::{CodecInfo, CodecInfos, Priority};
use vstd::prelude::*;

verus! {

/// The two have the same name, format, priority and device.
pub open spec fn same_codec(a: CodecInfo, b: CodecInfo) -> bool {
    &&& a.name@ == b.name@
    &&& a.mc_name is Some <==> b.mc_name is Some
    &&& a.mc_name is Some ==> a.mc_name->0@ == b.mc_name->0@
    &&& a.format == b.format
    &&& a.priority == b.priority
    &&& a.hwdevice == b.hwdevice
}

/// A list of views agrees with the list of decoders in every field.
pub proof fn law_codec_views(a: Seq<CodecInfo>, b: Seq<CodecInfo>)
    ensures
        ffmpeg_ram::codec_views(a).len() == a.len(),
        forall|i: int|
            0 <= i < a.len() ==> {
                let view = #[trigger] ffmpeg_ram::codec_views(a)[i];
                &&& view.name == a[i].name@
                &&& view.mc_name is Some <==> a[i].mc_name is Some
                &&& view.mc_name is Some ==> view.mc_name->0 == a[i].mc_name->0@
                &&& view.format == a[i].format
                &&& view.priority == a[i].priority
                &&& view.hwdevice == a[i].hwdevice
            },
        ffmpeg_ram::codec_views(a) == ffmpeg_ram::codec_views(b) <==> {
            &&& a.len() == b.len()
            &&& forall|i: int| 0 <= i < a.len() ==> same_codec(#[trigger] a[i], b[i])
        },
{
    let left = ffmpeg_ram::codec_views(a);
    let right = ffmpeg_ram::codec_views(b);
    if left == right {
        assert(left.len() == right.len());
        assert forall|i: int| 0 <= i < a.len() implies same_codec(#[trigger] a[i], b[i]) by {
            assert(left[i] == right[i]);
            assert(left[i] == a[i]@);
            assert(right[i] == b[i]@);
        }
    }
    if a.len() == b.len() && forall|i: int|
        0 <= i < a.len() ==> same_codec(#[trigger] a[i], b[i]) {
        assert forall|i: int| 0 <= i < a.len() implies left[i] == right[i] by {
            assert(same_codec(a[i], b[i]));
        }
        assert(left =~= right);
    }
}

/// A new entry has what it is made of, the number of its priority, and no MediaCodec
/// name.
pub proof fn law_entry(
    name: &str,
    format: DataFormat,
    hwdevice: AVHWDeviceType,
    priority: Priority,
    res: CodecInfo,
)
    requires
        call_ensures(CodecInfo::entry, (name, format, hwdevice, priority), res),
    ensures
        res.name@ == name@,
        res.mc_name is None,
        res.format == format,
        res.hwdevice == hwdevice,
        res.priority == 0 <==> priority == Priority::Best,
        res.priority == 1 <==> priority == Priority::Good,
        res.priority == 2 <==> priority == Priority::Normal,
        res.priority == 3 <==> priority == Priority::Soft,
        res.priority == 4 <==> priority == Priority::Bad,
{
    match res.mc_name {
        Some(_) => {},
        None => {},
    }
}

/// The entry that nothing was said of: no name, VP8, the best priority, no device.
pub proof fn law_default(res: CodecInfo)
    requires
        call_ensures(CodecInfo::default, (), res),
    ensures
        res.name@.len() == 0,
        res.mc_name is None,
        res.format == DataFormat::VP8,
        res.priority == 0,
        res.hwdevice == AVHWDeviceType::AV_HWDEVICE_TYPE_NONE,
{
    match res.mc_name {
        Some(_) => {},
        None => {},
    }
}

/// A copy of an entry is that entry.
pub proof fn law_clone(codec: CodecInfo, res: CodecInfo)
    requires
        call_ensures(CodecInfo::clone, (&codec,), res),
    ensures
        same_codec(codec, res),
{
    assert(codec@ == res@);
}

/// The entry is FFmpeg's own decoder for the format.
pub open spec fn is_software(codec: CodecInfo) -> bool {
    &&& codec.hwdevice == AVHWDeviceType::AV_HWDEVICE_TYPE_NONE
    &&& codec.priority == 3
    &&& codec.mc_name is None
    &&& codec.format == DataFormat::H264 || codec.format == DataFormat::H265
    &&& codec.format == DataFormat::H264 ==> codec.name@ == "h264"@
    &&& codec.format == DataFormat::H265 ==> codec.name@ == "hevc"@
}

/// There are software decoders for H.264 and H.265, and for nothing else.
pub proof fn law_soft(res: CodecInfos)
    requires
        call_ensures(CodecInfo::soft, (), res),
    ensures
        res.h264 matches Some(codec) && is_software(codec) && codec.format == DataFormat::H264,
        res.h265 matches Some(codec) && is_software(codec) && codec.format == DataFormat::H265,
        res.vp8 is None,
        res.vp9 is None,
        res.av1 is None,
{
    match res.h264->0.mc_name {
        Some(_) => {},
        None => {},
    }
    match res.h265->0.mc_name {
        Some(_) => {},
        None => {},
    }
}

/// The software decoders to look for are the one for H.264, then the one for H.265.
pub proof fn law_software_candidates(res: Vec<CodecInfo>)
    requires
        call_ensures(Decoder::software_candidates, (), res),
    ensures
        res@.len() == 2,
        is_software(res@[0]),
        is_software(res@[1]),
        res@[0].format == DataFormat::H264,
        res@[1].format == DataFormat::H265,
{
    lemma_software_candidates(res@);
}

/// What the entries are that the software candidates are the views of.
pub(crate) proof fn lemma_software_candidates(codecs: Seq<CodecInfo>)
    requires
        ffmpeg_ram::codec_views(codecs) == candidates::software_candidates(),
    ensures
        codecs.len() == 2,
        is_software(codecs[0]),
        is_software(codecs[1]),
        codecs[0].format == DataFormat::H264,
        codecs[1].format == DataFormat::H265,
{
    let views = ffmpeg_ram::codec_views(codecs);
    assert(views.len() == codecs.len());
    assert(views[0] == codecs[0]@);
    assert(views[1] == codecs[1]@);
    match codecs[0].mc_name {
        Some(_) => {},
        None => {},
    }
    match codecs[1].mc_name {
        Some(_) => {},
        None => {},
    }
}

/// The format is one of those that decoders on hardware are looked for in.
pub open spec fn is_hardware_format(format: DataFormat) -> bool {
    format == DataFormat::H264 || format == DataFormat::H265 || format == DataFormat::AV1
}

/// The list has an entry for the format on the device.
pub open spec fn lists(codecs: Seq<CodecInfo>, device: AVHWDeviceType, format: DataFormat) -> bool {
    exists|i: int|
        0 <= i < codecs.len() && (#[trigger] codecs[i]).hwdevice == device && codecs[i].format
            == format
}

/// Where a device comes in a list of candidates: D3D11VA and VideoToolbox first, CUDA
/// next, VAAPI behind it, and what needs no device last.
pub open spec fn device_rank(device: AVHWDeviceType) -> int {
    match device {
        AVHWDeviceType::AV_HWDEVICE_TYPE_D3D11VA => 0,
        AVHWDeviceType::AV_HWDEVICE_TYPE_VIDEOTOOLBOX => 0,
        AVHWDeviceType::AV_HWDEVICE_TYPE_CUDA => 1,
        AVHWDeviceType::AV_HWDEVICE_TYPE_VAAPI => 2,
        AVHWDeviceType::AV_HWDEVICE_TYPE_NONE => 3,
    }
}

/// Where a format comes among the candidates on one device: H.264, H.265, AV1.
pub open spec fn format_rank(format: DataFormat) -> int {
    match format {
        DataFormat::H264 => 0,
        DataFormat::H265 => 1,
        DataFormat::AV1 => 2,
        _ => 3,
    }
}

/// Which devices a machine's candidates are on, and with what priority: on macOS and
/// iOS every candidate on hardware is on VideoToolbox, with the best priority; on
/// Linux each is on CUDA, given an NVIDIA GPU, or on VAAPI, with a good one; on
/// Windows each is on D3D11VA, with the best, or on CUDA, with a good one; elsewhere
/// there is none. What is on no device is a software decoder, on every machine.
pub proof fn law_candidate_devices(platform: Platform, res: Vec<CodecInfo>, i: int)
    requires
        call_ensures(Decoder::candidates, (platform,), res),
        0 <= i < res@.len(),
    ensures
        res@[i].mc_name is None,
        res@[i].hwdevice == AVHWDeviceType::AV_HWDEVICE_TYPE_NONE ==> is_software(res@[i]),
        res@[i].hwdevice != AVHWDeviceType::AV_HWDEVICE_TYPE_NONE ==> match platform {
            Platform::Macos { h264, h265 } => {
                &&& res@[i].hwdevice == AVHWDeviceType::AV_HWDEVICE_TYPE_VIDEOTOOLBOX
                &&& res@[i].priority == 0
                &&& res@[i].format == DataFormat::H264 ==> h264
                &&& res@[i].format == DataFormat::H265 ==> h265
            },
            Platform::Ios => {
                &&& res@[i].hwdevice == AVHWDeviceType::AV_HWDEVICE_TYPE_VIDEOTOOLBOX
                &&& res@[i].priority == 0
            },
            Platform::Linux { nv } => {
                &&& res@[i].priority == 1
                &&& {
                    ||| res@[i].hwdevice == AVHWDeviceType::AV_HWDEVICE_TYPE_VAAPI
                    ||| res@[i].hwdevice == AVHWDeviceType::AV_HWDEVICE_TYPE_CUDA && nv
                }
            },
            Platform::Windows => {
                ||| res@[i].hwdevice == AVHWDeviceType::AV_HWDEVICE_TYPE_D3D11VA && res@[i].priority
                    == 0
                ||| res@[i].hwdevice == AVHWDeviceType::AV_HWDEVICE_TYPE_CUDA && res@[i].priority
                    == 1
            },
            Platform::Other => false,
        },
{
    let views = ffmpeg_ram::codec_views(res@);
    assert(views.len() == res@.len());
    assert(views[i] == res@[i]@);
    match res@[i].mc_name {
        Some(_) => {},
        None => {},
    }
}

/// What each candidate is called: FFmpeg's name of the decoder for the format, and on
/// Windows with CUDA that of the dedicated CUVID decoder.
pub proof fn law_candidate_names(platform: Platform, res: Vec<CodecInfo>, i: int)
    requires
        call_ensures(Decoder::candidates, (platform,), res),
        0 <= i < res@.len(),
    ensures
        is_hardware_format(res@[i].format),
        ({
            let cuvid = platform is Windows && res@[i].hwdevice
                == AVHWDeviceType::AV_HWDEVICE_TYPE_CUDA;
            &&& res@[i].format == DataFormat::H264 ==> res@[i].name@ == (if cuvid {
                "h264_cuvid"@
            } else {
                "h264"@
            })
            &&& res@[i].format == DataFormat::H265 ==> res@[i].name@ == (if cuvid {
                "hevc_cuvid"@
            } else {
                "hevc"@
            })
            &&& res@[i].format == DataFormat::AV1 ==> res@[i].name@ == (if cuvid {
                "av1_cuvid"@
            } else {
                "av1"@
            })
        }),
{
    let views = ffmpeg_ram::codec_views(res@);
    assert(views.len() == res@.len());
    assert(views[i] == res@[i]@);
}

/// The candidates stand in the order of their devices, and on one device in the order
/// of their formats; no two are for one format on one device.
pub proof fn law_candidate_order(platform: Platform, res: Vec<CodecInfo>, i: int, j: int)
    requires
        call_ensures(Decoder::candidates, (platform,), res),
        0 <= i < j < res@.len(),
    ensures
        ({
            ||| device_rank(res@[i].hwdevice) < device_rank(res@[j].hwdevice)
            ||| res@[i].hwdevice == res@[j].hwdevice && format_rank(res@[i].format)
                < format_rank(res@[j].format)
        }),
{
    let views = ffmpeg_ram::codec_views(res@);
    assert(views.len() == res@.len());
    assert(views[i] == res@[i]@);
    assert(views[j] == res@[j]@);
}

/// Which pairs of device and format are looked for: H.264, H.265 and AV1 on each
/// device that there may be on the machine, but H.264 and H.265 on macOS only where
/// VideoToolbox says that it takes them; and H.264 and H.265 in software.
pub proof fn law_candidate_pairs(platform: Platform, res: Vec<CodecInfo>, format: DataFormat)
    requires
        call_ensures(Decoder::candidates, (platform,), res),
    ensures
        lists(res@, AVHWDeviceType::AV_HWDEVICE_TYPE_NONE, format) <==> format == DataFormat::H264
            || format == DataFormat::H265,
        lists(res@, AVHWDeviceType::AV_HWDEVICE_TYPE_CUDA, format) <==> is_hardware_format(format)
            && (platform is Windows || platform == Platform::Linux { nv: true }),
        lists(res@, AVHWDeviceType::AV_HWDEVICE_TYPE_VAAPI, format) <==> is_hardware_format(format)
            && platform is Linux,
        lists(res@, AVHWDeviceType::AV_HWDEVICE_TYPE_D3D11VA, format) <==> is_hardware_format(
            format,
        ) && platform is Windows,
        lists(res@, AVHWDeviceType::AV_HWDEVICE_TYPE_VIDEOTOOLBOX, format) <==> match platform {
            Platform::Ios => is_hardware_format(format),
            Platform::Macos { h264, h265 } => {
                ||| format == DataFormat::AV1
                ||| format == DataFormat::H264 && h264
                ||| format == DataFormat::H265 && h265
            },
            _ => false,
        },
{
    lemma_candidate_pairs(platform, res@, format);
}

proof fn lemma_candidate_pairs(platform: Platform, codecs: Seq<CodecInfo>, format: DataFormat)
    requires
        ffmpeg_ram::codec_views(codecs) == candidates::candidates(platform),
    ensures
        lists(codecs, AVHWDeviceType::AV_HWDEVICE_TYPE_NONE, format) <==> format == DataFormat::H264
            || format == DataFormat::H265,
        lists(codecs, AVHWDeviceType::AV_HWDEVICE_TYPE_CUDA, format) <==> is_hardware_format(format)
            && (platform is Windows || platform == Platform::Linux { nv: true }),
        lists(codecs, AVHWDeviceType::AV_HWDEVICE_TYPE_VAAPI, format) <==> is_hardware_format(
            format,
        ) && platform is Linux,
        lists(codecs, AVHWDeviceType::AV_HWDEVICE_TYPE_D3D11VA, format) <==> is_hardware_format(
            format,
        ) && platform is Windows,
        lists(codecs, AVHWDeviceType::AV_HWDEVICE_TYPE_VIDEOTOOLBOX, format) <==> match platform {
            Platform::Ios => is_hardware_format(format),
            Platform::Macos { h264, h265 } => {
                ||| format == DataFormat::AV1
                ||| format == DataFormat::H264 && h264
                ||| format == DataFormat::H265 && h265
            },
            _ => false,
        },
{
    let views = ffmpeg_ram::codec_views(codecs);
    assert(views.len() == codecs.len());
    assert forall|i: int| 0 <= i < codecs.len() implies (#[trigger] codecs[i])@ == views[i] by {}
    let n = codecs.len();
    assert(codecs[n - 2]@ == views[n - 2]);
    assert(codecs[n - 1]@ == views[n - 1]);
    if n > 2 {
        assert(codecs[0]@ == views[0]);
    }
    if n > 3 {
        assert(codecs[1]@ == views[1]);
    }
    if n > 4 {
        assert(codecs[2]@ == views[2]);
    }
    if n > 5 {
        assert(codecs[3]@ == views[3]);
        assert(codecs[4]@ == views[4]);
        assert(codecs[5]@ == views[5]);
    }
}

/// The list of candidates is made of nothing but the machine: two lists for the same
/// machine agree in every field.
pub proof fn law_candidates_are_fixed(platform: Platform, a: Vec<CodecInfo>, b: Vec<CodecInfo>)
    requires
        call_ensures(Decoder::candidates, (platform,), a),
        call_ensures(Decoder::candidates, (platform,), b),
    ensures
        a@.len() == b@.len(),
        forall|i: int| 0 <= i < a@.len() ==> same_codec(#[trigger] a@[i], b@[i]),
{
    law_codec_views(a@, b@);
}

} // verus!
