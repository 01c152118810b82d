//! Decoders that deliver their pictures in main memory.
pub mod candidates;
pub mod decode;
pub mod frame;
pub mod laws;
pub mod probe;

use crate::common::DataFormat;
use crate::ffmpeg::AVHWDeviceType;
use vstd::prelude::*;

verus! {

/// How many data pointers and line sizes FFmpeg keeps for a picture.
pub const AV_NUM_DATA_POINTERS: usize = 8;

/// How much a decoder is to be preferred; the lower number comes first.
#[derive(Clone, Copy, Debug, PartialEq, Eq, Structural)]
pub enum Priority {
    Best,
    Good,
    Normal,
    Soft,
    Bad,
}

impl Priority {
    /// The number of the priority.
    pub open spec fn spec_value(self) -> i32 {
        match self {
            Priority::Best => 0,
            Priority::Good => 1,
            Priority::Normal => 2,
            Priority::Soft => 3,
            Priority::Bad => 4,
        }
    }

    /// The number of the priority.
    pub fn value(self) -> (res: i32)
        ensures
            res == self.spec_value(),
    {
        match self {
            Priority::Best => 0,
            Priority::Good => 1,
            Priority::Normal => 2,
            Priority::Soft => 3,
            Priority::Bad => 4,
        }
    }
}

/// A decoder that can be asked for: FFmpeg's name for it, the format it takes
/// and the device it runs on.
#[derive(Debug)]
pub struct CodecInfo {
    pub name: String,
    pub mc_name: Option<String>,
    pub format: DataFormat,
    pub priority: i32,
    pub hwdevice: AVHWDeviceType,
}

/// A [`CodecInfo`] with its strings as sequences of characters.
pub struct CodecView {
    pub name: Seq<char>,
    pub mc_name: Option<Seq<char>>,
    pub format: DataFormat,
    pub priority: i32,
    pub hwdevice: AVHWDeviceType,
}

impl View for CodecInfo {
    type V = CodecView;

    open spec fn view(&self) -> CodecView {
        CodecView {
            name: self.name@,
            mc_name: match self.mc_name {
                Some(name) => Some(name@),
                None => None,
            },
            format: self.format,
            priority: self.priority,
            hwdevice: self.hwdevice,
        }
    }
}

impl Default for CodecInfo {
    fn default() -> (res: Self)
        ensures
            res@ == (CodecView {
                name: Seq::empty(),
                mc_name: None,
                format: DataFormat::VP8,
                priority: 0,
                hwdevice: AVHWDeviceType::AV_HWDEVICE_TYPE_NONE,
            }),
    {
        CodecInfo {
            name: String::new(),
            mc_name: None,
            format: DataFormat::VP8,
            priority: 0,
            hwdevice: AVHWDeviceType::AV_HWDEVICE_TYPE_NONE,
        }
    }
}

impl Clone for CodecInfo {
    fn clone(&self) -> (res: Self)
        ensures
            res@ == self@,
    {
        CodecInfo {
            name: self.name.clone(),
            mc_name: match &self.mc_name {
                Some(name) => Some(name.clone()),
                None => None,
            },
            format: self.format,
            priority: self.priority,
            hwdevice: self.hwdevice,
        }
    }
}

/// The decoders of a list, each by its view.
pub open spec fn codec_views(codecs: Seq<CodecInfo>) -> Seq<CodecView> {
    codecs.map_values(|codec: CodecInfo| codec@)
}

impl CodecView {
    /// A decoder without a MediaCodec name.
    pub open spec fn entry(
        name: Seq<char>,
        format: DataFormat,
        hwdevice: AVHWDeviceType,
        priority: Priority,
    ) -> CodecView {
        CodecView { name, mc_name: None, format, priority: priority.spec_value(), hwdevice }
    }
}

/// At most one decoder for each format.
#[derive(Debug)]
pub struct CodecInfos {
    pub h264: Option<CodecInfo>,
    pub h265: Option<CodecInfo>,
    pub vp8: Option<CodecInfo>,
    pub vp9: Option<CodecInfo>,
    pub av1: Option<CodecInfo>,
}

impl CodecInfo {
    /// A decoder without a MediaCodec name.
    pub fn entry(
        name: &str,
        format: DataFormat,
        hwdevice: AVHWDeviceType,
        priority: Priority,
    ) -> (res: CodecInfo)
        ensures
            res@ == CodecView::entry(name@, format, hwdevice, priority),
    {
        CodecInfo {
            name: name.to_owned(),
            format,
            hwdevice,
            priority: priority.value(),
            ..Default::default()
        }
    }

    /// FFmpeg's own decoders, which need no device: one for H.264, one for H.265.
    pub fn soft() -> (res: CodecInfos)
        ensures
            res.h264 matches Some(codec) && codec@ == CodecView::entry(
                "h264"@,
                DataFormat::H264,
                AVHWDeviceType::AV_HWDEVICE_TYPE_NONE,
                Priority::Soft,
            ),
            res.h265 matches Some(codec) && codec@ == CodecView::entry(
                "hevc"@,
                DataFormat::H265,
                AVHWDeviceType::AV_HWDEVICE_TYPE_NONE,
                Priority::Soft,
            ),
            res.vp8 is None,
            res.vp9 is None,
            res.av1 is None,
    {
        CodecInfos {
            h264: Some(
                CodecInfo::entry(
                    "h264",
                    DataFormat::H264,
                    AVHWDeviceType::AV_HWDEVICE_TYPE_NONE,
                    Priority::Soft,
                ),
            ),
            h265: Some(
                CodecInfo::entry(
                    "hevc",
                    DataFormat::H265,
                    AVHWDeviceType::AV_HWDEVICE_TYPE_NONE,
                    Priority::Soft,
                ),
            ),
            vp8: None,
            vp9: None,
            av1: None,
        }
    }
}

} // verus!
