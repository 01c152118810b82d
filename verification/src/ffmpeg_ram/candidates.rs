//! Which decoders to look for on which machine.
use crate::common::{DataFormat, Platform};
use crate::ffmpeg::AVHWDeviceType;
use crate::ffmpeg_ram;
use crate::ffmpeg_ram::decode::{DecodeContext, Decoder};
use crate::ffmpeg_ram::probe;
use crate::ffmpeg_ram::probe::{ProbeSample, ProbeTrial};
use crate::ffmpeg_ram::{CodecInfo, CodecInfos, CodecView, Priority};
use vstd::prelude::*;

verus! {

/// A decoder for each of H.264, H.265 and AV1 on one kind of device.
pub open spec fn trio(
    h264: Seq<char>,
    h265: Seq<char>,
    av1: Seq<char>,
    hwdevice: AVHWDeviceType,
    priority: Priority,
) -> Seq<CodecView> {
    seq![
        CodecView::entry(h264, DataFormat::H264, hwdevice, priority),
        CodecView::entry(h265, DataFormat::H265, hwdevice, priority),
        CodecView::entry(av1, DataFormat::AV1, hwdevice, priority),
    ]
}

/// The list, if the condition holds.
pub open spec fn only_if(condition: bool, codecs: Seq<CodecView>) -> Seq<CodecView> {
    if condition {
        codecs
    } else {
        Seq::empty()
    }
}

/// The decoders on hardware devices to look for.
pub open spec fn hardware_candidates(platform: Platform) -> Seq<CodecView> {
    match platform {
        Platform::Linux { nv } => {
            only_if(
                nv,
                trio(
                    "h264"@,
                    "hevc"@,
                    "av1"@,
                    AVHWDeviceType::AV_HWDEVICE_TYPE_CUDA,
                    Priority::Good,
                ),
            ) + trio(
                "h264"@,
                "hevc"@,
                "av1"@,
                AVHWDeviceType::AV_HWDEVICE_TYPE_VAAPI,
                Priority::Good,
            )
        },
        Platform::Windows => {
            trio(
                "h264"@,
                "hevc"@,
                "av1"@,
                AVHWDeviceType::AV_HWDEVICE_TYPE_D3D11VA,
                Priority::Best,
            ) + trio(
                "h264_cuvid"@,
                "hevc_cuvid"@,
                "av1_cuvid"@,
                AVHWDeviceType::AV_HWDEVICE_TYPE_CUDA,
                Priority::Good,
            )
        },
        Platform::Macos { h264, h265 } => {
            let all = trio(
                "h264"@,
                "hevc"@,
                "av1"@,
                AVHWDeviceType::AV_HWDEVICE_TYPE_VIDEOTOOLBOX,
                Priority::Best,
            );
            only_if(h264, seq![all[0]]) + only_if(h265, seq![all[1]]) + seq![all[2]]
        },
        Platform::Ios => trio(
            "h264"@,
            "hevc"@,
            "av1"@,
            AVHWDeviceType::AV_HWDEVICE_TYPE_VIDEOTOOLBOX,
            Priority::Best,
        ),
        Platform::Other => Seq::empty(),
    }
}

/// The decoders that need no device, the same on every machine.
pub open spec fn software_candidates() -> Seq<CodecView> {
    seq![
        CodecView::entry(
            "h264"@,
            DataFormat::H264,
            AVHWDeviceType::AV_HWDEVICE_TYPE_NONE,
            Priority::Soft,
        ),
        CodecView::entry(
            "hevc"@,
            DataFormat::H265,
            AVHWDeviceType::AV_HWDEVICE_TYPE_NONE,
            Priority::Soft,
        ),
    ]
}

/// All decoders to look for: those on hardware, then those in software.
pub open spec fn candidates(platform: Platform) -> Seq<CodecView> {
    hardware_candidates(platform) + software_candidates()
}

/// A list of software decoders was asked for: what was kept `before` is handed out
/// and stays; if nothing was kept, what is handed out is kept from now on.
pub open spec fn served(
    before: Option<Vec<CodecInfo>>,
    after: Option<Vec<CodecInfo>>,
    answer: Seq<CodecView>,
) -> bool {
    &&& before is Some ==> after == before
    &&& after matches Some(kept) && answer == ffmpeg_ram::codec_views(kept@)
}

/// Of any number of requests for the software decoders through one cache, only the
/// first can find the cache empty. The others find it filled, so that they open and
/// decode nothing, and all give the answer of the first.
pub proof fn law_software_is_tried_out_at_most_once(
    caches: Seq<Option<Vec<CodecInfo>>>,
    answers: Seq<Seq<CodecView>>,
    i: int,
)
    requires
        caches.len() == answers.len() + 1,
        forall|k: int|
            0 <= k < answers.len() ==> served(caches[k], caches[k + 1], #[trigger] answers[k]),
        0 < i < answers.len(),
    ensures
        caches[i] is Some,
        caches[i + 1] == caches[i],
        answers[i] == answers[0],
    decreases i,
{
    assert(served(caches[i - 1], caches[i], answers[i - 1]));
    assert(served(caches[i], caches[i + 1], answers[i]));
    if i > 1 {
        law_software_is_tried_out_at_most_once(caches, answers, i - 1);
    }
}

proof fn lemma_members(codecs: Seq<CodecInfo>)
    ensures
        forall|i: int|
            0 <= i < codecs.len() ==> ffmpeg_ram::codec_views(codecs).contains(
                (#[trigger] codecs[i])@,
            ),
{
    assert forall|i: int| 0 <= i < codecs.len() implies ffmpeg_ram::codec_views(codecs).contains(
        (#[trigger] codecs[i])@,
    ) by {
        assert(ffmpeg_ram::codec_views(codecs)[i] == codecs[i]@);
    }
}

fn push_entry(
    codecs: &mut Vec<CodecInfo>,
    name: &str,
    format: DataFormat,
    hwdevice: AVHWDeviceType,
    priority: Priority,
)
    ensures
        ffmpeg_ram::codec_views(final(codecs)@) == ffmpeg_ram::codec_views(
            old(codecs)@,
        ).push(CodecView::entry(name@, format, hwdevice, priority)),
{
    let ghost before = ffmpeg_ram::codec_views(codecs@);
    let codec: CodecInfo = CodecInfo::entry(name, format, hwdevice, priority);
    codecs.push(codec);
    assert(ffmpeg_ram::codec_views(codecs@) =~= before.push(codec@));
}

fn push_trio(
    codecs: &mut Vec<CodecInfo>,
    h264: &str,
    h265: &str,
    av1: &str,
    hwdevice: AVHWDeviceType,
    priority: Priority,
)
    ensures
        ffmpeg_ram::codec_views(final(codecs)@) == ffmpeg_ram::codec_views(
            old(codecs)@,
        ) + trio(h264@, h265@, av1@, hwdevice, priority),
{
    push_entry(codecs, h264, DataFormat::H264, hwdevice, priority);
    push_entry(codecs, h265, DataFormat::H265, hwdevice, priority);
    push_entry(codecs, av1, DataFormat::AV1, hwdevice, priority);
}

fn push_some(codecs: &mut Vec<CodecInfo>, codec: Option<CodecInfo>)
    ensures
        ffmpeg_ram::codec_views(final(codecs)@) == match codec {
            Some(codec) => ffmpeg_ram::codec_views(old(codecs)@).push(codec@),
            None => ffmpeg_ram::codec_views(old(codecs)@),
        },
{
    let ghost before = ffmpeg_ram::codec_views(codecs@);
    if let Some(codec) = codec {
        codecs.push(codec);
        assert(ffmpeg_ram::codec_views(codecs@) =~= before.push(codec@));
    }
}

impl Decoder {
    /// All decoders to look for: those on hardware, then those in software, which
    /// have to pass the same test.
    pub fn candidates(platform: Platform) -> (res: Vec<CodecInfo>)
        ensures
            ffmpeg_ram::codec_views(res@) == candidates(platform),
    {
        let mut codecs: Vec<CodecInfo> = Vec::new();
        assert(ffmpeg_ram::codec_views(codecs@) =~= Seq::empty());
        match platform {
            Platform::Linux { nv } => {
                // CUDA goes through FFmpeg's native decoders here.
                if nv {
                    push_trio(
                        &mut codecs,
                        "h264",
                        "hevc",
                        "av1",
                        AVHWDeviceType::AV_HWDEVICE_TYPE_CUDA,
                        Priority::Good,
                    );
                }
                push_trio(
                    &mut codecs,
                    "h264",
                    "hevc",
                    "av1",
                    AVHWDeviceType::AV_HWDEVICE_TYPE_VAAPI,
                    Priority::Good,
                );
            },
            Platform::Windows => {
                push_trio(
                    &mut codecs,
                    "h264",
                    "hevc",
                    "av1",
                    AVHWDeviceType::AV_HWDEVICE_TYPE_D3D11VA,
                    Priority::Best,
                );
                // The dedicated CUVID decoders are also there in builds of FFmpeg
                // that leave out the native decoders that D3D11VA needs.
                push_trio(
                    &mut codecs,
                    "h264_cuvid",
                    "hevc_cuvid",
                    "av1_cuvid",
                    AVHWDeviceType::AV_HWDEVICE_TYPE_CUDA,
                    Priority::Good,
                );
            },
            Platform::Macos { h264, h265 } => {
                if h264 {
                    push_entry(
                        &mut codecs,
                        "h264",
                        DataFormat::H264,
                        AVHWDeviceType::AV_HWDEVICE_TYPE_VIDEOTOOLBOX,
                        Priority::Best,
                    );
                }
                if h265 {
                    push_entry(
                        &mut codecs,
                        "hevc",
                        DataFormat::H265,
                        AVHWDeviceType::AV_HWDEVICE_TYPE_VIDEOTOOLBOX,
                        Priority::Best,
                    );
                }
                push_entry(
                    &mut codecs,
                    "av1",
                    DataFormat::AV1,
                    AVHWDeviceType::AV_HWDEVICE_TYPE_VIDEOTOOLBOX,
                    Priority::Best,
                );
            },
            Platform::Ios => {
                push_trio(
                    &mut codecs,
                    "h264",
                    "hevc",
                    "av1",
                    AVHWDeviceType::AV_HWDEVICE_TYPE_VIDEOTOOLBOX,
                    Priority::Best,
                );
            },
            Platform::Other => {},
        }
        assert(ffmpeg_ram::codec_views(codecs@) =~= hardware_candidates(platform));
        let soft: CodecInfos = CodecInfo::soft();
        push_some(&mut codecs, soft.h264);
        push_some(&mut codecs, soft.h265);
        codecs
    }

    /// The decoders that need no device.
    pub fn software_candidates() -> (res: Vec<CodecInfo>)
        ensures
            ffmpeg_ram::codec_views(res@) == software_candidates(),
    {
        let mut codecs: Vec<CodecInfo> = Vec::with_capacity(2);
        assert(ffmpeg_ram::codec_views(codecs@) =~= Seq::empty());
        let soft: CodecInfos = CodecInfo::soft();
        push_some(&mut codecs, soft.h264);
        push_some(&mut codecs, soft.h265);
        codecs
    }

    /// The decoders that work on this machine, out of all that there are to look
    /// for. `open` opens a decoder, `attempt` has it decode a sample.
    pub fn available_decoders<
        D,
        O: Fn(DecodeContext) -> Option<D>,
        T: Fn(D, ProbeSample) -> ProbeTrial,
    >(platform: Platform, open: O, attempt: T) -> (res: Vec<CodecInfo>)
        requires
            forall|codec: CodecInfo|
                candidates(platform).contains(codec@) ==> #[trigger] probe::can_try(
                    &open,
                    &attempt,
                    codec,
                ),
        ensures
            exists|codecs: Seq<CodecInfo>, verdicts: Seq<bool>|
                {
                    &&& ffmpeg_ram::codec_views(codecs) == candidates(platform)
                    &&& #[trigger] probe::tried_out(
                        &open,
                        &attempt,
                        codecs,
                        verdicts,
                    )
                    &&& ffmpeg_ram::codec_views(res@)
                        == probe::retained(candidates(platform), verdicts)
                },
    {
        let codecs: Vec<CodecInfo> = Self::candidates(platform);
        proof {
            lemma_members(codecs@);
        }
        Self::probe_decoders(codecs, open, attempt)
    }

    /// The software decoders that work with the FFmpeg that is loaded. They are
    /// tried out when they are first asked for; `cache` keeps what was found.
    pub fn available_software_decoders<
        D,
        O: Fn(DecodeContext) -> Option<D>,
        T: Fn(D, ProbeSample) -> ProbeTrial,
    >(cache: &mut Option<Vec<CodecInfo>>, open: O, attempt: T) -> (res: Vec<CodecInfo>)
        requires
            *old(cache) is None ==> forall|codec: CodecInfo|
                software_candidates().contains(codec@) ==> #[trigger] probe::can_try(
                    &open,
                    &attempt,
                    codec,
                ),
        ensures
            served(*old(cache), *final(cache), ffmpeg_ram::codec_views(res@)),
            *old(cache) is None ==> exists|codecs: Seq<CodecInfo>, verdicts: Seq<bool>|
                {
                    &&& ffmpeg_ram::codec_views(codecs) == software_candidates()
                    &&& #[trigger] probe::tried_out(
                        &open,
                        &attempt,
                        codecs,
                        verdicts,
                    )
                    &&& ffmpeg_ram::codec_views(res@)
                        == probe::retained(software_candidates(), verdicts)
                },
    {
        match cache {
            Some(kept) => Self::clone_list(kept),
            None => {
                let codecs: Vec<CodecInfo> = Self::software_candidates();
                proof {
                    lemma_members(codecs@);
                }
                let found: Vec<CodecInfo> = Self::probe_decoders(codecs, open, attempt);
                let res: Vec<CodecInfo> = Self::clone_list(&found);
                *cache = Some(found);
                res
            },
        }
    }

    fn clone_list(codecs: &Vec<CodecInfo>) -> (res: Vec<CodecInfo>)
        ensures
            ffmpeg_ram::codec_views(res@) == ffmpeg_ram::codec_views(codecs@),
    {
        let res: Vec<CodecInfo> = codecs.clone();
        assert forall|i: int| 0 <= i < res@.len() implies (#[trigger] res@[i])@ == codecs@[i]@ by {
            assert(cloned::<CodecInfo>(codecs@[i], res@[i]));
        }
        assert(ffmpeg_ram::codec_views(res@) =~= ffmpeg_ram::codec_views(codecs@));
        res
    }
}

} // verus!
