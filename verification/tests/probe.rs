use hwcodec::common::DataFormat::{AV1, H264, H265, VP8, VP9};
use hwcodec::common::{Platform, TEST_TIMEOUT_MS};
use hwcodec::ffmpeg::AVHWDeviceType::{
    AV_HWDEVICE_TYPE_CUDA, AV_HWDEVICE_TYPE_D3D11VA, AV_HWDEVICE_TYPE_NONE,
    AV_HWDEVICE_TYPE_VAAPI, AV_HWDEVICE_TYPE_VIDEOTOOLBOX,
};
use hwcodec::ffmpeg_ram::decode::{DecodeContext, Decoder};
use hwcodec::ffmpeg_ram::probe::{ProbeSample, ProbeTrial};
use hwcodec::ffmpeg_ram::{CodecInfo, Priority};
use std::cell::RefCell;

fn passing() -> ProbeTrial {
    ProbeTrial {
        frames: Ok(1),
        elapsed_ms: 20,
    }
}

fn names(codecs: &[CodecInfo]) -> Vec<String> {
    codecs.iter().map(|c| c.name.clone()).collect()
}

#[test]
fn decoder_probe_keeps_distinct_backends_for_the_same_format() {
    let hardware = CodecInfo {
        name: "h264".into(),
        format: H264,
        hwdevice: AV_HWDEVICE_TYPE_D3D11VA,
        ..Default::default()
    };
    let alternative = CodecInfo {
        name: "h264_cuvid".into(),
        hwdevice: AV_HWDEVICE_TYPE_CUDA,
        ..hardware.clone()
    };
    let software = CodecInfo::soft().h264.unwrap();
    let candidates = vec![hardware.clone(), alternative, software, hardware];
    let mut probes = 0;
    let result = Decoder::probe_decoders_with(candidates, |_: &CodecInfo| {
        probes += 1;
        true
    });
    assert_eq!(probes, 3);
    assert_eq!(result.len(), 3);
    assert_eq!(result[0].hwdevice, AV_HWDEVICE_TYPE_D3D11VA);
    assert_eq!(result[1].name, "h264_cuvid");
    assert_eq!(result[2].hwdevice, AV_HWDEVICE_TYPE_NONE);
}

#[test]
fn failed_probe_does_not_remove_other_formats_or_backends() {
    let candidates = vec![
        CodecInfo {
            name: "h264".into(),
            format: H264,
            ..Default::default()
        },
        CodecInfo {
            name: "h264_cuvid".into(),
            format: H264,
            hwdevice: AV_HWDEVICE_TYPE_CUDA,
            ..Default::default()
        },
        CodecInfo {
            name: "hevc_cuvid".into(),
            format: H265,
            hwdevice: AV_HWDEVICE_TYPE_CUDA,
            ..Default::default()
        },
    ];
    let result = Decoder::probe_decoders_with(candidates, |info: &CodecInfo| info.name != "h264");
    assert_eq!(result.len(), 2);
    assert_eq!(result[0].format, H264);
    assert_eq!(result[1].format, H265);
}

#[test]
fn unavailable_decoder_is_not_advertised() {
    let result = Decoder::probe_decoders(
        vec![CodecInfo {
            name: "rustadmin_missing_decoder".to_owned(),
            format: H264,
            hwdevice: AV_HWDEVICE_TYPE_NONE,
            ..Default::default()
        }],
        |ctx: DecodeContext| {
            if ctx.name == "rustadmin_missing_decoder" {
                None
            } else {
                Some(())
            }
        },
        |_: (), _: ProbeSample| passing(),
    );
    assert!(result.is_empty());
}

#[test]
fn a_backend_that_failed_is_tried_again_when_it_comes_again() {
    let codec = CodecInfo {
        name: "h264".into(),
        format: H264,
        ..Default::default()
    };
    let mut probes = 0;
    let result = Decoder::probe_decoders_with(vec![codec.clone(), codec], |_: &CodecInfo| {
        probes += 1;
        probes == 2
    });
    assert_eq!(probes, 2);
    assert_eq!(result.len(), 1);
}

#[test]
fn nothing_to_try_keeps_nothing() {
    let result = Decoder::probe_decoders_with(vec![], |_: &CodecInfo| true);
    assert!(result.is_empty());
}

#[test]
fn kept_decoders_stay_in_order_and_whole() {
    let entries = vec![
        CodecInfo::entry("b", H265, AV_HWDEVICE_TYPE_CUDA, Priority::Best),
        CodecInfo::entry("a", H264, AV_HWDEVICE_TYPE_NONE, Priority::Bad),
        CodecInfo::entry("b", H264, AV_HWDEVICE_TYPE_CUDA, Priority::Good),
        CodecInfo {
            mc_name: Some("c2.decoder".into()),
            ..CodecInfo::entry("b", AV1, AV_HWDEVICE_TYPE_VAAPI, Priority::Normal)
        },
    ];
    let result = Decoder::probe_decoders_with(entries, |c: &CodecInfo| c.name == "b");
    assert_eq!(names(&result), ["b", "b"]);
    assert_eq!((result[0].format, result[0].priority), (H265, 0));
    assert_eq!((result[1].format, result[1].priority), (AV1, 2));
    assert_eq!(result[1].mc_name.as_deref(), Some("c2.decoder"));
    let again = Decoder::probe_decoders_with(result, |_: &CodecInfo| true);
    assert_eq!(again.len(), 2);
}

#[test]
fn probing_opens_with_four_threads_and_decodes_the_sample_of_the_format() {
    let opened: RefCell<Vec<(String, i32)>> = RefCell::new(vec![]);
    let samples: RefCell<Vec<(String, ProbeSample)>> = RefCell::new(vec![]);
    let entries = vec![
        CodecInfo::entry("x", H264, AV_HWDEVICE_TYPE_CUDA, Priority::Good),
        CodecInfo::entry("y", H265, AV_HWDEVICE_TYPE_CUDA, Priority::Good),
        CodecInfo::entry("z", AV1, AV_HWDEVICE_TYPE_CUDA, Priority::Good),
        CodecInfo::entry("v", VP8, AV_HWDEVICE_TYPE_CUDA, Priority::Good),
        CodecInfo::entry("w", VP9, AV_HWDEVICE_TYPE_CUDA, Priority::Good),
    ];
    let result = Decoder::probe_decoders(
        entries,
        |ctx: DecodeContext| {
            assert_eq!(ctx.device_type, AV_HWDEVICE_TYPE_CUDA);
            opened.borrow_mut().push((ctx.name.clone(), ctx.thread_count));
            Some(ctx.name)
        },
        |decoder: String, sample: ProbeSample| {
            samples.borrow_mut().push((decoder, sample));
            passing()
        },
    );
    assert_eq!(names(&result), ["x", "y", "z"]);
    let opened = opened.into_inner();
    assert_eq!(opened.len(), 5);
    assert!(opened.iter().all(|(_, threads)| *threads == 4));
    assert_eq!(
        samples.into_inner(),
        [
            ("x".to_string(), ProbeSample::H264),
            ("y".to_string(), ProbeSample::H265),
            ("z".to_string(), ProbeSample::AV1),
        ]
    );
}

#[test]
fn a_trial_passes_with_a_frame_in_time_only() {
    let trial = |frames: Result<usize, i32>, elapsed_ms: u128| ProbeTrial { frames, elapsed_ms };
    assert!(trial(Ok(1), 0).passes());
    assert!(trial(Ok(7), TEST_TIMEOUT_MS - 1).passes());
    assert!(!trial(Ok(1), TEST_TIMEOUT_MS).passes());
    assert!(!trial(Ok(0), 0).passes());
    assert!(!trial(Err(-1), 0).passes());
    assert_eq!(TEST_TIMEOUT_MS, 1000);
}

#[test]
fn linux_candidates_depend_on_the_gpu() {
    let with = Decoder::candidates(Platform::Linux { nv: true });
    let without = Decoder::candidates(Platform::Linux { nv: false });
    assert_eq!(
        names(&with),
        ["h264", "hevc", "av1", "h264", "hevc", "av1", "h264", "hevc"]
    );
    assert_eq!(names(&without), ["h264", "hevc", "av1", "h264", "hevc"]);
    assert_eq!(with[0].hwdevice, AV_HWDEVICE_TYPE_CUDA);
    assert_eq!(with[3].hwdevice, AV_HWDEVICE_TYPE_VAAPI);
    assert_eq!(with[6].hwdevice, AV_HWDEVICE_TYPE_NONE);
    assert_eq!(without[0].hwdevice, AV_HWDEVICE_TYPE_VAAPI);
    assert!(with[..6].iter().all(|c| c.priority == 1));
    assert!(with[6..].iter().all(|c| c.priority == 3));
    assert!(with.iter().all(|c| c.mc_name.is_none()));
}

#[test]
fn windows_candidates() {
    let codecs = Decoder::candidates(Platform::Windows);
    assert_eq!(
        names(&codecs),
        ["h264", "hevc", "av1", "h264_cuvid", "hevc_cuvid", "av1_cuvid", "h264", "hevc"]
    );
    let formats: Vec<_> = codecs.iter().map(|c| c.format).collect();
    assert_eq!(formats, [H264, H265, AV1, H264, H265, AV1, H264, H265]);
    assert!(codecs[..3]
        .iter()
        .all(|c| c.hwdevice == AV_HWDEVICE_TYPE_D3D11VA && c.priority == 0));
    assert!(codecs[3..6]
        .iter()
        .all(|c| c.hwdevice == AV_HWDEVICE_TYPE_CUDA && c.priority == 1));
}

#[test]
fn apple_candidates() {
    let none = Decoder::candidates(Platform::Macos { h264: false, h265: false });
    assert_eq!(names(&none), ["av1", "h264", "hevc"]);
    let h265 = Decoder::candidates(Platform::Macos { h264: false, h265: true });
    assert_eq!(names(&h265), ["hevc", "av1", "h264", "hevc"]);
    let ios = Decoder::candidates(Platform::Ios);
    assert_eq!(names(&ios), ["h264", "hevc", "av1", "h264", "hevc"]);
    assert!(ios[..3]
        .iter()
        .all(|c| c.hwdevice == AV_HWDEVICE_TYPE_VIDEOTOOLBOX && c.priority == 0));
}

#[test]
fn other_machines_have_software_only() {
    assert_eq!(names(&Decoder::candidates(Platform::Other)), ["h264", "hevc"]);
    assert_eq!(names(&Decoder::software_candidates()), ["h264", "hevc"]);
}

#[test]
fn available_decoders_end_with_the_available_software() {
    let open = |ctx: DecodeContext| if ctx.name == "h264" { Some(ctx) } else { None };
    let attempt = |_: DecodeContext, _: ProbeSample| passing();
    let all = Decoder::available_decoders(Platform::Windows, open, attempt);
    let mut cache = None;
    let soft = Decoder::available_software_decoders(&mut cache, open, attempt);
    assert_eq!(names(&all), ["h264", "h264"]);
    assert_eq!(all[0].hwdevice, AV_HWDEVICE_TYPE_D3D11VA);
    assert_eq!(all[1].hwdevice, AV_HWDEVICE_TYPE_NONE);
    assert_eq!(names(&soft), ["h264"]);
    assert_eq!(soft[0].hwdevice, AV_HWDEVICE_TYPE_NONE);
}

#[test]
fn software_decoders_are_tried_out_once() {
    let mut cache = None;
    let first = Decoder::available_software_decoders(
        &mut cache,
        |ctx: DecodeContext| Some(ctx),
        |_: DecodeContext, sample: ProbeSample| ProbeTrial {
            frames: if sample == ProbeSample::H265 { Ok(2) } else { Err(-22) },
            elapsed_ms: 5,
        },
    );
    assert_eq!(names(&first), ["hevc"]);
    let second = Decoder::available_software_decoders(
        &mut cache,
        |_: DecodeContext| -> Option<()> { panic!("tried out again") },
        |_: (), _: ProbeSample| passing(),
    );
    assert_eq!(names(&second), ["hevc"]);
    assert_eq!(second[0].priority, 3);
    let third = Decoder::available_software_decoders(
        &mut cache,
        |ctx: DecodeContext| Some(ctx),
        |_: DecodeContext, _: ProbeSample| -> ProbeTrial { panic!("decoded again") },
    );
    assert_eq!(names(&third), ["hevc"]);
}

#[test]
fn every_candidate_of_a_machine_is_tried_out_once() {
    for platform in [
        Platform::Linux { nv: true },
        Platform::Linux { nv: false },
        Platform::Windows,
        Platform::Macos { h264: true, h265: true },
        Platform::Ios,
        Platform::Other,
    ] {
        let candidates = Decoder::candidates(platform);
        let count = candidates.len();
        let mut probes = 0;
        let kept = Decoder::probe_decoders_with(candidates, |codec: &CodecInfo| {
            probes += 1;
            ProbeSample::for_format(codec.format).is_some()
        });
        assert_eq!((probes, kept.len()), (count, count));
    }
}

#[test]
fn failing_hardware_leaves_the_software_alone() {
    let attempt = |_: (), _: ProbeSample| passing();
    let open = |ctx: DecodeContext| {
        if ctx.device_type == AV_HWDEVICE_TYPE_NONE {
            Some(())
        } else {
            None
        }
    };
    for platform in [Platform::Linux { nv: true }, Platform::Windows, Platform::Ios] {
        let kept = Decoder::available_decoders(platform, open, attempt);
        assert_eq!(names(&kept), ["h264", "hevc"]);
    }
}

#[test]
fn priorities_are_numbered_from_the_best() {
    assert_eq!(Priority::Best.value(), 0);
    assert_eq!(Priority::Good.value(), 1);
    assert_eq!(Priority::Normal.value(), 2);
    assert_eq!(Priority::Soft.value(), 3);
    assert_eq!(Priority::Bad.value(), 4);
}

#[test]
fn software_decoders_are_for_h264_and_h265() {
    let soft = CodecInfo::soft();
    let h264 = soft.h264.unwrap();
    let h265 = soft.h265.unwrap();
    assert_eq!((h264.name.as_str(), h264.format, h264.priority), ("h264", H264, 3));
    assert_eq!((h265.name.as_str(), h265.format, h265.priority), ("hevc", H265, 3));
    assert!(soft.vp8.is_none() && soft.vp9.is_none() && soft.av1.is_none());
}
