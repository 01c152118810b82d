use hwcodec::c_string::to_c_bytes;
use hwcodec::ffmpeg::AVHWDeviceType::{
    AV_HWDEVICE_TYPE_CUDA, AV_HWDEVICE_TYPE_D3D11VA, AV_HWDEVICE_TYPE_NONE,
    AV_HWDEVICE_TYPE_VAAPI, AV_HWDEVICE_TYPE_VIDEOTOOLBOX,
};
use hwcodec::ffmpeg::AVPixelFormat;
use hwcodec::ffmpeg_ram::decode::{DecodeContext, DecodeReply, Decoder, OpenRequest};
use hwcodec::ffmpeg_ram::frame::{plane_sizes, DecodeFrame, RawFrame};

fn context(name: &str) -> DecodeContext {
    DecodeContext {
        name: name.to_owned(),
        device_type: AV_HWDEVICE_TYPE_CUDA,
        thread_count: 3,
    }
}

fn decoder() -> Decoder {
    match Decoder::new(context("h264"), |_: &OpenRequest| 0x1000) {
        Ok(decoder) => decoder,
        Err(()) => panic!("must open"),
    }
}

fn raw(pixfmt: i32, height: i32, linesizes: [i32; 8], datas: Vec<Vec<u8>>) -> RawFrame {
    let mut datas = datas;
    datas.resize(8, vec![]);
    RawFrame {
        width: 4,
        height,
        pixfmt,
        linesizes: linesizes.to_vec(),
        datas,
        key: 0,
    }
}

fn yuv(fill: u8) -> RawFrame {
    raw(
        0,
        2,
        [4, 2, 2, 0, 0, 0, 0, 0],
        vec![vec![fill; 9], vec![fill + 1; 2], vec![fill + 2; 2]],
    )
}

fn nv12(fill: u8) -> RawFrame {
    let mut picture = raw(
        23,
        2,
        [4, 6, 7, 0, 0, 0, 0, 0],
        vec![vec![fill; 8], vec![fill + 1; 6]],
    );
    picture.key = 5;
    picture
}

#[test]
fn opening_hands_over_a_c_string_and_the_numbers() {
    let mut seen = None;
    let opened = Decoder::new(context("h\u{e9}"), |request: &OpenRequest| {
        seen = Some((request.name.clone(), request.device_type, request.thread_count));
        77
    });
    assert_eq!(seen, Some((vec![b'h', 0xc3, 0xa9, 0], 2, 3)));
    let opened = match opened {
        Ok(decoder) => decoder,
        Err(()) => panic!("must open"),
    };
    assert_eq!(opened.codec(), 77);
    assert_eq!(opened.ctx.name, "h\u{e9}");
    assert_eq!(opened.ctx.thread_count, 3);
    assert_eq!(opened.ctx().device_type, AV_HWDEVICE_TYPE_CUDA);
}

#[test]
fn a_null_decoder_is_an_error() {
    assert!(Decoder::new(context("h264"), |_: &OpenRequest| 0).is_err());
    assert!(Decoder::from_codec(context("h264"), 0).is_err());
    assert!(Decoder::from_codec(context("h264"), 1).is_ok());
}

#[test]
fn a_name_with_a_zero_opens_nothing() {
    let opened = Decoder::new(context("h2\0 64"), |_: &OpenRequest| panic!("opened"));
    assert!(opened.is_err());
    let cut = DecodeContext {
        name: "h264\0_cuvid".to_owned(),
        device_type: AV_HWDEVICE_TYPE_NONE,
        thread_count: 1,
    };
    assert!(Decoder::new(cut, |_: &OpenRequest| panic!("opened")).is_err());
    assert!(context("\0").open_request().is_err());
    assert!(context("").open_request().is_ok());
}

#[test]
fn c_strings() {
    assert_eq!(to_c_bytes("av1"), Ok(vec![b'a', b'v', b'1', 0]));
    assert_eq!(to_c_bytes(""), Ok(vec![0]));
    assert_eq!(to_c_bytes("a\0"), Err(()));
    assert_eq!(to_c_bytes("\u{100}"), Ok(vec![0xc4, 0x80, 0]));
}

#[test]
fn device_numbers() {
    assert_eq!(AV_HWDEVICE_TYPE_NONE.code(), 0);
    assert_eq!(AV_HWDEVICE_TYPE_CUDA.code(), 2);
    assert_eq!(AV_HWDEVICE_TYPE_VAAPI.code(), 3);
    assert_eq!(AV_HWDEVICE_TYPE_VIDEOTOOLBOX.code(), 6);
    assert_eq!(AV_HWDEVICE_TYPE_D3D11VA.code(), 7);
}

#[test]
fn pixel_format_numbers() {
    assert_eq!(AVPixelFormat::from_code(0), Some(AVPixelFormat::AV_PIX_FMT_YUV420P));
    assert_eq!(AVPixelFormat::from_code(23), Some(AVPixelFormat::AV_PIX_FMT_NV12));
    assert_eq!(AVPixelFormat::from_code(1), None);
    assert_eq!(AVPixelFormat::from_code(-1), None);
}

#[test]
fn planar_pictures_become_three_planes() {
    let mut frames: Vec<DecodeFrame> = vec![];
    Decoder::callback(&mut frames, yuv(10));
    assert_eq!(frames.len(), 1);
    assert_eq!(frames[0].pixfmt, AVPixelFormat::AV_PIX_FMT_YUV420P);
    assert_eq!((frames[0].width, frames[0].height), (4, 2));
    assert_eq!(frames[0].data, [vec![10; 8], vec![11; 2], vec![12; 2]]);
    assert_eq!(frames[0].linesize, [4, 2, 2]);
    assert!(!frames[0].key);
}

#[test]
fn interleaved_pictures_become_two_planes() {
    let mut frames: Vec<DecodeFrame> = vec![];
    Decoder::callback(&mut frames, yuv(1));
    Decoder::callback(&mut frames, nv12(20));
    assert_eq!(frames.len(), 2);
    assert_eq!(frames[1].pixfmt, AVPixelFormat::AV_PIX_FMT_NV12);
    assert_eq!(frames[1].data, [vec![20; 8], vec![21; 6]]);
    assert_eq!(frames[1].linesize, [4, 6]);
    assert!(frames[1].key);
}

#[test]
fn unsupported_pictures_are_dropped() {
    let mut frames: Vec<DecodeFrame> = vec![];
    Decoder::callback(&mut frames, yuv(1));
    Decoder::callback(&mut frames, raw(2, 2, [4; 8], vec![]));
    assert_eq!(frames.len(), 1);
}

#[test]
fn odd_heights_round_the_chroma_planes_down() {
    assert_eq!(plane_sizes(0, 3, &[5, 3, 3, 0, 0, 0, 0, 0]), Some(vec![15, 4, 4]));
    assert_eq!(plane_sizes(23, 720, &[1280, 1280, 0, 0, 0, 0, 0, 0]), Some(vec![921600, 460800]));
    assert_eq!(plane_sizes(99, 720, &[1280; 8]), Some(vec![]));
}

#[test]
fn sizes_that_cannot_be_are_refused() {
    assert_eq!(plane_sizes(0, 2, &[-4, 2, 2, 0, 0, 0, 0, 0]), None);
    assert_eq!(plane_sizes(23, i32::MAX, &[2, 1, 0, 0, 0, 0, 0, 0]), None);
    assert_eq!(plane_sizes(0, 1, &[4, -1, 2, 0, 0, 0, 0, 0]), Some(vec![4, 0, 1]));
    assert_eq!(plane_sizes(0, 1, &[4, -2, 2, 0, 0, 0, 0, 0]), None);
    assert_eq!(plane_sizes(23, 2, &[i32::MAX, 2, 0, 0, 0, 0, 0, 0]), None);
}

#[test]
fn decoding_hands_over_the_packet_and_returns_its_frames() {
    let mut decoder = decoder();
    let frames = decoder.decode(&[1, 2, 3], |codec: usize, packet: &[u8], len: i32| {
        assert_eq!((codec, packet, len), (0x1000, &[1u8, 2, 3][..], 3));
        DecodeReply {
            frames: vec![yuv(1), raw(2, 2, [4; 8], vec![]), nv12(2)],
            ret: 0,
        }
    });
    match frames {
        Ok(frames) => {
            assert_eq!(frames.len(), 2);
            assert_eq!(frames[0].data[0][0], 1);
            assert_eq!(frames[1].data[0][0], 2);
        }
        Err(ret) => panic!("{}", ret),
    }
}

#[test]
fn frames_of_an_earlier_packet_are_gone() {
    let mut decoder = decoder();
    for fill in [3u8, 7] {
        let frames = decoder
            .receive(DecodeReply {
                frames: vec![yuv(fill)],
                ret: 1,
            })
            .unwrap();
        assert_eq!(frames.len(), 1);
        assert_eq!(frames[0].data[0][0], fill);
    }
    let frames = decoder.receive(DecodeReply {
        frames: vec![],
        ret: 0,
    });
    assert_eq!(frames.map(|frames| frames.len()), Ok(0));
}

#[test]
fn a_negative_number_is_the_error() {
    let mut decoder = decoder();
    let result = decoder.decode(&[], |_: usize, _: &[u8], len: i32| {
        assert_eq!(len, 0);
        DecodeReply {
            frames: vec![yuv(1)],
            ret: -11,
        }
    });
    assert_eq!(result.map(|frames| frames.len()), Err(-11));
}

#[test]
fn frames_describe_themselves() {
    let frame = DecodeFrame {
        pixfmt: AVPixelFormat::AV_PIX_FMT_NV12,
        width: 1280,
        height: -7,
        data: vec![vec![0; 105], vec![]],
        linesize: vec![i32::MIN, 0],
        key: true,
    };
    assert_eq!(
        frame.to_string(),
        "fixfmt:23, width:1280, height:-7,key:true, data:105 0 , linesize:-2147483648 0 "
    );
    let empty = DecodeFrame {
        pixfmt: AVPixelFormat::AV_PIX_FMT_YUV420P,
        width: 0,
        height: 10,
        data: vec![],
        linesize: vec![],
        key: false,
    };
    assert_eq!(
        empty.to_string(),
        "fixfmt:0, width:0, height:10,key:false, data:, linesize:"
    );
}

#[test]
fn frames_of_a_packet_are_counted() {
    let mut decoder = decoder();
    let count = decoder.count_frames(&[9, 8], |codec: usize, packet: &[u8], len: i32| {
        assert_eq!((codec, packet, len), (0x1000, &[9u8, 8][..], 2));
        DecodeReply {
            frames: vec![yuv(1), raw(2, 2, [4; 8], vec![]), nv12(2)],
            ret: 3,
        }
    });
    assert_eq!(count, Ok(2));
    let none = decoder.count_frames(&[], |_: usize, _: &[u8], _: i32| DecodeReply {
        frames: vec![raw(2, 2, [4; 8], vec![])],
        ret: 0,
    });
    assert_eq!(none, Ok(0));
    let failed = decoder.count_frames(&[], |_: usize, _: &[u8], _: i32| DecodeReply {
        frames: vec![yuv(1)],
        ret: -5,
    });
    assert_eq!(failed, Err(-5));
}
