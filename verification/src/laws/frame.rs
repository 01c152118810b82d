//! Laws of the frames that are made of pictures.
use crate::ffmpeg::AVPixelFormat;
use crate::ffmpeg_ram::decode::{DecodeReply, Decoder};
use crate::ffmpeg_ram::frame;
use crate::ffmpeg_ram::frame::{plane_sizes, DecodeFrame, RawFrame};
use vstd::prelude::*;

verus! {

/// The picture is in one of the two formats that frames are made of.
pub open spec fn is_supported(raw: RawFrame) -> bool {
    raw.pixfmt == 0 || raw.pixfmt == 23
}

/// The length is that of a plane with half as many lines as the picture has, of
/// `linesize` bytes each: half of the product, rounded towards zero.
pub open spec fn is_half_plane(len: int, linesize: i32, height: i32) -> bool {
    if linesize * height < 0 {
        len == 0 && linesize * height == -1
    } else {
        2 * len == linesize * height || 2 * len + 1 == linesize * height
    }
}

/// A picture is well formed exactly if it has eight line sizes and eight buffers and
/// every plane that is taken over is in its buffer.
pub proof fn law_well_formed_pictures(raw: RawFrame)
    ensures
        raw.well_formed() <==> {
            &&& raw.linesizes@.len() == 8
            &&& raw.datas@.len() == 8
            &&& is_supported(raw) ==> {
                &&& 0 <= raw.linesizes@[0] * raw.height <= 0x7fff_ffff
                &&& raw.linesizes@[0] * raw.height <= raw.datas@[0]@.len()
                &&& -1 <= raw.linesizes@[1] * raw.height <= 0x7fff_ffff
                &&& raw.linesizes@[1] * raw.height < 2 * raw.datas@[1]@.len() + 2
            }
            &&& raw.pixfmt == 0 ==> {
                &&& -1 <= raw.linesizes@[2] * raw.height <= 0x7fff_ffff
                &&& raw.linesizes@[2] * raw.height < 2 * raw.datas@[2]@.len() + 2
            }
        },
{
    let l = raw.linesizes@;
    let h = raw.height;
    if raw.well_formed() {
        if is_supported(raw) {
            assert(frame::plane_fits(0, l[0], h));
            assert(frame::plane_fits(1, l[1], h));
        }
        if raw.pixfmt == 0 {
            assert(frame::plane_fits(2, l[2], h));
        }
    }
}

/// What came of a packet is well formed exactly if every picture in it is, whatever
/// number it ended with.
pub proof fn law_well_formed_replies(reply: DecodeReply)
    ensures
        reply.well_formed() <==> forall|i: int|
            0 <= i < reply.frames@.len() ==> (#[trigger] reply.frames@[i]).well_formed(),
{
}

/// What one picture adds to the frames. A picture in an unsupported format adds
/// nothing; any other adds one frame at the end, which has the picture's measures
/// and line sizes, and whose planes hold, byte for byte, the first bytes of the
/// picture's buffers.
pub proof fn law_callback(frames: &mut Vec<DecodeFrame>, raw: RawFrame)
    requires
        raw.well_formed(),
        call_ensures(Decoder::callback, (frames, raw), ()),
    ensures
        raw.pixfmt != 0 && raw.pixfmt != 23 ==> final(frames)@ == old(frames)@,
        raw.pixfmt == 0 || raw.pixfmt == 23 ==> {
            let made = final(frames)@.last();
            let height = raw.height;
            &&& final(frames)@.len() == old(frames)@.len() + 1
            &&& forall|i: int|
                0 <= i < old(frames)@.len() ==> #[trigger] final(frames)@[i] == old(frames)@[i]
            &&& made.pixfmt == AVPixelFormat::AV_PIX_FMT_YUV420P <==> raw.pixfmt == 0
            &&& made.pixfmt == AVPixelFormat::AV_PIX_FMT_NV12 <==> raw.pixfmt == 23
            &&& made.width == raw.width
            &&& made.height == raw.height
            &&& made.key <==> raw.key != 0
            &&& made.linesize@.len() == made.data@.len()
            &&& made.data@.len() == (if raw.pixfmt == 0 {
                3int
            } else {
                2int
            })
            &&& forall|k: int|
                0 <= k < made.linesize@.len() ==> #[trigger] made.linesize@[k] == raw.linesizes@[k]
            &&& made.data@[0]@.len() == raw.linesizes@[0] * height
            &&& is_half_plane(made.data@[1]@.len() as int, raw.linesizes@[1], height)
            &&& raw.pixfmt == 0 ==> is_half_plane(
                made.data@[2]@.len() as int,
                raw.linesizes@[2],
                height,
            )
            &&& forall|k: int, i: int|
                0 <= k < made.data@.len() && 0 <= i < made.data@[k]@.len()
                    ==> #[trigger] made.data@[k]@[i] == raw.datas@[k]@[i]
        },
{
    law_frame_of_picture(raw);
    lemma_one_picture(raw);
    let before = frame::frame_views(old(frames)@);
    let after = frame::frame_views(final(frames)@);
    if is_supported(raw) {
        let made = final(frames)@.last();
        let view = raw.frame()->0;
        assert(after.len() == before.len() + 1);
        assert(after.last() == made@);
        assert(after.last() == view);
        assert forall|k: int| 0 <= k < made.data@.len() implies view.data[k]
            == #[trigger] made.data@[k]@ by {
            assert(made@.data[k] == made.data@[k]@);
        }
        assert forall|k: int, i: int|
            0 <= k < made.data@.len() && 0 <= i < made.data@[k]@.len() implies #[trigger] made.data@[k]@[i]
            == raw.datas@[k]@[i] by {
            assert(view.data[k] == made.data@[k]@);
            assert(view.data[k][i] == raw.datas@[k]@[i]);
        }
        assert(view.data[0] == made.data@[0]@);
        assert(view.data[1] == made.data@[1]@);
        if raw.pixfmt == 0 {
            assert(view.data[2] == made.data@[2]@);
        }
    } else {
        assert(after.len() == before.len());
        assert(final(frames)@ =~= old(frames)@);
    }
}

proof fn lemma_one_picture(raw: RawFrame)
    ensures
        frame::frames_of(seq![raw]) == (match raw.frame() {
            Some(view) => seq![view],
            None => Seq::empty(),
        }),
{
    reveal_with_fuel(frame::frames_of, 2);
    assert(seq![raw].drop_last() =~= Seq::<RawFrame>::empty());
    assert(seq![raw].last() == raw);
    assert(frame::frames_of(seq![raw]) =~= match raw.frame() {
        Some(view) => seq![view],
        None => Seq::empty(),
    });
}

/// The frame of a picture: there is one exactly in the two supported formats. It has
/// the picture's measures and line sizes, and its planes hold, byte for byte, the
/// first bytes of the picture's buffers.
pub proof fn law_frame_of_picture(raw: RawFrame)
    requires
        raw.well_formed(),
    ensures
        raw.frame() is Some <==> raw.pixfmt == 0 || raw.pixfmt == 23,
        raw.frame() matches Some(view) ==> {
            &&& view.pixfmt == AVPixelFormat::AV_PIX_FMT_YUV420P <==> raw.pixfmt == 0
            &&& view.pixfmt == AVPixelFormat::AV_PIX_FMT_NV12 <==> raw.pixfmt == 23
            &&& view.width == raw.width
            &&& view.height == raw.height
            &&& view.key <==> raw.key != 0
            &&& view.linesize.len() == view.data.len()
            &&& view.data.len() == (if raw.pixfmt == 0 {
                3int
            } else {
                2int
            })
            &&& forall|k: int|
                0 <= k < view.linesize.len() ==> #[trigger] view.linesize[k] == raw.linesizes@[k]
            &&& view.data[0].len() == raw.linesizes@[0] * raw.height
            &&& is_half_plane(view.data[1].len() as int, raw.linesizes@[1], raw.height)
            &&& raw.pixfmt == 0 ==> is_half_plane(
                view.data[2].len() as int,
                raw.linesizes@[2],
                raw.height,
            )
            &&& forall|k: int, i: int|
                0 <= k < view.data.len() && 0 <= i < view.data[k].len()
                    ==> #[trigger] view.data[k][i] == raw.datas@[k]@[i]
        },
{
    law_well_formed_pictures(raw);
    if let Some(view) = raw.frame() {
        assert forall|k: int| 0 <= k < view.data.len() implies #[trigger] view.data[k].len()
            == frame::plane_len(k, raw.linesizes@[k], raw.height) by {
            assert(frame::plane_fits(k, raw.linesizes@[k], raw.height));
        }
        assert(view.data[0].len() == frame::plane_len(0, raw.linesizes@[0], raw.height));
        assert(view.data[1].len() == frame::plane_len(1, raw.linesizes@[1], raw.height));
        if raw.pixfmt == 0 {
            assert(view.data[2].len() == frame::plane_len(2, raw.linesizes@[2], raw.height));
        }
    }
}

/// Two pictures whose buffers differ in a byte of a plane make frames that differ in
/// that byte.
pub proof fn law_frames_tell_pictures_apart(a: RawFrame, b: RawFrame, k: int, i: int)
    requires
        a.well_formed(),
        b.well_formed(),
        a.frame() is Some,
        b.frame() is Some,
        0 <= k < a.frame()->0.data.len(),
        k < b.frame()->0.data.len(),
        0 <= i < a.frame()->0.data[k].len(),
        i < b.frame()->0.data[k].len(),
    ensures
        a.frame()->0.data[k][i] == b.frame()->0.data[k][i] <==> a.datas@[k]@[i]
            == b.datas@[k]@[i],
{
    law_frame_of_picture(a);
    law_frame_of_picture(b);
}

/// The sizes that are computed before the bytes are read: none for an unsupported
/// format, else one for each plane, the first the product of line size and height,
/// the others half of it. There is no answer exactly where a product is negative or
/// over the largest `i32`, but for a half of minus one, which is zero.
pub proof fn law_plane_sizes(pixfmt: i32, height: i32, linesizes: &[i32], res: Option<Vec<usize>>)
    requires
        linesizes@.len() == 8,
        call_ensures(plane_sizes, (pixfmt, height, linesizes), res),
    ensures
        pixfmt != 0 && pixfmt != 23 ==> (res matches Some(sizes) && sizes@.len() == 0),
        pixfmt == 23 ==> {
            &&& res is Some <==> {
                &&& 0 <= linesizes@[0] * height <= 0x7fff_ffff
                &&& -1 <= linesizes@[1] * height <= 0x7fff_ffff
            }
            &&& res matches Some(sizes) ==> {
                &&& sizes@.len() == 2
                &&& sizes@[0] == linesizes@[0] * height
                &&& is_half_plane(sizes@[1] as int, linesizes@[1], height)
            }
        },
        pixfmt == 0 ==> {
            &&& res is Some <==> {
                &&& 0 <= linesizes@[0] * height <= 0x7fff_ffff
                &&& -1 <= linesizes@[1] * height <= 0x7fff_ffff
                &&& -1 <= linesizes@[2] * height <= 0x7fff_ffff
            }
            &&& res matches Some(sizes) ==> {
                &&& sizes@.len() == 3
                &&& sizes@[0] == linesizes@[0] * height
                &&& is_half_plane(sizes@[1] as int, linesizes@[1], height)
                &&& is_half_plane(sizes@[2] as int, linesizes@[2], height)
            }
        },
{
    let l = linesizes@;
    if frame::planes_fit(pixfmt, height, l) {
        let sizes = res->0;
        let lens = frame::plane_lens(pixfmt, height, l);
        let ints = sizes@.map_values(|size: usize| size as int);
        assert(ints == lens);
        assert(ints.len() == sizes@.len());
        assert forall|k: int| 0 <= k < sizes@.len() implies #[trigger] sizes@[k]
            == frame::plane_len(k, l[k], height) && frame::plane_fits(k, l[k], height) by {
            assert(ints[k] == lens[k]);
        }
        if pixfmt == 0 || pixfmt == 23 {
            assert(sizes@[0] == frame::plane_len(0, l[0], height));
            assert(sizes@[1] == frame::plane_len(1, l[1], height));
        }
        if pixfmt == 0 {
            assert(sizes@[2] == frame::plane_len(2, l[2], height));
        }
    }
}

/// The frames of a list of pictures are those of the supported ones, each once and
/// in the order of the pictures: `picks` says which picture each is of.
pub open spec fn are_frames_of(
    views: Seq<frame::FrameView>,
    raws: Seq<RawFrame>,
    picks: Seq<int>,
) -> bool {
    &&& picks.len() == views.len()
    &&& forall|k: int|
        0 <= k < picks.len() ==> {
            &&& 0 <= #[trigger] picks[k] < raws.len()
            &&& is_supported(raws[picks[k]])
            &&& raws[picks[k]].frame() == Some(views[k])
        }
    &&& forall|j: int, k: int| 0 <= j < k < picks.len() ==> #[trigger] picks[j] < #[trigger] picks[k]
    &&& forall|i: int|
        0 <= i < raws.len() && is_supported(#[trigger] raws[i]) ==> picks.contains(i)
}

/// A list of pictures makes one frame of each supported picture and none of any
/// other, in the order of the pictures.
pub proof fn law_frames_of_pictures(raws: Seq<RawFrame>)
    ensures
        exists|picks: Seq<int>| are_frames_of(frame::frames_of(raws), raws, picks),
    decreases raws.len(),
{
    if raws.len() == 0 {
        assert(are_frames_of(frame::frames_of(raws), raws, Seq::empty()));
    } else {
        let front = raws.drop_last();
        law_frames_of_pictures(front);
        let last = raws.len() - 1;
        let before = choose|picks: Seq<int>| are_frames_of(frame::frames_of(front), front, picks);
        let picks = if is_supported(raws.last()) {
            before.push(last)
        } else {
            before
        };
        let views = frame::frames_of(raws);
        assert forall|k: int| 0 <= k < picks.len() implies {
            &&& 0 <= #[trigger] picks[k] < raws.len()
            &&& is_supported(raws[picks[k]])
            &&& raws[picks[k]].frame() == Some(views[k])
        } by {
            if k < before.len() {
                assert(picks[k] == before[k]);
                assert(front[before[k]] == raws[before[k]]);
            }
        }
        assert forall|j: int, k: int| 0 <= j < k < picks.len() implies #[trigger] picks[j]
            < #[trigger] picks[k] by {
            assert(picks[j] == before[j]);
            if k < before.len() {
                assert(picks[k] == before[k]);
            }
        }
        assert forall|i: int|
            0 <= i < raws.len() && is_supported(#[trigger] raws[i]) implies picks.contains(i) by {
            if i < last {
                assert(front[i] == raws[i]);
                let k = before.index_of(i);
                assert(picks[k] == i);
            } else {
                assert(picks[picks.len() - 1] == i);
            }
        }
        assert(are_frames_of(views, raws, picks));
    }
}

/// What came of a packet. A number below zero is the error that is returned. Else
/// the frames handed out are those of the supported pictures of this packet, in
/// order, whatever frames there were before. The decoder and its context stay.
pub proof fn law_receive(
    decoder: &mut Decoder,
    reply: DecodeReply,
    res: Result<&mut Vec<DecodeFrame>, i32>,
)
    requires
        call_ensures(Decoder::receive, (decoder, reply), res),
    ensures
        res is Err <==> reply.ret < 0,
        res matches Err(ret) ==> ret == reply.ret,
        res matches Ok(frames) ==> exists|picks: Seq<int>|
            are_frames_of(frame::frame_views(frames@), reply.frames@, picks),
        res matches Ok(frames) ==> final(decoder).spec_frames() == final(frames)@,
        res is Err ==> exists|picks: Seq<int>|
            are_frames_of(
                frame::frame_views(final(decoder).spec_frames()),
                reply.frames@,
                picks,
            ),
        final(decoder).spec_codec() == old(decoder).spec_codec(),
        final(decoder).spec_ctx() == old(decoder).spec_ctx(),
{
    law_frames_of_pictures(reply.frames@);
}

/// Decoding a packet runs FFmpeg's decoder on that packet, told its length, and
/// hands out the frames of the supported pictures that came of it, in order, or
/// returns the number below zero that it ended with.
pub proof fn law_decode<F: FnOnce(usize, &[u8], i32) -> DecodeReply>(
    decoder: &mut Decoder,
    packet: &[u8],
    run: F,
    res: Result<&mut Vec<DecodeFrame>, i32>,
)
    requires
        call_ensures(Decoder::decode::<F>, (decoder, packet, run), res),
    ensures
        exists|reply: DecodeReply|
            {
                &&& #[trigger] call_ensures(
                    run,
                    (old(decoder).spec_codec(), packet, packet@.len() as usize as i32),
                    reply,
                )
                &&& res is Err <==> reply.ret < 0
                &&& res matches Err(ret) ==> ret == reply.ret
                &&& res matches Ok(frames) ==> final(decoder).spec_frames() == final(frames)@
                &&& res matches Ok(frames) ==> exists|picks: Seq<int>|
                    are_frames_of(frame::frame_views(frames@), reply.frames@, picks)
                &&& res is Err ==> exists|picks: Seq<int>|
                    are_frames_of(
                        frame::frame_views(final(decoder).spec_frames()),
                        reply.frames@,
                        picks,
                    )
            },
        final(decoder).spec_codec() == old(decoder).spec_codec(),
        final(decoder).spec_ctx() == old(decoder).spec_ctx(),
{
    let len = packet@.len() as usize as i32;
    let reply = choose|reply: DecodeReply|
        {
            &&& #[trigger] call_ensures(run, (old(decoder).spec_codec(), packet, len), reply)
            &&& reply.ret < 0 ==> {
                &&& res == Err::<&mut Vec<DecodeFrame>, i32>(reply.ret)
                &&& frame::frame_views(final(decoder).spec_frames()) == frame::frames_of(
                    reply.frames@,
                )
            }
            &&& reply.ret >= 0 ==> (res matches Ok(frames) && {
                &&& frame::frame_views(frames@) == frame::frames_of(reply.frames@)
                &&& final(decoder).spec_frames() == final(frames)@
            })
        };
    law_frames_of_pictures(reply.frames@);
}

/// Counting decodes the packet in the same way. The count is the number of supported
/// pictures that came of it.
pub proof fn law_count_frames<F: FnOnce(usize, &[u8], i32) -> DecodeReply>(
    decoder: &mut Decoder,
    packet: &[u8],
    run: F,
    res: Result<usize, i32>,
)
    requires
        call_ensures(Decoder::count_frames::<F>, (decoder, packet, run), res),
    ensures
        exists|reply: DecodeReply|
            {
                &&& #[trigger] call_ensures(
                    run,
                    (old(decoder).spec_codec(), packet, packet@.len() as usize as i32),
                    reply,
                )
                &&& res is Err <==> reply.ret < 0
                &&& res matches Err(ret) ==> ret == reply.ret
                &&& res matches Ok(count) ==> count == reply.frames@.filter(
                    |raw: RawFrame| raw.pixfmt == 0 || raw.pixfmt == 23,
                ).len()
                &&& exists|picks: Seq<int>|
                    are_frames_of(
                        frame::frame_views(final(decoder).spec_frames()),
                        reply.frames@,
                        picks,
                    )
            },
        final(decoder).spec_codec() == old(decoder).spec_codec(),
        final(decoder).spec_ctx() == old(decoder).spec_ctx(),
{
    let len = packet@.len() as usize as i32;
    let reply = choose|reply: DecodeReply|
        {
            &&& #[trigger] call_ensures(run, (old(decoder).spec_codec(), packet, len), reply)
            &&& frame::frame_views(final(decoder).spec_frames()) == frame::frames_of(reply.frames@)
            &&& reply.ret < 0 ==> res == Err::<usize, i32>(reply.ret)
            &&& reply.ret >= 0 ==> (res matches Ok(count) && count == frame::frames_of(
                reply.frames@,
            ).len())
        };
    law_frames_of_pictures(reply.frames@);
    law_frame_count(reply.frames@);
}

/// There are as many frames as there are supported pictures.
pub proof fn law_frame_count(raws: Seq<RawFrame>)
    ensures
        frame::frames_of(raws).len() == raws.filter(
            |raw: RawFrame| raw.pixfmt == 0 || raw.pixfmt == 23,
        ).len(),
    decreases raws.len(),
{
    reveal(Seq::filter);
    if raws.len() > 0 {
        law_frame_count(raws.drop_last());
    }
}

/// A frame and its view agree in every plane and every byte.
pub proof fn law_frame_views(frames: Seq<DecodeFrame>, n: int)
    requires
        0 <= n < frames.len(),
    ensures
        frame::frame_views(frames).len() == frames.len(),
        ({
            let view = frame::frame_views(frames)[n];
            let frame = frames[n];
            &&& view.pixfmt == frame.pixfmt
            &&& view.width == frame.width
            &&& view.height == frame.height
            &&& view.key == frame.key
            &&& view.linesize == frame.linesize@
            &&& view.data.len() == frame.data@.len()
            &&& forall|k: int| 0 <= k < view.data.len() ==> #[trigger] view.data[k]
                == frame.data@[k]@
        }),
{
}

} // verus!
