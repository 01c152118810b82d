//! One decoder: what FFmpeg is asked for, and what is made of its answers.
use crate::c_string;
use crate::c_string::to_c_bytes;
use crate::ffmpeg::{AVHWDeviceType, AVPixelFormat};
use crate::ffmpeg_ram::frame;
use crate::ffmpeg_ram::frame::{plane_sizes, DecodeFrame, RawFrame};
use crate::ffmpeg_ram::AV_NUM_DATA_POINTERS;
use vstd::prelude::*;

verus! {

/// Which decoder to open.
#[derive(Debug)]
pub struct DecodeContext {
    pub name: String,
    pub device_type: AVHWDeviceType,
    pub thread_count: i32,
}

impl Clone for DecodeContext {
    fn clone(&self) -> (res: Self)
        ensures
            res == *self,
    {
        DecodeContext {
            name: self.name.clone(),
            device_type: self.device_type,
            thread_count: self.thread_count,
        }
    }
}

/// What FFmpeg is given to open a decoder: the name as a C string and two numbers.
pub struct OpenRequest {
    pub name: Vec<u8>,
    pub device_type: i32,
    pub thread_count: i32,
}

impl OpenRequest {
    /// This asks for the decoder of the context.
    pub open spec fn asks_for(self, ctx: DecodeContext) -> bool {
        &&& self.name@ == c_string::c_bytes(ctx.name@)
        &&& self.device_type == ctx.device_type.spec_code()
        &&& self.thread_count == ctx.thread_count
    }
}

impl DecodeContext {
    /// What FFmpeg is to be given for this context; an error if the name cannot
    /// be a C string.
    pub fn open_request(&self) -> (res: Result<OpenRequest, ()>)
        ensures
            res is Err <==> self.name@.contains('\0'),
            res matches Ok(request) ==> request.asks_for(*self),
    {
        match to_c_bytes(self.name.as_str()) {
            Ok(name) => Ok(
                OpenRequest {
                    name,
                    device_type: self.device_type.code(),
                    thread_count: self.thread_count,
                },
            ),
            Err(()) => Err(()),
        }
    }
}

/// What came of decoding a packet: the pictures that were delivered, in order,
/// and the number that was returned, which is negative for an error.
pub struct DecodeReply {
    pub frames: Vec<RawFrame>,
    pub ret: i32,
}

impl DecodeReply {
    /// Every picture is well formed.
    pub open spec fn well_formed(self) -> bool {
        forall|i: int| 0 <= i < self.frames@.len() ==> (#[trigger] self.frames@[i]).well_formed()
    }
}

/// An open decoder: the address of FFmpeg's decoder, and the frames of the packet
/// that was decoded last.
pub struct Decoder {
    codec: usize,
    frames: Vec<DecodeFrame>,
    pub ctx: DecodeContext,
}

impl Decoder {
    /// The address of FFmpeg's decoder.
    pub closed spec fn spec_codec(self) -> usize {
        self.codec
    }

    /// The frames of the packet that was decoded last.
    pub closed spec fn spec_frames(self) -> Seq<DecodeFrame> {
        self.frames@
    }

    /// What the decoder was opened with.
    pub closed spec fn spec_ctx(self) -> DecodeContext {
        self.ctx
    }

    /// FFmpeg's decoder exists.
    pub open spec fn well_formed(self) -> bool {
        self.spec_codec() != 0
    }

    /// The address of FFmpeg's decoder.
    pub fn codec(&self) -> (res: usize)
        ensures
            res == self.spec_codec(),
    {
        self.codec
    }

    /// What the decoder was opened with.
    pub fn ctx(&self) -> (res: &DecodeContext)
        ensures
            *res == self.spec_ctx(),
    {
        &self.ctx
    }

    /// A decoder for the address that opening it gave; the null address is an
    /// error.
    pub fn from_codec(ctx: DecodeContext, codec: usize) -> (res: Result<Self, ()>)
        ensures
            res is Err <==> codec == 0,
            res matches Ok(decoder) ==> {
                &&& decoder.well_formed()
                &&& decoder.spec_codec() == codec
                &&& decoder.spec_frames() == Seq::<DecodeFrame>::empty()
                &&& decoder.spec_ctx() == ctx
            },
    {
        if codec == 0 {
            return Err(());
        }
        Ok(Decoder { codec, frames: Vec::new(), ctx })
    }

    /// Opens a decoder. `open` has FFmpeg open what the request asks for and
    /// returns the address of the decoder, null if there is none. A name that
    /// cannot be a C string is an error, and nothing is opened.
    pub fn new<F: FnOnce(&OpenRequest) -> usize>(ctx: DecodeContext, open: F) -> (res: Result<
        Self,
        (),
    >)
        requires
            forall|request: OpenRequest|
                !ctx.name@.contains('\0') && request.asks_for(ctx) ==> #[trigger] call_requires(
                    open,
                    (&request,),
                ),
        ensures
            ctx.name@.contains('\0') ==> res is Err,
            !ctx.name@.contains('\0') ==> exists|request: OpenRequest, codec: usize|
                {
                    &&& request.asks_for(ctx)
                    &&& #[trigger] call_ensures(open, (&request,), codec)
                    &&& res is Err <==> codec == 0
                    &&& res matches Ok(decoder) ==> decoder.spec_codec() == codec
                },
            res matches Ok(decoder) ==> {
                &&& decoder.well_formed()
                &&& decoder.spec_frames() == Seq::<DecodeFrame>::empty()
                &&& decoder.spec_ctx() == ctx
            },
    {
        let request: OpenRequest = match ctx.open_request() {
            Ok(request) => request,
            Err(()) => {
                return Err(());
            },
        };
        let codec: usize = open(&request);
        Self::from_codec(ctx, codec)
    }

    /// Takes over one picture: appends the frame that is made of it, or nothing
    /// if the pixel format is not supported.
    pub fn callback(frames: &mut Vec<DecodeFrame>, raw: RawFrame)
        requires
            raw.well_formed(),
        ensures
            frame::frame_views(final(frames)@)
                == frame::frame_views(old(frames)@)
                + frame::frames_of(seq![raw]),
            old(frames)@.is_prefix_of(final(frames)@),
    {
        let ghost before = frames@;
        let ghost made = frame::frames_of(seq![raw]);
        proof {
            reveal_with_fuel(frame::frames_of, 2);
            assert(seq![raw].drop_last() =~= Seq::<RawFrame>::empty());
            assert(seq![raw].last() == raw);
        }
        let pixfmt: AVPixelFormat = match AVPixelFormat::from_code(raw.pixfmt) {
            Some(pixfmt) => pixfmt,
            None => {
                assert(made =~= Seq::empty());
                return;
            },
        };
        let sizes: Vec<usize> = match plane_sizes(raw.pixfmt, raw.height, raw.linesizes.as_slice()) {
            Some(sizes) => sizes,
            None => {
                return;
            },
        };
        let ghost lens = frame::plane_lens(
            raw.pixfmt,
            raw.height,
            raw.linesizes@,
        );
        assert(sizes@.map_values(|size: usize| size as int) == lens);
        assert(forall|j: int| 0 <= j < lens.len() ==> #[trigger] sizes@[j] == lens[j]) by {
            assert forall|j: int| 0 <= j < lens.len() implies #[trigger] sizes@[j] == lens[j] by {
                assert(sizes@.map_values(|size: usize| size as int)[j] == lens[j]);
            }
        }
        let mut frame = DecodeFrame {
            pixfmt,
            width: raw.width,
            height: raw.height,
            data: Vec::new(),
            linesize: Vec::new(),
            key: raw.key != 0,
        };
        let linesizes: Vec<i32> = raw.linesizes;
        let mut datas: Vec<Vec<u8>> = raw.datas;
        let ghost all = datas@;
        let mut k: usize = 0;
        while k < sizes.len()
            invariant
                k <= sizes@.len() <= 3,
                sizes@.len() == lens.len(),
                linesizes@.len() == AV_NUM_DATA_POINTERS,
                all.len() == AV_NUM_DATA_POINTERS,
                datas@ == all.skip(k as int),
                forall|j: int| 0 <= j < lens.len() ==> #[trigger] sizes@[j] == lens[j],
                forall|j: int| 0 <= j < lens.len() ==> #[trigger] lens[j] <= all[j]@.len(),
                frame.pixfmt == pixfmt,
                frame.width == raw.width,
                frame.height == raw.height,
                frame.key == (raw.key != 0),
                frame.linesize@ == linesizes@.take(k as int),
                frame.data@.len() == k,
                forall|j: int| 0 <= j < k ==> (#[trigger] frame.data@[j])@ == all[j]@.take(lens[j]),
            decreases sizes@.len() - k,
        {
            let mut plane: Vec<u8> = datas.remove(0);
            plane.truncate(sizes[k]);
            frame.data.push(plane);
            frame.linesize.push(linesizes[k]);
            k = k + 1;
        }
        assert(raw.frame() matches Some(view) && view =~~= frame@);
        frames.push(frame);
        assert(made =~= seq![frame@]);
        assert(frame::frame_views(frames@)
            =~= frame::frame_views(before) + made);
    }

    /// Takes in what came of decoding a packet. The frames of any earlier packet
    /// are dropped; those of this one are handed out unless it ended in an error,
    /// which is then returned.
    pub fn receive(&mut self, reply: DecodeReply) -> (res: Result<&mut Vec<DecodeFrame>, i32>)
        requires
            reply.well_formed(),
        ensures
            reply.ret < 0 ==> {
                &&& res == Err::<&mut Vec<DecodeFrame>, i32>(reply.ret)
                &&& frame::frame_views(final(self).spec_frames())
                    == frame::frames_of(reply.frames@)
            },
            reply.ret >= 0 ==> (res matches Ok(frames) && {
                &&& frame::frame_views(frames@)
                    == frame::frames_of(reply.frames@)
                &&& final(self).spec_frames() == final(frames)@
            }),
            final(self).spec_codec() == old(self).spec_codec(),
            final(self).spec_ctx() == old(self).spec_ctx(),
    {
        self.frames.clear();
        let ret: i32 = reply.ret;
        let ghost raws = reply.frames@;
        assert(frame::frame_views(self.frames@) =~= Seq::empty());
        assert(raws.take(0) =~= Seq::empty());
        for raw in it: reply.frames
            invariant
                it.seq() == raws,
                forall|i: int| 0 <= i < raws.len() ==> (#[trigger] raws[i]).well_formed(),
                frame::frame_views(self.frames@)
                    == frame::frames_of(raws.take(it.index())),
                self.codec == old(self).codec,
                self.ctx == old(self).ctx,
        {
            let ghost n = it.index();
            proof {
                assert(raw == raws[n]);
                assert(raws.take(n + 1) =~= raws.take(n) + seq![raw]);
                frame::law_frames_follow_pictures(raws.take(n), seq![raw]);
            }
            Self::callback(&mut self.frames, raw);
        }
        assert(raws.take(raws.len() as int) =~= raws);
        if ret < 0 {
            Err(ret)
        } else {
            Ok(&mut self.frames)
        }
    }

    /// Decodes a packet. `run` has FFmpeg's decoder at the given address decode
    /// the packet, of which it is told the length as an `i32`, and returns what
    /// was delivered.
    pub fn decode<F: FnOnce(usize, &[u8], i32) -> DecodeReply>(
        &mut self,
        packet: &[u8],
        run: F,
    ) -> (res: Result<&mut Vec<DecodeFrame>, i32>)
        requires
            call_requires(run, (old(self).spec_codec(), packet, packet@.len() as usize as i32)),
            forall|reply: DecodeReply|
                #[trigger] call_ensures(
                    run,
                    (old(self).spec_codec(), packet, packet@.len() as usize as i32),
                    reply,
                ) ==> reply.well_formed(),
        ensures
            exists|reply: DecodeReply|
                {
                    &&& #[trigger] call_ensures(
                        run,
                        (old(self).spec_codec(), packet, packet@.len() as usize as i32),
                        reply,
                    )
                    &&& reply.ret < 0 ==> {
                        &&& res == Err::<&mut Vec<DecodeFrame>, i32>(reply.ret)
                        &&& frame::frame_views(final(self).spec_frames())
                            == frame::frames_of(reply.frames@)
                    }
                    &&& reply.ret >= 0 ==> (res matches Ok(frames) && {
                        &&& frame::frame_views(frames@)
                            == frame::frames_of(reply.frames@)
                        &&& final(self).spec_frames() == final(frames)@
                    })
                },
            final(self).spec_codec() == old(self).spec_codec(),
            final(self).spec_ctx() == old(self).spec_ctx(),
    {
        let reply: DecodeReply = run(self.codec, packet, packet.len() as i32);
        self.receive(reply)
    }

    /// Decodes a packet as [`Decoder::decode`] does, and says how many frames came of
    /// it, or the error.
    pub fn count_frames<F: FnOnce(usize, &[u8], i32) -> DecodeReply>(
        &mut self,
        packet: &[u8],
        run: F,
    ) -> (res: Result<usize, i32>)
        requires
            call_requires(run, (old(self).spec_codec(), packet, packet@.len() as usize as i32)),
            forall|reply: DecodeReply|
                #[trigger] call_ensures(
                    run,
                    (old(self).spec_codec(), packet, packet@.len() as usize as i32),
                    reply,
                ) ==> reply.well_formed(),
        ensures
            exists|reply: DecodeReply|
                {
                    &&& #[trigger] call_ensures(
                        run,
                        (old(self).spec_codec(), packet, packet@.len() as usize as i32),
                        reply,
                    )
                    &&& frame::frame_views(final(self).spec_frames()) == frame::frames_of(
                        reply.frames@,
                    )
                    &&& reply.ret < 0 ==> res == Err::<usize, i32>(reply.ret)
                    &&& reply.ret >= 0 ==> (res matches Ok(count) && count == frame::frames_of(
                        reply.frames@,
                    ).len())
                },
            final(self).spec_codec() == old(self).spec_codec(),
            final(self).spec_ctx() == old(self).spec_ctx(),
    {
        match self.decode(packet, run) {
            Ok(frames) => {
                assert(frame::frame_views(frames@).len() == frames@.len());
                Ok(frames.len())
            },
            Err(ret) => Err(ret),
        }
    }
}

} // verus!
