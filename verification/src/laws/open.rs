//! Laws of opening a decoder.
use crate::c_string::to_c_bytes;
use crate::ffmpeg::AVHWDeviceType;
use crate::ffmpeg_ram::decode::{DecodeContext, DecodeReply, Decoder, OpenRequest};
use vstd::prelude::*;

verus! {

/// The bytes are a C string of the text: they end with a zero byte, hold no other,
/// and what is before it reads back as the text.
pub open spec fn is_c_string_of(bytes: Seq<u8>, text: Seq<char>) -> bool {
    &&& bytes.len() > 0
    &&& bytes.last() == 0
    &&& forall|i: int| 0 <= i < bytes.len() - 1 ==> #[trigger] bytes[i] != 0
    &&& vstd::utf8::valid_utf8(bytes.drop_last())
    &&& vstd::utf8::decode_utf8(bytes.drop_last()) == text
}

/// Every text without a zero character becomes a C string that reads back as that
/// text; no other text becomes one.
pub proof fn law_c_string(text: &str, res: Result<Vec<u8>, ()>)
    requires
        call_ensures(to_c_bytes, (text,), res),
    ensures
        res is Err <==> exists|i: int| 0 <= i < text@.len() && #[trigger] text@[i] as int == 0,
        res matches Ok(bytes) ==> is_c_string_of(bytes@, text@),
{
    if let Ok(bytes) = res {
        lemma_c_bytes(text@);
    } else {
        let i = text@.index_of('\0');
        assert(text@[i] as int == 0);
    }
    if exists|i: int| 0 <= i < text@.len() && #[trigger] text@[i] as int == 0 {
        let i = choose|i: int| 0 <= i < text@.len() && #[trigger] text@[i] as int == 0;
        assert(text@[i] == '\0');
    }
}

proof fn lemma_c_bytes(text: Seq<char>)
    requires
        !text.contains('\0'),
    ensures
        is_c_string_of(crate::c_string::c_bytes(text), text),
{
    let bytes = crate::c_string::c_bytes(text);
    let encoded = vstd::utf8::encode_utf8(text);
    assert(bytes.drop_last() =~= encoded);
    crate::c_string::lemma_encode_utf8_zero(text);
    assert forall|i: int| 0 <= i < bytes.len() - 1 implies #[trigger] bytes[i] != 0 by {
        assert(bytes[i] == encoded[i]);
    }
    vstd::utf8::encode_utf8_valid_utf8(text);
    vstd::utf8::encode_utf8_decode_utf8(text);
}

/// The number is FFmpeg's number of the device.
pub open spec fn is_number_of(code: i32, device: AVHWDeviceType) -> bool {
    &&& code == 0 <==> device == AVHWDeviceType::AV_HWDEVICE_TYPE_NONE
    &&& code == 2 <==> device == AVHWDeviceType::AV_HWDEVICE_TYPE_CUDA
    &&& code == 3 <==> device == AVHWDeviceType::AV_HWDEVICE_TYPE_VAAPI
    &&& code == 6 <==> device == AVHWDeviceType::AV_HWDEVICE_TYPE_VIDEOTOOLBOX
    &&& code == 7 <==> device == AVHWDeviceType::AV_HWDEVICE_TYPE_D3D11VA
}

/// A request is made exactly for a name without a zero character. It carries that
/// name, FFmpeg's number of the device, and the number of threads.
pub proof fn law_open_request(ctx: DecodeContext, res: Result<OpenRequest, ()>)
    requires
        call_ensures(DecodeContext::open_request, (&ctx,), res),
    ensures
        res is Err <==> exists|i: int|
            0 <= i < ctx.name@.len() && #[trigger] ctx.name@[i] as int == 0,
        res matches Ok(request) ==> {
            &&& is_c_string_of(request.name@, ctx.name@)
            &&& request.device_type == 0 <==> ctx.device_type
                == AVHWDeviceType::AV_HWDEVICE_TYPE_NONE
            &&& request.device_type == 2 <==> ctx.device_type
                == AVHWDeviceType::AV_HWDEVICE_TYPE_CUDA
            &&& request.device_type == 3 <==> ctx.device_type
                == AVHWDeviceType::AV_HWDEVICE_TYPE_VAAPI
            &&& request.device_type == 6 <==> ctx.device_type
                == AVHWDeviceType::AV_HWDEVICE_TYPE_VIDEOTOOLBOX
            &&& request.device_type == 7 <==> ctx.device_type
                == AVHWDeviceType::AV_HWDEVICE_TYPE_D3D11VA
            &&& request.thread_count == ctx.thread_count
        },
{
    if let Ok(request) = res {
        lemma_c_bytes(ctx.name@);
    } else {
        let i = ctx.name@.index_of('\0');
        assert(ctx.name@[i] as int == 0);
    }
    if exists|i: int| 0 <= i < ctx.name@.len() && #[trigger] ctx.name@[i] as int == 0 {
        let i = choose|i: int| 0 <= i < ctx.name@.len() && #[trigger] ctx.name@[i] as int == 0;
        assert(ctx.name@[i] == '\0');
    }
}

/// Requests for contexts that differ in name, device or threads differ in it too.
pub proof fn law_requests_tell_contexts_apart(
    a: DecodeContext,
    b: DecodeContext,
    request_a: OpenRequest,
    request_b: OpenRequest,
)
    requires
        call_ensures(DecodeContext::open_request, (&a,), Ok(request_a)),
        call_ensures(DecodeContext::open_request, (&b,), Ok(request_b)),
    ensures
        request_a.name@ == request_b.name@ <==> a.name@ == b.name@,
        request_a.device_type == request_b.device_type <==> a.device_type == b.device_type,
        request_a.thread_count == request_b.thread_count <==> a.thread_count == b.thread_count,
{
    law_open_request(a, Ok(request_a));
    law_open_request(b, Ok(request_b));
}

/// Opening asks FFmpeg for the decoder of the context and for no other. A decoder is
/// the one at the address that FFmpeg gave, has no frames yet, and knows its
/// context; an error means that the name cannot be a C string or that FFmpeg gave
/// the null address.
pub proof fn law_new<F: FnOnce(&OpenRequest) -> usize>(
    ctx: DecodeContext,
    open: F,
    res: Result<Decoder, ()>,
)
    requires
        call_ensures(Decoder::new::<F>, (ctx, open), res),
    ensures
        res matches Ok(decoder) ==> exists|request: OpenRequest|
            {
                &&& is_c_string_of(request.name@, ctx.name@)
                &&& is_number_of(request.device_type, ctx.device_type)
                &&& request.thread_count == ctx.thread_count
                &&& #[trigger] call_ensures(open, (&request,), decoder.spec_codec())
                &&& decoder.spec_codec() != 0
                &&& decoder.spec_frames().len() == 0
                &&& decoder.spec_ctx() == ctx
            },
        res is Err ==> {
            ||| exists|i: int| 0 <= i < ctx.name@.len() && #[trigger] ctx.name@[i] as int == 0
            ||| exists|request: OpenRequest|
                {
                    &&& is_c_string_of(request.name@, ctx.name@)
                    &&& is_number_of(request.device_type, ctx.device_type)
                    &&& request.thread_count == ctx.thread_count
                    &&& #[trigger] call_ensures(open, (&request,), 0usize)
                }
        },
{
    if ctx.name@.contains('\0') {
        let i = ctx.name@.index_of('\0');
        assert(ctx.name@[i] as int == 0);
    } else {
        lemma_c_bytes(ctx.name@);
    }
}

/// The address and the context that a decoder tells are those that it was opened
/// with.
pub proof fn law_decoder_tells<F: FnOnce(&OpenRequest) -> usize>(
    ctx: DecodeContext,
    open: F,
    decoder: Decoder,
    codec: usize,
    told: &DecodeContext,
)
    requires
        call_ensures(Decoder::new::<F>, (ctx, open), Ok(decoder)),
        call_ensures(Decoder::codec, (&decoder,), codec),
        call_ensures(Decoder::ctx, (&decoder,), told),
    ensures
        exists|request: OpenRequest| #[trigger] call_ensures(open, (&request,), codec),
        codec != 0,
        *told == ctx,
{
}

/// A decoder comes of every address but the null address, and is at that address.
pub proof fn law_from_codec(ctx: DecodeContext, codec: usize, res: Result<Decoder, ()>)
    requires
        call_ensures(Decoder::from_codec, (ctx, codec), res),
    ensures
        res is Err <==> codec == 0,
        res matches Ok(decoder) ==> {
            &&& decoder.spec_codec() == codec
            &&& decoder.spec_frames().len() == 0
            &&& decoder.spec_ctx() == ctx
            &&& decoder.well_formed()
        },
{
}

/// A copy of a context is that context.
pub proof fn law_context_clone(ctx: DecodeContext, copy: DecodeContext)
    requires
        call_ensures(DecodeContext::clone, (&ctx,), copy),
    ensures
        copy.name@ == ctx.name@,
        copy.device_type == ctx.device_type,
        copy.thread_count == ctx.thread_count,
{
}

} // verus!
